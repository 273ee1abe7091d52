use vstd::prelude::*;

use crate::text::{contains_char, find_char, norm_spec, normalize_line};
use crate::patterns::{
    class_capture, class_capture_str, ext_of, ext_of_str, is_test_file, is_test_file_str,
    method_capture, method_capture_str, test_capture, test_capture_str,
};

verus! {

/// One extracted method: the owning class context, the captured name,
/// and the trimmed lines of the body, signature line through closing
/// line.
#[derive(Debug, PartialEq, Eq)]
pub struct Method {
    pub class_name: String,
    pub method_name: String,
    pub body: Vec<String>,
}

/// The mathematical model of a `Method`.
#[verifier::ext_equal]
pub ghost struct MethodModel {
    pub class_name: Seq<char>,
    pub method_name: Seq<char>,
    pub body: Seq<Seq<char>>,
}

impl View for Method {
    type V = MethodModel;

    open spec fn view(&self) -> MethodModel {
        MethodModel {
            class_name: self.class_name@,
            method_name: self.method_name@,
            body: self.body@.map_values(|l: String| l@),
        }
    }
}

/// One candidate file handed to the scanner: its bare file name and
/// its raw lines, in file order.
pub struct SourceFile {
    pub name: String,
    pub lines: Vec<String>,
}

/// The mathematical model of a `SourceFile`.
#[verifier::ext_equal]
pub ghost struct SourceFileModel {
    pub name: Seq<char>,
    pub lines: Seq<Seq<char>>,
}

impl View for SourceFile {
    type V = SourceFileModel;

    open spec fn view(&self) -> SourceFileModel {
        SourceFileModel { name: self.name@, lines: self.lines@.map_values(|l: String| l@) }
    }
}

/// The accumulator of the single-pass, line-by-line extraction.
#[verifier::ext_equal]
pub ghost struct ScanState {
    pub current_class: Seq<char>,
    pub in_method: bool,
    pub method_name: Seq<char>,
    pub body: Seq<Seq<char>>,
}

/// The state in which a file's scan begins.
pub open spec fn init_state() -> ScanState {
    ScanState {
        current_class: Seq::empty(),
        in_method: false,
        method_name: Seq::empty(),
        body: Seq::empty(),
    }
}

/// The sentinel class name under which every test method is recorded:
/// no class context is tracked for test files.
pub open spec fn test_class() -> Seq<char> {
    seq!['T', 'e', 's', 't']
}

/// One step of the logic-method extraction on one raw line. The line
/// is trimmed first. A class-anchor match moves the class context. A
/// method-anchor match opens a fresh method, abandoning an unfinished
/// one. While a method is open the trimmed line joins its body. A
/// closing brace anywhere in the line then ends the method and
/// records it.
pub open spec fn logic_step(st: ScanState, raw: Seq<char>) -> (ScanState, Option<MethodModel>) {
    let t = norm_spec(raw);
    let cls = match class_capture(t) {
        Option::Some(c) => c,
        Option::None => st.current_class,
    };
    let st1 = match method_capture(t) {
        Option::Some(n) => ScanState {
            current_class: cls,
            in_method: true,
            method_name: n,
            body: Seq::empty(),
        },
        Option::None => ScanState {
            current_class: cls,
            in_method: st.in_method,
            method_name: st.method_name,
            body: st.body,
        },
    };
    let st2 = if st1.in_method {
        ScanState {
            current_class: st1.current_class,
            in_method: st1.in_method,
            method_name: st1.method_name,
            body: st1.body.push(t),
        }
    } else {
        st1
    };
    if st2.in_method && find_char(t, '}') is Some {
        (
            ScanState {
                current_class: st2.current_class,
                in_method: false,
                method_name: st2.method_name,
                body: st2.body,
            },
            Option::Some(
                MethodModel {
                    class_name: st2.current_class,
                    method_name: st2.method_name,
                    body: st2.body,
                },
            ),
        )
    } else {
        (st2, Option::None)
    }
}

/// One step of the test-method extraction on one raw line: as
/// `logic_step`, with the test-method anchor in place of the method
/// anchor and no class tracking.
pub open spec fn test_step(st: ScanState, raw: Seq<char>) -> (ScanState, Option<MethodModel>) {
    let t = norm_spec(raw);
    let st1 = match test_capture(t) {
        Option::Some(n) => ScanState {
            current_class: st.current_class,
            in_method: true,
            method_name: n,
            body: Seq::empty(),
        },
        Option::None => st,
    };
    let st2 = if st1.in_method {
        ScanState {
            current_class: st1.current_class,
            in_method: st1.in_method,
            method_name: st1.method_name,
            body: st1.body.push(t),
        }
    } else {
        st1
    };
    if st2.in_method && find_char(t, '}') is Some {
        (
            ScanState {
                current_class: st2.current_class,
                in_method: false,
                method_name: st2.method_name,
                body: st2.body,
            },
            Option::Some(
                MethodModel {
                    class_name: test_class(),
                    method_name: st2.method_name,
                    body: st2.body,
                },
            ),
        )
    } else {
        (st2, Option::None)
    }
}

/// The scan of one file's lines under the logic-method anchors: the
/// final accumulator and the methods recorded along the way, in order.
pub open spec fn logic_scan(lines: Seq<Seq<char>>) -> (ScanState, Seq<MethodModel>)
    decreases lines.len(),
{
    if lines.len() == 0 {
        (init_state(), Seq::<MethodModel>::empty())
    } else {
        let prev = logic_scan(lines.drop_last());
        let step = logic_step(prev.0, lines.last());
        (
            step.0,
            match step.1 {
                Option::Some(m) => prev.1.push(m),
                Option::None => prev.1,
            },
        )
    }
}

/// The scan of one file's lines under the test-method anchors.
pub open spec fn test_scan(lines: Seq<Seq<char>>) -> (ScanState, Seq<MethodModel>)
    decreases lines.len(),
{
    if lines.len() == 0 {
        (init_state(), Seq::<MethodModel>::empty())
    } else {
        let prev = test_scan(lines.drop_last());
        let step = test_step(prev.0, lines.last());
        (
            step.0,
            match step.1 {
                Option::Some(m) => prev.1.push(m),
                Option::None => prev.1,
            },
        )
    }
}

/// The logic methods one file contributes.
pub open spec fn logic_methods_of_file(lines: Seq<Seq<char>>) -> Seq<MethodModel> {
    logic_scan(lines).1
}

/// The test methods one file contributes.
pub open spec fn test_methods_of_file(lines: Seq<Seq<char>>) -> Seq<MethodModel> {
    test_scan(lines).1
}

/// Copies a vector of lines.
fn clone_lines(v: &Vec<String>) -> (r: Vec<String>)
    ensures
        r@ == v@,
{
    let mut r: Vec<String> = Vec::new();
    let mut i: usize = 0;
    while i < v.len()
        invariant
            0 <= i <= v.len(),
            r@ == v@.take(i as int),
        decreases v.len() - i,
    {
        r.push(v[i].clone());
        proof {
            assert(v@.take(i as int).push(v@[i as int]) =~= v@.take(i + 1));
        }
        i = i + 1;
    }
    proof {
        assert(v@.take(v@.len() as int) =~= v@);
    }
    r
}

/// Copies one method.
fn clone_method(m: &Method) -> (r: Method)
    ensures
        r@ == m@,
{
    Method {
        class_name: m.class_name.clone(),
        method_name: m.method_name.clone(),
        body: clone_lines(&m.body),
    }
}

/// Extracts the logic methods of one file, walking its lines once in
/// order with no look-ahead.
pub fn extract_methods_from_lines(lines: &Vec<String>) -> (r: Vec<Method>)
    ensures
        r@.map_values(|m: Method| m@) == logic_methods_of_file(
            lines@.map_values(|l: String| l@),
        ),
{
    let ghost l = lines@.map_values(|s: String| s@);
    let mut methods: Vec<Method> = Vec::new();
    let mut current_class = String::new();
    let mut in_method = false;
    let mut method_name = String::new();
    let mut method_body: Vec<String> = Vec::new();
    let mut idx: usize = 0;
    while idx < lines.len()
        invariant
            l == lines@.map_values(|s: String| s@),
            0 <= idx <= lines.len(),
            current_class@ == logic_scan(l.take(idx as int)).0.current_class,
            in_method == logic_scan(l.take(idx as int)).0.in_method,
            method_name@ == logic_scan(l.take(idx as int)).0.method_name,
            method_body@.map_values(|s: String| s@) == logic_scan(l.take(idx as int)).0.body,
            methods@.map_values(|m: Method| m@) == logic_scan(l.take(idx as int)).1,
        decreases lines.len() - idx,
    {
        let ghost pre = logic_scan(l.take(idx as int));
        let ghost raw = l[idx as int];
        let ghost step = logic_step(pre.0, raw);
        proof {
            assert(l.take(idx + 1).drop_last() =~= l.take(idx as int));
            assert(l.take(idx + 1).last() == raw);
        }
        let line = &lines[idx];
        proof {
            assert(line@ == raw);
        }
        let t = normalize_line(line.as_str());
        if let Option::Some(c) = class_capture_str(t.as_str()) {
            current_class = c;
        }
        if let Option::Some(n) = method_capture_str(t.as_str()) {
            method_name = n;
            method_body = Vec::new();
            in_method = true;
        }
        if in_method {
            method_body.push(t.clone());
        }
        proof {
            let st2body = if method_capture(norm_spec(raw)) is Some {
                Seq::<Seq<char>>::empty().push(norm_spec(raw))
            } else if pre.0.in_method {
                pre.0.body.push(norm_spec(raw))
            } else {
                pre.0.body
            };
            assert(method_body@.map_values(|s: String| s@) =~= st2body);
        }
        if in_method && contains_char(t.as_str(), '}') {
            let m = Method {
                class_name: current_class.clone(),
                method_name: method_name.clone(),
                body: clone_lines(&method_body),
            };
            proof {
                assert(m@ =~= step.1.unwrap());
            }
            methods.push(m);
            in_method = false;
        }
        proof {
            assert(current_class@ == step.0.current_class);
            assert(in_method == step.0.in_method);
            assert(method_name@ == step.0.method_name);
            assert(method_body@.map_values(|s: String| s@) =~= step.0.body);
            assert(methods@.map_values(|m: Method| m@) =~= (match step.1 {
                Option::Some(mm) => pre.1.push(mm),
                Option::None => pre.1,
            }));
        }
        idx = idx + 1;
    }
    proof {
        assert(l.take(lines@.len() as int) =~= l);
    }
    methods
}

/// Extracts the test methods of one file, walking its lines once in
/// order with no look-ahead.
pub fn extract_test_methods_from_lines(lines: &Vec<String>) -> (r: Vec<Method>)
    ensures
        r@.map_values(|m: Method| m@) == test_methods_of_file(lines@.map_values(|l: String| l@)),
{
    let ghost l = lines@.map_values(|s: String| s@);
    let mut methods: Vec<Method> = Vec::new();
    let mut in_method = false;
    let mut method_name = String::new();
    let mut method_body: Vec<String> = Vec::new();
    let mut idx: usize = 0;
    while idx < lines.len()
        invariant
            l == lines@.map_values(|s: String| s@),
            0 <= idx <= lines.len(),
            test_scan(l.take(idx as int)).0.current_class == Seq::<char>::empty(),
            in_method == test_scan(l.take(idx as int)).0.in_method,
            method_name@ == test_scan(l.take(idx as int)).0.method_name,
            method_body@.map_values(|s: String| s@) == test_scan(l.take(idx as int)).0.body,
            methods@.map_values(|m: Method| m@) == test_scan(l.take(idx as int)).1,
        decreases lines.len() - idx,
    {
        let ghost pre = test_scan(l.take(idx as int));
        let ghost raw = l[idx as int];
        let ghost step = test_step(pre.0, raw);
        proof {
            assert(l.take(idx + 1).drop_last() =~= l.take(idx as int));
            assert(l.take(idx + 1).last() == raw);
        }
        let line = &lines[idx];
        proof {
            assert(line@ == raw);
        }
        let t = normalize_line(line.as_str());
        if let Option::Some(n) = test_capture_str(t.as_str()) {
            method_name = n;
            method_body = Vec::new();
            in_method = true;
        }
        if in_method {
            method_body.push(t.clone());
        }
        proof {
            let st2body = if test_capture(norm_spec(raw)) is Some {
                Seq::<Seq<char>>::empty().push(norm_spec(raw))
            } else if pre.0.in_method {
                pre.0.body.push(norm_spec(raw))
            } else {
                pre.0.body
            };
            assert(method_body@.map_values(|s: String| s@) =~= st2body);
        }
        if in_method && contains_char(t.as_str(), '}') {
            proof {
                reveal_strlit("Test");
                assert("Test"@ =~= test_class());
            }
            let m = Method {
                class_name: String::from_str("Test"),
                method_name: method_name.clone(),
                body: clone_lines(&method_body),
            };
            proof {
                assert(m@ =~= step.1.unwrap());
            }
            methods.push(m);
            in_method = false;
        }
        proof {
            assert(in_method == step.0.in_method);
            assert(method_name@ == step.0.method_name);
            assert(method_body@.map_values(|s: String| s@) =~= step.0.body);
            assert(methods@.map_values(|m: Method| m@) =~= (match step.1 {
                Option::Some(mm) => pre.1.push(mm),
                Option::None => pre.1,
            }));
        }
        idx = idx + 1;
    }
    proof {
        assert(l.take(lines@.len() as int) =~= l);
    }
    methods
}

/// Whether a file is selected for logic-method extraction: its
/// extension equals the configured language suffix and it is not a
/// test file, so every method it contributes is a non-test method.
pub open spec fn logic_file_selected(f: SourceFileModel, ext: Seq<char>) -> bool {
    ext_of(f.name) == Option::Some(ext) && !is_test_file(f.name)
}

/// Whether a file is selected for test-method extraction: the
/// extension matches and the name follows the test-file convention.
pub open spec fn test_file_selected(f: SourceFileModel, ext: Seq<char>) -> bool {
    ext_of(f.name) == Option::Some(ext) && is_test_file(f.name)
}

/// The logic methods of a whole file stream, in discovery order.
pub open spec fn logic_methods_of_files(files: Seq<SourceFileModel>, ext: Seq<char>) -> Seq<
    MethodModel,
>
    decreases files.len(),
{
    if files.len() == 0 {
        Seq::<MethodModel>::empty()
    } else {
        logic_methods_of_files(files.drop_last(), ext) + (if logic_file_selected(
            files.last(),
            ext,
        ) {
            logic_methods_of_file(files.last().lines)
        } else {
            Seq::<MethodModel>::empty()
        })
    }
}

/// The test methods of a whole file stream, in discovery order.
pub open spec fn test_methods_of_files(files: Seq<SourceFileModel>, ext: Seq<char>) -> Seq<
    MethodModel,
>
    decreases files.len(),
{
    if files.len() == 0 {
        Seq::<MethodModel>::empty()
    } else {
        test_methods_of_files(files.drop_last(), ext) + (if test_file_selected(
            files.last(),
            ext,
        ) {
            test_methods_of_file(files.last().lines)
        } else {
            Seq::<MethodModel>::empty()
        })
    }
}

/// Appends copies of all methods of `src` to `dst`.
fn append_methods(dst: &mut Vec<Method>, src: &Vec<Method>)
    ensures
        final(dst)@.map_values(|m: Method| m@) == old(dst)@.map_values(|m: Method| m@)
            + src@.map_values(|m: Method| m@),
{
    let mut i: usize = 0;
    while i < src.len()
        invariant
            0 <= i <= src.len(),
            dst@.map_values(|m: Method| m@) == old(dst)@.map_values(|m: Method| m@)
                + src@.take(i as int).map_values(|m: Method| m@),
        decreases src.len() - i,
    {
        let m = clone_method(&src[i]);
        let ghost prev = dst@;
        dst.push(m);
        proof {
            assert(dst@.map_values(|x: Method| x@) =~= prev.map_values(|x: Method| x@).push(m@));
            assert(src@.take(i + 1).map_values(|x: Method| x@) =~= src@.take(
                i as int,
            ).map_values(|x: Method| x@).push(src@[i as int]@));
            assert(dst@.map_values(|m: Method| m@) =~= old(dst)@.map_values(|m: Method| m@)
                + src@.take(i + 1).map_values(|m: Method| m@));
        }
        i = i + 1;
    }
    proof {
        assert(src@.take(src@.len() as int) =~= src@);
        assert(dst@.map_values(|m: Method| m@) =~= old(dst)@.map_values(|m: Method| m@)
            + src@.map_values(|m: Method| m@));
    }
}

/// Extracts every logic method: the non-test methods of every
/// non-test file that carries the language's extension, over a
/// depth-first stream of candidate files.
pub fn extract_class_methods(files: &Vec<SourceFile>, extension: &String) -> (r: Vec<Method>)
    ensures
        r@.map_values(|m: Method| m@) == logic_methods_of_files(
            files@.map_values(|f: SourceFile| f@),
            extension@,
        ),
{
    let ghost fs = files@.map_values(|f: SourceFile| f@);
    let mut methods: Vec<Method> = Vec::new();
    let mut i: usize = 0;
    while i < files.len()
        invariant
            fs == files@.map_values(|f: SourceFile| f@),
            0 <= i <= files.len(),
            methods@.map_values(|m: Method| m@) == logic_methods_of_files(
                fs.take(i as int),
                extension@,
            ),
        decreases files.len() - i,
    {
        proof {
            assert(fs.take(i + 1).drop_last() =~= fs.take(i as int));
            assert(fs.take(i + 1).last() == fs[i as int]);
        }
        let file = &files[i];
        proof {
            assert(file@ == fs[i as int]);
        }
        let ext_matches = match ext_of_str(file.name.as_str()) {
            Option::Some(e) => e == *extension,
            Option::None => false,
        };
        let selected = ext_matches && !is_test_file_str(file.name.as_str());
        if selected {
            let ms = extract_methods_from_lines(&file.lines);
            append_methods(&mut methods, &ms);
        }
        proof {
            assert(methods@.map_values(|m: Method| m@) =~= logic_methods_of_files(
                fs.take(i + 1),
                extension@,
            ));
        }
        i = i + 1;
    }
    proof {
        assert(fs.take(files@.len() as int) =~= fs);
    }
    methods
}

/// Extracts every test method: files must carry the language's
/// extension and follow the test-file naming convention.
pub fn extract_test_methods(files: &Vec<SourceFile>, extension: &String) -> (r: Vec<Method>)
    ensures
        r@.map_values(|m: Method| m@) == test_methods_of_files(
            files@.map_values(|f: SourceFile| f@),
            extension@,
        ),
{
    let ghost fs = files@.map_values(|f: SourceFile| f@);
    let mut methods: Vec<Method> = Vec::new();
    let mut i: usize = 0;
    while i < files.len()
        invariant
            fs == files@.map_values(|f: SourceFile| f@),
            0 <= i <= files.len(),
            methods@.map_values(|m: Method| m@) == test_methods_of_files(
                fs.take(i as int),
                extension@,
            ),
        decreases files.len() - i,
    {
        proof {
            assert(fs.take(i + 1).drop_last() =~= fs.take(i as int));
            assert(fs.take(i + 1).last() == fs[i as int]);
        }
        let file = &files[i];
        proof {
            assert(file@ == fs[i as int]);
        }
        let ext_matches = match ext_of_str(file.name.as_str()) {
            Option::Some(e) => e == *extension,
            Option::None => false,
        };
        let selected = ext_matches && is_test_file_str(file.name.as_str());
        if selected {
            let ms = extract_test_methods_from_lines(&file.lines);
            append_methods(&mut methods, &ms);
        }
        proof {
            assert(methods@.map_values(|m: Method| m@) =~= test_methods_of_files(
                fs.take(i + 1),
                extension@,
            ));
        }
        i = i + 1;
    }
    proof {
        assert(fs.take(files@.len() as int) =~= fs);
    }
    methods
}

} // verus!
