use vstd::prelude::*;

use crate::text::{
    find_char, find_char_from, find_sub, find_sub_from, find_char_str,
    find_sub_str, ident_char, ident_end, ident_end_str, ident_start, ident_start_str, match_at,
};

verus! {

/// The keyword that anchors a class declaration.
pub open spec fn class_kw() -> Seq<char> {
    seq!['c', 'l', 'a', 's', 's', ' ']
}

/// The marker token of the test-method naming convention and of the
/// test-file naming convention.
pub open spec fn test_kw() -> Seq<char> {
    seq!['T', 'e', 's', 't']
}

proof fn lemma_find_char_some(s: Seq<char>, c: char, i: int, r: int)
    requires
        find_char_from(s, c, i) == Option::Some(r),
    ensures
        i <= r < s.len(),
        s[r] == c,
    decreases s.len() - i,
{
    if !(i < 0 || i >= s.len()) && s[i] != c {
        lemma_find_char_some(s, c, i + 1, r);
    }
}

proof fn lemma_find_sub_some(s: Seq<char>, p: Seq<char>, i: int, r: int)
    requires
        find_sub_from(s, p, i) == Option::Some(r),
    ensures
        i <= r,
        match_at(s, p, r),
    decreases s.len() - i,
{
    if !(p.len() == 0 || i < 0 || i + p.len() > s.len()) && !match_at(s, p, i) {
        lemma_find_sub_some(s, p, i + 1, r);
    }
}

/// The name captured by the class anchor: the identifier that follows
/// the first `class ` keyword of the line, if the keyword occurs and
/// an identifier follows it.
pub open spec fn class_capture(t: Seq<char>) -> Option<Seq<char>> {
    match find_sub(t, class_kw()) {
        Option::Some(i) => {
            let e = ident_end(t, i + 6);
            if e > i + 6 {
                Option::Some(t.subrange(i + 6, e))
            } else {
                Option::None
            }
        },
        Option::None => Option::None,
    }
}

/// The start of the whitespace run that ends just before `i`.
pub open spec fn ws_start(s: Seq<char>, i: int) -> int
    decreases i,
{
    if 0 < i <= s.len() && crate::text::is_ws(s[i - 1]) {
        ws_start(s, i - 1)
    } else {
        i
    }
}

/// Walks backward from `i` over whitespace.
pub fn ws_start_str(s: &str, i: usize) -> (r: usize)
    requires
        i <= s@.len(),
    ensures
        r == ws_start(s@, i as int),
        r <= i,
{
    let mut j: usize = i;
    while j > 0 && crate::text::ws_char(s.get_char(j - 1))
        invariant
            i <= s@.len(),
            0 <= j <= i,
            ws_start(s@, i as int) == ws_start(s@, j as int),
        decreases j,
    {
        j = j - 1;
    }
    j
}

/// The name captured by the method-signature anchor: the identifier
/// run that ends directly before the first `(` of the line, preceded
/// across whitespace by another identifier character (a modifier or a
/// return type), as in `void Bar(`. A heuristic anchor, as the whole
/// extraction is: it asks for no full grammar of the language.
pub open spec fn method_capture(t: Seq<char>) -> Option<Seq<char>> {
    match find_char(t, '(') {
        Option::Some(p) => {
            let st = ident_start(t, p);
            let q = ws_start(t, st);
            if st < p && q < st && q > 0 && crate::text::is_ident_char(t[q - 1]) {
                Option::Some(t.subrange(st, p))
            } else {
                Option::None
            }
        },
        Option::None => Option::None,
    }
}

/// Whether a captured name follows the test-method naming convention:
/// it starts with the marker token.
pub open spec fn has_test_prefix(n: Seq<char>) -> bool {
    n.len() >= 4 && n.subrange(0, 4) == test_kw()
}

/// The name captured by the test-method anchor: the method capture,
/// kept only when the name follows the test-method naming convention.
pub open spec fn test_capture(t: Seq<char>) -> Option<Seq<char>> {
    match method_capture(t) {
        Option::Some(n) => if has_test_prefix(n) {
            Option::Some(n)
        } else {
            Option::None
        },
        Option::None => Option::None,
    }
}

/// Applies the class anchor to one trimmed line.
pub fn class_capture_str(t: &str) -> (r: Option<String>)
    ensures
        match r {
            Option::Some(name) => class_capture(t@) == Option::Some(name@),
            Option::None => class_capture(t@) is None,
        },
{
    proof {
        reveal_strlit("class ");
        assert("class "@ =~= class_kw());
    }
    let tlen = t.unicode_len();
    match find_sub_str(t, "class ") {
        Option::Some(i) => {
            proof {
                lemma_find_sub_some(t@, class_kw(), 0, i as int);
                assert(class_kw().len() == 6);
                assert(i + 6 <= tlen);
            }
            let e = ident_end_str(t, i + 6);
            if e > i + 6 {
                let name = t.substring_char(i + 6, e);
                Option::Some(name.to_owned())
            } else {
                Option::None
            }
        },
        Option::None => Option::None,
    }
}

/// Applies the method-signature anchor to one trimmed line.
pub fn method_capture_str(t: &str) -> (r: Option<String>)
    ensures
        match r {
            Option::Some(name) => method_capture(t@) == Option::Some(name@),
            Option::None => method_capture(t@) is None,
        },
{
    match find_char_str(t, '(') {
        Option::Some(p) => {
            proof {
                lemma_find_char_some(t@, '(', 0, p as int);
            }
            let st = ident_start_str(t, p);
            let q = ws_start_str(t, st);
            if st < p && q < st && q > 0 && ident_char(t.get_char(q - 1)) {
                let name = t.substring_char(st, p);
                Option::Some(name.to_owned())
            } else {
                Option::None
            }
        },
        Option::None => Option::None,
    }
}

/// Applies the test-method anchor to one trimmed line.
pub fn test_capture_str(t: &str) -> (r: Option<String>)
    ensures
        match r {
            Option::Some(name) => test_capture(t@) == Option::Some(name@),
            Option::None => test_capture(t@) is None,
        },
{
    match method_capture_str(t) {
        Option::Some(name) => {
            let ns = name.as_str();
            let len = ns.unicode_len();
            if len >= 4 && ns.get_char(0) == 'T' && ns.get_char(1) == 'e' && ns.get_char(2) == 's'
                && ns.get_char(3) == 't' {
                proof {
                    assert(name@.subrange(0, 4) =~= test_kw());
                }
                Option::Some(name)
            } else {
                proof {
                    if name@.len() >= 4 && name@.subrange(0, 4) == test_kw() {
                        assert(name@.subrange(0, 4)[0] == name@[0]);
                        assert(name@.subrange(0, 4)[1] == name@[1]);
                        assert(name@.subrange(0, 4)[2] == name@[2]);
                        assert(name@.subrange(0, 4)[3] == name@[3]);
                    }
                }
                Option::None
            }
        },
        Option::None => Option::None,
    }
}

/// The last position at or before `i` where `c` occurs in `s`.
pub open spec fn rfind_char_from(s: Seq<char>, c: char, i: int) -> Option<int>
    decreases i + 1,
{
    if i < 0 || i >= s.len() {
        Option::None
    } else if s[i] == c {
        Option::Some(i)
    } else {
        rfind_char_from(s, c, i - 1)
    }
}

/// The extension of a file name: what follows its last dot, or
/// nothing when the name has no dot.
pub open spec fn ext_of(name: Seq<char>) -> Option<Seq<char>> {
    match rfind_char_from(name, '.', name.len() - 1) {
        Option::Some(k) => Option::Some(name.subrange(k + 1, name.len() as int)),
        Option::None => Option::None,
    }
}

proof fn lemma_rfind_char_some(s: Seq<char>, c: char, i: int, r: int)
    requires
        rfind_char_from(s, c, i) == Option::Some(r),
    ensures
        0 <= r <= i,
        r < s.len(),
        s[r] == c,
    decreases i + 1,
{
    if !(i < 0 || i >= s.len()) && s[i] != c {
        lemma_rfind_char_some(s, c, i - 1, r);
    }
}

/// Extracts the extension of a file name.
pub fn ext_of_str(name: &str) -> (r: Option<String>)
    ensures
        match r {
            Option::Some(e) => ext_of(name@) == Option::Some(e@),
            Option::None => ext_of(name@) is None,
        },
{
    let len = name.unicode_len();
    if len == 0 {
        return Option::None;
    }
    let mut i: usize = len - 1;
    loop
        invariant
            len == name@.len(),
            0 <= i < len,
            rfind_char_from(name@, '.', len - 1) == rfind_char_from(name@, '.', i as int),
        decreases i,
    {
        if name.get_char(i) == '.' {
            proof {
                lemma_rfind_char_some(name@, '.', len - 1, i as int);
            }
            let e = name.substring_char(i + 1, len);
            return Option::Some(e.to_owned());
        }
        if i == 0 {
            proof {
                assert(rfind_char_from(name@, '.', -1) is None);
            }
            return Option::None;
        }
        i = i - 1;
    }
}

/// Whether a file name follows the test-file naming convention: it
/// holds the marker token somewhere.
pub open spec fn is_test_file(name: Seq<char>) -> bool {
    find_sub(name, test_kw()) is Some
}

/// Tests a file name against the test-file naming convention.
pub fn is_test_file_str(name: &str) -> (r: bool)
    ensures
        r == is_test_file(name@),
{
    proof {
        reveal_strlit("Test");
        assert("Test"@ =~= test_kw());
    }
    match find_sub_str(name, "Test") {
        Option::Some(_) => true,
        Option::None => false,
    }
}

} // verus!
