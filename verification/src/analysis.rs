use vstd::prelude::*;

use crate::coverage::{generate_coverage_report, report_spec, sum_total, CoverageReport, ReportModel};
use crate::extract::{
    extract_class_methods, extract_test_methods, logic_methods_of_files, test_file_selected,
    test_methods_of_file, test_methods_of_files, Method, MethodModel, SourceFile, SourceFileModel,
};
use crate::lines::{
    extract_tested_lines, lemma_tested_set_concat, lemma_tested_set_permutation, tested_set,
    LineSet,
};

verus! {

/// The aggregate of one repository scan: the logic methods, the test
/// methods, and the tested-line set derived from the test bodies.
pub struct AnalysisData {
    pub logic_methods: Vec<Method>,
    pub test_methods: Vec<Method>,
    pub tested_lines: LineSet,
}

/// The mathematical model of an `AnalysisData`.
#[verifier::ext_equal]
pub ghost struct AnalysisModel {
    pub logic_methods: Seq<MethodModel>,
    pub test_methods: Seq<MethodModel>,
    pub tested_lines: Set<Seq<char>>,
}

impl View for AnalysisData {
    type V = AnalysisModel;

    open spec fn view(&self) -> AnalysisModel {
        AnalysisModel {
            logic_methods: self.logic_methods@.map_values(|m: Method| m@),
            test_methods: self.test_methods@.map_values(|m: Method| m@),
            tested_lines: self.tested_lines@,
        }
    }
}

/// The scan as a function of the discovered file stream and the
/// resolved extension.
pub open spec fn analysis_spec(files: Seq<SourceFileModel>, ext: Seq<char>) -> AnalysisModel {
    AnalysisModel {
        logic_methods: logic_methods_of_files(files, ext),
        test_methods: test_methods_of_files(files, ext),
        tested_lines: tested_set(test_methods_of_files(files, ext)),
    }
}

/// Scans a depth-first stream of candidate files: extracts the logic
/// methods and the test methods under the language's filters, and
/// derives the tested-line set.
pub fn analyze_files(files: &Vec<SourceFile>, extension: &String) -> (r: AnalysisData)
    ensures
        r@ == analysis_spec(files@.map_values(|f: SourceFile| f@), extension@),
{
    let logic_methods = extract_class_methods(files, extension);
    let test_methods = extract_test_methods(files, extension);
    let tested_lines = extract_tested_lines(&test_methods);
    let r = AnalysisData { logic_methods, test_methods, tested_lines };
    proof {
        assert(r@ =~= analysis_spec(files@.map_values(|f: SourceFile| f@), extension@));
    }
    r
}

/// Infers the coverage report of one scan.
pub fn report_of_analysis(data: &AnalysisData) -> (r: CoverageReport)
    requires
        sum_total(data@.logic_methods) <= usize::MAX,
    ensures
        r@ == report_spec(data@.logic_methods, data@.tested_lines),
{
    generate_coverage_report(&data.logic_methods, &data.tested_lines)
}

/// Determinism: the scan and the report are functions of the file
/// stream and the extension alone. Any two results produced from the
/// same inputs are the same, however often the scan is repeated.
pub proof fn lemma_analysis_deterministic(
    files: Seq<SourceFileModel>,
    ext: Seq<char>,
    a1: AnalysisModel,
    a2: AnalysisModel,
)
    requires
        a1 == analysis_spec(files, ext),
        a2 == analysis_spec(files, ext),
    ensures
        a1 == a2,
        report_spec(a1.logic_methods, a1.tested_lines) == report_spec(
            a2.logic_methods,
            a2.tested_lines,
        ),
{
}

/// What it means for a line to be tested over a discovered file
/// stream: some selected test file holds a test method with it.
pub proof fn lemma_tested_files_contains(files: Seq<SourceFileModel>, ext: Seq<char>, l: Seq<char>)
    ensures
        tested_set(test_methods_of_files(files, ext)).contains(l) <==> exists|k: int|
            0 <= k < files.len() && test_file_selected(files[k], ext) && tested_set(
                test_methods_of_file(files[k].lines),
            ).contains(l),
    decreases files.len(),
{
    if files.len() > 0 {
        let pre = files.drop_last();
        lemma_tested_files_contains(pre, ext, l);
        let block = if test_file_selected(files.last(), ext) {
            test_methods_of_file(files.last().lines)
        } else {
            Seq::<MethodModel>::empty()
        };
        lemma_tested_set_concat(test_methods_of_files(pre, ext), block);
        if tested_set(test_methods_of_files(files, ext)).contains(l) {
            if tested_set(block).contains(l) {
                assert(test_file_selected(files[files.len() - 1], ext) && tested_set(
                    test_methods_of_file(files[files.len() - 1].lines),
                ).contains(l));
            } else {
                let k = choose|k: int|
                    0 <= k < pre.len() && test_file_selected(pre[k], ext) && tested_set(
                        test_methods_of_file(pre[k].lines),
                    ).contains(l);
                assert(test_file_selected(files[k], ext) && tested_set(
                    test_methods_of_file(files[k].lines),
                ).contains(l));
            }
        }
        if exists|k: int|
            0 <= k < files.len() && test_file_selected(files[k], ext) && tested_set(
                test_methods_of_file(files[k].lines),
            ).contains(l) {
            let k = choose|k: int|
                0 <= k < files.len() && test_file_selected(files[k], ext) && tested_set(
                    test_methods_of_file(files[k].lines),
                ).contains(l);
            if k == files.len() - 1 {
                assert(tested_set(block).contains(l));
            } else {
                assert(test_file_selected(pre[k], ext) && tested_set(
                    test_methods_of_file(pre[k].lines),
                ).contains(l));
            }
            assert(tested_set(test_methods_of_files(files, ext)).contains(l));
        }
    }
}

/// Set independence over the file stream: permuting the order in
/// which the test files are discovered changes neither the
/// tested-line set nor, for any fixed logic-method sequence, the
/// report inferred with it.
pub proof fn lemma_scan_order_independent(
    files1: Seq<SourceFileModel>,
    files2: Seq<SourceFileModel>,
    ext: Seq<char>,
)
    requires
        files1.to_multiset() == files2.to_multiset(),
    ensures
        tested_set(test_methods_of_files(files1, ext)) == tested_set(
            test_methods_of_files(files2, ext),
        ),
        analysis_spec(files1, ext).tested_lines == analysis_spec(files2, ext).tested_lines,
        forall|logic: Seq<MethodModel>|
            #[trigger] report_spec(logic, tested_set(test_methods_of_files(files1, ext)))
                == report_spec(logic, tested_set(test_methods_of_files(files2, ext))),
{
    broadcast use vstd::seq_lib::group_seq_properties;

    let t1 = tested_set(test_methods_of_files(files1, ext));
    let t2 = tested_set(test_methods_of_files(files2, ext));
    assert forall|l: Seq<char>| t1.contains(l) implies t2.contains(l) by {
        lemma_tested_files_contains(files1, ext, l);
        lemma_tested_files_contains(files2, ext, l);
        let k = choose|k: int|
            0 <= k < files1.len() && test_file_selected(files1[k], ext) && tested_set(
                test_methods_of_file(files1[k].lines),
            ).contains(l);
        assert(files1.contains(files1[k]));
        assert(files1.to_multiset().contains(files1[k]));
        assert(files2.to_multiset().contains(files1[k]));
        assert(files2.contains(files1[k]));
        let j = choose|j: int| 0 <= j < files2.len() && files2[j] == files1[k];
        assert(test_file_selected(files2[j], ext) && tested_set(
            test_methods_of_file(files2[j].lines),
        ).contains(l));
    }
    assert forall|l: Seq<char>| t2.contains(l) implies t1.contains(l) by {
        lemma_tested_files_contains(files1, ext, l);
        lemma_tested_files_contains(files2, ext, l);
        let k = choose|k: int|
            0 <= k < files2.len() && test_file_selected(files2[k], ext) && tested_set(
                test_methods_of_file(files2[k].lines),
            ).contains(l);
        assert(files2.contains(files2[k]));
        assert(files2.to_multiset().contains(files2[k]));
        assert(files1.to_multiset().contains(files2[k]));
        assert(files1.contains(files2[k]));
        let j = choose|j: int| 0 <= j < files1.len() && files1[j] == files2[k];
        assert(test_file_selected(files1[j], ext) && tested_set(
            test_methods_of_file(files1[j].lines),
        ).contains(l));
    }
    assert(t1 =~= t2);
}

/// Set independence: permuting the order in which the test methods
/// were discovered changes neither the tested-line set nor the report
/// inferred with it.
pub proof fn lemma_report_order_independent(
    logic: Seq<MethodModel>,
    tests1: Seq<MethodModel>,
    tests2: Seq<MethodModel>,
)
    requires
        tests1.to_multiset() == tests2.to_multiset(),
    ensures
        tested_set(tests1) == tested_set(tests2),
        report_spec(logic, tested_set(tests1)) == report_spec(logic, tested_set(tests2)),
{
    lemma_tested_set_permutation(tests1, tests2);
}

} // verus!
