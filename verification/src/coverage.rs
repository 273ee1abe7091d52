use vstd::prelude::*;

use crate::extract::{Method, MethodModel};
use crate::lines::{norm_set, tested_set, LineSet};
use crate::text::{norm_spec, normalize_line};

verus! {

/// The coverage verdict for one logic method: how many of its body
/// lines, once normalized, are in the tested-line set, out of how
/// many, and whether at least one matched.
#[derive(Debug, PartialEq, Eq)]
pub struct MethodCoverage {
    pub class_name: String,
    pub method_name: String,
    pub covered_lines: usize,
    pub total_lines: usize,
    pub covered: bool,
}

/// The mathematical model of a `MethodCoverage`.
#[verifier::ext_equal]
pub ghost struct MethodCoverageModel {
    pub class_name: Seq<char>,
    pub method_name: Seq<char>,
    pub covered_lines: nat,
    pub total_lines: nat,
    pub covered: bool,
}

impl View for MethodCoverage {
    type V = MethodCoverageModel;

    open spec fn view(&self) -> MethodCoverageModel {
        MethodCoverageModel {
            class_name: self.class_name@,
            method_name: self.method_name@,
            covered_lines: self.covered_lines as nat,
            total_lines: self.total_lines as nat,
            covered: self.covered,
        }
    }
}

/// The coverage report: one verdict per logic method, in order, and
/// the aggregate counts. Ratios are kept as numerator and denominator,
/// so a method with no body lines is a defined 0-of-0, not a division.
#[derive(Debug, PartialEq, Eq)]
pub struct CoverageReport {
    pub methods: Vec<MethodCoverage>,
    pub total_methods: usize,
    pub covered_methods: usize,
    pub covered_lines: usize,
    pub total_lines: usize,
}

/// The mathematical model of a `CoverageReport`.
#[verifier::ext_equal]
pub ghost struct ReportModel {
    pub methods: Seq<MethodCoverageModel>,
    pub total_methods: nat,
    pub covered_methods: nat,
    pub covered_lines: nat,
    pub total_lines: nat,
}

impl View for CoverageReport {
    type V = ReportModel;

    open spec fn view(&self) -> ReportModel {
        ReportModel {
            methods: self.methods@.map_values(|c: MethodCoverage| c@),
            total_methods: self.total_methods as nat,
            covered_methods: self.covered_methods as nat,
            covered_lines: self.covered_lines as nat,
            total_lines: self.total_lines as nat,
        }
    }
}

/// How many lines of `body`, once normalized, are in `tested`.
pub open spec fn covered_count(body: Seq<Seq<char>>, tested: Set<Seq<char>>) -> nat
    decreases body.len(),
{
    if body.len() == 0 {
        0
    } else {
        covered_count(body.drop_last(), tested) + (if tested.contains(norm_spec(body.last())) {
            1nat
        } else {
            0nat
        })
    }
}

/// The covered predicate: a method counts as covered when at least
/// one of its normalized body lines is tested.
pub open spec fn method_covered(m: MethodModel, tested: Set<Seq<char>>) -> bool {
    covered_count(m.body, tested) >= 1
}

/// The verdict owed to one method.
pub open spec fn method_report_spec(m: MethodModel, tested: Set<Seq<char>>) -> MethodCoverageModel {
    MethodCoverageModel {
        class_name: m.class_name,
        method_name: m.method_name,
        covered_lines: covered_count(m.body, tested),
        total_lines: m.body.len(),
        covered: method_covered(m, tested),
    }
}

/// The total number of body lines over a method collection.
pub open spec fn sum_total(ms: Seq<MethodModel>) -> nat
    decreases ms.len(),
{
    if ms.len() == 0 {
        0
    } else {
        sum_total(ms.drop_last()) + ms.last().body.len()
    }
}

/// The total number of covered body lines over a method collection.
pub open spec fn sum_covered(ms: Seq<MethodModel>, tested: Set<Seq<char>>) -> nat
    decreases ms.len(),
{
    if ms.len() == 0 {
        0
    } else {
        sum_covered(ms.drop_last(), tested) + covered_count(ms.last().body, tested)
    }
}

/// How many methods of the collection count as covered.
pub open spec fn count_covered(ms: Seq<MethodModel>, tested: Set<Seq<char>>) -> nat
    decreases ms.len(),
{
    if ms.len() == 0 {
        0
    } else {
        count_covered(ms.drop_last(), tested) + (if method_covered(ms.last(), tested) {
            1nat
        } else {
            0nat
        })
    }
}

/// The report owed to a method collection and a tested-line set.
pub open spec fn report_spec(ms: Seq<MethodModel>, tested: Set<Seq<char>>) -> ReportModel {
    ReportModel {
        methods: ms.map_values(|m: MethodModel| method_report_spec(m, tested)),
        total_methods: ms.len(),
        covered_methods: count_covered(ms, tested),
        covered_lines: sum_covered(ms, tested),
        total_lines: sum_total(ms),
    }
}

/// A method's covered lines never outnumber its body lines.
pub proof fn lemma_covered_le_total(body: Seq<Seq<char>>, tested: Set<Seq<char>>)
    ensures
        covered_count(body, tested) <= body.len(),
    decreases body.len(),
{
    if body.len() > 0 {
        lemma_covered_le_total(body.drop_last(), tested);
    }
}

proof fn lemma_sum_total_prefix(ms: Seq<MethodModel>, i: int)
    requires
        0 <= i <= ms.len(),
    ensures
        sum_total(ms.take(i)) <= sum_total(ms),
    decreases ms.len(),
{
    if i == ms.len() {
        assert(ms.take(i) =~= ms);
    } else {
        lemma_sum_total_prefix(ms.drop_last(), i);
        assert(ms.drop_last().take(i) =~= ms.take(i));
    }
}

proof fn lemma_sum_covered_le_total(ms: Seq<MethodModel>, tested: Set<Seq<char>>)
    ensures
        sum_covered(ms, tested) <= sum_total(ms),
    decreases ms.len(),
{
    if ms.len() > 0 {
        lemma_sum_covered_le_total(ms.drop_last(), tested);
        lemma_covered_le_total(ms.last().body, tested);
    }
}

/// Counts the body lines of one method whose normalized form is
/// tested.
pub fn count_covered_lines(body: &Vec<String>, tested: &LineSet) -> (r: usize)
    ensures
        r == covered_count(body@.map_values(|s: String| s@), tested@),
        r <= body@.len(),
{
    let ghost bl = body@.map_values(|s: String| s@);
    let mut c: usize = 0;
    let mut j: usize = 0;
    while j < body.len()
        invariant
            bl == body@.map_values(|s: String| s@),
            0 <= j <= body.len(),
            c <= j,
            c == covered_count(bl.take(j as int), tested@),
        decreases body.len() - j,
    {
        proof {
            assert(bl.take(j + 1).drop_last() =~= bl.take(j as int));
            assert(bl.take(j + 1).last() == bl[j as int]);
        }
        let line = &body[j];
        proof {
            assert(line@ == bl[j as int]);
        }
        let n = normalize_line(line.as_str());
        if tested.contains_line(&n) {
            c = c + 1;
        }
        j = j + 1;
    }
    proof {
        assert(bl.take(body@.len() as int) =~= bl);
    }
    c
}

/// Infers the coverage report: for each logic method, each body line
/// is normalized and looked up in the tested-line set; a method is
/// covered when at least one line matches; the aggregate sums the
/// per-method counts.
pub fn generate_coverage_report(logic_methods: &Vec<Method>, tested: &LineSet) -> (r:
    CoverageReport)
    requires
        sum_total(logic_methods@.map_values(|m: Method| m@)) <= usize::MAX,
    ensures
        r@ == report_spec(logic_methods@.map_values(|m: Method| m@), tested@),
{
    let ghost ms = logic_methods@.map_values(|m: Method| m@);
    let mut methods: Vec<MethodCoverage> = Vec::new();
    let mut covered_methods: usize = 0;
    let mut covered_lines: usize = 0;
    let mut total_lines: usize = 0;
    let mut i: usize = 0;
    while i < logic_methods.len()
        invariant
            ms == logic_methods@.map_values(|m: Method| m@),
            sum_total(ms) <= usize::MAX,
            0 <= i <= logic_methods.len(),
            methods@.map_values(|c: MethodCoverage| c@) == ms.take(i as int).map_values(
                |m: MethodModel| method_report_spec(m, tested@),
            ),
            covered_methods == count_covered(ms.take(i as int), tested@),
            covered_methods <= i,
            covered_lines == sum_covered(ms.take(i as int), tested@),
            total_lines == sum_total(ms.take(i as int)),
            covered_lines <= total_lines,
        decreases logic_methods.len() - i,
    {
        proof {
            assert(ms.take(i + 1).drop_last() =~= ms.take(i as int));
            assert(ms.take(i + 1).last() == ms[i as int]);
            lemma_sum_total_prefix(ms, i + 1);
            lemma_covered_le_total(ms[i as int].body, tested@);
        }
        let m = &logic_methods[i];
        proof {
            assert(m@ == ms[i as int]);
        }
        let c = count_covered_lines(&m.body, tested);
        let total = m.body.len();
        let is_covered = c >= 1;
        let verdict = MethodCoverage {
            class_name: m.class_name.clone(),
            method_name: m.method_name.clone(),
            covered_lines: c,
            total_lines: total,
            covered: is_covered,
        };
        proof {
            assert(verdict@ =~= method_report_spec(ms[i as int], tested@));
        }
        let ghost prev = methods@;
        methods.push(verdict);
        if is_covered {
            covered_methods = covered_methods + 1;
        }
        covered_lines = covered_lines + c;
        total_lines = total_lines + total;
        proof {
            assert(methods@.map_values(|c: MethodCoverage| c@) =~= prev.map_values(
                |c: MethodCoverage| c@,
            ).push(verdict@));
            assert(methods@.map_values(|c: MethodCoverage| c@) =~= ms.take(i + 1).map_values(
                |m: MethodModel| method_report_spec(m, tested@),
            ));
        }
        i = i + 1;
    }
    proof {
        assert(ms.take(logic_methods@.len() as int) =~= ms);
    }
    let total_methods = logic_methods.len();
    let r = CoverageReport { methods, total_methods, covered_methods, covered_lines, total_lines };
    proof {
        assert(r@ =~= report_spec(ms, tested@));
    }
    r
}

/// Boundary: a method with no body lines gets the defined verdict of
/// zero covered out of zero, classified uncovered; no ratio is ever
/// divided.
pub proof fn lemma_empty_body_verdict(m: MethodModel, tested: Set<Seq<char>>)
    requires
        m.body.len() == 0,
    ensures
        method_report_spec(m, tested).covered_lines == 0,
        method_report_spec(m, tested).total_lines == 0,
        !method_report_spec(m, tested).covered,
{
}

/// A larger tested-line set never lowers a method's covered-line
/// count.
pub proof fn lemma_covered_count_monotone(
    body: Seq<Seq<char>>,
    t1: Set<Seq<char>>,
    t2: Set<Seq<char>>,
)
    requires
        t1.subset_of(t2),
    ensures
        covered_count(body, t1) <= covered_count(body, t2),
    decreases body.len(),
{
    if body.len() > 0 {
        lemma_covered_count_monotone(body.drop_last(), t1, t2);
    }
}

/// A line that becomes tested strictly raises the covered-line count
/// of a body that holds it.
pub proof fn lemma_covered_count_strict(
    body: Seq<Seq<char>>,
    t1: Set<Seq<char>>,
    t2: Set<Seq<char>>,
    i: int,
)
    requires
        t1.subset_of(t2),
        0 <= i < body.len(),
        !t1.contains(norm_spec(body[i])),
        t2.contains(norm_spec(body[i])),
    ensures
        covered_count(body, t1) < covered_count(body, t2),
    decreases body.len(),
{
    if i == body.len() - 1 {
        lemma_covered_count_monotone(body.drop_last(), t1, t2);
    } else {
        assert(body.drop_last()[i] == body[i]);
        lemma_covered_count_strict(body.drop_last(), t1, t2, i);
    }
}

/// Coverage monotonicity: adding a test method whose body holds a
/// line identical, post-normalization, to a previously untested line
/// of a logic method's body strictly raises that method's
/// covered-line count, and lowers no other method's count.
pub proof fn lemma_coverage_monotonic(
    ms: Seq<MethodModel>,
    new: MethodModel,
    body: Seq<Seq<char>>,
    i: int,
)
    requires
        0 <= i < body.len(),
        !tested_set(ms).contains(norm_spec(body[i])),
        norm_set(new.body).contains(norm_spec(body[i])),
    ensures
        covered_count(body, tested_set(ms.push(new))) > covered_count(body, tested_set(ms)),
        forall|b: Seq<Seq<char>>|
            covered_count(b, tested_set(ms.push(new))) >= covered_count(b, tested_set(ms)),
{
    crate::lines::lemma_tested_set_grows(ms, new);
    let t1 = tested_set(ms);
    let t2 = tested_set(ms.push(new));
    lemma_covered_count_strict(body, t1, t2, i);
    assert forall|b: Seq<Seq<char>>| covered_count(b, t2) >= covered_count(b, t1) by {
        lemma_covered_count_monotone(b, t1, t2);
    }
}

} // verus!
