use coverall::coverage::generate_coverage_report;
use coverall::extract::Method;
use coverall::lines::{extract_tested_lines, LineSet};

fn lines(xs: &[&str]) -> Vec<String> {
    xs.iter().map(|x| x.to_string()).collect()
}

fn method(class: &str, name: &str, body: &[&str]) -> Method {
    Method { class_name: class.to_string(), method_name: name.to_string(), body: lines(body) }
}

#[test]
fn tested_lines_are_normalized_test_body_lines() {
    let tests = vec![method("Test", "TestBar", &["void TestBar(){", "  x = 1;  ", "}"])];
    let tested = extract_tested_lines(&tests);
    assert!(tested.contains_line(&"x = 1;".to_string()));
    assert!(tested.contains_line(&"void TestBar(){".to_string()));
    assert!(tested.contains_line(&"}".to_string()));
    assert!(!tested.contains_line(&"y = 2;".to_string()));
}

#[test]
fn matched_lines_are_counted_per_method() {
    let logic = vec![method("Foo", "Bar", &["void Bar(){", "x = 1;", "}"])];
    let tests = vec![method("Test", "TestBar", &["void TestBar(){", "x = 1;", "}"])];
    let tested = extract_tested_lines(&tests);
    let report = generate_coverage_report(&logic, &tested);
    assert_eq!(report.methods.len(), 1);
    let m = &report.methods[0];
    assert_eq!(m.class_name, "Foo");
    assert_eq!(m.method_name, "Bar");
    // "x = 1;" and "}" match; the signature line does not
    assert_eq!(m.covered_lines, 2);
    assert_eq!(m.total_lines, 3);
    assert!(m.covered);
    assert_eq!(report.total_methods, 1);
    assert_eq!(report.covered_methods, 1);
    assert_eq!(report.covered_lines, 2);
    assert_eq!(report.total_lines, 3);
}

#[test]
fn unmatched_method_is_uncovered_and_excluded_from_covered_subset() {
    let logic = vec![method("Foo", "Qux", &["void Qux(){", "y = 2;", "end"])];
    let tests = vec![method("Test", "TestOther", &["void TestOther(){", "z = 3;", "}"])];
    let tested = extract_tested_lines(&tests);
    let report = generate_coverage_report(&logic, &tested);
    assert_eq!(report.methods.len(), 1);
    assert_eq!(report.methods[0].covered_lines, 0);
    assert!(!report.methods[0].covered);
    assert_eq!(report.covered_methods, 0);
    assert_eq!(report.covered_lines, 0);
}

#[test]
fn empty_body_has_defined_zero_of_zero_ratio() {
    let logic = vec![method("Foo", "Empty", &[])];
    let tests = vec![method("Test", "TestBar", &["void TestBar(){", "x = 1;", "}"])];
    let tested = extract_tested_lines(&tests);
    let report = generate_coverage_report(&logic, &tested);
    assert_eq!(report.methods[0].covered_lines, 0);
    assert_eq!(report.methods[0].total_lines, 0);
    assert!(!report.methods[0].covered);
}

#[test]
fn empty_tested_set_covers_nothing() {
    let logic = vec![method("Foo", "Bar", &["void Bar(){", "x = 1;", "}"])];
    let tested = LineSet::new();
    let report = generate_coverage_report(&logic, &tested);
    assert_eq!(report.covered_lines, 0);
    assert_eq!(report.covered_methods, 0);
    assert_eq!(report.total_lines, 3);
}

#[test]
fn adding_matching_test_method_strictly_raises_coverage() {
    let logic = vec![
        method("Foo", "Bar", &["void Bar(){", "x = 1;", "end"]),
        method("Foo", "Baz", &["void Baz(){", "w = 4;", "end"]),
    ];
    let mut tests = vec![method("Test", "TestBaz", &["void TestBaz(){", "w = 4;", "}"])];
    let before = generate_coverage_report(&logic, &extract_tested_lines(&tests));
    tests.push(method("Test", "TestBar", &["void TestBar(){", "x = 1;", "}"]));
    let after = generate_coverage_report(&logic, &extract_tested_lines(&tests));
    // the newly matched method strictly gains
    assert!(after.methods[0].covered_lines > before.methods[0].covered_lines);
    // no other method loses
    assert!(after.methods[1].covered_lines >= before.methods[1].covered_lines);
    assert!(after.covered_lines > before.covered_lines);
}

#[test]
fn line_matching_ignores_indentation_differences() {
    let logic = vec![method("Foo", "Bar", &["void Bar(){", "        x = 1;", "end"])];
    let tests = vec![method("Test", "TestBar", &["void TestBar(){", "x = 1;", "}"])];
    let report = generate_coverage_report(&logic, &extract_tested_lines(&tests));
    assert_eq!(report.methods[0].covered_lines, 1);
}
