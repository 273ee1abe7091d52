use coverall::analysis::{analyze_files, report_of_analysis};
use coverall::command::{resolve_extension, validate_command, Command, ConfigError, Lang};
use coverall::extract::SourceFile;

fn lines(xs: &[&str]) -> Vec<String> {
    xs.iter().map(|x| x.to_string()).collect()
}

fn file(name: &str, body: &[&str]) -> SourceFile {
    SourceFile { name: name.to_string(), lines: lines(body) }
}

fn foo_tree() -> Vec<SourceFile> {
    vec![
        file("Foo.cs", &["public class Foo {", "public void Bar(){", "x = 1;", "}", "}"]),
        file(
            "FooTest.cs",
            &["public class FooTest {", "public void TestBar(){", "x = 1;", "}", "}"],
        ),
    ]
}

#[test]
fn scenario_full_scan_classifies_bar_covered() {
    let files = foo_tree();
    let data = analyze_files(&files, &"cs".to_string());
    assert_eq!(data.logic_methods.len(), 1);
    assert_eq!(data.logic_methods[0].class_name, "Foo");
    assert_eq!(data.logic_methods[0].method_name, "Bar");
    assert_eq!(
        data.logic_methods[0].body,
        lines(&["public void Bar(){", "x = 1;", "}"])
    );
    assert_eq!(data.test_methods.len(), 1);
    assert_eq!(data.test_methods[0].method_name, "TestBar");
    assert!(data.tested_lines.contains_line(&"x = 1;".to_string()));
    let report = report_of_analysis(&data);
    assert!(report.methods[0].covered_lines >= 1);
    assert!(report.methods[0].covered);
    assert_eq!(report.covered_methods, 1);
}

#[test]
fn repeated_scans_give_identical_results() {
    let files = foo_tree();
    let d1 = analyze_files(&files, &"cs".to_string());
    let d2 = analyze_files(&files, &"cs".to_string());
    assert_eq!(d1.logic_methods, d2.logic_methods);
    assert_eq!(d1.test_methods, d2.test_methods);
    let r1 = report_of_analysis(&d1);
    let r2 = report_of_analysis(&d2);
    assert_eq!(r1, r2);
}

#[test]
fn discovery_order_of_test_files_does_not_change_the_report() {
    let order1 = vec![
        file("Foo.cs", &["class Foo {", "void Bar(){ x = 1; }", "}"]),
        file("ATest.cs", &["void TestA(){ x = 1; }"]),
        file("BTest.cs", &["void TestB(){ y = 2; }"]),
    ];
    let order2 = vec![
        file("Foo.cs", &["class Foo {", "void Bar(){ x = 1; }", "}"]),
        file("BTest.cs", &["void TestB(){ y = 2; }"]),
        file("ATest.cs", &["void TestA(){ x = 1; }"]),
    ];

    let d1 = analyze_files(&order1, &"cs".to_string());
    let d2 = analyze_files(&order2, &"cs".to_string());
    let r1 = report_of_analysis(&d1);
    let r2 = report_of_analysis(&d2);
    assert_eq!(r1, r2);
    assert_eq!(
        d1.tested_lines.contains_line(&"x = 1;".to_string()),
        d2.tested_lines.contains_line(&"x = 1;".to_string())
    );
}

#[test]
fn languages_map_to_their_extensions() {
    assert_eq!(resolve_extension(Lang::Csharp), Some("cs".to_string()));
    assert_eq!(resolve_extension(Lang::Python), Some("py".to_string()));
    assert_eq!(resolve_extension(Lang::JS), Some("js".to_string()));
    assert_eq!(resolve_extension(Lang::Java), None);
}

#[test]
fn missing_repository_root_is_fatal_before_any_scan() {
    let cmd = Command {
        repo: "/no/such/coverall/root/anywhere".to_string(),
        lang: Lang::Csharp,
    };
    assert_eq!(validate_command(&cmd), Err(ConfigError::MissingRepoPath));
}

#[test]
fn unmapped_language_is_fatal_at_startup() {
    // refused before the path is even looked at
    let cmd = Command { repo: "/no/such/coverall/root/anywhere".to_string(), lang: Lang::Java };
    assert_eq!(validate_command(&cmd), Err(ConfigError::UnimplementedLanguage));
}

#[test]
fn existing_root_with_mapped_language_validates() {
    let cmd = Command { repo: "/".to_string(), lang: Lang::Csharp };
    assert_eq!(validate_command(&cmd), Ok("cs".to_string()));
}
