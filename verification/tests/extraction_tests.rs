use coverall::extract::{
    extract_class_methods, extract_methods_from_lines, extract_test_methods,
    extract_test_methods_from_lines, SourceFile,
};

fn lines(xs: &[&str]) -> Vec<String> {
    xs.iter().map(|x| x.to_string()).collect()
}

fn file(name: &str, body: &[&str]) -> SourceFile {
    SourceFile { name: name.to_string(), lines: lines(body) }
}

#[test]
fn extracts_one_method_with_class_context() {
    let ms = extract_methods_from_lines(&lines(&[
        "public class Foo {",
        "    public void Bar(){",
        "        x = 1;",
        "    }",
        "}",
    ]));
    assert_eq!(ms.len(), 1);
    assert_eq!(ms[0].class_name, "Foo");
    assert_eq!(ms[0].method_name, "Bar");
    assert_eq!(ms[0].body, lines(&["public void Bar(){", "x = 1;", "}"]));
}

#[test]
fn class_context_persists_across_methods() {
    let ms = extract_methods_from_lines(&lines(&[
        "class Widget {",
        "    void First() {",
        "        a = 1;",
        "    }",
        "    void Second() {",
        "        b = 2;",
        "    }",
        "}",
    ]));
    assert_eq!(ms.len(), 2);
    assert_eq!(ms[0].class_name, "Widget");
    assert_eq!(ms[0].method_name, "First");
    assert_eq!(ms[1].class_name, "Widget");
    assert_eq!(ms[1].method_name, "Second");
}

#[test]
fn closing_brace_anywhere_ends_the_method() {
    // the brace-closing heuristic: an inner block's closing brace
    // truncates the method; this is the accepted trade-off, kept as is
    let ms = extract_methods_from_lines(&lines(&[
        "class A {",
        "    void Bar() {",
        "        if (x) { y(); }",
        "        z();",
        "    }",
        "}",
    ]));
    assert_eq!(ms.len(), 1);
    assert_eq!(ms[0].method_name, "Bar");
    assert_eq!(ms[0].body, lines(&["void Bar() {", "if (x) { y(); }"]));
}

#[test]
fn new_signature_abandons_unfinished_method() {
    let ms = extract_methods_from_lines(&lines(&[
        "class A {",
        "    void Unfinished() {",
        "        a = 1;",
        "    void Done() {",
        "        b = 2;",
        "    }",
        "}",
    ]));
    assert_eq!(ms.len(), 1);
    assert_eq!(ms[0].method_name, "Done");
    assert_eq!(ms[0].body, lines(&["void Done() {", "b = 2;", "}"]));
}

#[test]
fn single_line_method_is_recorded() {
    let ms = extract_methods_from_lines(&lines(&["class A {", "void Bar(){ x = 1; }", "}"]));
    assert_eq!(ms.len(), 1);
    assert_eq!(ms[0].body, lines(&["void Bar(){ x = 1; }"]));
}

#[test]
fn file_without_signatures_contributes_no_methods() {
    let ms = extract_methods_from_lines(&lines(&["just some text", "no methods here"]));
    assert_eq!(ms.len(), 0);
}

#[test]
fn extension_filter_selects_files() {
    let files = vec![
        file("Foo.cs", &["class Foo {", "void Bar(){ x = 1; }", "}"]),
        file("notes.txt", &["class Fake {", "void Nope(){ x = 1; }", "}"]),
        file("README", &["void Nope(){ x = 1; }"]),
    ];
    let ms = extract_class_methods(&files, &"cs".to_string());
    assert_eq!(ms.len(), 1);
    assert_eq!(ms[0].method_name, "Bar");
}

#[test]
fn logic_scan_skips_test_files() {
    let files = vec![
        file("Foo.cs", &["class Foo {", "void Bar(){ x = 1; }", "}"]),
        file("FooTest.cs", &["class FooTest {", "void TestBar(){ x = 1; }", "}"]),
    ];
    let ms = extract_class_methods(&files, &"cs".to_string());
    assert_eq!(ms.len(), 1);
    assert_eq!(ms[0].class_name, "Foo");
}

#[test]
fn test_scan_selects_only_test_files_and_test_methods() {
    let files = vec![
        file("Foo.cs", &["class Foo {", "void Bar(){ x = 1; }", "}"]),
        file(
            "FooTest.cs",
            &[
                "class FooTest {",
                "void Helper(){ h = 0; }",
                "void TestBar(){ x = 1; }",
                "}",
            ],
        ),
        file("BarTest.js", &["function TestOther(){ y = 2; }"]),
    ];
    let ms = extract_test_methods(&files, &"cs".to_string());
    assert_eq!(ms.len(), 1);
    assert_eq!(ms[0].class_name, "Test");
    assert_eq!(ms[0].method_name, "TestBar");
    assert_eq!(ms[0].body, lines(&["void TestBar(){ x = 1; }"]));
}

#[test]
fn other_language_extensions_are_selected_the_same_way() {
    let files = vec![
        file("widget.js", &["class Widget {", "function Render() {", "x = 1;", "}", "}"]),
        file("Foo.cs", &["class Foo {", "void Bar(){ x = 1; }", "}"]),
    ];
    let ms = extract_class_methods(&files, &"js".to_string());
    assert_eq!(ms.len(), 1);
    assert_eq!(ms[0].class_name, "Widget");
    assert_eq!(ms[0].method_name, "Render");
}

#[test]
fn test_methods_use_sentinel_class() {
    let ms = extract_test_methods_from_lines(&lines(&[
        "class WhateverTest {",
        "    void TestThing() {",
        "        q = 9;",
        "    }",
        "}",
    ]));
    assert_eq!(ms.len(), 1);
    assert_eq!(ms[0].class_name, "Test");
    assert_eq!(ms[0].method_name, "TestThing");
}

#[test]
fn non_test_names_do_not_anchor_test_methods() {
    let ms = extract_test_methods_from_lines(&lines(&["void Bar(){ x = 1; }"]));
    assert_eq!(ms.len(), 0);
}
