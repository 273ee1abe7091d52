use coverall::patterns::{
    class_capture_str, ext_of_str, is_test_file_str, method_capture_str, test_capture_str,
};

#[test]
fn class_anchor_captures_the_name() {
    assert_eq!(class_capture_str("public class Foo {"), Some("Foo".to_string()));
    assert_eq!(class_capture_str("class Widget_2:"), Some("Widget_2".to_string()));
    assert_eq!(class_capture_str("x = 1;"), None);
    assert_eq!(class_capture_str("class "), None);
}

#[test]
fn method_anchor_needs_a_word_before_the_name() {
    assert_eq!(method_capture_str("public void Bar(){"), Some("Bar".to_string()));
    assert_eq!(method_capture_str("void Bar() {"), Some("Bar".to_string()));
    // a bare call does not look like a signature
    assert_eq!(method_capture_str("z();"), None);
    // a keyword separated from the parenthesis does not anchor
    assert_eq!(method_capture_str("if (x) { y(); }"), None);
    // a qualified call does not anchor
    assert_eq!(method_capture_str("foo.Bar();"), None);
    assert_eq!(method_capture_str("no parens here"), None);
}

#[test]
fn test_anchor_needs_the_marker_prefix() {
    assert_eq!(test_capture_str("public void TestBar(){"), Some("TestBar".to_string()));
    assert_eq!(test_capture_str("public void Bar(){"), None);
    assert_eq!(test_capture_str("public void MyTest(){"), None);
    assert_eq!(test_capture_str("void Test(){"), Some("Test".to_string()));
}

#[test]
fn extension_is_what_follows_the_last_dot() {
    assert_eq!(ext_of_str("Foo.cs"), Some("cs".to_string()));
    assert_eq!(ext_of_str("archive.tar.gz"), Some("gz".to_string()));
    assert_eq!(ext_of_str("README"), None);
    assert_eq!(ext_of_str("trailing."), Some("".to_string()));
    assert_eq!(ext_of_str(""), None);
}

#[test]
fn test_file_convention_is_a_marker_substring() {
    assert!(is_test_file_str("FooTest.cs"));
    assert!(is_test_file_str("TestFoo.cs"));
    assert!(!is_test_file_str("Foo.cs"));
    assert!(!is_test_file_str("footest.cs"));
}
