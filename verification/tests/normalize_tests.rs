use coverall::text::normalize_line;

fn norm(s: &str) -> String {
    normalize_line(s)
}

#[test]
fn normalize_strips_surrounding_whitespace() {
    assert_eq!(norm("   x = 1;   "), "x = 1;");
    assert_eq!(norm("\t\tx = 1;\r"), "x = 1;");
    assert_eq!(norm("x = 1;"), "x = 1;");
}

#[test]
fn normalize_keeps_inner_whitespace() {
    assert_eq!(norm("  a =   b ;  "), "a =   b ;");
}

#[test]
fn normalize_is_total_on_empty_and_blank_lines() {
    assert_eq!(norm(""), "");
    assert_eq!(norm("   \t  "), "");
}

#[test]
fn normalize_is_idempotent_on_samples() {
    let samples = ["  x = 1;  ", "", "   ", "\tfoo()\r\n", "a", " } "];
    for s in samples.iter() {
        let once = norm(s);
        let twice = norm(&once);
        assert_eq!(once, twice);
    }
}

#[test]
fn equivalent_statements_normalize_alike() {
    assert_eq!(norm("        x = 1;"), norm("x = 1;  "));
    assert_ne!(norm("x = 1;"), norm("x = 2;"));
}
