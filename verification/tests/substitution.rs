use jaime::template::substitute;

fn args(values: &[&str]) -> Vec<String> {
    values.iter().map(|v| v.to_string()).collect()
}

#[test]
fn replaces_single_placeholder() {
    assert_eq!(substitute("cat {0}", &args(&["y"])), "cat y");
}

#[test]
fn replaces_every_occurrence() {
    assert_eq!(substitute("{0} {1} {0}", &args(&["a", "b"])), "a b a");
}

#[test]
fn no_placeholders_is_identity() {
    assert_eq!(substitute("echo hello", &args(&["a", "b"])), "echo hello");
}

#[test]
fn idempotent_without_placeholders() {
    let once = substitute("echo hello | grep h", &args(&["a"]));
    let twice = substitute(&once, &args(&["a"]));
    assert_eq!(once, twice);
}

#[test]
fn out_of_range_left_verbatim() {
    assert_eq!(substitute("cat {2}", &args(&["x"])), "cat {2}");
}

#[test]
fn empty_arguments_leave_placeholders() {
    assert_eq!(substitute("{0}", &args(&[])), "{0}");
}

#[test]
fn empty_template_stays_empty() {
    assert_eq!(substitute("", &args(&["a"])), "");
}

#[test]
fn non_canonical_numerals_are_text() {
    assert_eq!(substitute("{00}", &args(&["a", "b"])), "{00}");
    assert_eq!(substitute("{01}", &args(&["a", "b"])), "{01}");
}

#[test]
fn multi_digit_indices_work() {
    let many: Vec<String> = (0..11).map(|i| format!("v{}", i)).collect();
    assert_eq!(substitute("pick {10}", &many), "pick v10");
}

#[test]
fn unclosed_braces_are_text() {
    assert_eq!(substitute("{0", &args(&["a"])), "{0");
    assert_eq!(substitute("{}", &args(&["a"])), "{}");
    assert_eq!(substitute("{a}", &args(&["a"])), "{a}");
    assert_eq!(substitute("a } b {", &args(&["a"])), "a } b {");
}

#[test]
fn single_pass_never_resubstitutes_arguments() {
    // The argument value "{1}" is inserted verbatim; the pass does not
    // re-read what it just inserted.
    assert_eq!(substitute("{0}", &args(&["{1}", "z"])), "{1}");
}

#[test]
fn shell_metacharacters_pass_through() {
    assert_eq!(
        substitute("grep {0} | wc -l", &args(&["a;rm -rf ~"])),
        "grep a;rm -rf ~ | wc -l"
    );
}

#[test]
fn adjacent_placeholders() {
    assert_eq!(substitute("{0}{1}", &args(&["x", "y"])), "xy");
}
