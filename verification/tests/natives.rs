use qalam::interpreter::Interpreter;
use qalam::Qalam;

fn run(src: &str) -> (Vec<String>, bool, bool) {
    let mut q = Qalam::init();
    let mut interp = Interpreter::init();
    q.run_source(src, &mut interp);
    (
        interp.output,
        q.error_reporter.had_error,
        q.error_reporter.had_runtime_error,
    )
}

fn run_ok(src: &str) -> Vec<String> {
    let (out, err, rt) = run(src);
    assert!(!err, "unexpected compile error for: {}", src);
    assert!(!rt, "unexpected runtime error for: {}", src);
    out
}

#[test]
fn native_len_on_strings_and_arrays() {
    let out = run_ok("qul len(\"abc\"); qul len([1, 2, 3, 4]); qul len(\"\");");
    assert_eq!(
        out,
        vec!["3".to_string(), "4".to_string(), "0".to_string()]
    );
    let (_, _, rt) = run("qul len(5);");
    assert!(rt);
}

#[test]
fn native_substr_is_character_based_and_checked() {
    let out = run_ok("qul substr(\"hello\", 1, 3);");
    assert_eq!(out, vec!["ell".to_string()]);
    let (_, _, rt) = run("qul substr(\"hello\", 3, 9);");
    assert!(rt);
    let (_, _, rt2) = run("qul substr(\"hello\", 0 - 1, 2);");
    assert!(rt2);
}

#[test]
fn native_index_of_finds_first_occurrence() {
    let out = run_ok(
        "qul index_of(\"hello\", \"ll\"); qul index_of(\"hello\", \"zz\"); qul index_of(\"aaa\", \"a\");",
    );
    assert_eq!(
        out,
        vec!["2".to_string(), "-1".to_string(), "0".to_string()]
    );
}

#[test]
fn native_replace_replaces_globally() {
    let out = run_ok("qul replace(\"aaa\", \"a\", \"b\"); qul replace(\"xyx\", \"x\", \"\");");
    assert_eq!(out, vec!["bbb".to_string(), "y".to_string()]);
}

#[test]
fn native_replace_with_empty_pattern_splices() {
    let out = run_ok("qul replace(\"ab\", \"\", \"X\");");
    assert_eq!(out, vec!["XaXbX".to_string()]);
}

#[test]
fn native_pow_uses_integer_exponents() {
    let out = run_ok("qul pow(2, 10); qul pow(2, 0 - 1); qul pow(5, 0);");
    assert_eq!(
        out,
        vec!["1024".to_string(), "0.5".to_string(), "1".to_string()]
    );
    let (_, _, rt) = run("qul pow(2, 0.5);");
    assert!(rt);
}

#[test]
fn native_max_min_follow_the_total_order() {
    let out = run_ok("qul max(1, 2); qul min(1, 2); qul max(0/0, 5);");
    assert_eq!(
        out,
        vec!["2".to_string(), "1".to_string(), "NaN".to_string()]
    );
}

#[test]
fn native_floor_ceil_round() {
    let out = run_ok(
        "qul floor(2.5); qul ceil(2.5); qul round(2.5); qul floor(0 - 2.5); qul round(2.4);",
    );
    assert_eq!(
        out,
        vec![
            "2".to_string(),
            "3".to_string(),
            "3".to_string(),
            "-3".to_string(),
            "2".to_string()
        ]
    );
}

#[test]
fn native_str2num_parses_or_errs() {
    let out = run_ok("qul str2num(\"2.5\") + 1;");
    assert_eq!(out, vec!["3.5".to_string()]);
    let (_, _, rt) = run("qul str2num(\"abc\");");
    assert!(rt);
}

#[test]
fn native_str_renders_any_value() {
    let out = run_ok("qul str(5) + \"x\"; qul str(ghaib); qul str([1]);");
    assert_eq!(
        out,
        vec!["5x".to_string(), "ghaib".to_string(), "[ 1 ]".to_string()]
    );
}

#[test]
fn native_typeof_names_kinds() {
    let out = run_ok(
        "qul typeof(1); qul typeof(\"a\"); qul typeof(haqq); qul typeof(ghaib); qul typeof([1]); amal f() {} qul typeof(f); kitab K {} qul typeof(K()); qul typeof(K);",
    );
    assert_eq!(
        out,
        vec![
            "number".to_string(),
            "string".to_string(),
            "bool".to_string(),
            "ghaib".to_string(),
            "array".to_string(),
            "amal".to_string(),
            "K".to_string(),
            "amal".to_string()
        ]
    );
}

#[test]
fn native_code_yields_the_code_point() {
    let out = run_ok("qul code(\"A\");");
    assert_eq!(out, vec!["65".to_string()]);
    let (_, _, rt) = run("qul code(\"AB\");");
    assert!(rt);
}

#[test]
fn native_array_constructor_fills() {
    let out = run_ok("niyya a = Array(3, 7); qul len(a); qul a[2]; qul a;");
    assert_eq!(
        out,
        vec![
            "3".to_string(),
            "7".to_string(),
            "[ 7, 7, 7 ]".to_string()
        ]
    );
}

#[test]
fn native_push_and_pop_mutate_the_array() {
    let out = run_ok(
        "niyya a = [1]; qul push(a, 4); qul len(a); qul pop(a); qul len(a);",
    );
    assert_eq!(
        out,
        vec![
            "ghaib".to_string(),
            "2".to_string(),
            "4".to_string(),
            "1".to_string()
        ]
    );
}

#[test]
fn native_pop_of_empty_array_is_ghaib() {
    let out = run_ok("niyya a = []; qul pop(a);");
    assert_eq!(out, vec!["ghaib".to_string()]);
}

#[test]
fn native_slice_copies_a_range() {
    let out = run_ok("niyya s = slice([1, 2, 3], 1, 3); qul s; qul len(s);");
    assert_eq!(out, vec!["[ 2, 3 ]".to_string(), "2".to_string()]);
    let (_, _, rt) = run("qul slice([1], 0, 5);");
    assert!(rt);
    let (_, _, rt2) = run("qul slice([1, 2], 2, 1);");
    assert!(rt2);
}

#[test]
fn native_random_int_within_singleton_range() {
    let out = run_ok("qul random_int(0, 1); qul random_int(0 - 3, 0 - 2);");
    assert_eq!(out, vec!["0".to_string(), "-3".to_string()]);
    let (_, _, rt) = run("qul random_int(2, 2);");
    assert!(rt);
    let (_, _, rt2) = run("qul random_int(0.5, 2);");
    assert!(rt2);
}

#[test]
fn native_random_yields_a_number() {
    let out = run_ok("qul typeof(random(0, 1)); qul typeof(clock());");
    assert_eq!(out, vec!["number".to_string(), "number".to_string()]);
    let (_, _, rt) = run("qul random(2, 1);");
    assert!(rt);
}

#[test]
fn arithmetic_round_trips_through_parse_and_display() {
    let out = run_ok("qul 1 + 2; qul 7 - 10; qul 6 * 7; qul 1 / 4;");
    assert_eq!(
        out,
        vec![
            "3".to_string(),
            "-3".to_string(),
            "42".to_string(),
            "0.25".to_string()
        ]
    );
}
