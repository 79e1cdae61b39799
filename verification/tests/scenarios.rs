use qalam::interpreter::Interpreter;
use qalam::Qalam;

fn run(src: &str) -> (Vec<String>, bool, bool) {
    let mut q = Qalam::init();
    let mut interp = Interpreter::init();
    q.run_source(src, &mut interp);
    (
        interp.output,
        q.error_reporter.had_error,
        q.error_reporter.had_runtime_error,
    )
}

fn run_ok(src: &str) -> Vec<String> {
    let (out, err, rt) = run(src);
    assert!(!err, "unexpected compile error for: {}", src);
    assert!(!rt, "unexpected runtime error for: {}", src);
    out
}

#[test]
fn closure_captures_binding_not_value() {
    let out = run_ok("niyya x = 1; amal f() { qul x; } x = 2; f();");
    assert_eq!(out, vec!["2".to_string()]);
}

#[test]
fn inherited_method_and_super_call() {
    let out = run_ok(
        "kitab A { greet() { qul \"A\"; } } kitab B ibn A { greet() { ulya.greet(); qul \"B\"; } } B().greet();",
    );
    assert_eq!(out, vec!["A".to_string(), "B".to_string()]);
}

#[test]
fn initializer_returns_the_instance() {
    let out = run_ok("kitab P { khalaq() { nafs.v = 7; radd; } } niyya p = P(); qul p.v;");
    assert_eq!(out, vec!["7".to_string()]);
}

#[test]
fn fibonacci_via_recursion() {
    let out = run_ok(
        "amal fib(n) { shart (n < 2) radd n; radd fib(n-1) + fib(n-2); } qul fib(10);",
    );
    assert_eq!(out, vec!["55".to_string()]);
}

#[test]
fn array_mutation_through_aliased_handle() {
    let out = run_ok("niyya a = [1,2,3]; niyya b = a; b[0] = 99; qul a[0];");
    assert_eq!(out, vec!["99".to_string()]);
}

#[test]
fn logical_short_circuit_returns_operand() {
    let out = run_ok("qul ghaib aw \"x\"; qul 1 wa 2;");
    assert_eq!(out, vec!["x".to_string(), "2".to_string()]);
}

#[test]
fn bare_return_in_initializer_yields_instance() {
    let out = run_ok(
        "kitab P { khalaq() { nafs.v = 1; radd; } } qul typeof(P());",
    );
    assert_eq!(out, vec!["P".to_string()]);
}

#[test]
fn valued_return_in_initializer_is_a_resolve_error() {
    let (_, err, _) = run("kitab P { khalaq() { radd 5; } }");
    assert!(err);
}

#[test]
fn self_inheriting_class_is_a_resolve_error() {
    let (_, err, _) = run("kitab A ibn A {}");
    assert!(err);
}

#[test]
fn nafs_outside_a_class_is_a_resolve_error() {
    let (_, err, _) = run("qul nafs;");
    assert!(err);
}

#[test]
fn ulya_in_class_without_superclass_is_a_resolve_error() {
    let (_, err, _) = run("kitab A { m() { ulya.m(); } }");
    assert!(err);
}

#[test]
fn return_at_top_level_is_a_resolve_error() {
    let (_, err, _) = run("radd;");
    assert!(err);
}

#[test]
fn index_equal_to_length_is_out_of_range() {
    let (_, _, rt) = run("niyya a = [1]; qul a[1];");
    assert!(rt);
    let (_, _, rt2) = run("qul \"ab\"[2];");
    assert!(rt2);
}

#[test]
fn negative_index_is_rejected() {
    let (_, _, rt) = run("niyya a = [1,2]; qul a[0-1];");
    assert!(rt);
}

#[test]
fn call_with_255_arguments_succeeds_with_256_fails() {
    let mut params = Vec::new();
    let mut args = Vec::new();
    for i in 0..255 {
        params.push(format!("p{}", i));
        args.push("1".to_string());
    }
    let ok_src = format!(
        "amal f({}) {{ radd 7; }} qul f({});",
        params.join(", "),
        args.join(", ")
    );
    let out = run_ok(&ok_src);
    assert_eq!(out, vec!["7".to_string()]);

    params.push("p255".to_string());
    args.push("1".to_string());
    let bad_src = format!(
        "amal f({}) {{ radd 7; }} qul f({});",
        params.join(", "),
        args.join(", ")
    );
    let (_, err, _) = run(&bad_src);
    assert!(err);
}

#[test]
fn for_loop_desugars_and_runs() {
    let out = run_ok(
        "niyya s = 0; tawaf (niyya i = 0; i < 5; i = i + 1) { s = s + i; } qul s;",
    );
    assert_eq!(out, vec!["10".to_string()]);
}

#[test]
fn while_loop_runs() {
    let out = run_ok("niyya i = 0; baynama (i < 3) { qul i; i = i + 1; }");
    assert_eq!(out, vec!["0".to_string(), "1".to_string(), "2".to_string()]);
}

#[test]
fn block_scoping_shadows_and_restores() {
    let out = run_ok("niyya a = 1; { niyya a = 2; qul a; } qul a;");
    assert_eq!(out, vec!["2".to_string(), "1".to_string()]);
}

#[test]
fn duplicate_local_is_a_resolve_error() {
    let (_, err, _) = run("{ niyya a = 1; niyya a = 2; }");
    assert!(err);
}

#[test]
fn reading_local_in_its_own_initializer_is_a_resolve_error() {
    let (_, err, _) = run("niyya a = 1; { niyya a = a; }");
    assert!(err);
}

#[test]
fn undefined_variable_is_a_runtime_error() {
    let (_, _, rt) = run("qul zz;");
    assert!(rt);
}

#[test]
fn wrong_arity_is_a_runtime_error() {
    let (_, _, rt) = run("amal f(a) { radd a; } f(1, 2);");
    assert!(rt);
}

#[test]
fn calling_a_non_callable_is_a_runtime_error() {
    let (_, _, rt) = run("1();");
    assert!(rt);
}

#[test]
fn string_concatenation_and_type_mismatch() {
    let out = run_ok("qul \"a\" + \"b\";");
    assert_eq!(out, vec!["ab".to_string()]);
    let (_, _, rt) = run("qul \"a\" + 1;");
    assert!(rt);
}

#[test]
fn printing_value_forms() {
    let out = run_ok("qul haqq; qul batil; qul ghaib; qul [1, 2]; qul \"s\";");
    assert_eq!(
        out,
        vec![
            "haqq".to_string(),
            "batil".to_string(),
            "ghaib".to_string(),
            "[ 1, 2 ]".to_string(),
            "s".to_string()
        ]
    );
}

#[test]
fn printing_callables_and_instances() {
    let out = run_ok(
        "amal f(a, b) {} qul f; kitab K {} qul K; qul K(); qul clock;",
    );
    assert_eq!(
        out,
        vec![
            "<amal f(a, b)>".to_string(),
            "K".to_string(),
            "<instanceof K>".to_string(),
            "<native amal clock>".to_string()
        ]
    );
}

#[test]
fn number_display_is_shortest_round_trip() {
    let out = run_ok("qul 2.5; qul 0.1; qul 1 / 3; qul 0 - 1; qul 100;");
    assert_eq!(
        out,
        vec![
            "2.5".to_string(),
            "0.1".to_string(),
            "0.3333333333333333".to_string(),
            "-1".to_string(),
            "100".to_string()
        ]
    );
}

#[test]
fn division_by_zero_follows_ieee() {
    let out = run_ok("qul 1 / 0; qul 0 / 0; qul (0 - 1) / 0;");
    assert_eq!(
        out,
        vec!["inf".to_string(), "NaN".to_string(), "-inf".to_string()]
    );
}

#[test]
fn equality_cases() {
    let out = run_ok(
        "qul 1 == 1; qul ghaib == ghaib; qul [1] == [1]; niyya a = [1]; niyya b = a; qul a == b; qul 1 != 2; qul \"x\" == \"x\";",
    );
    assert_eq!(
        out,
        vec![
            "haqq".to_string(),
            "haqq".to_string(),
            "batil".to_string(),
            "haqq".to_string(),
            "haqq".to_string(),
            "haqq".to_string()
        ]
    );
}

#[test]
fn nan_equality_is_total() {
    let out = run_ok("qul (0/0) == (0/0);");
    assert_eq!(out, vec!["haqq".to_string()]);
}

#[test]
fn la_negates_truthiness() {
    let out = run_ok("qul la haqq; qul la ghaib; qul !batil;");
    assert_eq!(
        out,
        vec!["batil".to_string(), "haqq".to_string(), "haqq".to_string()]
    );
}

#[test]
fn comparisons_work() {
    let out = run_ok("qul 1 < 2; qul 2 <= 2; qul 3 > 4; qul 4 >= 4;");
    assert_eq!(
        out,
        vec![
            "haqq".to_string(),
            "haqq".to_string(),
            "batil".to_string(),
            "haqq".to_string()
        ]
    );
}

#[test]
fn string_escape_keeps_both_characters() {
    let out = run_ok("qul \"a\\\"b\";");
    assert_eq!(out, vec!["a\\\"b".to_string()]);
}

#[test]
fn unterminated_string_is_a_syntax_error() {
    let (_, err, _) = run("qul \"abc");
    assert!(err);
}

#[test]
fn unexpected_character_reports_and_continues() {
    let (out, err, _) = run("qul 1; #");
    assert!(err);
    assert_eq!(out, vec!["1".to_string()]);
}

#[test]
fn fields_shadow_methods() {
    let out = run_ok(
        "kitab K { m() { radd 1; } } niyya k = K(); k.m = 5; qul k.m;",
    );
    assert_eq!(out, vec!["5".to_string()]);
}

#[test]
fn methods_bind_their_receiver() {
    let out = run_ok(
        "kitab K { khalaq() { nafs.v = 3; } get() { radd nafs.v; } } niyya k = K(); niyya m = k.get; qul m();",
    );
    assert_eq!(out, vec!["3".to_string()]);
}

#[test]
fn string_indexing_yields_single_character() {
    let out = run_ok("qul \"hello\"[1];");
    assert_eq!(out, vec!["e".to_string()]);
}

#[test]
fn compound_assignment_tokens_are_reserved() {
    let (_, err, _) = run("niyya x = 1; x += 1;");
    assert!(err);
}

#[test]
fn postfix_chain_left_associates() {
    let out = run_ok(
        "kitab K { khalaq() { nafs.arr = [10, 20]; } get() { radd nafs; } } niyya k = K(); qul k.get().arr[1];",
    );
    assert_eq!(out, vec!["20".to_string()]);
}

#[test]
fn grouping_and_precedence() {
    let out = run_ok("qul 1 + 2 * 3; qul (1 + 2) * 3; qul 2 < 3 == haqq;");
    assert_eq!(
        out,
        vec!["7".to_string(), "9".to_string(), "haqq".to_string()]
    );
}

#[test]
fn large_integers_print_plain_digits() {
    let out = run_ok("qul 1000000000000000000000;");
    assert_eq!(out, vec!["1000000000000000000000".to_string()]);
}
