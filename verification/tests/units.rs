use qalam::hashable::HashableMap;
use qalam::parser::Parser;
use qalam::resolver::Resolver;
use qalam::scanner::Scanner;
use qalam::stack::Stack;
use qalam::strutil::string_to_chars;
use qalam::token::TokenType;

#[test]
fn keywords_map_to_their_tokens() {
    assert!(matches!(TokenType::from_keyword("wa"), Some(TokenType::And)));
    assert!(matches!(TokenType::from_keyword("aw"), Some(TokenType::Or)));
    assert!(matches!(TokenType::from_keyword("la"), Some(TokenType::Bang)));
    assert!(matches!(TokenType::from_keyword("kitab"), Some(TokenType::Class)));
    assert!(matches!(TokenType::from_keyword("ibn"), Some(TokenType::Inherits)));
    assert!(matches!(TokenType::from_keyword("illa"), Some(TokenType::Else)));
    assert!(matches!(TokenType::from_keyword("ilshart"), Some(TokenType::ElseIf)));
    assert!(matches!(TokenType::from_keyword("batil"), Some(TokenType::False)));
    assert!(matches!(TokenType::from_keyword("haqq"), Some(TokenType::True)));
    assert!(matches!(TokenType::from_keyword("ghaib"), Some(TokenType::Nil)));
    assert!(matches!(TokenType::from_keyword("tawaf"), Some(TokenType::For)));
    assert!(matches!(TokenType::from_keyword("baynama"), Some(TokenType::While)));
    assert!(matches!(TokenType::from_keyword("amal"), Some(TokenType::Fun)));
    assert!(matches!(TokenType::from_keyword("shart"), Some(TokenType::If)));
    assert!(matches!(TokenType::from_keyword("qul"), Some(TokenType::Print)));
    assert!(matches!(TokenType::from_keyword("radd"), Some(TokenType::Return)));
    assert!(matches!(TokenType::from_keyword("ulya"), Some(TokenType::Super)));
    assert!(matches!(TokenType::from_keyword("nafs"), Some(TokenType::This)));
    assert!(matches!(TokenType::from_keyword("niyya"), Some(TokenType::Var)));
    assert!(matches!(TokenType::from_keyword("iftar"), Some(TokenType::Break)));
    assert!(matches!(TokenType::from_keyword("safar"), Some(TokenType::Continue)));
    assert!(matches!(TokenType::from_keyword("khalaq"), None));
    assert!(matches!(TokenType::from_keyword("hello"), None));
}

#[test]
fn scanner_ends_with_eof_and_tracks_lines() {
    let chars = string_to_chars("niyya x = 1;\nqul x;");
    let mut sc = Scanner::init(&chars);
    sc.scan_tokens();
    assert!(!sc.error_reporter.had_error);
    let last = sc.tokens.last().unwrap();
    assert!(matches!(last.token_type, TokenType::Eof));
    assert_eq!(sc.tokens[0].lexeme, "niyya");
    assert_eq!(sc.tokens[0].line, 1);
    let qul = sc
        .tokens
        .iter()
        .find(|t| t.lexeme == "qul")
        .unwrap();
    assert_eq!(qul.line, 2);
}

#[test]
fn scanner_reads_comments_and_compounds() {
    let chars = string_to_chars("// nothing here\nx += 1; y -= 2; z *= 3; w /= 4; a % b;");
    let mut sc = Scanner::init(&chars);
    sc.scan_tokens();
    let kinds: Vec<TokenType> = sc.tokens.iter().map(|t| t.token_type).collect();
    assert!(kinds.contains(&TokenType::PlusEqual));
    assert!(kinds.contains(&TokenType::MinusEqual));
    assert!(kinds.contains(&TokenType::StarEqual));
    assert!(kinds.contains(&TokenType::SlashEqual));
    assert!(kinds.contains(&TokenType::Modulo));
    assert!(!kinds.iter().any(|k| matches!(k, TokenType::Slash)));
}

#[test]
fn double_resolve_yields_the_same_depth_map() {
    let src = "niyya g = 1; { niyya a = 2; amal f(p) { qul a; qul p; qul g; { niyya b = a; qul b; } } f(3); } kitab K { m() { radd nafs; } }";
    let chars = string_to_chars(src);
    let mut sc = Scanner::init(&chars);
    sc.scan_tokens();
    assert!(!sc.error_reporter.had_error);
    let mut parser = Parser::init(&sc.tokens, 0);
    let statements = match parser.parse() {
        Ok(s) => s,
        Err(_) => panic!("parse failed"),
    };
    let mut r1 = Resolver::init();
    assert!(r1.resolve_stmts(&statements).is_ok());
    let mut r2 = Resolver::init();
    assert!(r2.resolve_stmts(&statements).is_ok());
    assert_eq!(r1.locals.depths, r2.locals.depths);
    assert!(r1.locals.depths.iter().any(|d| d.is_some()));
}

#[test]
fn hashable_map_holds_one_binding_per_key() {
    let mut m: HashableMap<u64> = HashableMap::new();
    assert_eq!(m.insert("a".to_string(), 1), None);
    assert_eq!(m.insert("b".to_string(), 2), None);
    assert_eq!(m.insert("a".to_string(), 3), Some(1));
    assert_eq!(m.len(), 2);
    assert_eq!(m.get(&"a".to_string()), Some(&3));
    assert_eq!(m.get(&"b".to_string()), Some(&2));
    assert!(m.contains_key(&"a".to_string()));
    assert!(!m.contains_key(&"c".to_string()));
    assert_eq!(m.remove(&"a".to_string()), Some(3));
    assert_eq!(m.get(&"a".to_string()), None);
    assert_eq!(m.len(), 1);
    assert!(!m.is_empty());
    assert_eq!(m.remove(&"zzz".to_string()), None);
}

#[test]
fn stack_pushes_and_pops_in_order() {
    let mut s: Stack<u32> = Stack::new();
    assert!(s.is_empty());
    s.push(1);
    s.push(2);
    assert_eq!(s.size(), 2);
    assert_eq!(s.peek(), Some(&2));
    assert_eq!(s.get(0), Some(&1));
    assert_eq!(s.get(5), None);
    assert_eq!(s.pop(), Some(2));
    assert_eq!(s.pop(), Some(1));
    assert_eq!(s.pop(), None);
}

#[test]
fn diagnostics_carry_kind_and_line() {
    let mut q = qalam::Qalam::init();
    let mut interp = qalam::interpreter::Interpreter::init();
    q.run_source("qul \"abc", &mut interp);
    assert!(q.error_reporter.had_error);
    let d = &q.error_reporter.diagnostics[0];
    assert!(d.starts_with("SyntaxError: Unterminated string."));
    assert!(d.contains("at line 1"));
}

#[test]
fn runtime_diagnostics_name_the_line() {
    let mut q = qalam::Qalam::init();
    let mut interp = qalam::interpreter::Interpreter::init();
    q.run_source("niyya a = 1;\nqul zz;", &mut interp);
    assert!(q.error_reporter.had_runtime_error);
    let d = q.error_reporter.diagnostics.last().unwrap();
    assert!(d.starts_with("RuntimeError: Undefined variable 'zz'."));
    assert!(d.contains("at line 2"));
}

#[test]
fn repl_state_persists_across_sources() {
    let mut q = qalam::Qalam::init();
    let mut interp = qalam::interpreter::Interpreter::init();
    q.run_source("niyya x = 40;", &mut interp);
    q.run_source("amal f() { radd x + 2; }", &mut interp);
    q.run_source("qul f();", &mut interp);
    assert!(!q.error_reporter.had_runtime_error);
    assert_eq!(interp.output, vec!["42".to_string()]);
}

#[test]
fn error_type_names() {
    assert_eq!(qalam::error::ErrorType::Error.to_string(), "Error");
    assert_eq!(qalam::error::ErrorType::Syntax.to_string(), "SyntaxError");
    assert_eq!(qalam::error::ErrorType::Runtime.to_string(), "RuntimeError");
    assert_eq!(
        qalam::error::ErrorType::Resolution.to_string(),
        "ResolutionError"
    );
}

#[test]
fn ast_paren_string_renders_expressions() {
    let chars = string_to_chars("1 + 2 * 3;");
    let mut sc = Scanner::init(&chars);
    sc.scan_tokens();
    let mut parser = Parser::init(&sc.tokens, 0);
    let statements = match parser.parse() {
        Ok(s) => s,
        Err(_) => panic!("parse failed"),
    };
    let expr = match &statements[0] {
        qalam::ast::Stmt::Expression { expression } => expression,
        _ => panic!("expected an expression statement"),
    };
    let mut printer = qalam::astprint::ASTParenString {};
    assert_eq!(printer.to_string(expr), "(+ 1 (* 2 3))");
}

#[test]
fn environment_pointer_survives_a_runtime_error() {
    let mut q = qalam::Qalam::init();
    let mut interp = qalam::interpreter::Interpreter::init();
    q.run_source("{ niyya a = 1; qul zz; }", &mut interp);
    assert!(q.error_reporter.had_runtime_error);
    q.error_reporter.had_runtime_error = false;
    q.run_source("niyya x = 5; qul x;", &mut interp);
    assert!(!q.error_reporter.had_runtime_error);
    assert_eq!(interp.output, vec!["5".to_string()]);
}

#[test]
fn strings_span_lines_and_count_them() {
    let chars = string_to_chars("niyya s = \"a\nb\";\nqul s;");
    let mut sc = Scanner::init(&chars);
    sc.scan_tokens();
    assert!(!sc.error_reporter.had_error);
    let qul = sc.tokens.iter().find(|t| t.lexeme == "qul").unwrap();
    assert_eq!(qul.line, 3);
}

#[test]
fn multiline_string_value_is_kept() {
    let mut q = qalam::Qalam::init();
    let mut interp = qalam::interpreter::Interpreter::init();
    q.run_source("qul \"a\nb\";", &mut interp);
    assert!(!q.error_reporter.had_error);
    assert_eq!(interp.output, vec!["a\nb".to_string()]);
}

#[test]
fn reserved_words_do_not_parse() {
    let mut q = qalam::Qalam::init();
    let mut interp = qalam::interpreter::Interpreter::init();
    q.run_source("shart (1) qul 1; ilshart qul 2;", &mut interp);
    assert!(q.error_reporter.had_error);
    let mut q2 = qalam::Qalam::init();
    let mut interp2 = qalam::interpreter::Interpreter::init();
    q2.run_source("iftar;", &mut interp2);
    assert!(q2.error_reporter.had_error);
}
