use lisper::env::{create_default_env, Builtin};
use lisper::eval::{apply_builtin, eval};
use lisper::exp::{LisperErr, LisperExp};
use lisper::host::{ArithOp, CompareOp, NumHost, TrigOp};
use lisper::parser::{parse, parse_token};
use lisper::tokenizer::tokenize;

/// The reference host: IEEE-754 double-precision semantics, scalars carried
/// as raw bits.
struct F64Host;

impl NumHost for F64Host {
    fn parse_num(&self, token: &str) -> Option<u64> {
        token.parse::<f64>().ok().map(f64::to_bits)
    }

    fn arith(&self, op: ArithOp, a: u64, b: u64) -> u64 {
        let x = f64::from_bits(a);
        let y = f64::from_bits(b);
        let r = match op {
            ArithOp::Add => x + y,
            ArithOp::Sub => x - y,
            ArithOp::Mul => x * y,
            ArithOp::Div => x / y,
            ArithOp::Rem => x % y,
        };
        r.to_bits()
    }

    fn compare(&self, op: CompareOp, a: u64, b: u64) -> bool {
        let x = f64::from_bits(a);
        let y = f64::from_bits(b);
        match op {
            CompareOp::Less => x < y,
            CompareOp::Greater => x > y,
            CompareOp::Equal => x == y,
            CompareOp::LessEq => x <= y,
            CompareOp::GreaterEq => x >= y,
        }
    }

    fn trig(&self, op: TrigOp, a: u64) -> u64 {
        let x = f64::from_bits(a);
        let r = match op {
            TrigOp::Sin => x.sin(),
            TrigOp::Cos => x.cos(),
            TrigOp::Tan => x.tan(),
        };
        r.to_bits()
    }

    fn pi(&self) -> u64 {
        core::f64::consts::PI.to_bits()
    }

    fn render_num(&self, bits: u64) -> String {
        f64::from_bits(bits).to_string()
    }
}

fn num(x: f64) -> LisperExp {
    LisperExp::Number(x.to_bits())
}

fn lookup_func(env: &lisper::env::LisperEnv, name: &str) -> Builtin {
    env.lookup(name)
        .ok_or(LisperErr::Reason("Error, env function not found".to_string()))
        .unwrap()
}

fn eval_str(text: &str) -> Result<LisperExp, LisperErr> {
    let host = F64Host;
    let env = create_default_env();
    let tokens = tokenize(text.to_string());
    let (exp, _) = parse(&tokens[..], &host)?;
    eval(exp, &env, &host)
}

#[test]
fn tokenize_expr() {
    assert_eq!(tokenize("(+ 1 1)".to_string()), ["(", "+", "1", "1", ")"]);
}

#[test]
fn parse_expr() {
    let host = F64Host;
    let mock_tokens = [
        "(".to_string(),
        "+".to_string(),
        "1".to_string(),
        "1".to_string(),
        ")".to_string(),
    ];

    let (parsed_tokens, _) = parse(&mock_tokens[..], &host).ok().unwrap();
    match parsed_tokens {
        LisperExp::List(list) => assert_eq!(list.len(), 3),
        _ => assert!(false),
    }
}

#[test]
fn parse_number_expr() {
    let host = F64Host;
    let mock_token = "99";

    match parse_token(&mock_token, &host) {
        LisperExp::Number(bits) => assert_eq!(f64::from_bits(bits), 99.0),
        _ => assert!(false),
    }
}

#[test]
fn parse_symbol_expr() {
    let host = F64Host;
    let mock_token = "+";

    match parse_token(&mock_token, &host) {
        LisperExp::Symbol(sym) => assert_eq!(sym.to_string(), "+".to_string()),
        _ => assert!(false),
    }
}

#[test]
fn parse_bool_expr() {
    let host = F64Host;
    let mock_token = "true";

    match parse_token(&mock_token, &host) {
        LisperExp::Bool(b) => assert!(b),
        _ => assert!(false),
    }
}

#[test]
fn parse_expr_complex() {
    let host = F64Host;
    let mock_tokens = [
        "(".to_string(),
        "+".to_string(),
        "1".to_string(),
        ")".to_string(),
        "(".to_string(),
        "*".to_string(),
        "2".to_string(),
        "2".to_string(),
        ")".to_string(),
    ];

    let (parsed_tokens, _) = parse(&mock_tokens[..], &host).ok().unwrap();
    match parsed_tokens {
        LisperExp::List(list) => assert_eq!(list.len(), 2),
        _ => assert!(false),
    }
}

#[test]
fn create_default_env_add() {
    let host = F64Host;
    let env = create_default_env();
    let func = lookup_func(&env, "+");

    let arg0_f64: f64 = 52.0;
    let arg1_f64: f64 = 13.0;

    if let LisperExp::Number(res) = apply_builtin(
        func,
        &LisperExp::List(vec![num(arg0_f64), num(arg1_f64)]),
        &host,
    ) {
        assert_eq!(f64::from_bits(res), arg0_f64 + arg1_f64);
    } else {
        assert!(false);
    }
}

#[test]
fn create_default_env_sub() {
    let host = F64Host;
    let env = create_default_env();
    let func = lookup_func(&env, "-");

    let arg0_f64: f64 = 52.0;
    let arg1_f64: f64 = 13.0;

    if let LisperExp::Number(res) = apply_builtin(
        func,
        &LisperExp::List(vec![num(arg0_f64), num(arg1_f64)]),
        &host,
    ) {
        assert_eq!(f64::from_bits(res), arg0_f64 - arg1_f64);
    } else {
        assert!(false);
    }
}

#[test]
fn create_default_env_mul() {
    let host = F64Host;
    let env = create_default_env();
    let func = lookup_func(&env, "*");

    let arg0_f64: f64 = 52.0;
    let arg1_f64: f64 = 13.0;

    if let LisperExp::Number(res) = apply_builtin(
        func,
        &LisperExp::List(vec![num(arg0_f64), num(arg1_f64)]),
        &host,
    ) {
        assert_eq!(f64::from_bits(res), arg0_f64 * arg1_f64);
    } else {
        assert!(false);
    }
}

#[test]
fn create_default_env_div() {
    let host = F64Host;
    let env = create_default_env();
    let func = lookup_func(&env, "/");

    let arg0_f64: f64 = 52.0;
    let arg1_f64: f64 = 13.0;

    if let LisperExp::Number(res) = apply_builtin(
        func,
        &LisperExp::List(vec![num(arg0_f64), num(arg1_f64)]),
        &host,
    ) {
        assert_eq!(f64::from_bits(res), arg0_f64 / arg1_f64);
    } else {
        assert!(false);
    }
}

#[test]
fn create_default_env_mod() {
    let host = F64Host;
    let env = create_default_env();
    let func = lookup_func(&env, "%");

    let arg0_f64: f64 = 52.0;
    let arg1_f64: f64 = 13.0;

    if let LisperExp::Number(res) = apply_builtin(
        func,
        &LisperExp::List(vec![num(arg0_f64), num(arg1_f64)]),
        &host,
    ) {
        assert_eq!(f64::from_bits(res), arg0_f64 % arg1_f64);
    } else {
        assert!(false);
    }
}

#[test]
fn create_default_env_less_than() {
    let host = F64Host;
    let env = create_default_env();
    let func = lookup_func(&env, "<");

    let arg0_f64: f64 = 5.0;
    let arg1_f64: f64 = 13.0;

    if let LisperExp::Bool(res) = apply_builtin(
        func,
        &LisperExp::List(vec![num(arg0_f64), num(arg1_f64)]),
        &host,
    ) {
        assert_eq!(res, arg0_f64 < arg1_f64);
    } else {
        assert!(false);
    }
}

#[test]
fn create_default_env_more_than() {
    let host = F64Host;
    let env = create_default_env();
    let func = lookup_func(&env, ">");

    let arg0_f64: f64 = 5.0;
    let arg1_f64: f64 = 13.0;

    if let LisperExp::Bool(res) = apply_builtin(
        func,
        &LisperExp::List(vec![num(arg0_f64), num(arg1_f64)]),
        &host,
    ) {
        assert_eq!(res, arg0_f64 > arg1_f64);
    } else {
        assert!(false);
    }
}

#[test]
fn create_default_env_equals() {
    let host = F64Host;
    let env = create_default_env();
    let func = lookup_func(&env, "=");

    let arg0_f64: f64 = 5.0;
    let arg1_f64: f64 = 5.0;

    if let LisperExp::Bool(res) = apply_builtin(
        func,
        &LisperExp::List(vec![num(arg0_f64), num(arg1_f64)]),
        &host,
    ) {
        assert_eq!(res, arg0_f64 == arg1_f64);
    } else {
        assert!(false);
    }
}

#[test]
fn create_default_env_less_or_equal() {
    let host = F64Host;
    let env = create_default_env();
    let func = lookup_func(&env, "<=");

    let arg0_f64: f64 = 6.0;
    let arg1_f64: f64 = 5.0;

    if let LisperExp::Bool(res) = apply_builtin(
        func,
        &LisperExp::List(vec![num(arg0_f64), num(arg1_f64)]),
        &host,
    ) {
        assert_eq!(res, arg0_f64 <= arg1_f64);
    } else {
        assert!(false);
    }
}

#[test]
fn create_default_env_more_or_equal() {
    let host = F64Host;
    let env = create_default_env();
    let func = lookup_func(&env, ">=");

    let arg0_f64: f64 = 3.0;
    let arg1_f64: f64 = 5.0;

    if let LisperExp::Bool(res) = apply_builtin(
        func,
        &LisperExp::List(vec![num(arg0_f64), num(arg1_f64)]),
        &host,
    ) {
        assert_eq!(res, arg0_f64 >= arg1_f64);
    } else {
        assert!(false);
    }
}

#[test]
fn create_default_env_sin() {
    let host = F64Host;
    let env = create_default_env();
    let func = lookup_func(&env, "sin");

    let arg0_f64: f64 = core::f64::consts::PI;

    if let LisperExp::Number(res) = apply_builtin(
        func,
        &LisperExp::List(vec![num(arg0_f64)]),
        &host,
    ) {
        assert_eq!(f64::from_bits(res), arg0_f64.sin());
    } else {
        assert!(false);
    }
}

#[test]
fn create_default_env_cos() {
    let host = F64Host;
    let env = create_default_env();
    let func = lookup_func(&env, "cos");

    let arg0_f64: f64 = core::f64::consts::PI;

    if let LisperExp::Number(res) = apply_builtin(
        func,
        &LisperExp::List(vec![num(arg0_f64)]),
        &host,
    ) {
        assert_eq!(f64::from_bits(res), arg0_f64.cos());
    } else {
        assert!(false);
    }
}

#[test]
fn create_default_env_tan() {
    let host = F64Host;
    let env = create_default_env();
    let func = lookup_func(&env, "tan");

    let arg0_f64: f64 = core::f64::consts::PI;

    if let LisperExp::Number(res) = apply_builtin(
        func,
        &LisperExp::List(vec![num(arg0_f64)]),
        &host,
    ) {
        assert_eq!(f64::from_bits(res), arg0_f64.tan());
    } else {
        assert!(false);
    }
}

#[test]
fn tokenize_keeps_every_character() {
    assert_eq!(
        tokenize("(defn add-two [x] (+ x 2))".to_string()),
        ["(", "defn", "add-two", "[x]", "(", "+", "x", "2", ")", ")"]
    );
    assert_eq!(tokenize("".to_string()), Vec::<String>::new());
    assert_eq!(tokenize("  \t\n ".to_string()), Vec::<String>::new());
    assert_eq!(tokenize("(foo)".to_string()), ["(", "foo", ")"]);
    assert_eq!(tokenize("a<=b".to_string()), ["a<=b"]);
}

#[test]
fn parse_spaced_form_round_trip_shape() {
    let host = F64Host;
    let tokens = tokenize("( + 1 1 )".to_string());
    let (exp, rest) = parse(&tokens[..], &host).ok().unwrap();
    assert!(rest.is_empty());
    match exp {
        LisperExp::List(list) => {
            assert_eq!(list.len(), 3);
            assert!(matches!(&list[0], LisperExp::Symbol(s) if s == "+"));
            assert!(matches!(&list[1], LisperExp::Number(b) if f64::from_bits(*b) == 1.0));
            assert!(matches!(&list[2], LisperExp::Number(b) if f64::from_bits(*b) == 1.0));
        }
        _ => assert!(false),
    }
}

#[test]
fn parse_stream_of_two_forms() {
    let host = F64Host;
    let tokens = tokenize("(+ 1) (* 2 2)".to_string());
    let (first, rest) = parse(&tokens[..], &host).ok().unwrap();
    match first {
        LisperExp::List(list) => assert_eq!(list.len(), 2),
        _ => assert!(false),
    }
    let (second, rest2) = parse(rest, &host).ok().unwrap();
    match second {
        LisperExp::List(list) => assert_eq!(list.len(), 3),
        _ => assert!(false),
    }
    assert!(rest2.is_empty());
}

#[test]
fn parse_token_priority_order() {
    let host = F64Host;
    assert!(matches!(
        parse_token("99", &host),
        LisperExp::Number(b) if f64::from_bits(b) == 99.0
    ));
    assert!(matches!(parse_token("true", &host), LisperExp::Bool(true)));
    assert!(matches!(parse_token("false", &host), LisperExp::Bool(false)));
    assert!(matches!(parse_token("+", &host), LisperExp::Symbol(s) if s == "+"));
}

#[test]
fn eval_arithmetic_forms() {
    for (text, expected) in [
        ("(+ 52 13)", 65.0),
        ("(- 52 13)", 39.0),
        ("(* 52 13)", 676.0),
        ("(/ 52 13)", 4.0),
        ("(% 52 13)", 0.0),
    ] {
        match eval_str(text) {
            Ok(LisperExp::Number(bits)) => assert_eq!(f64::from_bits(bits), expected),
            _ => assert!(false),
        }
    }
}

#[test]
fn eval_nested_form() {
    match eval_str("(+ 1 (* 2 3))") {
        Ok(LisperExp::Number(bits)) => assert_eq!(f64::from_bits(bits), 7.0),
        _ => assert!(false),
    }
}

#[test]
fn comparators_keep_last_pair_only() {
    match eval_str("(< 1 5 2)") {
        Ok(LisperExp::Bool(b)) => assert!(!b),
        _ => assert!(false),
    }
    match eval_str("(< 5 1 2)") {
        Ok(LisperExp::Bool(b)) => assert!(b),
        _ => assert!(false),
    }
    match eval_str("(< 1)") {
        Ok(LisperExp::Bool(b)) => assert!(!b),
        _ => assert!(false),
    }
}

#[test]
fn trig_of_zero() {
    match eval_str("(sin 0)") {
        Ok(LisperExp::Number(bits)) => assert!(f64::from_bits(bits).abs() < 1e-12),
        _ => assert!(false),
    }
    match eval_str("(cos 0)") {
        Ok(LisperExp::Number(bits)) => assert!((f64::from_bits(bits) - 1.0).abs() < 1e-12),
        _ => assert!(false),
    }
}

#[test]
fn eval_pi_constant() {
    match eval_str("(pi)") {
        Ok(LisperExp::Number(bits)) => assert_eq!(f64::from_bits(bits), core::f64::consts::PI),
        _ => assert!(false),
    }
}

#[test]
fn empty_form_fails_evaluation() {
    match eval_str("()") {
        Err(LisperErr::Reason(m)) => assert_eq!(m, "Error reading expression"),
        _ => assert!(false),
    }
}

#[test]
fn missing_close_fails_parsing() {
    let host = F64Host;
    let tokens = tokenize("(+ 1".to_string());
    match parse(&tokens[..], &host) {
        Err(LisperErr::Reason(m)) => assert_eq!(m, "Error reading token, missing )."),
        _ => assert!(false),
    }
}

#[test]
fn leading_close_fails_parsing() {
    let host = F64Host;
    let tokens = tokenize(") 1".to_string());
    match parse(&tokens[..], &host) {
        Err(LisperErr::Reason(m)) => assert_eq!(m, "Parsing error, found unexpected )."),
        _ => assert!(false),
    }
}

#[test]
fn empty_token_stream_fails_parsing() {
    let host = F64Host;
    let tokens: Vec<String> = Vec::new();
    match parse(&tokens[..], &host) {
        Err(LisperErr::Reason(m)) => assert_eq!(m, "Could not get token"),
        _ => assert!(false),
    }
}

#[test]
fn unknown_function_fails_evaluation() {
    match eval_str("(frobnicate 1 2)") {
        Err(LisperErr::Reason(m)) => assert_eq!(m, "Error, function not found."),
        _ => assert!(false),
    }
}

#[test]
fn unknown_bare_symbol_fails_evaluation() {
    match eval_str("frobnicate") {
        Err(LisperErr::Reason(m)) => assert_eq!(m, "Eval issue, not a real expression"),
        _ => assert!(false),
    }
}

#[test]
fn bare_bound_symbol_uses_throwaway_argument() {
    match eval_str("+") {
        Ok(LisperExp::Number(bits)) => assert_eq!(f64::from_bits(bits), 0.0),
        _ => assert!(false),
    }
    match eval_str("<") {
        Ok(LisperExp::Bool(b)) => assert!(!b),
        _ => assert!(false),
    }
    match eval_str("sin") {
        Ok(LisperExp::Number(bits)) => assert_eq!(f64::from_bits(bits), 0.0),
        _ => assert!(false),
    }
    match eval_str("pi") {
        Ok(LisperExp::Number(bits)) => assert_eq!(f64::from_bits(bits), core::f64::consts::PI),
        _ => assert!(false),
    }
}

#[test]
fn builtins_skip_non_numeric_arguments() {
    match eval_str("(+ true 5 false 6)") {
        Ok(LisperExp::Number(bits)) => assert_eq!(f64::from_bits(bits), 11.0),
        _ => assert!(false),
    }
    match eval_str("(+)") {
        Ok(LisperExp::Number(bits)) => assert_eq!(f64::from_bits(bits), 0.0),
        _ => assert!(false),
    }
    match eval_str("(sin true)") {
        Ok(LisperExp::Number(bits)) => assert_eq!(f64::from_bits(bits), 0.0),
        _ => assert!(false),
    }
}

#[test]
fn atoms_render_and_reparse_to_equal_values() {
    let host = F64Host;
    for token in ["99", "-2.5", "0", "true", "false"] {
        let first = parse_token(token, &host);
        let rendered = first.to_text(&host);
        let second = parse_token(rendered.as_str(), &host);
        let rendered_again = second.to_text(&host);
        assert_eq!(rendered, rendered_again);
        match (first, second) {
            (LisperExp::Number(a), LisperExp::Number(b)) => assert_eq!(a, b),
            (LisperExp::Bool(a), LisperExp::Bool(b)) => assert_eq!(a, b),
            _ => assert!(false),
        }
    }
}

#[test]
fn lists_render_with_comma_separators() {
    let host = F64Host;
    let tokens = tokenize("(+ 1 1)".to_string());
    let (exp, _) = parse(&tokens[..], &host).ok().unwrap();
    assert_eq!(exp.to_text(&host), "(+,1,1)");
}

#[test]
fn error_message_text() {
    match eval_str("()") {
        Err(e) => assert_eq!(e.message(), "Error reading expression"),
        _ => assert!(false),
    }
}
