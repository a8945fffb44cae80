use grass_core::color::{Color, NamedColors};
use grass_core::compile::compile_exprs;
use grass_core::eval::{Builtin, Declaration, Expr, Span, Spanned, ValueExpr};
use grass_core::number::Number;
use grass_core::selector::{Selector, SelectorPart};
use grass_core::serializer::OutputStyle;
use grass_core::value::{SassError, Value};

fn n(v: i32) -> ValueExpr {
    ValueExpr::Literal(Value::Number(Number::from_int(v)))
}

fn p(v: i32) -> ValueExpr {
    ValueExpr::Literal(Value::Number(Number::with_unit(v, "%")))
}

fn tenths(v: i64) -> ValueExpr {
    ValueExpr::Literal(Value::Number(Number { value: v * 1_000_000_000, unit: String::new() }))
}

fn call(f: Builtin, args: Vec<ValueExpr>) -> ValueExpr {
    ValueExpr::Call(f, args)
}

fn rule(value: ValueExpr) -> Vec<Expr> {
    vec![
        Expr::Selector(Selector { complexes: vec![vec![SelectorPart::Compound("a".to_string())]] }),
        Expr::Style(Declaration { property: "color".to_string(), value }),
        Expr::BlockEnd,
    ]
}

fn expanded(exprs: Vec<Expr>) -> Result<String, SassError> {
    let names = NamedColors::new();
    let items = exprs
        .into_iter()
        .enumerate()
        .map(|(i, expr)| Spanned { expr, span: Span { start: i, end: i + 1 } })
        .collect();
    compile_exprs(items, &OutputStyle::Expanded, 64, &names).map_err(|e| e.kind)
}

fn color_of(text: &str) -> ValueExpr {
    let names = NamedColors::new();
    let c = match Color::from_hex_literal(text) {
        Some(c) => c,
        None => Color::from_name(text, &names).unwrap(),
    };
    ValueExpr::Literal(Value::Color(c))
}

#[test]
fn hsl_basic() {
    let e = call(Builtin::Hsl, vec![n(193), p(67), n(99)]);
    assert_eq!(expanded(rule(e)).unwrap(), "a {\n  color: #fbfdfe;\n}\n");
}

#[test]
fn hsla_basic() {
    let e = call(Builtin::Hsla, vec![n(193), p(67), n(99), tenths(6)]);
    assert_eq!(expanded(rule(e)).unwrap(), "a {\n  color: rgba(251, 253, 254, 0.6);\n}\n");
}

#[test]
fn hue() {
    let mut exprs = vec![Expr::VariableDecl(
        "a".to_string(),
        call(Builtin::Hsl, vec![n(193), p(67), p(28)]),
    )];
    exprs.extend(rule(call(Builtin::Hue, vec![ValueExpr::Variable("a".to_string())])));
    assert_eq!(expanded(exprs).unwrap(), "a {\n  color: 193deg;\n}\n");
}

#[test]
fn saturation() {
    let mut exprs = vec![Expr::VariableDecl(
        "a".to_string(),
        call(Builtin::Hsl, vec![n(193), p(67), p(28)]),
    )];
    exprs.extend(rule(call(Builtin::Saturation, vec![ValueExpr::Variable("a".to_string())])));
    assert_eq!(expanded(exprs).unwrap(), "a {\n  color: 67%;\n}\n");
}

#[test]
fn saturation_2() {
    let mut exprs = vec![Expr::VariableDecl(
        "a".to_string(),
        call(Builtin::Hsl, vec![n(1), n(1), n(10)]),
    )];
    exprs.extend(rule(call(Builtin::Saturation, vec![ValueExpr::Variable("a".to_string())])));
    assert_eq!(expanded(exprs).unwrap(), "a {\n  color: 1%;\n}\n");
}

#[test]
fn lightness() {
    let mut exprs = vec![Expr::VariableDecl(
        "a".to_string(),
        call(Builtin::Hsl, vec![n(193), p(67), p(28)]),
    )];
    exprs.extend(rule(call(Builtin::Lightness, vec![ValueExpr::Variable("a".to_string())])));
    assert_eq!(expanded(exprs).unwrap(), "a {\n  color: 28%;\n}\n");
}

#[test]
fn hue_of_rgb_colors() {
    assert_eq!(expanded(rule(call(Builtin::Hue, vec![color_of("red")]))).unwrap(), "a {\n  color: 0deg;\n}\n");
    assert_eq!(expanded(rule(call(Builtin::Hue, vec![color_of("#00ff00")]))).unwrap(), "a {\n  color: 120deg;\n}\n");
    assert_eq!(
        expanded(rule(call(Builtin::Lightness, vec![color_of("white")]))).unwrap(),
        "a {\n  color: 100%;\n}\n"
    );
}

#[test]
fn alpha_function_4_hex_in_stylesheet() {
    let e = call(Builtin::Alpha, vec![color_of("#0123")]);
    assert_eq!(expanded(rule(e)).unwrap(), "a {\n  color: 0.2;\n}\n");
}

#[test]
fn rgb_binop_in_stylesheet() {
    let sum = ValueExpr::Add(Box::new(n(1)), Box::new(n(2)));
    let e = call(Builtin::Rgb, vec![n(1), n(2), sum]);
    assert_eq!(expanded(rule(e)).unwrap(), "a {\n  color: #010203;\n}\n");
}

#[test]
fn rgba_percent_round_up_in_stylesheet() {
    let e = call(Builtin::Rgba, vec![p(59), n(169), p(69), p(50)]);
    assert_eq!(expanded(rule(e)).unwrap(), "a {\n  color: rgba(150, 169, 176, 0.5);\n}\n");
}

#[test]
fn converts_rgb_to_named_color_in_stylesheet() {
    let e = call(Builtin::Rgb, vec![n(0), n(0), n(0)]);
    assert_eq!(expanded(rule(e)).unwrap(), "a {\n  color: black;\n}\n");
}

#[test]
fn builtin_arity_is_checked() {
    let e = call(Builtin::Rgb, vec![n(1), n(2)]);
    assert_eq!(expanded(rule(e)), Err(SassError::InvalidArguments));
    let f = call(Builtin::Hue, vec![n(1)]);
    assert_eq!(expanded(rule(f)), Err(SassError::InvalidArguments));
}

#[test]
fn invert_no_weight() {
    let e = call(Builtin::Invert, vec![color_of("white")]);
    assert_eq!(expanded(rule(e)).unwrap(), "a {\n  color: black;\n}\n");
}

#[test]
fn invert_weight_percent() {
    let e = call(Builtin::Invert, vec![color_of("white"), p(20)]);
    assert_eq!(expanded(rule(e)).unwrap(), "a {\n  color: #cccccc;\n}\n");
}

#[test]
fn invert_weight_no_unit() {
    let e = call(Builtin::Invert, vec![color_of("white"), n(20)]);
    assert_eq!(expanded(rule(e)).unwrap(), "a {\n  color: #cccccc;\n}\n");
}
