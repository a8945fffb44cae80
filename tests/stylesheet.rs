use grass_core::color::{Color, NamedColors};
use grass_core::compile::compile_exprs;
use grass_core::eval::{
    eat_stmts, eat_stmts_at_root, Declaration, Expr, ExprStream, Span, Spanned, SpannedError, Stmt,
    ValueExpr,
};
use grass_core::number::Number;
use grass_core::scope::Scope;
use grass_core::selector::{Combinator, Selector, SelectorPart};
use grass_core::serializer::{serialize, OutputStyle};
use grass_core::value::{SassError, Value};

fn compound(s: &str) -> SelectorPart {
    SelectorPart::Compound(s.to_string())
}

fn sel(s: &str) -> Expr {
    Expr::Selector(simple(s))
}

fn simple(s: &str) -> Selector {
    Selector { complexes: vec![vec![compound(s)]] }
}

fn parent_then(s: &str) -> Selector {
    Selector { complexes: vec![vec![SelectorPart::Parent, compound(s)]] }
}

fn style(p: &str, v: ValueExpr) -> Expr {
    Expr::Style(Declaration { property: p.to_string(), value: v })
}

fn ident(s: &str) -> ValueExpr {
    ValueExpr::Literal(Value::Ident(s.to_string()))
}

fn var(s: &str) -> ValueExpr {
    ValueExpr::Variable(s.to_string())
}

const DEPTH: usize = 64;

/// Gives item `i` the span `i..i + 1`.
fn spanned(exprs: Vec<Expr>) -> Vec<Spanned> {
    exprs
        .into_iter()
        .enumerate()
        .map(|(i, expr)| Spanned { expr, span: Span { start: i, end: i + 1 } })
        .collect()
}

fn stream(exprs: Vec<Expr>) -> ExprStream {
    ExprStream::new(spanned(exprs))
}

fn compile_spanned(exprs: Vec<Expr>, style: OutputStyle) -> Result<String, SpannedError> {
    let names = NamedColors::new();
    compile_exprs(spanned(exprs), &style, DEPTH, &names)
}

fn compile(exprs: Vec<Expr>, style: OutputStyle) -> Result<String, SassError> {
    compile_spanned(exprs, style).map_err(|e| e.kind)
}

#[test]
fn parent_selector_value_compressed() {
    let exprs = vec![
        sel("a"),
        sel("b"),
        style("color", ValueExpr::ParentSelector),
        Expr::BlockEnd,
        Expr::BlockEnd,
    ];
    assert_eq!(compile(exprs, OutputStyle::Compressed).unwrap(), "a b{color:a b}");
}

#[test]
fn parent_selector_value_expanded() {
    let exprs = vec![
        sel("a"),
        sel("b"),
        style("color", ValueExpr::ParentSelector),
        Expr::BlockEnd,
        Expr::BlockEnd,
    ];
    assert_eq!(compile(exprs, OutputStyle::Expanded).unwrap(), "a b {\n  color: a b;\n}\n");
}

#[test]
fn color_plus_ident_in_stylesheet() {
    let names = NamedColors::new();
    let red = Color::from_name("red", &names).unwrap();
    let exprs = vec![
        sel("a"),
        style(
            "color",
            ValueExpr::Add(Box::new(ValueExpr::Literal(Value::Color(red))), Box::new(ident("foo"))),
        ),
        Expr::BlockEnd,
    ];
    assert_eq!(compile(exprs, OutputStyle::Expanded).unwrap(), "a {\n  color: redfoo;\n}\n");
}

#[test]
fn nested_parent_suffixes_keep_order() {
    let exprs = vec![
        sel("a"),
        Expr::Selector(parent_then(".b")),
        Expr::Selector(parent_then(":hover")),
        style("color", ident("red")),
        Expr::BlockEnd,
        Expr::BlockEnd,
        Expr::BlockEnd,
    ];
    assert_eq!(
        compile(exprs, OutputStyle::Expanded).unwrap(),
        "a.b:hover {\n  color: red;\n}\n"
    );
}

#[test]
fn zip_is_parent_major() {
    let parent = Selector { complexes: vec![vec![compound("a")], vec![compound("b")]] };
    let child = Selector { complexes: vec![vec![compound("c")], vec![compound("d")]] };
    assert_eq!(parent.zip(&child).to_css(false), "a c, a d, b c, b d");
    assert_eq!(parent.zip(&child).to_css(true), "a c,a d,b c,b d");
}

#[test]
fn combinators_render_by_style() {
    let s = Selector {
        complexes: vec![vec![compound("a"), SelectorPart::Combinator(Combinator::Child), compound("b")]],
    };
    assert_eq!(s.to_css(false), "a > b");
    assert_eq!(s.to_css(true), "a>b");
}

#[test]
fn replace_substitutes_parent_only() {
    let outer = simple("a");
    assert_eq!(Selector::replace(outer.copy(), simple("b")).to_css(false), "b");
    assert_eq!(Selector::replace(outer, parent_then("-x")).to_css(false), "a-x");
}

#[test]
fn nested_rules_flatten_with_blank_line_between_groups() {
    let exprs = vec![
        sel("a"),
        style("color", ident("red")),
        sel("b"),
        style("color", ident("blue")),
        Expr::BlockEnd,
        Expr::BlockEnd,
        sel("c"),
        style("color", ident("green")),
        Expr::BlockEnd,
    ];
    assert_eq!(
        compile(exprs, OutputStyle::Expanded).unwrap(),
        "a {\n  color: red;\n}\na b {\n  color: blue;\n}\n\nc {\n  color: green;\n}\n"
    );
}

#[test]
fn compressed_drops_last_semicolon() {
    let exprs = vec![
        sel("a"),
        style("color", ident("red")),
        style("width", ValueExpr::Literal(Value::Number(Number::with_unit(1, "px")))),
        Expr::BlockEnd,
        sel("c"),
        style("color", ident("green")),
        Expr::BlockEnd,
    ];
    assert_eq!(
        compile(exprs, OutputStyle::Compressed).unwrap(),
        "a{color:red;width:1px}c{color:green}"
    );
}

#[test]
fn invisible_statements_are_skipped() {
    let exprs = vec![
        sel("a"),
        Expr::BlockEnd,
        sel("b"),
        style("color", ValueExpr::Literal(Value::Null)),
        Expr::BlockEnd,
        Expr::MultilineComment("/* x */".to_string()),
        sel("c"),
        style("color", ident("red")),
        Expr::BlockEnd,
    ];
    assert_eq!(compile(exprs, OutputStyle::Compressed).unwrap(), "c{color:red}");
}

#[test]
fn comments_kept_in_expanded_style() {
    let exprs = vec![Expr::MultilineComment("/* x */".to_string()), sel("c"), style("color", ident("red")), Expr::BlockEnd];
    assert_eq!(
        compile(exprs, OutputStyle::Expanded).unwrap(),
        "/* x */\nc {\n  color: red;\n}\n"
    );
}

#[test]
fn variables_resolve_through_frames() {
    let exprs = vec![
        Expr::VariableDecl("x".to_string(), ident("one")),
        sel("a"),
        Expr::VariableDecl("x".to_string(), ident("two")),
        Expr::BlockEnd,
        sel("b"),
        style("color", var("x")),
        Expr::BlockEnd,
    ];
    assert_eq!(compile(exprs, OutputStyle::Compressed).unwrap(), "b{color:two}");
}

#[test]
fn block_local_variable_disappears() {
    let exprs = vec![
        sel("a"),
        Expr::VariableDecl("y".to_string(), ident("one")),
        style("color", var("y")),
        Expr::BlockEnd,
        sel("b"),
        style("color", var("y")),
        Expr::BlockEnd,
    ];
    assert_eq!(compile(exprs, OutputStyle::Compressed), Err(SassError::UndefinedVariable));
}

#[test]
fn mixin_declaration_is_unsupported() {
    let exprs = vec![Expr::MixinDecl("m".to_string())];
    assert_eq!(compile(exprs, OutputStyle::Expanded), Err(SassError::UnsupportedConstruct));
}

#[test]
fn number_units_must_agree() {
    let sum = ValueExpr::Add(
        Box::new(ValueExpr::Literal(Value::Number(Number::with_unit(1, "px")))),
        Box::new(ValueExpr::Literal(Value::Number(Number::with_unit(1, "deg")))),
    );
    let exprs = vec![sel("a"), style("width", sum), Expr::BlockEnd];
    assert_eq!(compile(exprs, OutputStyle::Expanded), Err(SassError::IncompatibleUnits));
}

#[test]
fn at_rules_and_styles_groups() {
    let exprs = vec![
        Expr::AtRule(grass_core::eval::AtRule {
            name: "charset".to_string(),
            params: "\"UTF-8\"".to_string(),
            body: None,
        }),
        sel("a"),
        style("color", ident("red")),
        Expr::BlockEnd,
    ];
    assert_eq!(
        compile(exprs, OutputStyle::Compressed).unwrap(),
        "@charset \"UTF-8\";a{color:red}"
    );
}

#[test]
fn eat_stmts_stops_at_block_end() {
    let names = NamedColors::new();
    let mut toks = stream(vec![
        style("color", ident("red")),
        Expr::BlockEnd,
        style("color", ident("blue")),
    ]);
    let mut scope = Scope::new();
    let stmts = eat_stmts(&mut toks, &mut scope, &simple("a"), DEPTH, &names).unwrap();
    assert_eq!(stmts.len(), 1);
    let rest = eat_stmts(&mut toks, &mut scope, &simple("a"), DEPTH, &names).unwrap();
    assert_eq!(rest.len(), 1);
}

#[test]
fn eat_stmts_at_root_replaces_at_outermost_level() {
    let names = NamedColors::new();
    let mut toks = stream(vec![
        sel("b"),
        style("color", ident("red")),
        Expr::BlockEnd,
    ]);
    let mut scope = Scope::new();
    let stmts = eat_stmts_at_root(&mut toks, &mut scope, &simple("a"), 0, false, DEPTH, &names).unwrap();
    assert_eq!(serialize(&stmts, &OutputStyle::Compressed, &names), "b{color:red}");
    match &stmts[0] {
        Stmt::RuleSet(rs) => assert!(rs.super_selector.is_empty()),
        _ => panic!("expected a rule set"),
    }
}

#[test]
fn eat_stmts_at_root_zips_below_outermost_level() {
    let names = NamedColors::new();
    let mut toks = stream(vec![
        sel("b"),
        style("color", ident("red")),
        Expr::BlockEnd,
    ]);
    let mut scope = Scope::new();
    let stmts = eat_stmts_at_root(&mut toks, &mut scope, &simple("a"), 0, true, DEPTH, &names).unwrap();
    match &stmts[0] {
        Stmt::RuleSet(rs) => assert_eq!(rs.selector.to_css(false), "a b"),
        _ => panic!("expected a rule set"),
    }
}

#[test]
fn scope_nearest_match_writes() {
    let mut scope = Scope::new();
    scope.insert_var("x", Value::Ident("one".to_string()));
    scope.push_frame();
    scope.insert_var("x", Value::Ident("two".to_string()));
    scope.insert_var("y", Value::Ident("local".to_string()));
    assert!(scope.lookup("y").is_some());
    scope.pop_frame();
    assert!(scope.lookup("y").is_none());
    match scope.lookup("x") {
        Some(Value::Ident(s)) => assert_eq!(s, "two"),
        _ => panic!("expected x"),
    }
    scope.push_frame();
    scope.insert_global("z", Value::Null);
    scope.pop_frame();
    assert!(scope.lookup("z").is_some());
}

#[test]
fn numbers_print_without_trailing_zeros() {
    assert_eq!(Number { value: 15_000_000_000, unit: "px".to_string() }.to_css(), "1.5px");
    assert_eq!(Number { value: -2_500_000_000, unit: String::new() }.to_css(), "-0.25");
    assert_eq!(Number::from_int(0).to_css(), "0");
    assert_eq!(Number { value: 1, unit: String::new() }.to_css(), "0.0000000001");
    assert_eq!(Number::from_int(193).to_css(), "193");
}

#[test]
fn lengths_convert_to_left_unit() {
    let inch = Number::with_unit(1, "in");
    let px = Number::with_unit(1, "px");
    assert_eq!(inch.add_or_sub(&px, false).unwrap().to_css(), "1.0104166667in");
    assert_eq!(px.add_or_sub(&inch, false).unwrap().to_css(), "97px");
    assert_eq!(Number::with_unit(1, "cm").add_or_sub(&Number::with_unit(1, "mm"), true).unwrap().to_css(), "0.9cm");
}

#[test]
fn unitless_takes_other_unit() {
    let r = Number::from_int(2).add_or_sub(&Number::with_unit(3, "px"), false).unwrap();
    assert_eq!(r.to_css(), "5px");
}

#[test]
fn non_length_units_do_not_mix() {
    let r = Number::with_unit(1, "px").add_or_sub(&Number::with_unit(1, "s"), false);
    assert_eq!(r.err(), Some(grass_core::number::ArithError::IncompatibleUnits));
}

#[test]
fn parent_positions_take_every_parent() {
    let parent = Selector { complexes: vec![vec![compound("a")], vec![compound("b")]] };
    let child = Selector {
        complexes: vec![vec![
            SelectorPart::Parent,
            SelectorPart::Combinator(Combinator::NextSibling),
            SelectorPart::Parent,
        ]],
    };
    assert_eq!(parent.zip(&child).to_css(false), "a + a, a + b, b + a, b + b");
    assert_eq!(Selector::replace(parent, child).to_css(true), "a+a,a+b,b+a,b+b");
}

#[test]
fn errors_carry_the_span_of_their_item() {
    let exprs = vec![sel("a"), style("color", var("missing")), Expr::BlockEnd];
    let err = compile_spanned(exprs, OutputStyle::Expanded).unwrap_err();
    assert_eq!(err, SpannedError { kind: SassError::UndefinedVariable, span: Span { start: 1, end: 2 } });
    let warn = vec![Expr::Warn(ident("x"))];
    let err = compile_spanned(warn, OutputStyle::Expanded).unwrap_err();
    assert_eq!(err.span, Span { start: 0, end: 1 });
}

#[test]
fn nesting_past_the_limit_is_an_error() {
    let names = NamedColors::new();
    let mut exprs = Vec::new();
    for _ in 0..4 {
        exprs.push(sel("a"));
    }
    let err = compile_exprs(spanned(exprs), &OutputStyle::Expanded, 3, &names).unwrap_err();
    assert_eq!(err, SpannedError { kind: SassError::NestingTooDeep, span: Span { start: 3, end: 4 } });
}

#[test]
fn failed_block_leaves_no_local_variable() {
    let names = NamedColors::new();
    let mut toks = stream(vec![
        sel("b"),
        Expr::VariableDecl("local".to_string(), ident("x")),
        style("color", var("missing")),
        Expr::BlockEnd,
    ]);
    let mut scope = Scope::new();
    let r = eat_stmts(&mut toks, &mut scope, &simple("a"), DEPTH, &names);
    assert_eq!(r.err().map(|e| e.kind), Some(SassError::UndefinedVariable));
    assert!(scope.lookup("local").is_none());
}
