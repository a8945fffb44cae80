use grass_core::color::{Color, NamedColors};
use grass_core::number::{Number, SCALE};
use grass_core::value::Value;

fn num(n: i32) -> Number {
    Number::from_int(n)
}

fn pct(n: i32) -> Number {
    Number::with_unit(n, "%")
}

fn frac(value: i64) -> Number {
    Number { value, unit: String::new() }
}

fn hex(text: &str) -> String {
    let names = NamedColors::new();
    Color::from_hex_literal(text).unwrap().to_css(&names)
}

fn named(text: &str) -> Color {
    let names = NamedColors::new();
    Color::from_name(text, &names).unwrap()
}

#[test]
fn preserves_named_color_case() {
    let names = NamedColors::new();
    assert_eq!(named("OrAnGe").to_css(&names), "OrAnGe");
}

#[test]
fn preserves_hex_color_case() {
    assert_eq!(hex("#FfFfFf"), "#FfFfFf");
}

#[test]
fn preserves_hex_8_val_10000000() {
    assert_eq!(hex("#10000000"), "#10000000");
}

#[test]
fn preserves_hex_8_val_12312312() {
    assert_eq!(hex("#12312312"), "#12312312");
}

#[test]
fn preserves_hex_8_val_ab234cff() {
    assert_eq!(hex("#ab234cff"), "#ab234cff");
}

#[test]
fn preserves_hex_6_val_000000() {
    assert_eq!(hex("#000000"), "#000000");
}

#[test]
fn preserves_hex_6_val_123123() {
    assert_eq!(hex("#123123"), "#123123");
}

#[test]
fn preserves_hex_6_val_ab234c() {
    assert_eq!(hex("#ab234c"), "#ab234c");
}

#[test]
fn preserves_hex_4_val_0000() {
    assert_eq!(hex("#0000"), "#0000");
}

#[test]
fn preserves_hex_4_val_123a() {
    assert_eq!(hex("#123a"), "#123a");
}

#[test]
fn preserves_hex_4_val_ab2f() {
    assert_eq!(hex("#ab2f"), "#ab2f");
}

#[test]
fn preserves_hex_3_val_000() {
    assert_eq!(hex("#000"), "#000");
}

#[test]
fn preserves_hex_3_val_123() {
    assert_eq!(hex("#123"), "#123");
}

#[test]
fn preserves_hex_3_val_ab2() {
    assert_eq!(hex("#ab2"), "#ab2");
}

#[test]
fn hex_literal_channels() {
    let c = Color::from_hex_literal("#ab2").unwrap();
    assert_eq!((c.red, c.green, c.blue, c.alpha), (0xaa, 0xbb, 0x22, SCALE));
    let d = Color::from_hex_literal("#12345678").unwrap();
    assert_eq!((d.red, d.green, d.blue), (0x12, 0x34, 0x56));
    assert_eq!(d.alpha, (0x78 * SCALE + 127) / 255);
}

#[test]
fn rejects_malformed_hex_literals() {
    assert!(Color::from_hex_literal("#12").is_none());
    assert!(Color::from_hex_literal("#12345").is_none());
    assert!(Color::from_hex_literal("#12g").is_none());
    assert!(Color::from_hex_literal("123").is_none());
}

#[test]
fn converts_rgb_to_named_color() {
    let names = NamedColors::new();
    assert_eq!(Color::from_rgb(&num(0), &num(0), &num(0)).to_css(&names), "black");
}

#[test]
fn converts_rgba_to_named_color_red() {
    let names = NamedColors::new();
    let c = Color::from_rgba(&num(255), &num(0), &num(0), &num(255));
    assert_eq!(c.to_css(&names), "red");
}

#[test]
fn rgb_binop() {
    let names = NamedColors::new();
    let three = num(1).add_or_sub(&num(2), false).unwrap();
    assert_eq!(Color::from_rgb(&num(1), &num(2), &three).to_css(&names), "#010203");
}

#[test]
fn rgb_pads_0() {
    let names = NamedColors::new();
    assert_eq!(Color::from_rgb(&num(1), &num(2), &num(3)).to_css(&names), "#010203");
}

#[test]
fn rgba_percent() {
    let names = NamedColors::new();
    let c = Color::from_rgba(&pct(159), &num(169), &pct(169), &pct(50));
    assert_eq!(c.to_css(&names), "rgba(255, 169, 255, 0.5)");
}

#[test]
fn rgba_percent_round_up() {
    let names = NamedColors::new();
    let c = Color::from_rgba(&pct(59), &num(169), &pct(69), &pct(50));
    assert_eq!(c.to_css(&names), "rgba(150, 169, 176, 0.5)");
}

#[test]
fn rgb_double_digits() {
    let names = NamedColors::new();
    assert_eq!(Color::from_rgb(&num(254), &num(255), &num(255)).to_css(&names), "#feffff");
}

#[test]
fn rgb_double_digits_white() {
    let names = NamedColors::new();
    assert_eq!(Color::from_rgb(&num(255), &num(255), &num(255)).to_css(&names), "white");
}

#[test]
fn alpha_function_4_hex() {
    let c = Color::from_hex_literal("#0123").unwrap();
    assert_eq!(frac(c.alpha).to_css(), "0.2");
}

#[test]
fn alpha_function_named_color() {
    assert_eq!(frac(named("red").alpha).to_css(), "1");
}

#[test]
fn transparent_has_zero_alpha() {
    assert_eq!(named("transparent").alpha, 0);
}

#[test]
fn rgba_opacity_over_1() {
    let names = NamedColors::new();
    let c = Color::from_rgba(&num(1), &num(2), &num(3), &num(3));
    assert_eq!(c.to_css(&names), "#010203");
}

#[test]
fn rgba_negative_alpha() {
    let names = NamedColors::new();
    let c = Color::from_rgba(&num(1), &num(2), &num(3), &pct(-10));
    assert_eq!(c.to_css(&names), "rgba(1, 2, 3, 0)");
}

#[test]
fn rgba_opacity_decimal() {
    let names = NamedColors::new();
    let c = Color::from_rgba(&num(1), &num(2), &num(3), &frac(6_000_000_000));
    assert_eq!(c.to_css(&names), "rgba(1, 2, 3, 0.6)");
}

#[test]
fn rgba_opacity_percent() {
    let names = NamedColors::new();
    let c = Color::from_rgba(&num(1), &num(2), &num(3), &pct(50));
    assert_eq!(c.to_css(&names), "rgba(1, 2, 3, 0.5)");
}

#[test]
fn alpha_clamps_above_one_hundred_percent() {
    assert_eq!(Color::alpha_from(&pct(250)), SCALE);
    assert_eq!(Color::alpha_from(&num(-2)), 0);
}

#[test]
fn channel_rounds_half_up() {
    // 0.5 rounds up to 1, 0.4999999999 down to 0.
    assert_eq!(Color::channel_from(&frac(SCALE / 2)), 1);
    assert_eq!(Color::channel_from(&frac(SCALE / 2 - 1)), 0);
    assert_eq!(Color::channel_from(&num(300)), 255);
}

fn red() -> Value {
    Value::Color(named("red"))
}

fn ident(s: &str) -> Value {
    Value::Ident(s.to_string())
}

fn css(r: Value) -> String {
    let names = NamedColors::new();
    r.to_css(&names, false)
}

#[test]
fn color_plus_ident() {
    let names = NamedColors::new();
    let r = Value::binop(&red(), &ident("foo"), false, &names).unwrap();
    assert_eq!(css(r), "redfoo");
}

#[test]
fn ident_plus_color() {
    let names = NamedColors::new();
    let r = Value::binop(&ident("foo"), &red(), false, &names).unwrap();
    assert_eq!(css(r), "foored");
}

#[test]
fn color_minus_ident() {
    let names = NamedColors::new();
    let r = Value::binop(&red(), &ident("foo"), true, &names).unwrap();
    assert_eq!(css(r), "red-foo");
}

#[test]
fn color_minus_dbl_quote_ident() {
    let names = NamedColors::new();
    let r = Value::binop(&red(), &Value::Quoted("foo".to_string()), true, &names).unwrap();
    assert_eq!(css(r), "red-\"foo\"");
}

#[test]
fn color_minus_important() {
    let names = NamedColors::new();
    let r = Value::binop(&red(), &ident("!important"), true, &names).unwrap();
    assert_eq!(css(r), "red-!important");
}

#[test]
fn color_minus_null() {
    let names = NamedColors::new();
    let r = Value::binop(&red(), &Value::Null, true, &names).unwrap();
    assert_eq!(css(r), "red-");
}

#[test]
fn ident_minus_color() {
    let names = NamedColors::new();
    let r = Value::binop(&ident("foo"), &red(), true, &names).unwrap();
    assert_eq!(css(r), "foo-red");
}

#[test]
fn quoted_plus_ident_stays_quoted() {
    let names = NamedColors::new();
    let r = Value::binop(&Value::Quoted("a".to_string()), &ident("b"), false, &names).unwrap();
    assert_eq!(css(r), "\"ab\"");
    let s = Value::binop(&ident("a"), &Value::Quoted("b".to_string()), false, &names).unwrap();
    assert_eq!(css(s), "ab");
}

#[test]
fn color_plus_number_shifts_channels() {
    let names = NamedColors::new();
    let c = Value::Color(Color::from_rgb(&num(1), &num(2), &num(3)));
    let r = Value::binop(&c, &Value::Number(num(1)), false, &names);
    assert_eq!(css(r.unwrap()), "#020304");
}

#[test]
fn two_colors_do_not_add() {
    let names = NamedColors::new();
    let r = Value::binop(&red(), &red(), false, &names);
    assert_eq!(r.err(), Some(grass_core::value::SassError::UndefinedOperation));
}

#[test]
fn named_color_table_lookups() {
    let names = NamedColors::new();
    assert_eq!(names.value_of("orange"), Some(0xFFA500FF));
    assert_eq!(names.value_of("OrAnGe"), None);
    assert_eq!(names.name_of(0x000000FF), Some("black".to_string()));
    assert_eq!(names.name_of(0x010203FF), None);
}
