use rsass::parser::value::value_expression;
use rsass::value::Value;
use rsass::variablescope::ScopeImpl;

#[test]
fn variable_value() {
    assert_eq!("#f02a42", do_evaluate(&[("red", "#f02a42")], b"$red;"))
}

#[test]
fn partial_variable_value() {
    let scope = [("red", "#f02a42")];
    assert_eq!("solid 1px #f02a42", do_evaluate(&scope, b"solid 1px $red;"))
}

#[test]
fn simple_arithmetic() {
    assert_eq!("6", do_evaluate(&[], b"3 + 3;"))
}

#[test]
fn simple_arithmetic_2() {
    assert_eq!("14", do_evaluate(&[], b"2 + 3 * 4;"))
}

#[test]
fn simple_arithmetic_3() {
    assert_eq!("14", do_evaluate(&[("four", "4")], b"2 + 3 * $four;"))
}

// Division and `/`, with the examples that the reference of the language
// gives for them.
#[test]
fn div_slash_1() {
    assert_eq!("10px/8px", do_evaluate(&[], b"10px/8px;"))
}

#[test]
fn div_slash_2() {
    assert_eq!("500px", do_evaluate(&[("width", "1000px")], b"$width/2;"))
}

#[test]
fn div_slash_4() {
    assert_eq!("250px", do_evaluate(&[], b"(500px/2);"))
}

#[test]
fn div_slash_5() {
    assert_eq!("9px", do_evaluate(&[], b"5px + 8px/2px;"))
}

#[test]
fn div_slash_6() {
    assert_eq!("italic bold 10px/8px",
               do_evaluate(&[], b"(italic bold 10px/8px);"))
}
#[test]
fn negative_in_arithmetic() {
    assert_eq!("960px", do_evaluate(&[("m", "20")], b"1000px + $m * -2;"))
}

#[test]
fn div_by_zero() {
    assert_eq!("500px/0", do_evaluate(&[], b"(500px/0);"))
}

#[test]
fn double_div_1() {
    assert_eq!("15/3/5", do_evaluate(&[], b"15/3/5;"))
}

#[test]
fn double_div_2() {
    assert_eq!("15 / 3 / 5", do_evaluate(&[], b"15 / 3 / 5;"))
}

#[test]
fn double_div_3() {
    assert_eq!("1", do_evaluate(&[], b"(15 / 3 / 5);"))
}

#[test]
fn long_div_and_mul_sequence() {
    assert_eq!("3", do_evaluate(&[], b"(3 / 2 / 2 / 2 * 32 / 2 / 2);"))
}

#[test]
fn double_div_4() {
    assert_eq!("1", do_evaluate(&[], b"(15 / 3) / 5;"));
}

#[test]
fn double_div_5() {
    assert_eq!("1", do_evaluate(&[("five", "5")], b"15 / 3 / $five;"))
}

#[test]
fn sum_w_unit() {
    assert_eq!("9px", do_evaluate(&[], b"3px + 3px + 3px;"))
}
#[test]
fn multi_multi() {
    let scope = [("stuff", "1 2 3")];
    assert_eq!("1 2 3, 1 2 3 4 5 6, 7 8 9",
               do_evaluate(&scope, b"1 2 3, $stuff 4 5 (6, 7 8 9);"))
}

#[test]
fn url_keeps_parens() {
    assert_eq!("black url(starfield.png) repeat",
               do_evaluate(&[], b"black url(starfield.png) repeat;"))
}

#[test]
fn color_unchanged_1() {
    assert_eq!("#AbC", do_evaluate(&[], b"#AbC;"))
}

#[test]
fn color_unchanged_2() {
    assert_eq!("#AAbbCC", do_evaluate(&[], b"#AAbbCC;"))
}

#[test]
fn color_add_each_component() {
    assert_eq!("#abbccd", do_evaluate(&[], b"#AbC + 1;"))
}
#[test]
fn color_add_each_component_overflow() {
    assert_eq!("#0101ff", do_evaluate(&[], b"#00f + 1;"))
}

#[test]
fn color_add_components() {
    assert_eq!("#aabbdd", do_evaluate(&[], b"#AbC + #001;"))
}

#[test]
fn color_add_components_overflow() {
    assert_eq!("#1000ff", do_evaluate(&[], b"#1000ff + #001;"))
}

#[test]
fn color_add_components_to_named_overflow() {
    assert_eq!("blue", do_evaluate(&[], b"#0000ff + #001;"))
}
#[test]
fn color_add_components_to_named() {
    assert_eq!("white", do_evaluate(&[], b"#00f + #0f0 + #f00;"))
}

#[test]
fn color_simple_rgba() {
    assert_eq!("rgba(1, 2, 3, 0.6)", do_evaluate(&[], b"rgba(1,2,3,.6);"))
}

#[test]
fn color_add_to_rgba() {
    assert_eq!("#111111", do_evaluate(&[], b"rgba(0, 0, 0, 1) + #111;"))
}

#[test]
fn color_subtract() {
    assert_eq!("#fefefe", do_evaluate(&[], b"#fff - 1;"))
}

#[test]
fn color_subtract_underflow() {
    assert_eq!("black", do_evaluate(&[], b"#000 - 1;"))
}

#[test]
fn color_subtract_components() {
    assert_eq!("#000077", // Or should it be #007?
               do_evaluate(&[], b"#fff - #ff8;"))
}

#[test]
fn color_subtract_components_underflow() {
    assert_eq!("black", do_evaluate(&[], b"#000001 - #001;"))
}

#[test]
fn color_division() {
    assert_eq!("#020202", do_evaluate(&[], b"(#101010 / 7);"))
}

#[test]
fn color_add_rgb_1() {
    assert_eq!("#0b0a0b", do_evaluate(&[], b"rgb(10,10,10) + #010001;"))
}
#[test]
fn color_add_rgb_2() {
    assert_eq!("white", do_evaluate(&[], b"#010000 + rgb(255, 255, 255);"))
}

#[test]
fn color_named_args() {
    assert_eq!("#010203",
               do_evaluate(&[], b"rgb($blue: 3, $red: 1, $green: 2);"))
}

#[test]
fn color_mixed_args() {
    assert_eq!("#010203", do_evaluate(&[], b"rgb(1, $blue: 3, $green: 2);"))
}

#[test]
fn color_mixed_with_alpha_1() {
    assert_eq!("rgba(64, 0, 191, 0.75)",
               do_evaluate(&[], b"mix(rgba(255, 0, 0, 0.5), #00f);"))
}

#[test]
fn color_mixed_with_alpha_2() {
    assert_eq!("rgba(64, 0, 191, 0.75)",
               do_evaluate(&[], b"mix(#00f, rgba(255, 0, 0, 0.5));"))
}

#[test]
fn value_multiple_dashes() {
    assert_eq!("foo-bar-baz 17%", do_evaluate(&[], b"foo-bar-baz 17%;"))
}

#[test]
fn color_arithemtic_by_name() {
    assert_eq!("magenta", do_evaluate(&[], b"red + blue;"))
}

#[test]
fn function_if() {
    assert_eq!("foo", do_evaluate(&[], b"if(true, foo, bar);"))
}
#[test]
fn function_if_false() {
    assert_eq!("bar", do_evaluate(&[], b"if(false, foo, bar);"))
}
#[test]
fn function_if_named() {
    assert_eq!("hey", do_evaluate(
        &[],
        b"if($if_true: hey, $if_false: ho, $condition: true);"))
}
#[test]
fn function_if_named_dash() {
    assert_eq!("hey", do_evaluate(
        &[],
        b"if($if-true: hey, $if-false: ho, $condition: true);"))
}

#[test]
fn quote_keywords() {
    assert_eq!("\"foo bar\"", do_evaluate(&[], b"quote(foo bar);"))
}
#[test]
fn quote_expr() {
    assert_eq!("\"foo 17\"",
               do_evaluate(&[("s", "foo"), ("n", "5")],
                           b"quote($s $n * 3 + 2);"))
}
#[test]
fn quoted_string() {
    assert_eq!("\"foobar\"", do_evaluate(&[], b"\"foobar\";"))
}
#[test]
fn unquote_string() {
    assert_eq!("foo bar", do_evaluate(&[], b"unquote(\"foo bar\");"))
}
#[test]
fn unquote_quote() {
    assert_eq!("foo bar", do_evaluate(&[], b"unquote(quote(foo bar));"))
}

#[test]
fn equal_true() {
    assert_eq!("true", do_evaluate(&[], b"17 == 10 + 7;"))
}
#[test]
fn equal_false() {
    assert_eq!("false", do_evaluate(&[], b"17 == 10 + 8;"))
}
#[test]
fn not_equal_true() {
    assert_eq!("true", do_evaluate(&[], b"17 != 10 + 8;"))
}
#[test]
fn not_equal_false() {
    assert_eq!("false", do_evaluate(&[], b"18 != 10 + 8;"))
}

#[test]
fn simple_boolean() {
    assert_eq!("true", do_evaluate(&[], b"3 >= 2 and 1 < 10;"))
}


fn parse(text: &[u8]) -> Value {
    let chars: Vec<char> = std::str::from_utf8(text).unwrap().chars().collect();
    let (value, end) = value_expression(&chars, 0).unwrap();
    assert_eq!(chars[end..], [';']);
    value
}

pub fn do_evaluate(s: &[(&str, &str)], expression: &[u8]) -> String {
    let mut scope = ScopeImpl::new();
    for &(name, ref val) in s {
        let val = format!("{};", val);
        let value = parse(val.as_bytes());
        scope.define(name, &value, true).unwrap()
    }
    let foo = parse(expression);
    scope.evaluate(&foo).unwrap().to_string()
}
