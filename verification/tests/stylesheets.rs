use rsass::error::Error;
use rsass::parser::scss::{parse_scss, strip_comments};
use rsass::stylesheet::Item;
use rsass::value::{Quotes, Value};
use rsass::{compile_scss, OutputStyle};

fn compressed(input: &str) -> Result<String, Error> {
    compile_scss(input.as_bytes(), OutputStyle::Compressed).map(|b| String::from_utf8(b).unwrap())
}

fn expanded(input: &str) -> Result<String, Error> {
    compile_scss(input.as_bytes(), OutputStyle::Expanded).map(|b| String::from_utf8(b).unwrap())
}

fn strip(s: &str) -> String {
    strip_comments(&s.chars().collect()).into_iter().collect()
}

#[test]
fn comments_are_taken_out() {
    assert_eq!(strip("a // b\nc"), "a \nc");
    assert_eq!(strip("a /* b\n * c */ d"), "a   d");
    assert_eq!(strip("a / b /"), "a / b /");
    assert_eq!(strip("\"// no\" '/* no */' // yes"), "\"// no\" '/* no */' ");
    assert_eq!(strip("\"a\\\"// b\" // c"), "\"a\\\"// b\" ");
    assert_eq!(strip("/* open"), "");
    assert_eq!(strip("a /**/b/***/c"), "a  b c");
}

#[test]
fn small_stylesheets_in_compressed_style() {
    assert_eq!(compressed("a{color: #AbC + 1;}"), Ok("a{color:#abbccd}\n".to_string()));
    assert_eq!(compressed("a{c: rgba(0,0,0,1) + #111;}"), Ok("a{c:#111}\n".to_string()));
    assert_eq!(
        compressed("a{x: (500px/2); y: 500px/0; z: 10px/8px;}"),
        Ok("a{x:250px;y:500px/0;z:10px/8px}\n".to_string())
    );
    assert_eq!(compressed("$w:1000px; a{c:$w/2;}"), Ok("a{c:500px}\n".to_string()));
    assert_eq!(compressed("a{c: #00f + #0f0 + #f00;}"), Ok("a{c:#fff}\n".to_string()));
    assert_eq!(compressed("a{c: if(true, foo, bar);}"), Ok("a{c:foo}\n".to_string()));
    assert_eq!(compressed("a{c: quote(foo bar);}"), Ok("a{c:\"foo bar\"}\n".to_string()));
    assert_eq!(compressed("a{c: 17 == 10 + 7;}"), Ok("a{c:true}\n".to_string()));
}

#[test]
fn small_stylesheets_in_expanded_style() {
    assert_eq!(expanded("a{c: rgba(1,2,3,.6);}"), Ok("a {\n  c: rgba(1, 2, 3, 0.6);\n}\n".to_string()));
    assert_eq!(
        expanded("a{c: mix(rgba(255,0,0,0.5), #00f);}"),
        Ok("a {\n  c: rgba(64, 0, 191, 0.75);\n}\n".to_string())
    );
    assert_eq!(expanded("a{c: #00f + #0f0 + #f00;}"), Ok("a {\n  c: white;\n}\n".to_string()));
    assert_eq!(expanded("a{c: rgba(0,0,0,1) + #111;}"), Ok("a {\n  c: #111111;\n}\n".to_string()));
}

#[test]
fn rules_in_rules() {
    assert_eq!(
        expanded("a, b { c > d, &:hover { x: 1 } y: 2 }"),
        Ok("a, b {\n  y: 2;\n}\na c > d, a:hover, b c > d, b:hover {\n  x: 1;\n}\n".to_string())
    );
    assert_eq!(
        compressed("a, b { c > d, &:hover { x: 1 } y: 2 }"),
        Ok("a,b{y:2}a c>d,a:hover,b c>d,b:hover{x:1}\n".to_string())
    );
    assert_eq!(compressed("a { b { } }"), Ok("".to_string()));
    assert_eq!(compressed(""), Ok("".to_string()));
}

#[test]
fn null_values_are_not_written() {
    assert_eq!(compressed("a { b: null; c: $nothing; d: 1 }"), Ok("a{d:1}\n".to_string()));
}

#[test]
fn names_of_properties_go_on() {
    assert_eq!(
        compressed("a { font: { family: x; size: 1px; weight: { x: y } } }"),
        Ok("a{font-family:x;font-size:1px;font-weight-x:y}\n".to_string())
    );
}

#[test]
fn conditions() {
    assert_eq!(compressed("a { @if 1 < 2 { b: c } @else { d: e } }"), Ok("a{b:c}\n".to_string()));
    assert_eq!(compressed("a { @if null { b: c } @else { d: e } }"), Ok("a{d:e}\n".to_string()));
    assert_eq!(compressed("a { @if false { b: c } f: g }"), Ok("a{f:g}\n".to_string()));
}

#[test]
fn default_and_global_flags() {
    assert_eq!(
        compressed("$a: 1; $a: 2 !default; $b: 3 !default; x { $a: 4 !global; $c: 5 !global !default; } y { a: $a; b: $b; c: $c }"),
        Ok("y{a:4;b:3;c:5}\n".to_string())
    );
}

#[test]
fn a_mixin_that_is_not_defined_is_an_error() {
    assert_eq!(compressed("a { @include nothing; }"), Err(Error::UndefinedMixin("nothing".to_string())));
}

#[test]
fn mixins_that_never_end_are_an_error() {
    assert_eq!(
        compressed("@mixin m { @include m; } a { @include m; }"),
        Err(Error::Unsupported { feature: "mixins nested too deep".to_string() })
    );
}

#[test]
fn a_property_outside_of_a_rule_is_an_error() {
    assert_eq!(
        compressed("a: b;"),
        Err(Error::Unsupported { feature: "property outside of a rule".to_string() })
    );
}

#[test]
fn what_is_no_stylesheet_is_a_parse_error() {
    assert_eq!(
        compressed("a { b: c; "),
        Err(Error::Parse { msg: "no statement".to_string(), span: 0 })
    );
    assert_eq!(
        compressed("a { b: c } }"),
        Err(Error::Parse { msg: "no statement".to_string(), span: 11 })
    );
    assert_eq!(
        compile_scss(&[b'a', 0xff], OutputStyle::Compressed),
        Err(Error::Parse { msg: "invalid UTF-8".to_string(), span: 0 })
    );
}

#[test]
fn errors_of_values_come_through() {
    assert_eq!(
        compressed("a { b: red(1); }"),
        Err(Error::BadCall {
            name: "red".to_string(),
            cause: Box::new(Error::BadValue {
                expected: "color".to_string(),
                got: Value::Numeric(rsass::rational::Rational::one(), rsass::unit::Unit::Unitless, false, true),
            }),
        })
    );
    assert_eq!(
        compressed("a { b: mix(#000, #fff, 9223372036854775807); }"),
        Err(Error::BadCall {
            name: "mix".to_string(),
            cause: Box::new(Error::Unsupported { feature: "number out of range".to_string() }),
        })
    );
}

#[test]
fn statements_are_read() {
    let items = parse_scss(&"$a: 1 !global; @warn x; b { }".chars().collect()).unwrap();
    assert_eq!(items.len(), 3);
    assert_eq!(items[0], Item::VariableDeclaration("a".to_string(), Value::scalar(1), false, true));
    assert_eq!(items[1], Item::Warn(Value::Literal("x".to_string(), Quotes::Unquoted)));
    assert!(matches!(&items[2], Item::Rule(_, body) if body.is_empty()));
    assert_eq!(parse_scss(&"a { b: ; }".chars().collect()), Err(0));
}

#[test]
fn text_that_is_not_ascii() {
    assert_eq!(compressed("é { content: \"藏\" + é; }"), Ok("é{content:\"藏é\"}\n".to_string()));
}
