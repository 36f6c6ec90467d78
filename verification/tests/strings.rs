use rsass::parser::strings::{
    escaped_char, extended_part, interpolation, is_ext_str_char, is_ext_str_start_char,
    is_name_char, name, name_char, sass_string, sass_string_dq, sass_string_ext, sass_string_sq,
    selector_string, single_char, special_arg_parts, special_args, special_url, unescape,
};
use rsass::sass::{SassString, StringPart};
use rsass::value::{Quotes, Value};
use rsass::variablescope::ScopeImpl;

fn chars(s: &str) -> Vec<char> {
    s.chars().collect()
}

fn raw(s: &str) -> StringPart {
    StringPart::Raw(s.to_string())
}

#[test]
fn name_characters() {
    assert!(is_name_char(&'a'));
    assert!(is_name_char(&'Z'));
    assert!(is_name_char(&'7'));
    assert!(is_name_char(&'_'));
    assert!(is_name_char(&'-'));
    assert!(is_name_char(&'é'));
    assert!(is_name_char(&'藏'));
    assert!(!is_name_char(&' '));
    assert!(!is_name_char(&'.'));
    assert!(!is_name_char(&'$'));
}

#[test]
fn characters_of_extended_strings() {
    for c in ['a', '1', '-', '_', '*', '+', '.', '/', ':', '=', '?', '|'] {
        assert!(is_ext_str_start_char(&c), "{}", c);
        assert!(is_ext_str_char(&c), "{}", c);
    }
    assert!(!is_ext_str_start_char(&','));
    assert!(is_ext_str_char(&','));
    for c in [' ', '(', ')', '#', '"', ';'] {
        assert!(!is_ext_str_start_char(&c), "{}", c);
        assert!(!is_ext_str_char(&c), "{}", c);
    }
}

#[test]
fn first_character_of_bytes() {
    assert_eq!(single_char(b"abc"), Some('a'));
    assert_eq!(single_char("é".as_bytes()), Some('é'));
    assert_eq!(single_char("藏x".as_bytes()), Some('藏'));
    assert_eq!(single_char(b""), None);
    assert_eq!(single_char(&[0xc3]), None);
    assert_eq!(single_char(&[b'a', 0xff]), None);
}

#[test]
fn unescape_drops_backslashes() {
    assert_eq!(unescape("a\\\"b\\\\c"), "a\"b\\c");
    assert_eq!(unescape("plain"), "plain");
    assert_eq!(unescape("end\\"), "end\\");
    assert_eq!(unescape(""), "");
    assert_eq!(unescape("\\é"), "é");
}

#[test]
fn escaped_characters() {
    assert_eq!(escaped_char(&chars("\\\\x"), 0), Some(('\\', 2)));
    assert_eq!(escaped_char(&chars("\\41 b"), 0), Some(('A', 4)));
    assert_eq!(escaped_char(&chars("\\41b"), 0), Some(('\u{41b}', 4)));
    assert_eq!(escaped_char(&chars("\\e9"), 0), Some(('é', 3)));
    assert_eq!(escaped_char(&chars("\\10ffff0"), 0), Some(('\u{10ffff}', 7)));
    assert_eq!(escaped_char(&chars("x\\g"), 1), Some(('g', 3)));
    assert_eq!(escaped_char(&chars("\\ "), 0), Some((' ', 2)));
    assert_eq!(escaped_char(&chars("\\d800"), 0), None);
    assert_eq!(escaped_char(&chars("\\110000"), 0), None);
    assert_eq!(escaped_char(&chars("\\"), 0), None);
    assert_eq!(escaped_char(&chars("a"), 0), None);
}

#[test]
fn names() {
    assert_eq!(name(&chars("foo-bar_1 x"), 0), Some(("foo-bar_1".to_string(), 9)));
    assert_eq!(name(&chars("a\\41 b:"), 0), Some(("aAb".to_string(), 6)));
    assert_eq!(name(&chars("-"), 0), None);
    assert_eq!(name(&chars("--"), 0), Some(("--".to_string(), 2)));
    assert_eq!(name(&chars(" a"), 0), None);
    assert_eq!(name(&chars(""), 0), None);
    assert_eq!(name_char(&chars("a."), 0), Some(('a', 1)));
    assert_eq!(name_char(&chars("a."), 1), None);
}

#[test]
fn selector_strings() {
    assert_eq!(selector_string(&chars("div.a-b{"), 0), Some(("div.a-b".to_string(), 7)));
    assert_eq!(selector_string(&chars("a\\ b\\\"c\\'d\\\\e "), 0), Some(("a\\ b\\\"c\\'d\\\\e".to_string(), 13)));
    assert_eq!(selector_string(&chars("a\\41 b "), 0), Some(("aAb".to_string(), 6)));
    assert_eq!(selector_string(&chars("a#b#{c}"), 0), Some(("a#b".to_string(), 3)));
    assert_eq!(selector_string(&chars(" a"), 0), None);
    assert_eq!(selector_string(&chars("#{a}"), 0), None);
}

#[test]
fn interpolations() {
    assert_eq!(interpolation(&chars("#{1}x"), 0), Some((Value::scalar(1), 4)));
    assert_eq!(interpolation(&chars("#{ $a }"), 0), Some((Value::Variable("a".to_string()), 7)));
    assert_eq!(interpolation(&chars("#{1"), 0), None);
    assert_eq!(interpolation(&chars("#1}"), 0), None);
}

#[test]
fn unquoted_strings() {
    let (s, end) = sass_string(&chars("a#{1}b c"), 0).unwrap();
    assert_eq!(end, 6);
    assert_eq!(
        s,
        SassString::new(vec![raw("a"), StringPart::Interpolation(Value::scalar(1)), raw("b")], Quotes::Unquoted)
    );
    assert_eq!(s.len(), 3);
    assert_eq!(s.quotes(), Quotes::Unquoted);
    assert!(sass_string(&chars(" a"), 0).is_none());
}

#[test]
fn parts_of_text_are_gathered() {
    let s = SassString::new(vec![raw("a"), raw(""), raw("b"), StringPart::Interpolation(Value::Null), raw(""), raw("c")], Quotes::Double);
    assert_eq!(s.len(), 3);
    assert_eq!(s.part(0), Some(&raw("ab")));
    assert_eq!(s.part(1), Some(&StringPart::Interpolation(Value::Null)));
    assert_eq!(s.part(2), Some(&raw("c")));
    assert_eq!(s.part(3), None);
    assert_eq!(SassString::new(vec![raw(""), raw("")], Quotes::Single).len(), 0);
}

#[test]
fn extended_strings() {
    let (s, end) = sass_string_ext(&chars("a/b,c=#{x}?d e"), 0).unwrap();
    assert_eq!(end, 12);
    assert_eq!(
        s,
        SassString::new(
            vec![raw("a/b,c="), StringPart::Interpolation(Value::Literal("x".to_string(), Quotes::Unquoted)), raw("?d")],
            Quotes::Unquoted
        )
    );
    assert_eq!(extended_part(&chars("a,b c"), 0), Some((raw("a,b"), 3)));
    assert_eq!(extended_part(&chars(",a"), 0), None);
}

#[test]
fn strings_in_double_quotes() {
    let (s, end) = sass_string_dq(&chars("\"a'b\\\"c#d#{1}\\n\\x \\\\\" rest"), 0).unwrap();
    assert_eq!(end, 21);
    assert_eq!(s.quotes(), Quotes::Double);
    assert_eq!(
        s,
        SassString::new(
            vec![raw("a'b\"c#d"), StringPart::Interpolation(Value::scalar(1)), raw("\\n\\x \\\\")],
            Quotes::Double
        )
    );
    assert_eq!(sass_string_dq(&chars("\"\""), 0), Some((SassString::new(vec![], Quotes::Double), 2)));
    assert!(sass_string_dq(&chars("\"open"), 0).is_none());
    assert!(sass_string_dq(&chars("'a'"), 0).is_none());
    assert!(sass_string_dq(&chars("\"a\\!b\""), 0).is_none());
}

#[test]
fn strings_in_single_quotes() {
    let (s, end) = sass_string_sq(&chars("'a\"b\\'c'"), 0).unwrap();
    assert_eq!(end, 8);
    assert_eq!(s, SassString::new(vec![raw("a\"b'c")], Quotes::Single));
    assert!(sass_string_sq(&chars("\"a\""), 0).is_none());
}

#[test]
fn arguments_of_special_functions() {
    let (parts, end) = special_arg_parts(&chars("a(b \"c)\" #{1})#d) x"), 0);
    assert_eq!(end, 16);
    assert_eq!(
        parts,
        vec![raw("a"), raw("("), raw("b "), raw("\""), raw("c)"), raw("\""), raw(" "), StringPart::Interpolation(Value::scalar(1)), raw(")"), raw("#"), raw("d")]
    );
    let (s, end) = special_args(&chars("1 + (2)"), 0);
    assert_eq!(end, 7);
    assert_eq!(s, SassString::new(vec![raw("1 + (2)")], Quotes::Unquoted));
    assert_eq!(special_args(&chars(")"), 0), (SassString::new(vec![], Quotes::Unquoted), 0));
}

#[test]
fn urls() {
    let (s, end) = special_url(&chars("url(http://a.b/c#{1}) x"), 0).unwrap();
    assert_eq!(end, 21);
    assert_eq!(
        s,
        SassString::new(vec![raw("url(http://a.b/c"), StringPart::Interpolation(Value::scalar(1)), raw(")")], Quotes::Unquoted)
    );
    assert!(special_url(&chars("url()"), 0).is_none());
    assert!(special_url(&chars("url(a"), 0).is_none());
    assert!(special_url(&chars("uri(a)"), 0).is_none());
}

#[test]
fn strings_are_evaluated_in_a_scope() {
    let mut scope = ScopeImpl::new();
    scope.set("x", Value::Literal("q\\62".to_string(), Quotes::Double), false);
    let (s, _) = sass_string_dq(&chars("\"a #{$x} #{1/2 + 1} b\""), 0).unwrap();
    assert_eq!(s.evaluate(&scope), Ok(Value::Literal("a q\u{6}2 1.5 b".to_string(), Quotes::Double)));
    let copy = s.clone();
    assert_eq!(copy, s);
}

#[test]
fn marks_are_no_characters_of_names() {
    for c in [',', ';', ' ', '{', '}', '(', ')', '"', '\'', '#', '$', '.', ':', '\u{7f}', '\0'] {
        assert!(!is_name_char(&c), "{:?}", c);
    }
    for c in ['a', 'Z', '0', '9', '_', '-', 'é', 'ß', '٣', '中'] {
        assert!(is_name_char(&c), "{:?}", c);
    }
    assert!(!is_name_char(&'\u{2028}'));
    assert!(!is_name_char(&'–'));
}
