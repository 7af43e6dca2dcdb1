use tomboy_toml_dom::diagnostic::ParserKind;
use tomboy_toml_dom::document::{ConversionFatal, FloatLiteral, TomlDocument};
use tomboy_toml_dom::model::{Expression, ItemValue, RightValue};
use tomboy_toml_dom::toml::Toml;

fn doc(text: &str) -> TomlDocument {
    let (doc, diagnostics) = Toml::from_str(text);
    assert!(diagnostics.is_empty(), "{:?}", diagnostics);
    doc
}

fn float_of(doc: &TomlDocument, key: &str) -> Option<f64> {
    match doc.get_float_literal_by_key(key) {
        Some(FloatLiteral::Nan) => Some(f64::NAN),
        Some(FloatLiteral::Decimal(s)) => s.parse().ok(),
        None => None,
    }
}

#[test]
fn radix_equivalence() {
    let d = doc("b = 0b1010\no = 0o12\nx = 0x0a\nd = 10\n");
    for key in ["b", "o", "x", "d"] {
        assert_eq!(d.get_i128_by_key(key), Ok(Some(10)));
        assert_eq!(d.get_isize_by_key(key), Ok(Some(10)));
        assert_eq!(d.get_u128_by_key(key), Ok(Some(10)));
        assert_eq!(d.get_usize_by_key(key), Ok(Some(10)));
    }
}

#[test]
fn underscore_separators() {
    let d = doc("i = 1_000\nf = 1_000.5\n");
    assert_eq!(d.get_i128_by_key("i"), Ok(Some(1000)));
    assert_eq!(d.get_usize_by_key("i"), Ok(Some(1000)));
    assert_eq!(float_of(&d, "f"), Some(1000.5));
    match d.get_float_literal_by_key("f") {
        Some(FloatLiteral::Decimal(s)) => assert_eq!(s, "1000.5"),
        other => panic!("{:?}", other),
    }
}

#[test]
fn nan_literals() {
    let d = doc("a = nan\nb = +nan\nc = -nan\n");
    for key in ["a", "b", "c"] {
        assert!(matches!(d.get_float_literal_by_key(key), Some(FloatLiteral::Nan)));
        assert!(float_of(&d, key).unwrap().is_nan());
    }
}

#[test]
fn missing_key_gives_no_value() {
    let d = doc("a = 1\n");
    assert!(!d.contains_key("z"));
    assert!(d.get_right_value_by_key("z").is_none());
    assert!(d.get_literal_string_by_key("z").is_none());
    assert_eq!(d.get_i128_by_key("z"), Ok(None));
    assert_eq!(d.get_isize_by_key("z"), Ok(None));
    assert_eq!(d.get_u128_by_key("z"), Ok(None));
    assert_eq!(d.get_usize_by_key("z"), Ok(None));
    assert!(d.get_float_literal_by_key("z").is_none());
    assert_eq!(d.get_string_by_key("z"), None);
    assert_eq!(d.get_str_by_key("z"), None);
    assert_eq!(d.get_debug_string_by_key("z"), "");
    assert_eq!(d.get_bool_by_key("z"), None);
    assert_eq!(d.get_datetime_utc_by_key("z"), None);
    assert_eq!(d.get_datetime_local_by_key("z"), None);
    assert_eq!(d.get_datetime_fixed_offset_by_key("z"), None);
    assert_eq!(d.get_naive_datetime_by_key("z"), None);
    assert_eq!(d.get_naive_date_by_key("z"), None);
    assert_eq!(d.get_naive_time_by_key("z"), None);
}

#[test]
fn escape_decoding() {
    let d = doc("s = \"\\n\\t\\u0041\\\\\\\"\"\n");
    let s = d.get_string_by_key("s").unwrap();
    assert_eq!(s.chars().collect::<Vec<char>>(), vec!['\n', '\t', 'A', '\\', '"']);
}

#[test]
fn escape_carriage_return_and_long_code_point() {
    let d = doc("s = \"a\\rb\\U0001F600c\\u00e9d\"\n");
    assert_eq!(d.get_string_by_key("s").unwrap(), "a\rb\u{1F600}c\u{e9}d");
}

#[test]
fn code_point_digits_end_in_the_middle_of_a_token() {
    let d = doc("s = \"\\uabcdef\\u00412\"\n");
    assert_eq!(d.get_string_by_key("s").unwrap(), "\u{abcd}efA2");
}

#[test]
fn array_parsing() {
    let d = doc("a = [ 'a', 'b', 'c' ]\n");
    match d.get_right_value_by_key("a") {
        Some(Expression::KeyValue(m)) => match &*m.value {
            RightValue::Array(a) => {
                let items: Vec<String> = a
                    .items
                    .iter()
                    .map(|i| match i {
                        ItemValue::SingleQuotedString(s) => s.value.clone(),
                        other => panic!("{:?}", other),
                    })
                    .collect();
                assert_eq!(items, vec!["a", "b", "c"]);
            }
            other => panic!("{:?}", other),
        },
        other => panic!("{:?}", other),
    }
}

#[test]
fn array_without_closing_bracket_names_the_array_parser() {
    let (d, diagnostics) = Toml::from_str("a = [ 'a', 'b', 'c' \nb = 1\n");
    assert!(!d.contains_key("a"));
    assert_eq!(d.get_i128_by_key("b"), Ok(Some(1)));
    assert_eq!(diagnostics.len(), 1);
    assert_eq!(diagnostics[0].row_number, 1);
    let top = &diagnostics[0].diagnostic;
    assert_eq!(top.parser, ParserKind::Expression);
    assert_eq!(top.state, "KeyValue");
    assert_eq!(top.token, "\n");
    assert_eq!(top.column_number, 20);
    let middle = top.cause.as_ref().unwrap();
    assert_eq!(middle.parser, ParserKind::KeyValue);
    assert_eq!(middle.state, "Array");
    let inner = middle.cause.as_ref().unwrap();
    assert_eq!(inner.parser, ParserKind::Array);
    assert_eq!(inner.state, "AfterSingleQuotedString");
    assert_eq!(inner.token, "\n");
    assert_eq!(inner.column_number, 20);
    assert!(inner.cause.is_none());
}

#[test]
fn array_of_mixed_items() {
    let d = doc("a = [ 1_000, \"x y\", 'z', 0x0a, -5, true ]\n");
    match d.get_right_value_by_key("a") {
        Some(Expression::KeyValue(m)) => match &*m.value {
            RightValue::Array(a) => {
                let items: Vec<String> = a
                    .items
                    .iter()
                    .map(|i| match i {
                        ItemValue::SingleQuotedString(s) => format!("S:{}", s.value),
                        ItemValue::DoubleQuotedString(s) => format!("D:{}", s.value),
                        ItemValue::LiteralString(s) => format!("L:{}", s.value),
                        other => panic!("{:?}", other),
                    })
                    .collect();
                assert_eq!(items, vec!["L:1_000", "D:x y", "S:z", "L:0x0a", "L:-5", "L:true"]);
            }
            other => panic!("{:?}", other),
        },
        other => panic!("{:?}", other),
    }
}

#[test]
fn inline_table_ordering() {
    let d = doc("t = { a = 'x', b = 'y' }\n");
    match d.get_right_value_by_key("t") {
        Some(Expression::KeyValue(m)) => match &*m.value {
            RightValue::InlineTable(t) => {
                let items: Vec<(String, String)> = t
                    .items
                    .iter()
                    .map(|i| match i {
                        ItemValue::KeyValue(kv) => match &*kv.value {
                            RightValue::SingleQuotedString(s) => {
                                (kv.key.clone(), s.value.clone())
                            }
                            other => panic!("{:?}", other),
                        },
                        other => panic!("{:?}", other),
                    })
                    .collect();
                assert_eq!(
                    items,
                    vec![("a".to_string(), "x".to_string()), ("b".to_string(), "y".to_string())]
                );
            }
            other => panic!("{:?}", other),
        },
        other => panic!("{:?}", other),
    }
}

#[test]
fn nested_inline_table_and_array() {
    let text = "t = { a = { b = [ 1, 2 ] }, c = 3 }\n";
    let d = doc(text);
    assert_eq!(d.to_string(), text);
}

#[test]
fn malformed_inline_table_is_an_error_value() {
    let (d, diagnostics) = Toml::from_str("t = { = 1 }\n");
    assert!(d.elements.is_empty());
    assert_eq!(diagnostics.len(), 1);
    let inner = diagnostics[0].diagnostic.cause.as_ref().unwrap().cause.as_ref().unwrap();
    assert_eq!(inner.parser, ParserKind::InlineTable);
    assert_eq!(inner.state, "AfterLeftCurlyBracket");
    assert_eq!(inner.token, "=");
    assert_eq!(inner.column_number, 7);
}

#[test]
fn dotted_key_is_refused_in_an_inline_table() {
    let (_, diagnostics) = Toml::from_str("t = { a.b = 1 }\n");
    assert_eq!(diagnostics.len(), 1);
    let d = doc("a.b = 1\n");
    assert_eq!(d.get_i128_by_key("a.b"), Ok(Some(1)));
}

#[test]
fn round_trip() {
    let text = "# comment\n\nkey = 'value'\ns = \"a\\tb\\\"c\\\\\"\nn = 1_000\na = [ 'a', \"b\", 3 ]\nt = { a = 'x', b = 2 }\n";
    let d = doc(text);
    assert_eq!(d.elements.len(), 7);
    assert_eq!(d.to_string(), text);
}

#[test]
fn idempotence() {
    let text = "  # c\nkey='value'   \r\n \t \nn=1\na=['a' ,\"b\"]\nt={a='x'}\n[table]\n[[tables]]";
    let first = doc(text);
    let second = doc(&first.to_string());
    assert_eq!(first.to_debug_string(), second.to_debug_string());
    assert_eq!(first.to_string(), second.to_string());
    assert_eq!(
        first.to_string(),
        "# c\nkey = 'value'\n\nn = 1\na = [ 'a', \"b\" ]\nt = { a = 'x' }\n[table]\n[[tables]]\n"
    );
}

#[test]
fn debug_rendering() {
    let d = doc("# c\n\nk = 'v'\n[t]\n[[u]]\n");
    assert_eq!(
        d.to_debug_string(),
        "Comment(# c)\nEmptyLine()\nKeyValue(k = 'v')\nHeaderOfTable([t])\nHeaderOfArrayOfTable([[u]])\n"
    );
}

#[test]
fn header_ends_at_a_double_quote() {
    let d = doc("[a\"b]\n");
    match &d.elements[0] {
        Expression::HeaderOfTable(m) => assert_eq!(m.value, "a"),
        other => panic!("{:?}", other),
    }
}

#[test]
fn lookup_is_flat_and_takes_the_first() {
    let d = doc("a = 1\n[t]\na = 2\nb = 3\n");
    assert_eq!(d.get_i128_by_key("a"), Ok(Some(1)));
    assert_eq!(d.get_i128_by_key("b"), Ok(Some(3)));
    assert!(d.contains_key("a"));
    assert_eq!(d.get_literal_string_by_key("a").unwrap().to_string(), "1");
}

#[test]
fn integer_signs_and_limits() {
    let lines = vec![
        "p = +5",
        "m = -5",
        "xm = 0x-ff",
        "max = 170141183460469231731687303715884105727",
        "min = -170141183460469231731687303715884105728",
        "over = 170141183460469231731687303715884105728",
        "umax = 340282366920938463463374607431768211455",
        "uover = 340282366920938463463374607431768211456",
        "mz = -0",
    ];
    let d = doc(&lines.join("\n"));
    assert_eq!(d.get_i128_by_key("p"), Ok(Some(5)));
    assert_eq!(d.get_i128_by_key("m"), Ok(Some(-5)));
    assert_eq!(d.get_isize_by_key("m"), Ok(Some(-5)));
    assert_eq!(d.get_u128_by_key("p"), Ok(Some(5)));
    assert_eq!(d.get_u128_by_key("m"), Ok(None));
    assert_eq!(d.get_usize_by_key("m"), Ok(None));
    assert_eq!(d.get_i128_by_key("xm"), Ok(Some(-255)));
    assert_eq!(d.get_i128_by_key("max"), Ok(Some(i128::MAX)));
    assert_eq!(d.get_i128_by_key("min"), Ok(Some(i128::MIN)));
    assert_eq!(d.get_i128_by_key("over"), Ok(None));
    assert_eq!(d.get_u128_by_key("over"), Ok(Some(1u128 << 127)));
    assert_eq!(d.get_u128_by_key("umax"), Ok(Some(u128::MAX)));
    assert_eq!(d.get_u128_by_key("uover"), Ok(None));
    assert_eq!(d.get_isize_by_key("max"), Ok(None));
    assert_eq!(d.get_usize_by_key("umax"), Ok(None));
    assert_eq!(d.get_i128_by_key("mz"), Ok(Some(0)));
    assert_eq!(d.get_u128_by_key("mz"), Ok(None));
}

#[test]
fn machine_word_limits() {
    let text = format!(
        "imax = {}\nimin = {}\niover = {}\niunder = {}\numax = {}\nuover = {}\n",
        isize::MAX,
        isize::MIN,
        isize::MAX as i128 + 1,
        isize::MIN as i128 - 1,
        usize::MAX,
        usize::MAX as u128 + 1
    );
    let d = doc(&text);
    assert_eq!(d.get_isize_by_key("imax"), Ok(Some(isize::MAX)));
    assert_eq!(d.get_isize_by_key("imin"), Ok(Some(isize::MIN)));
    assert_eq!(d.get_isize_by_key("iover"), Ok(None));
    assert_eq!(d.get_isize_by_key("iunder"), Ok(None));
    assert_eq!(d.get_usize_by_key("umax"), Ok(Some(usize::MAX)));
    assert_eq!(d.get_usize_by_key("uover"), Ok(None));
}

#[test]
fn malformed_prefixed_integer_is_fatal() {
    let d = doc("b = 0b102\no = 0o8\nx = 0xzz\ne = 0x\nbig = 0xffffffffffffffffffffffffffffffffff\nd = 12a\nu = 0_x10\n");
    assert_eq!(d.get_i128_by_key("b"), Err(ConversionFatal { radix: 2 }));
    assert_eq!(d.get_isize_by_key("o"), Err(ConversionFatal { radix: 8 }));
    assert_eq!(d.get_u128_by_key("x"), Err(ConversionFatal { radix: 16 }));
    assert_eq!(d.get_usize_by_key("e"), Err(ConversionFatal { radix: 16 }));
    assert_eq!(d.get_u128_by_key("big"), Err(ConversionFatal { radix: 16 }));
    assert_eq!(d.get_i128_by_key("d"), Ok(None));
    assert_eq!(d.get_i128_by_key("u"), Ok(Some(16)));
}

#[test]
fn hexadecimal_digits_in_both_cases() {
    let d = doc("x = 0xAbCdEf\n");
    assert_eq!(d.get_i128_by_key("x"), Ok(Some(0xabcdef)));
}

#[test]
fn integer_getter_wants_a_literal() {
    let d = doc("s = '10'\na = [ 10 ]\n");
    assert_eq!(d.get_i128_by_key("s"), Ok(None));
    assert_eq!(d.get_i128_by_key("a"), Ok(None));
    assert_eq!(d.get_bool_by_key("s"), None);
    assert!(d.get_literal_string_by_key("s").is_none());
    assert!(d.contains_key("s"));
}

#[test]
fn booleans() {
    let d = doc("t = true\nf = false\nx = True\ny = tru_e\n");
    assert_eq!(d.get_bool_by_key("t"), Some(true));
    assert_eq!(d.get_bool_by_key("f"), Some(false));
    assert_eq!(d.get_bool_by_key("x"), None);
    assert_eq!(d.get_bool_by_key("y"), None);
}

#[test]
fn strings() {
    let d = doc("d = \"a b\"\ns = 'c\\d'\nl = abc\na = [ 'x' ]\n");
    assert_eq!(d.get_string_by_key("d").unwrap(), "a b");
    assert_eq!(d.get_string_by_key("s").unwrap(), "c\\d");
    assert_eq!(d.get_string_by_key("l"), None);
    assert_eq!(d.get_str_by_key("d"), Some("a b"));
    assert_eq!(d.get_str_by_key("s"), Some("c\\d"));
    assert_eq!(d.get_str_by_key("l"), None);
    assert_eq!(d.get_str_by_key("a"), None);
    assert_eq!(d.get_string_by_key("a"), None);
    assert_eq!(d.get_debug_string_by_key("d"), "DoubleQuotedString(\"a b\")");
    assert_eq!(d.get_debug_string_by_key("s"), "SingleQuotedString('c\\d')");
    assert_eq!(d.get_debug_string_by_key("l"), "");
}

#[test]
fn unterminated_strings_fail() {
    let (_, diagnostics) = Toml::from_str("a = \"abc\nb = 'abc\n");
    assert_eq!(diagnostics.len(), 2);
    let first = diagnostics[0].diagnostic.cause.as_ref().unwrap().cause.as_ref().unwrap();
    assert_eq!(first.parser, ParserKind::DoubleQuotedString);
    assert_eq!(first.state, "Body");
    assert_eq!(first.column_number, 8);
    assert_eq!(diagnostics[1].row_number, 2);
    let second = diagnostics[1].diagnostic.cause.as_ref().unwrap().cause.as_ref().unwrap();
    assert_eq!(second.parser, ParserKind::SingleQuotedString);
}

#[test]
fn bad_escapes_fail() {
    for text in ["a = \"\\q\"\n", "a = \"\\1\"\n", "a = \"\\u00g0\"\n", "a = \"\\uD800\"\n", "a = \"\\UFFFFFFFF\"\n"] {
        let (d, diagnostics) = Toml::from_str(text);
        assert!(d.elements.is_empty(), "{}", text);
        assert_eq!(diagnostics.len(), 1, "{}", text);
        let string = diagnostics[0].diagnostic.cause.as_ref().unwrap().cause.as_ref().unwrap();
        assert_eq!(string.parser, ParserKind::DoubleQuotedString);
        let escape = string.cause.as_ref().unwrap();
        assert_eq!(escape.parser, ParserKind::EscapeSequence, "{}", text);
    }
    let (_, diagnostics) = Toml::from_str("a = \"\\u00g0\"\n");
    let escape = diagnostics[0].diagnostic.cause.as_ref().unwrap().cause.as_ref().unwrap().cause.as_ref().unwrap();
    assert_eq!(escape.state, "UnicodeDigits");
    assert_eq!(escape.token, "g");
    assert_eq!(escape.column_number, 10);
    let digits = escape.cause.as_ref().unwrap();
    assert_eq!(digits.parser, ParserKind::PositionalNumeralString);
}

#[test]
fn backslash_before_the_end_of_the_line() {
    let (_, diagnostics) = Toml::from_str("a = \"abc\\\n");
    assert_eq!(diagnostics.len(), 1);
    let string = diagnostics[0].diagnostic.cause.as_ref().unwrap().cause.as_ref().unwrap();
    assert_eq!(string.parser, ParserKind::DoubleQuotedString);
    assert!(string.cause.is_none());
}

#[test]
fn lines_and_line_endings() {
    let (d, diagnostics) = Toml::from_str("a = 1\r\nb = 2\n\nc = 3");
    assert!(diagnostics.is_empty());
    assert_eq!(d.elements.len(), 4);
    assert_eq!(d.get_i128_by_key("a"), Ok(Some(1)));
    assert_eq!(d.get_i128_by_key("c"), Ok(Some(3)));
    assert!(matches!(d.elements[2], Expression::EmptyLine));
    let (d, diagnostics) = Toml::from_str("");
    assert!(d.elements.is_empty() && diagnostics.is_empty());
    let (d, _) = Toml::from_str("\n");
    assert_eq!(d.elements.len(), 1);
}

#[test]
fn failing_line_is_skipped_and_reported() {
    let (d, diagnostics) = Toml::from_str("a = 1\n= 2\nb = 3\nc 4\n");
    assert_eq!(d.elements.len(), 2);
    assert_eq!(diagnostics.len(), 2);
    assert_eq!(diagnostics[0].row_number, 2);
    assert_eq!(diagnostics[0].diagnostic.parser, ParserKind::Expression);
    assert_eq!(diagnostics[0].diagnostic.state, "First");
    assert_eq!(diagnostics[0].diagnostic.token, "=");
    assert_eq!(diagnostics[0].diagnostic.column_number, 1);
    assert_eq!(diagnostics[1].row_number, 4);
    assert_eq!(diagnostics[1].diagnostic.cause.as_ref().unwrap().parser, ParserKind::KeyValue);
    assert_eq!(diagnostics[1].diagnostic.cause.as_ref().unwrap().state, "BeforeEquals");
}

#[test]
fn push_element_copies() {
    let source = doc("a = { b = [ 'x' ] }\n");
    let mut d = TomlDocument::default();
    d.push_element(&source.elements[0]);
    d.push_element(&Expression::EmptyLine);
    assert_eq!(d.to_string(), "a = { b = [ 'x' ] }\n\n");
}

#[test]
fn comment_behind_a_key_value_gives_a_diagnostic() {
    let (d, diagnostics) = Toml::from_str("a = 1 # c\nb = 2\n");
    assert_eq!(d.to_string(), "b = 2\n");
    assert_eq!(diagnostics.len(), 1);
    assert_eq!(diagnostics[0].row_number, 1);
    assert_eq!(diagnostics[0].diagnostic.parser, ParserKind::Expression);
    assert_eq!(diagnostics[0].diagnostic.state, "AfterKeyValue");
    assert_eq!(diagnostics[0].diagnostic.token, "#");
    assert_eq!(diagnostics[0].diagnostic.column_number, 7);
}

#[test]
fn text_is_spelled_anew() {
    let (d, diagnostics) = Toml::from_str("a=1\n \t\ns = \"\\u0041\"\nt={b  =  'c'}\r\n");
    assert!(diagnostics.is_empty());
    assert_eq!(d.to_string(), "a = 1\n\ns = \"A\"\nt = { b = 'c' }\n");
}
