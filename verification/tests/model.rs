use tomboy_toml_dom::document::DocumentM;
use tomboy_toml_dom::model::{
    Array, Comment, DateTime, Document, DoubleQuotedString, Element, Expression,
    HeaderOfArrayOfTable, HeaderOfTable, InlineTable, ItemValue, KeyValue, LiteralString,
    RightValue, SingleQuotedString,
};
use tomboy_toml_dom::numeric::{
    digit_in, is_nan, radix_of, read_bool, read_integer, without_underscores, IntegerLiteral,
};
use tomboy_toml_dom::render::tag_text;
use tomboy_toml_dom::text::{chars_of, string_of};
use tomboy_toml_dom::token::{
    character_type, characters_of, in_literal, is_carriage_return, is_key_token,
    is_literal_token, token_type_of, tokens_stringify, CharacterType, Token, TokenType,
};
use tomboy_toml_dom::toml::Toml;

fn chars(s: &str) -> Vec<char> {
    s.chars().collect()
}

#[test]
fn literal_string_collects_token_texts() {
    let mut m = LiteralString::default();
    assert_eq!(m.to_string(), "");
    m.push_token(&Token::new(1, "1", TokenType::NumeralString));
    m.extend_tokens(&vec![
        Token::new(2, "_", TokenType::Underscore),
        Token::new(3, "000", TokenType::NumeralString),
    ]);
    assert_eq!(m.to_string(), "1_000");
    assert_eq!(m.to_debug_string(), "LiteralString(1_000)");
    let n = LiteralString::new(&Token::new(9, "true", TokenType::AlphabetString));
    assert_eq!(n.to_string(), "true");
}

#[test]
fn header_models_collect_token_texts() {
    let mut t = HeaderOfTable::default();
    t.push_token(&Token::new(2, "a", TokenType::AlphabetString));
    t.push_token(&Token::new(3, ".", TokenType::Dot));
    assert_eq!(t.value, "a.");
    let mut a = HeaderOfArrayOfTable::default();
    a.push_token(&Token::new(3, "b", TokenType::AlphabetString));
    assert_eq!(a.value, "b");
}

#[test]
fn array_and_inline_table_builders() {
    let mut a = Array::default();
    a.push_literal_string(&LiteralString { value: "1".to_string() });
    a.push_double_quote_string(&DoubleQuotedString { value: "a\"b".to_string() });
    a.push_single_quote_string(&SingleQuotedString { value: "c".to_string() });
    assert_eq!(a.to_string(), "[ 1, \"a\\\"b\", 'c' ]");
    let mut t = InlineTable::default();
    let kv = KeyValue::new("k", RightValue::Array(a.clone()));
    t.push_key_value(&kv);
    t.push_key_value(&KeyValue::new("l", RightValue::InlineTable(t.clone())));
    assert_eq!(
        t.to_string(),
        "{ k = [ 1, \"a\\\"b\", 'c' ], l = { k = [ 1, \"a\\\"b\", 'c' ] } }"
    );
    assert_eq!(kv.to_string(), "k = [ 1, \"a\\\"b\", 'c' ]");
    assert_eq!(ItemValue::KeyValue(kv.clone()).to_string(), kv.to_string());
    assert_eq!(ItemValue::Array(a.clone()).clone().to_string(), a.to_string());
    assert_eq!(RightValue::InlineTable(t.clone()).clone().to_string(), t.to_string());
}

#[test]
fn double_quoted_strings_are_written_with_escapes() {
    let s = DoubleQuotedString { value: "a\"b\\c\nd\re\tf é".to_string() };
    assert_eq!(s.to_string(), "\"a\\\"b\\\\c\\nd\\re\\tf é\"");
    assert_eq!(s.to_debug_string(), "DoubleQuotedString(\"a\\\"b\\\\c\\nd\\re\\tf é\")");
    let (d, diagnostics) = Toml::from_str(&format!("k = {}\n", s.to_string()));
    assert!(diagnostics.is_empty());
    assert_eq!(d.get_string_by_key("k").unwrap(), s.value);
    let q = SingleQuotedString { value: "a\\b".to_string() };
    assert_eq!(q.to_string(), "'a\\b'");
    assert_eq!(q.to_debug_string(), "SingleQuotedString('a\\b')");
}

#[test]
fn expressions_as_lines() {
    let c = Expression::Comment(Comment { value: " c".to_string() });
    assert_eq!(c.to_string(), "# c");
    assert_eq!(c.to_debug_string(), "Comment(# c)");
    assert_eq!(Expression::EmptyLine.to_string(), "");
    assert_eq!(Expression::EmptyLine.to_debug_string(), "EmptyLine()");
    let h = Expression::HeaderOfTable(HeaderOfTable { value: "t]".to_string() });
    assert_eq!(h.to_string(), "[t]");
    assert_eq!(h.clone().to_debug_string(), "HeaderOfTable([t])");
    let a = Expression::HeaderOfArrayOfTable(HeaderOfArrayOfTable { value: "t]]".to_string() });
    assert_eq!(a.to_string(), "[[t]]");
    assert_eq!(a.to_debug_string(), "HeaderOfArrayOfTable([[t]])");
    let k = Expression::KeyValue(KeyValue::new(
        "k",
        RightValue::LiteralString(LiteralString { value: "1".to_string() }),
    ));
    assert_eq!(k.to_string(), "k = 1");
    assert_eq!(k.to_debug_string(), "KeyValue(k = 1)");
    assert_eq!(tag_text("T", "x"), "T(x)");
}

#[test]
fn text_conversions() {
    assert_eq!(chars_of("aé\n"), vec!['a', 'é', '\n']);
    assert_eq!(string_of(&vec!['a', 'é', '\n']), "aé\n");
    assert!(chars_of("").is_empty());
}

#[test]
fn token_helpers() {
    let t = Token::new(usize::MAX - 1, "abc", TokenType::AlphabetString);
    assert_eq!(t.to_string(), "abc");
    assert_eq!(t.clone().column_number, usize::MAX - 1);
    let cs = characters_of(&t);
    assert_eq!(cs.len(), 3);
    assert_eq!(cs[0].column_number, usize::MAX - 1);
    assert_eq!(cs[1].column_number, usize::MAX);
    assert_eq!(cs[2].column_number, usize::MAX);
    assert_eq!(cs[2].value, 'c');
    assert_eq!(cs[2].type_, CharacterType::Alpha);
    assert_eq!(
        tokens_stringify(&vec![t, Token::new(1, "=", TokenType::Equals)]),
        "abc="
    );
    assert_eq!(tokens_stringify(&Vec::new()), "");
}

#[test]
fn character_classes() {
    assert_eq!(character_type('a'), CharacterType::Alpha);
    assert_eq!(character_type('Z'), CharacterType::Alpha);
    assert_eq!(character_type('@'), CharacterType::Unknown);
    assert_eq!(character_type('['), CharacterType::LeftSquareBracket);
    assert_eq!(character_type('`'), CharacterType::Unknown);
    assert_eq!(character_type('{'), CharacterType::LeftCurlyBracket);
    assert_eq!(character_type('0'), CharacterType::Digit);
    assert_eq!(character_type('9'), CharacterType::Digit);
    assert_eq!(character_type('/'), CharacterType::Unknown);
    assert_eq!(character_type(':'), CharacterType::Colon);
    assert_eq!(character_type('\t'), CharacterType::Whitespace);
    assert_eq!(character_type('\n'), CharacterType::Newline);
    assert_eq!(character_type('\r'), CharacterType::Unknown);
    assert_eq!(character_type('+'), CharacterType::Unknown);
    assert_eq!(token_type_of(CharacterType::Newline), TokenType::Unknown);
    assert_eq!(token_type_of(CharacterType::Digit), TokenType::NumeralString);
    assert!(is_literal_token(TokenType::Unknown));
    assert!(is_literal_token(TokenType::Colon));
    assert!(!is_literal_token(TokenType::Comma));
    assert!(!is_literal_token(TokenType::WhiteSpaceString));
    assert!(!is_literal_token(TokenType::EndOfLine));
    assert!(is_key_token(TokenType::Hyphen));
    assert!(!is_key_token(TokenType::Dot));
}

#[test]
fn digits() {
    assert_eq!(digit_in('7', 8), Some(7));
    assert_eq!(digit_in('8', 8), None);
    assert_eq!(digit_in('z', 36), Some(35));
    assert_eq!(digit_in('Z', 36), Some(35));
    assert_eq!(digit_in('a', 10), None);
    assert_eq!(digit_in('_', 36), None);
    assert_eq!(digit_in('0', 0), None);
}

#[test]
fn reading_integers() {
    let value = |s: &str, signed: bool, max: u128, below: u128| match read_integer(
        &chars(s),
        signed,
        max,
        below,
    ) {
        IntegerLiteral::Value(m) => Some((m.negative, m.magnitude)),
        IntegerLiteral::NoValue => None,
        IntegerLiteral::Malformed => panic!("{}", s),
    };
    assert_eq!(value("1_2_3", true, 1000, 1000), Some((false, 123)));
    assert_eq!(value("-1000", true, 999, 1000), Some((true, 1000)));
    assert_eq!(value("-1001", true, 999, 1000), None);
    assert_eq!(value("1000", true, 999, 1000), None);
    assert_eq!(value("-1", false, 999, 0), None);
    assert_eq!(value("+", true, 999, 1000), None);
    assert_eq!(value("-", true, 999, 1000), None);
    assert_eq!(value("", true, 999, 1000), None);
    assert_eq!(value("___", true, 999, 1000), None);
    assert_eq!(value("0o17", true, 999, 1000), Some((false, 15)));
    assert_eq!(value("0b-1", true, 999, 1000), Some((true, 1)));
    assert!(matches!(read_integer(&chars("0b"), true, 9, 9), IntegerLiteral::Malformed));
    assert!(matches!(read_integer(&chars("0x10"), true, 15, 9), IntegerLiteral::Malformed));
    assert!(matches!(read_integer(&chars("0B1"), true, 9, 9), IntegerLiteral::NoValue));
    assert_eq!(radix_of(&chars("0x")), 16);
    assert_eq!(radix_of(&chars("0o7")), 8);
    assert_eq!(radix_of(&chars("0b")), 2);
    assert_eq!(radix_of(&chars("0")), 10);
    assert_eq!(radix_of(&chars("1x")), 10);
    assert_eq!(without_underscores(&chars("_1__2_")), chars("12"));
}

#[test]
fn reading_booleans_and_nans() {
    assert_eq!(read_bool(&chars("true")), Some(true));
    assert_eq!(read_bool(&chars("false")), Some(false));
    assert_eq!(read_bool(&chars("truee")), None);
    assert_eq!(read_bool(&chars("fals")), None);
    assert_eq!(read_bool(&chars("")), None);
    assert!(is_nan(&chars("nan")));
    assert!(is_nan(&chars("+nan")));
    assert!(is_nan(&chars("-nan")));
    assert!(!is_nan(&chars("NaN")));
    assert!(!is_nan(&chars("*nan")));
    assert!(!is_nan(&chars("nan0")));
    assert!(!is_nan(&chars("")));
}

#[test]
fn carriage_returns_before_the_end_of_a_line() {
    let (d, diagnostics) = Toml::from_str("a = 1\r\r\n# c\r\n[t]\r\n\r\nb = 'x'\r");
    assert!(diagnostics.is_empty());
    assert_eq!(d.get_i128_by_key("a"), Ok(Some(1)));
    assert_eq!(d.get_string_by_key("b").unwrap(), "x");
    assert_eq!(d.to_string(), "a = 1\n# c\r\n[t]\r\n\nb = 'x'\n");
    let (again, diagnostics) = Toml::from_str(&d.to_string());
    assert!(diagnostics.is_empty());
    assert_eq!(again.to_debug_string(), d.to_debug_string());
}

#[test]
fn carriage_return_is_no_part_of_an_unquoted_scalar() {
    let (d, diagnostics) = Toml::from_str("a = 1\r \n");
    assert!(diagnostics.is_empty());
    assert_eq!(d.get_literal_string_by_key("a").unwrap().to_string(), "1");
    assert_eq!(d.to_string(), "a = 1\n");
    assert_eq!(Toml::from_str(&d.to_string()).0.to_debug_string(), d.to_debug_string());
    for text in ["a = 1\r2\n", "a = \r1\n", "a = [ 1\r ]\n", "a\r = 1\n"] {
        let (d, diagnostics) = Toml::from_str(text);
        assert!(d.elements.is_empty(), "{:?}", text);
        assert_eq!(diagnostics.len(), 1, "{:?}", text);
    }
    let mut t = Token::new(1, "\r", TokenType::Unknown);
    assert!(is_carriage_return(&t));
    assert!(!in_literal(&t));
    t.value = "\r\r".to_string();
    assert!(!is_carriage_return(&t));
    assert!(in_literal(&Token::new(1, "+", TokenType::Unknown)));
    assert!(!in_literal(&Token::new(1, ",", TokenType::Comma)));
}

#[test]
fn date_time_collects_token_texts() {
    let mut m = DateTime::default();
    m.push_token(&Token::new(1, "1979", TokenType::NumeralString));
    m.extend_tokens(&vec![
        Token::new(5, "-", TokenType::Hyphen),
        Token::new(6, "05", TokenType::NumeralString),
    ]);
    assert_eq!(m.to_string(), "1979-05");
    assert_eq!(m.to_debug_string(), "DateTime(1979-05)");
    assert_eq!(m.clone().value, "1979-05");
}

#[test]
fn documents_of_comments_and_key_values() {
    let mut d = Document::default();
    assert_eq!(d.to_string(), "");
    d.push_element(&Element::Comment(Comment { value: " c".to_string() }));
    let kv = KeyValue::new("k", RightValue::LiteralString(LiteralString { value: "1".to_string() }));
    d.push_element(&Element::KeyValue(kv));
    assert_eq!(d.elements.len(), 2);
    assert_eq!(d.elements[1].to_string(), "k = 1");
    assert!(matches!(d.elements[0].to_expression(), Expression::Comment(c) if c.value == " c"));
    assert_eq!(d.to_string(), "# c\nk = 1\n");
    let t = d.to_toml_document();
    assert_eq!(t.get_i128_by_key("k"), Ok(Some(1)));
    assert_eq!(d.to_expressions().len(), 2);
    let mut m = DocumentM::default();
    assert_eq!(m.to_debug_string(), "");
    m.items = d.to_expressions();
    m.items.push(Expression::EmptyLine);
    assert_eq!(m.to_debug_string(), "Comment(# c)\nKeyValue(k = 1)\nEmptyLine()\n");
}

#[test]
fn integers_are_read_as_std_reads_them() {
    let samples = [
        "0", "00", "7", "+7", "-7", "--7", "+-7", "-+7", "7-", "", "+", "-", " 7", "7 ", "1e3",
        "0x", "0xff", "0XFF", "0xFF", "0xfg", "0o777", "0o778", "0b1012", "0b1111", "0x+f", "0x-f",
        "0x--f", "99999999999999999999999999999999999999999", "-0", "+0", "0b", "0o", "a", "z",
        "١٢٣", "1.5", "170141183460469231731687303715884105728",
        "-170141183460469231731687303715884105729", "0x7fffffffffffffffffffffffffffffff",
        "0x80000000000000000000000000000000", "0x-80000000000000000000000000000000",
        "0xffffffffffffffffffffffffffffffff", "0x100000000000000000000000000000000",
    ];
    for s in samples {
        let (radix, digits) = if s.starts_with("0b") {
            (2, &s[2..])
        } else if s.starts_with("0o") {
            (8, &s[2..])
        } else if s.starts_with("0x") {
            (16, &s[2..])
        } else {
            (10, s)
        };
        let signed = i128::from_str_radix(digits, radix).ok();
        let unsigned = u128::from_str_radix(digits, radix).ok();
        let cs = chars(s);
        match read_integer(&cs, true, i128::MAX as u128, i128::MAX as u128 + 1) {
            IntegerLiteral::Value(m) => {
                let v = signed.expect(s);
                assert_eq!(m.negative && m.magnitude != 0, v < 0, "{}", s);
                assert_eq!(m.magnitude, v.unsigned_abs(), "{}", s);
            }
            IntegerLiteral::NoValue => assert!(signed.is_none() && radix == 10, "{}", s),
            IntegerLiteral::Malformed => assert!(signed.is_none() && radix != 10, "{}", s),
        }
        match read_integer(&cs, false, u128::MAX, 0) {
            IntegerLiteral::Value(m) => {
                assert!(!m.negative, "{}", s);
                assert_eq!(Some(m.magnitude), unsigned, "{}", s);
            }
            IntegerLiteral::NoValue => assert!(unsigned.is_none() && radix == 10, "{}", s),
            IntegerLiteral::Malformed => assert!(unsigned.is_none() && radix != 10, "{}", s),
        }
    }
}
