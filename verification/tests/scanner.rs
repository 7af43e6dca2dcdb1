use tomboy_toml_dom::lexer::LexicalParser;
use tomboy_toml_dom::token::TokenType;

fn scan(line: &str) -> Vec<(usize, String, TokenType)> {
    let mut p = LexicalParser::new(1);
    p.parse_line(line);
    p.product()
        .tokens
        .iter()
        .map(|t| (t.column_number, t.value.clone(), t.type_))
        .collect()
}

fn tok(column: usize, value: &str, type_: TokenType) -> (usize, String, TokenType) {
    (column, value.to_string(), type_)
}

#[test]
fn empty_line_gives_only_end_of_line() {
    assert_eq!(scan(""), vec![tok(0, "\n", TokenType::EndOfLine)]);
}

#[test]
fn runs_of_letters_digits_and_white_space_merge() {
    assert_eq!(
        scan("abc  \t123"),
        vec![
            tok(1, "abc", TokenType::AlphabetString),
            tok(4, "  \t", TokenType::WhiteSpaceString),
            tok(7, "123", TokenType::NumeralString),
            tok(9, "\n", TokenType::EndOfLine),
        ]
    );
}

#[test]
fn each_special_character_is_its_own_token() {
    let line = ":,.\"=-{[}]#'_\\";
    let kinds = vec![
        TokenType::Colon,
        TokenType::Comma,
        TokenType::Dot,
        TokenType::DoubleQuotation,
        TokenType::Equals,
        TokenType::Hyphen,
        TokenType::LeftCurlyBracket,
        TokenType::LeftSquareBracket,
        TokenType::RightCurlyBracket,
        TokenType::RightSquareBracket,
        TokenType::Sharp,
        TokenType::SingleQuotation,
        TokenType::Underscore,
        TokenType::Backslash,
    ];
    let tokens = scan(line);
    assert_eq!(tokens.len(), 15);
    for (i, c) in line.chars().enumerate() {
        assert_eq!(tokens[i], (i + 1, c.to_string(), kinds[i]));
    }
    assert_eq!(tokens[14], tok(14, "\n", TokenType::EndOfLine));
}

#[test]
fn repeated_special_characters_do_not_merge() {
    assert_eq!(
        scan("[["),
        vec![
            tok(1, "[", TokenType::LeftSquareBracket),
            tok(2, "[", TokenType::LeftSquareBracket),
            tok(2, "\n", TokenType::EndOfLine),
        ]
    );
}

#[test]
fn other_characters_are_unknown_and_single() {
    assert_eq!(
        scan("++@"),
        vec![
            tok(1, "+", TokenType::Unknown),
            tok(2, "+", TokenType::Unknown),
            tok(3, "@", TokenType::Unknown),
            tok(3, "\n", TokenType::EndOfLine),
        ]
    );
}

#[test]
fn letter_behind_backslash_stands_alone() {
    assert_eq!(
        scan("\\nabc"),
        vec![
            tok(1, "\\", TokenType::Backslash),
            tok(2, "n", TokenType::AlphabetString),
            tok(3, "abc", TokenType::AlphabetString),
            tok(5, "\n", TokenType::EndOfLine),
        ]
    );
}

#[test]
fn backslash_before_digit_changes_nothing() {
    assert_eq!(
        scan("\\12"),
        vec![
            tok(1, "\\", TokenType::Backslash),
            tok(2, "12", TokenType::NumeralString),
            tok(3, "\n", TokenType::EndOfLine),
        ]
    );
}

#[test]
fn columns_count_characters_not_bytes() {
    assert_eq!(
        scan("é=ab"),
        vec![
            tok(1, "é", TokenType::Unknown),
            tok(2, "=", TokenType::Equals),
            tok(3, "ab", TokenType::AlphabetString),
            tok(4, "\n", TokenType::EndOfLine),
        ]
    );
}

#[test]
fn token_texts_joined_give_the_line_back() {
    let line = "key_1 = [ 'a', \"b\\n\" ]  # note";
    let joined: String = scan(line).into_iter().map(|t| t.1).collect();
    assert_eq!(joined, format!("{}\n", line));
}

#[test]
fn second_line_appends_to_the_product() {
    let mut p = LexicalParser::new(7);
    p.parse_line("a");
    p.parse_line("1");
    assert_eq!(p.product().row_number, 7);
    let kinds: Vec<TokenType> = p.product().tokens.iter().map(|t| t.type_).collect();
    assert_eq!(
        kinds,
        vec![
            TokenType::AlphabetString,
            TokenType::EndOfLine,
            TokenType::NumeralString,
            TokenType::EndOfLine,
        ]
    );
}
