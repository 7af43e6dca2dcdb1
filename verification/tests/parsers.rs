use tomboy_toml_dom::diagnostic::{PResult, ParserKind};
use tomboy_toml_dom::lexer::LexicalParser;
use tomboy_toml_dom::model::{Expression, ItemValue, RightValue};
use tomboy_toml_dom::parser::array::{ArrayP, ArrayState};
use tomboy_toml_dom::parser::comment_p::CommentP;
use tomboy_toml_dom::parser::double_quoted_string_p::DoubleQuotedStringP;
use tomboy_toml_dom::parser::escape_sequence_p::{EscapeSequenceP, State as EscapeState};
use tomboy_toml_dom::parser::expression_p::ExpressionP;
use tomboy_toml_dom::parser::header_p_of_array_of_table::HeaderPOfArrayOfTable;
use tomboy_toml_dom::parser::header_p_of_table::HeaderPOfTable;
use tomboy_toml_dom::parser::inline_table::{InlineTableP, State as InlineTableState};
use tomboy_toml_dom::parser::key_value_p::KeyValueP;
use tomboy_toml_dom::parser::literal_value_p::LiteralValueP;
use tomboy_toml_dom::parser::positional_numeral_string_p::PositionalNumeralStringP;
use tomboy_toml_dom::parser::single_quoted_string_p::SingleQuotedStringP;
use tomboy_toml_dom::token::{
    Character, LookAheadCharacters, LookAheadTokens, Token, TokenType,
};
use tomboy_toml_dom::toml::{parse_line, parse_tokens};

fn tokens_of(line: &str) -> Vec<Token> {
    let mut p = LexicalParser::new(1);
    p.parse_line(line);
    p.product().tokens.clone()
}

fn window(current: char, column: usize, ahead: Option<char>) -> LookAheadCharacters {
    LookAheadCharacters {
        current: Character::new(column, current),
        one_ahead: ahead.map(|c| Character::new(column + 1, c)),
    }
}

#[test]
fn escape_sequence_line_feed() {
    let mut p = EscapeSequenceP::default();
    assert!(matches!(p.parse(&window('\\', 3, Some('n'))), PResult::Ongoing));
    assert_eq!(p.state, EscapeState::EscapedCharacter);
    assert!(matches!(p.parse(&window('n', 4, Some('"'))), PResult::End));
    assert_eq!(p.state, EscapeState::End);
    let tokens = p.flush();
    assert_eq!(tokens.len(), 1);
    assert_eq!(tokens[0].value, "\n");
    assert_eq!(tokens[0].column_number, 4);
    assert_eq!(tokens[0].type_, TokenType::EscapeSequence);
    assert!(p.flush().is_empty());
    match p.parse(&window('x', 5, None)) {
        PResult::Failed(d) => {
            assert_eq!(d.parser, ParserKind::EscapeSequence);
            assert_eq!(d.state, "End");
            assert_eq!(d.token, "x");
            assert_eq!(d.column_number, 5);
        }
        other => panic!("{:?}", other),
    }
}

#[test]
fn escape_sequence_code_point() {
    let mut p = EscapeSequenceP::default();
    assert!(matches!(p.parse(&window('\\', 1, Some('u'))), PResult::Ongoing));
    assert!(matches!(p.parse(&window('u', 2, Some('0'))), PResult::Ongoing));
    assert_eq!(p.state, EscapeState::UnicodeDigits);
    assert!(matches!(p.parse(&window('0', 3, Some('0'))), PResult::Ongoing));
    assert!(matches!(p.parse(&window('0', 4, Some('4'))), PResult::Ongoing));
    assert!(matches!(p.parse(&window('4', 5, Some('1'))), PResult::Ongoing));
    assert!(matches!(p.parse(&window('1', 6, None)), PResult::End));
    let tokens = p.flush();
    assert_eq!(tokens[0].value, "A");
    assert_eq!(tokens[0].column_number, 6);
}

#[test]
fn escape_sequence_before_end_of_line_stands_for_nothing() {
    let mut p = EscapeSequenceP::default();
    assert!(matches!(p.parse(&window('\\', 9, Some('\n'))), PResult::End));
    assert!(p.flush().is_empty());
}

#[test]
fn escape_sequence_refuses_what_it_does_not_know() {
    let mut p = EscapeSequenceP::default();
    assert!(matches!(p.parse(&window('\\', 1, Some('1'))), PResult::Failed(_)));
    let mut p = EscapeSequenceP::default();
    assert!(matches!(p.parse(&window('\\', 1, None)), PResult::Failed(_)));
    let mut p = EscapeSequenceP::default();
    assert!(matches!(p.parse(&window('\\', 1, Some('x'))), PResult::Ongoing));
    match p.parse(&window('x', 2, None)) {
        PResult::Failed(d) => assert_eq!(d.state, "EscapedCharacter"),
        other => panic!("{:?}", other),
    }
}

#[test]
fn positional_numeral_string_takes_its_digits() {
    let mut p = PositionalNumeralStringP::new(16).set_expected_digits(2);
    assert!(matches!(p.parse(&window('f', 1, None)), PResult::Ongoing));
    assert!(matches!(p.parse(&window('F', 2, None)), PResult::End));
    assert!(matches!(p.parse(&window('0', 3, None)), PResult::Failed(_)));
    assert_eq!(p.flush(), "fF");
    assert_eq!(p.flush(), "");
    let mut p = PositionalNumeralStringP::new(2).set_expected_digits(4);
    assert!(matches!(p.parse(&window('1', 1, None)), PResult::Ongoing));
    match p.parse(&window('2', 2, None)) {
        PResult::Failed(d) => {
            assert_eq!(d.parser, ParserKind::PositionalNumeralString);
            assert_eq!(d.state, "Digits");
            assert_eq!(d.token, "2");
        }
        other => panic!("{:?}", other),
    }
    let mut p = PositionalNumeralStringP::new(16);
    assert!(matches!(p.parse(&window('0', 1, None)), PResult::Failed(_)));
}

fn drive_array(line: &str) -> (ArrayP, Option<PResult>, usize) {
    let tokens = tokens_of(line);
    let mut p = ArrayP::default();
    for i in 0..tokens.len() {
        match p.parse(&LookAheadTokens::at(&tokens, i)) {
            PResult::Ongoing => {}
            other => return (p, Some(other), i),
        }
    }
    (p, None, tokens.len())
}

#[test]
fn array_parser_reads_to_the_closing_bracket() {
    let (mut p, r, i) = drive_array(" 'a', \"b\" , 1_0 ]x");
    assert!(matches!(r, Some(PResult::End)));
    assert_eq!(i, 16);
    assert_eq!(p.state, ArrayState::End);
    let a = p.flush().unwrap();
    assert_eq!(a.items.len(), 3);
    assert!(matches!(&a.items[0], ItemValue::SingleQuotedString(s) if s.value == "a"));
    assert!(matches!(&a.items[1], ItemValue::DoubleQuotedString(s) if s.value == "b"));
    assert!(matches!(&a.items[2], ItemValue::LiteralString(s) if s.value == "1_0"));
    assert!(p.flush().is_none());
    let tokens = tokens_of("x");
    match p.parse(&LookAheadTokens::at(&tokens, 0)) {
        PResult::Failed(d) => {
            assert_eq!(d.parser, ParserKind::Array);
            assert_eq!(d.state, "End");
            assert_eq!(d.token, "x");
            assert_eq!(d.column_number, 1);
        }
        other => panic!("{:?}", other),
    }
}

#[test]
fn array_parser_states() {
    let (p, r, i) = drive_array(" 'a'");
    assert!(matches!(r, Some(PResult::Failed(_))));
    assert_eq!(i, 4);
    assert_eq!(p.state, ArrayState::AfterSingleQuotedString);
    let (p, _, _) = drive_array(" \"a\" ");
    assert_eq!(p.state, ArrayState::AfterDoubleQuotedString);
    let (p, r, _) = drive_array(" 12");
    assert!(matches!(r, Some(PResult::Failed(_))));
    assert_eq!(p.state, ArrayState::AfterItem);
    let (p, r, _) = drive_array(" 12,");
    assert!(matches!(r, Some(PResult::Failed(_))));
    assert_eq!(p.state, ArrayState::AfterLeftSquareBracket);
    let (p, _, _) = drive_array("'a");
    assert_eq!(p.state, ArrayState::SingleQuotedString);
    let (p, _, _) = drive_array("\"a");
    assert_eq!(p.state, ArrayState::DoubleQuotedString);
    let tokens = tokens_of("1_0");
    let mut p = ArrayP::default();
    assert!(matches!(p.parse(&LookAheadTokens::at(&tokens, 0)), PResult::Ongoing));
    assert_eq!(p.state, ArrayState::LiteralString);
}

#[test]
fn array_parser_refuses_an_empty_array_and_a_nested_one() {
    let (_, r, i) = drive_array("]");
    assert!(matches!(r, Some(PResult::Failed(_))));
    assert_eq!(i, 0);
    let (_, r, _) = drive_array(" [ 1 ] ]");
    match r {
        Some(PResult::Failed(d)) => {
            assert_eq!(d.state, "AfterLeftSquareBracket");
            assert_eq!(d.token, "[");
            assert_eq!(d.column_number, 2);
        }
        other => panic!("{:?}", other),
    }
    let (_, r, _) = drive_array(" 1 2 ]");
    match r {
        Some(PResult::Failed(d)) => {
            assert_eq!(d.state, "AfterItem");
            assert_eq!(d.token, "2");
        }
        other => panic!("{:?}", other),
    }
}

#[test]
fn inline_table_parser() {
    let tokens = tokens_of(" a = 1, b-c = 'x' }");
    let mut p = InlineTableP::default();
    let mut end = None;
    for i in 0..tokens.len() {
        match p.parse(&LookAheadTokens::at(&tokens, i)) {
            PResult::Ongoing => {}
            PResult::End => {
                end = Some(i);
                break;
            }
            other => panic!("{:?}", other),
        }
    }
    assert_eq!(end, Some(tokens.len() - 2));
    assert_eq!(p.state, InlineTableState::AfterKeyValue);
    let t = p.flush().unwrap();
    assert_eq!(t.to_string(), "{ a = 1, b-c = 'x' }");
    assert!(p.flush().is_none());
}

#[test]
fn inline_table_parser_refuses_an_empty_table() {
    let tokens = tokens_of("}");
    let mut p = InlineTableP::default();
    match p.parse(&LookAheadTokens::at(&tokens, 0)) {
        PResult::Failed(d) => {
            assert_eq!(d.parser, ParserKind::InlineTable);
            assert_eq!(d.state, "AfterLeftCurlyBracket");
        }
        other => panic!("{:?}", other),
    }
    let tokens = tokens_of(" a = 1 b");
    let mut p = InlineTableP::default();
    let mut last = PResult::Ongoing;
    for i in 0..tokens.len() {
        last = p.parse(&LookAheadTokens::at(&tokens, i));
        if !matches!(last, PResult::Ongoing) {
            break;
        }
    }
    match last {
        PResult::Failed(d) => {
            assert_eq!(d.state, "AfterKeyValue");
            assert_eq!(d.token, "b");
            assert_eq!(d.column_number, 8);
        }
        other => panic!("{:?}", other),
    }
}

#[test]
fn header_parsers_take_everything_up_to_a_double_quote() {
    let tokens = tokens_of("a.b]\"c");
    let mut p = HeaderPOfArrayOfTable::new();
    for i in 0..4 {
        assert!(matches!(p.parse(&LookAheadTokens::at(&tokens, i)), PResult::Ongoing));
    }
    assert!(matches!(p.parse(&LookAheadTokens::at(&tokens, 4)), PResult::End));
    assert_eq!(p.flush().unwrap().value, "a.b]");
    assert!(p.flush().is_none());
    assert!(matches!(p.parse(&LookAheadTokens::at(&tokens, 5)), PResult::Ongoing));
    assert_eq!(p.flush().unwrap().value, "c");

    let mut p = HeaderPOfTable::new();
    assert!(matches!(p.parse(&LookAheadTokens::at(&tokens, 0)), PResult::Ongoing));
    assert!(matches!(p.parse(&LookAheadTokens::at(&tokens, 6)), PResult::Ongoing));
    assert_eq!(p.flush().unwrap().value, "a\n");
}

#[test]
fn string_parsers() {
    let tokens = tokens_of("'a\\n b'x");
    let mut p = SingleQuotedStringP::new();
    for i in 0..6 {
        assert!(matches!(p.parse(&LookAheadTokens::at(&tokens, i)), PResult::Ongoing));
    }
    assert!(matches!(p.parse(&LookAheadTokens::at(&tokens, 6)), PResult::End));
    assert!(matches!(p.parse(&LookAheadTokens::at(&tokens, 7)), PResult::Failed(_)));
    assert_eq!(p.flush().unwrap().value, "a\\n b");

    let tokens = tokens_of("\"a\\n b\"x");
    let mut p = DoubleQuotedStringP::new();
    for i in 0..6 {
        assert!(matches!(p.parse(&LookAheadTokens::at(&tokens, i)), PResult::Ongoing));
    }
    assert!(matches!(p.parse(&LookAheadTokens::at(&tokens, 6)), PResult::End));
    assert!(matches!(p.parse(&LookAheadTokens::at(&tokens, 7)), PResult::Failed(_)));
    assert_eq!(p.flush().unwrap().value, "a\n b");

    let tokens = tokens_of("x");
    let mut p = DoubleQuotedStringP::new();
    match p.parse(&LookAheadTokens::at(&tokens, 0)) {
        PResult::Failed(d) => assert_eq!(d.state, "Start"),
        other => panic!("{:?}", other),
    }
    let mut p = SingleQuotedStringP::new();
    assert!(matches!(p.parse(&LookAheadTokens::at(&tokens, 0)), PResult::Failed(_)));
}

#[test]
fn literal_value_parser_ends_by_looking_ahead() {
    let tokens = tokens_of("1979-05-27T07:32:00Z,");
    let mut p = LiteralValueP::new();
    let n = tokens.len();
    for i in 0..n - 3 {
        assert!(matches!(p.parse(&LookAheadTokens::at(&tokens, i)), PResult::Ongoing), "{}", i);
    }
    assert!(matches!(p.parse(&LookAheadTokens::at(&tokens, n - 3)), PResult::End));
    assert!(matches!(p.parse(&LookAheadTokens::at(&tokens, n - 2)), PResult::Failed(_)));
    assert_eq!(p.flush().unwrap().to_string(), "1979-05-27T07:32:00Z");
    let mut p = LiteralValueP::new();
    match p.parse(&LookAheadTokens::at(&tokens, n - 2)) {
        PResult::Failed(d) => {
            assert_eq!(d.parser, ParserKind::LiteralValue);
            assert_eq!(d.token, ",");
        }
        other => panic!("{:?}", other),
    }
}

#[test]
fn comment_parser() {
    let tokens = tokens_of(" a # b");
    let mut p = CommentP::new();
    for i in 0..tokens.len() - 1 {
        assert!(matches!(p.parse(&LookAheadTokens::at(&tokens, i)), PResult::Ongoing));
    }
    assert!(matches!(p.parse(&LookAheadTokens::at(&tokens, tokens.len() - 1)), PResult::End));
    assert!(matches!(p.parse(&LookAheadTokens::at(&tokens, 0)), PResult::Failed(_)));
    assert_eq!(p.flush().unwrap().value, " a # b");
}

#[test]
fn key_value_parser() {
    let tokens = tokens_of("a_1-b.c  =  [ 1 ]");
    let mut p = KeyValueP::new(&tokens[0], true);
    let mut end = None;
    for i in 1..tokens.len() {
        match p.parse(&LookAheadTokens::at(&tokens, i)) {
            PResult::Ongoing => {}
            PResult::End => {
                end = Some(i);
                break;
            }
            other => panic!("{:?}", other),
        }
    }
    assert_eq!(end, Some(tokens.len() - 2));
    let m = p.flush().unwrap();
    assert_eq!(m.key, "a_1-b.c");
    assert_eq!(m.to_string(), "a_1-b.c = [ 1 ]");
    assert!(matches!(
        p.parse(&LookAheadTokens::at(&tokens, 0)),
        PResult::Failed(_)
    ));

    let mut p = KeyValueP::new(&tokens[0], false);
    for i in 1..5 {
        assert!(matches!(p.parse(&LookAheadTokens::at(&tokens, i)), PResult::Ongoing));
    }
    match p.parse(&LookAheadTokens::at(&tokens, 5)) {
        PResult::Failed(d) => {
            assert_eq!(d.parser, ParserKind::KeyValue);
            assert_eq!(d.state, "Key");
            assert_eq!(d.token, ".");
            assert_eq!(d.column_number, 6);
        }
        other => panic!("{:?}", other),
    }
}

#[test]
fn key_value_parser_wants_a_value() {
    for (line, state) in [("a", "Key"), ("a ", "BeforeEquals"), ("a =", "AfterEquals"), ("a = ]", "AfterEquals")] {
        match parse_line(line, 1) {
            Err(d) => {
                assert_eq!(d.parser, ParserKind::Expression);
                let cause = d.cause.unwrap();
                assert_eq!(cause.parser, ParserKind::KeyValue);
                assert_eq!(cause.state, state, "{}", line);
            }
            other => panic!("{:?}", other),
        }
    }
}

#[test]
fn expression_parser_flushes_once() {
    let tokens = tokens_of("a = 1 \r");
    let mut p = ExpressionP::default();
    let mut last = PResult::Ongoing;
    for i in 0..tokens.len() {
        last = p.parse(&LookAheadTokens::at(&tokens, i));
    }
    assert!(matches!(last, PResult::End));
    assert!(matches!(p.flush(), Some(Expression::KeyValue(_))));
    assert!(p.flush().is_none());
    assert!(matches!(
        p.parse(&LookAheadTokens::at(&tokens, 0)),
        PResult::Failed(_)
    ));
}

#[test]
fn lines_of_every_kind() {
    assert!(matches!(parse_line("", 1), Ok(Expression::EmptyLine)));
    assert!(matches!(parse_line(" \t ", 1), Ok(Expression::EmptyLine)));
    assert!(matches!(parse_line("  # x", 1), Ok(Expression::Comment(c)) if c.value == " x"));
    assert!(matches!(parse_line("[a.b]", 1), Ok(Expression::HeaderOfTable(h)) if h.value == "a.b]"));
    assert!(matches!(parse_line("[[a]]", 1), Ok(Expression::HeaderOfArrayOfTable(h)) if h.value == "a]]"));
    assert!(matches!(parse_line("[ [a]", 1), Ok(Expression::HeaderOfTable(h)) if h.value == " [a]"));
    match parse_line("k = v", 1) {
        Ok(Expression::KeyValue(m)) => {
            assert_eq!(m.key, "k");
            assert!(matches!(&*m.value, RightValue::LiteralString(s) if s.value == "v"));
        }
        other => panic!("{:?}", other),
    }
    match parse_line("k = 1 x", 1) {
        Err(d) => {
            assert_eq!(d.state, "AfterKeyValue");
            assert_eq!(d.token, "x");
            assert_eq!(d.column_number, 7);
            assert!(d.cause.is_none());
        }
        other => panic!("{:?}", other),
    }
    match parse_line("k = 1 # c", 1) {
        Err(d) => {
            assert_eq!(d.state, "AfterKeyValue");
            assert_eq!(d.token, "#");
        }
        other => panic!("{:?}", other),
    }
    assert!(matches!(parse_line("\r", 1), Ok(Expression::EmptyLine)));
    assert!(matches!(parse_line(" \r\r ", 1), Ok(Expression::EmptyLine)));
    assert!(matches!(parse_line("# c\r", 1), Ok(Expression::Comment(c)) if c.value == " c\r"));
    match parse_line("'k' = 1", 1) {
        Err(d) => assert_eq!(d.state, "First"),
        other => panic!("{:?}", other),
    }
}

#[test]
fn tokens_without_an_end_of_line_leave_the_line_unfinished() {
    let mut tokens = tokens_of("a = 'x");
    tokens.pop();
    match parse_tokens(&tokens) {
        Err(d) => {
            assert_eq!(d.parser, ParserKind::Expression);
            assert_eq!(d.state, "KeyValue");
            assert_eq!(d.token, "");
            assert_eq!(d.column_number, 0);
        }
        other => panic!("{:?}", other),
    }
    assert!(parse_tokens(&Vec::new()).is_err());
}
