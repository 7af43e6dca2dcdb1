//! Escape sequence parser.

use vstd::prelude::*;
use crate::diagnostic::PResult;
use crate::diagnostic::PResultView;
use crate::diagnostic::ParserKind;
use crate::diagnostic::error_character;
use crate::diagnostic::error_character_via;
use crate::diagnostic::spec_error_character;
use crate::diagnostic::spec_error_character_via;
use crate::numeric::lemma_digits_nonnegative;
use crate::numeric::parse_digits;
use crate::numeric::spec_char_from_u32;
use crate::numeric::spec_digits_value;
use crate::parser::positional_numeral_string_p::PositionalNumeralStringP;
use crate::parser::positional_numeral_string_p::PositionalNumeralStringPView;
use crate::text::chars_of;
use crate::token::CharacterType;
use crate::token::LookAheadCharacters;
use crate::token::Token;
use crate::token::TokenType;
use crate::token::TokenView;
use crate::token::tokens_view;

verus! {

/// Syntax machine state.
#[derive(Clone, Copy, Debug, PartialEq, Eq, Structural)]
pub enum State {
    End,
    /// On the backslash.
    First,
    /// After `\`.
    EscapedCharacter,
    UnicodeDigits,
}

/// Decodes one escape sequence, fed one character at a time from the
/// backslash on.
#[derive(Debug)]
pub struct EscapeSequenceP {
    pub positional_numeral_string_p: Option<PositionalNumeralStringP>,
    pub buffer: Vec<Token>,
    pub state: State,
}

/// The mathematical content of an [`EscapeSequenceP`].
pub struct EscapeSequencePView {
    pub positional_numeral_string_p: Option<PositionalNumeralStringPView>,
    pub buffer: Seq<TokenView>,
    pub state: State,
}

impl View for EscapeSequenceP {
    type V = EscapeSequencePView;

    open spec fn view(&self) -> EscapeSequencePView {
        EscapeSequencePView {
            positional_numeral_string_p: match self.positional_numeral_string_p {
                Some(p) => Some(p@),
                None => None,
            },
            buffer: tokens_view(self.buffer@),
            state: self.state,
        }
    }
}

/// The name of `state`.
pub open spec fn spec_state_name(state: State) -> Seq<char> {
    match state {
        State::End => "End"@,
        State::First => "First"@,
        State::EscapedCharacter => "EscapedCharacter"@,
        State::UnicodeDigits => "UnicodeDigits"@,
    }
}

/// The token for the decoded character `c`, found at `column_number`.
pub open spec fn escaped(column_number: usize, c: char) -> TokenView {
    TokenView {
        column_number: column_number as nat,
        value: seq![c],
        type_: TokenType::EscapeSequence,
    }
}

/// The character whose code point the hexadecimal digits `digits` write.
pub open spec fn decode_code_point(digits: Seq<char>) -> Option<char> {
    match spec_digits_value(digits, 16) {
        Some(v) => if v <= u32::MAX {
            spec_char_from_u32(v as u32)
        } else {
            None
        },
        None => None,
    }
}

impl EscapeSequencePView {
    /// The parser before its first token.
    pub open spec fn new() -> Self {
        EscapeSequencePView {
            positional_numeral_string_p: None,
            buffer: Seq::empty(),
            state: State::First,
        }
    }

    /// The escape sequence is complete: it stands for `c`.
    pub open spec fn emit(self, column_number: usize, c: char) -> (Self, PResultView) {
        (
            EscapeSequencePView {
                positional_numeral_string_p: None,
                buffer: self.buffer.push(escaped(column_number, c)),
                state: State::End,
            },
            PResultView::End,
        )
    }

    /// The parser cannot take the token: it stays as it is and says so.
    pub open spec fn fail(self, characters: LookAheadCharacters) -> (Self, PResultView) {
        (
            self,
            spec_error_character(
                ParserKind::EscapeSequence,
                spec_state_name(self.state),
                characters.current,
            ),
        )
    }

    /// Code point digits are awaited, `expected_digits` of them.
    pub open spec fn await_digits(self, expected_digits: usize) -> (Self, PResultView) {
        (
            EscapeSequencePView {
                positional_numeral_string_p: Some(
                    PositionalNumeralStringPView {
                        expected_digits,
                        ..PositionalNumeralStringPView::new(16)
                    },
                ),
                state: State::UnicodeDigits,
                ..self
            },
            PResultView::Ongoing,
        )
    }

    /// One step.
    ///
    /// * On the backslash: the character behind it decides. A letter, a
    ///   backslash or a double quote is awaited; before the end of the line
    ///   the sequence ends and stands for nothing; anything else fails.
    /// * Behind the backslash: `n`, `r`, `t` stand for line feed, carriage
    ///   return and tab; `\` and `"` for themselves; `u` and `U` announce
    ///   four and eight hexadecimal digits; anything else fails.
    /// * In the digits: with the last digit the sequence stands for the
    ///   character with that code point, and fails where there is none.
    pub open spec fn step(self, characters: LookAheadCharacters) -> (Self, PResultView) {
        let c0 = characters.current;
        match self.state {
            State::End => self.fail(characters),
            State::First => match characters.one_ahead {
                Some(c1) => match c1.type_ {
                    CharacterType::Alpha
                    | CharacterType::Backslash
                    | CharacterType::DoubleQuotation => (
                        EscapeSequencePView { state: State::EscapedCharacter, ..self },
                        PResultView::Ongoing,
                    ),
                    CharacterType::Newline => (
                        EscapeSequencePView { state: State::End, ..self },
                        PResultView::End,
                    ),
                    _ => self.fail(characters),
                },
                None => self.fail(characters),
            },
            State::EscapedCharacter => match c0.type_ {
                CharacterType::Alpha => if c0.value == 'n' {
                    self.emit(c0.column_number, '\n')
                } else if c0.value == 'r' {
                    self.emit(c0.column_number, '\r')
                } else if c0.value == 't' {
                    self.emit(c0.column_number, '\t')
                } else if c0.value == 'u' {
                    self.await_digits(4)
                } else if c0.value == 'U' {
                    self.await_digits(8)
                } else {
                    self.fail(characters)
                },
                CharacterType::Backslash => self.emit(c0.column_number, '\\'),
                CharacterType::DoubleQuotation => self.emit(c0.column_number, '"'),
                _ => self.fail(characters),
            },
            State::UnicodeDigits => match self.positional_numeral_string_p {
                None => self.fail(characters),
                Some(p) => {
                    let (q1, r) = p.step(characters);
                    match r {
                        PResultView::End => match decode_code_point(q1.buffer) {
                            Some(c) => self.emit(c0.column_number, c),
                            None => EscapeSequencePView {
                                positional_numeral_string_p: Some(
                                    PositionalNumeralStringPView { buffer: Seq::empty(), ..q1 },
                                ),
                                ..self
                            }.fail(characters),
                        },
                        PResultView::Failed(d) => (
                            EscapeSequencePView { positional_numeral_string_p: Some(q1), ..self },
                            spec_error_character_via(
                                d,
                                ParserKind::EscapeSequence,
                                spec_state_name(self.state),
                                c0,
                            ),
                        ),
                        PResultView::Ongoing => (
                            EscapeSequencePView { positional_numeral_string_p: Some(q1), ..self },
                            PResultView::Ongoing,
                        ),
                    }
                },
            },
        }
    }
}

/// The name of `state`.
pub fn state_name(state: State) -> (r: &'static str)
    ensures
        r@ == spec_state_name(state),
{
    match state {
        State::End => "End",
        State::First => "First",
        State::EscapedCharacter => "EscapedCharacter",
        State::UnicodeDigits => "UnicodeDigits",
    }
}

/// The character whose code point `digits` writes in hexadecimal digits.
fn code_point(digits: &str) -> (r: Option<char>)
    ensures
        r == decode_code_point(digits@),
{
    let v = chars_of(digits);
    proof {
        assert(v@.subrange(0, v@.len() as int) =~= v@);
        lemma_digits_nonnegative(v@, 16);
    }
    match parse_digits(&v, 0, 16, u32::MAX as u128) {
        Some(n) => char::from_u32(n as u32),
        None => None,
    }
}

impl Default for EscapeSequenceP {
    fn default() -> (r: Self)
        ensures
            r@ == EscapeSequencePView::new(),
    {
        let r = EscapeSequenceP {
            positional_numeral_string_p: None,
            buffer: Vec::new(),
            state: State::First,
        };
        assert(r@.buffer =~= Seq::empty());
        r
    }
}

impl EscapeSequenceP {
    /// Hands over the decoded tokens and forgets them.
    pub fn flush(&mut self) -> (r: Vec<Token>)
        ensures
            tokens_view(r@) == old(self)@.buffer,
            final(self)@ == (EscapeSequencePView { buffer: Seq::empty(), ..old(self)@ }),
    {
        let mut m: Vec<Token> = Vec::new();
        std::mem::swap(&mut self.buffer, &mut m);
        assert(tokens_view(self.buffer@) =~= Seq::empty());
        m
    }

    fn emit(&mut self, column_number: usize, c: char) -> (r: PResult)
        ensures
            (final(self)@, r@) == old(self)@.emit(column_number, c),
    {
        let mut value = String::new();
        value.push(c);
        let token = Token { column_number, value, type_: TokenType::EscapeSequence };
        proof {
            assert(token@.value =~= seq![c]);
            assert(tokens_view(self.buffer@.push(token)) =~= tokens_view(self.buffer@).push(
                token@,
            ));
        }
        self.buffer.push(token);
        self.positional_numeral_string_p = None;
        self.state = State::End;
        PResult::End
    }

    fn fail(&self, characters: &LookAheadCharacters) -> (r: PResult)
        ensures
            (self@, r@) == self@.fail(*characters),
    {
        error_character(ParserKind::EscapeSequence, state_name(self.state), &characters.current)
    }

    fn await_digits(&mut self, expected_digits: usize) -> (r: PResult)
        ensures
            (final(self)@, r@) == old(self)@.await_digits(expected_digits),
    {
        self.state = State::UnicodeDigits;
        self.positional_numeral_string_p = Some(
            PositionalNumeralStringP::new(16).set_expected_digits(expected_digits),
        );
        PResult::Ongoing
    }

    /// Takes one character.
    pub fn parse(&mut self, characters: &LookAheadCharacters) -> (r: PResult)
        ensures
            (final(self)@, r@) == old(self)@.step(*characters),
    {
        let c0 = characters.current;
        match self.state {
            State::End => self.fail(characters),
            State::First => match characters.one_ahead {
                Some(c1) => match c1.type_ {
                    CharacterType::Alpha
                    | CharacterType::Backslash
                    | CharacterType::DoubleQuotation => {
                        self.state = State::EscapedCharacter;
                        PResult::Ongoing
                    },
                    CharacterType::Newline => {
                        self.state = State::End;
                        PResult::End
                    },
                    _ => self.fail(characters),
                },
                None => self.fail(characters),
            },
            State::EscapedCharacter => match c0.type_ {
                CharacterType::Alpha => if c0.value == 'n' {
                    self.emit(c0.column_number, '\n')
                } else if c0.value == 'r' {
                    self.emit(c0.column_number, '\r')
                } else if c0.value == 't' {
                    self.emit(c0.column_number, '\t')
                } else if c0.value == 'u' {
                    self.await_digits(4)
                } else if c0.value == 'U' {
                    self.await_digits(8)
                } else {
                    self.fail(characters)
                },
                CharacterType::Backslash => self.emit(c0.column_number, '\\'),
                CharacterType::DoubleQuotation => self.emit(c0.column_number, '"'),
                _ => self.fail(characters),
            },
            State::UnicodeDigits => match self.positional_numeral_string_p.take() {
                None => self.fail(characters),
                Some(mut p) => {
                    match p.parse(characters) {
                        PResult::End => {
                            let digits = p.flush();
                            match code_point(digits.as_str()) {
                                Some(c) => self.emit(c0.column_number, c),
                                None => {
                                    self.positional_numeral_string_p = Some(p);
                                    self.fail(characters)
                                },
                            }
                        },
                        PResult::Failed(d) => {
                            self.positional_numeral_string_p = Some(p);
                            error_character_via(
                                d,
                                ParserKind::EscapeSequence,
                                state_name(self.state),
                                &c0,
                            )
                        },
                        PResult::Ongoing => {
                            self.positional_numeral_string_p = Some(p);
                            PResult::Ongoing
                        },
                    }
                },
            },
        }
    }
}

} // verus!
