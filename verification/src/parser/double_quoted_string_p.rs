//! Double quoted string syntax parser.
//!
//! Example: `"a\tb"`.

use vstd::prelude::*;
use crate::diagnostic::PResult;
use crate::diagnostic::PResultView;
use crate::diagnostic::ParserKind;
use crate::diagnostic::error;
use crate::diagnostic::error_via;
use crate::diagnostic::spec_error;
use crate::diagnostic::spec_error_via;
use crate::model::DoubleQuotedString;
use crate::parser::escape_sequence_p::EscapeSequenceP;
use crate::parser::escape_sequence_p::EscapeSequencePView;
use crate::token::Character;
use crate::token::LookAheadCharacters;
use crate::token::LookAheadTokens;
use crate::token::LookAheadTokensView;
use crate::token::TokenType;
use crate::token::character_at;
use crate::token::characters_at;
use crate::token::characters_of;
use crate::token::tokens_stringify;
use crate::token::tokens_text;

verus! {

/// Syntax machine state.
#[derive(Clone, Copy, Debug, PartialEq, Eq, Structural)]
pub enum State {
    /// Before the opening quote.
    Start,
    /// Between the quotes.
    Body,
    End,
}

/// Reads a string between double quotes, decoding its escape sequences.
#[derive(Debug)]
pub struct DoubleQuotedStringP {
    pub buffer: Option<DoubleQuotedString>,
    pub escape_sequence_p: Option<EscapeSequenceP>,
    pub state: State,
}

/// The mathematical content of a [`DoubleQuotedStringP`].
pub struct DoubleQuotedStringPView {
    pub buffer: Option<Seq<char>>,
    pub escape_sequence_p: Option<EscapeSequencePView>,
    pub state: State,
}

impl View for DoubleQuotedStringP {
    type V = DoubleQuotedStringPView;

    open spec fn view(&self) -> DoubleQuotedStringPView {
        DoubleQuotedStringPView {
            buffer: match self.buffer {
                Some(m) => Some(m@),
                None => None,
            },
            escape_sequence_p: match self.escape_sequence_p {
                Some(p) => Some(p@),
                None => None,
            },
            state: self.state,
        }
    }
}

/// The name of `state`.
pub open spec fn spec_state_name(state: State) -> Seq<char> {
    match state {
        State::Start => "Start"@,
        State::Body => "Body"@,
        State::End => "End"@,
    }
}

impl DoubleQuotedStringPView {
    /// The parser before its first token.
    pub open spec fn new() -> Self {
        DoubleQuotedStringPView { buffer: None, escape_sequence_p: None, state: State::Start }
    }

    /// The content read so far.
    pub open spec fn text(self) -> Seq<char> {
        match self.buffer {
            Some(s) => s,
            None => Seq::empty(),
        }
    }

    /// `s` is put behind the content.
    pub open spec fn append(self, s: Seq<char>) -> Self {
        DoubleQuotedStringPView { buffer: Some(self.text() + s), ..self }
    }

    /// The parser cannot take the token: it stays as it is and says so.
    pub open spec fn fail(self, tokens: LookAheadTokensView) -> (Self, PResultView) {
        (
            self,
            spec_error(
                ParserKind::DoubleQuotedString,
                spec_state_name(self.state),
                tokens.current,
            ),
        )
    }

    /// Takes the characters of the current token from position `i` on:
    /// while an escape sequence is under way they go to its parser, and
    /// what it decodes joins the content; otherwise they join the content
    /// as they stand.
    pub open spec fn feed(self, tokens: LookAheadTokensView, i: int) -> (Self, PResultView)
        decreases tokens.current.value.len() - i,
    {
        if i < 0 || i >= tokens.current.value.len() {
            (self, PResultView::Ongoing)
        } else {
            match self.escape_sequence_p {
                None => self.append(seq![tokens.current.value[i]]).feed(tokens, i + 1),
                Some(e) => {
                    let (e1, r) = e.step(characters_at(tokens, i));
                    match r {
                        PResultView::End => DoubleQuotedStringPView {
                            escape_sequence_p: None,
                            ..self.append(tokens_text(e1.buffer))
                        }.feed(tokens, i + 1),
                        PResultView::Failed(d) => (
                            DoubleQuotedStringPView { escape_sequence_p: Some(e1), ..self },
                            spec_error_via(
                                d,
                                ParserKind::DoubleQuotedString,
                                spec_state_name(self.state),
                                tokens.current,
                            ),
                        ),
                        PResultView::Ongoing => DoubleQuotedStringPView {
                            escape_sequence_p: Some(e1),
                            ..self
                        }.feed(tokens, i + 1),
                    }
                },
            }
        }
    }

    /// One step.
    ///
    /// * Before the string: a double quote opens it; anything else fails.
    /// * In the string: a backslash starts an escape sequence, and while one
    ///   is under way the token goes to it character by character. Otherwise
    ///   a double quote ends the string, the end of the line fails, and any
    ///   other token joins the content as it stands.
    /// * Behind the string: everything fails.
    pub open spec fn step(self, tokens: LookAheadTokensView) -> (Self, PResultView) {
        match self.state {
            State::Start => if tokens.current.type_ == TokenType::DoubleQuotation {
                (
                    DoubleQuotedStringPView { state: State::Body, ..self.append(Seq::empty()) },
                    PResultView::Ongoing,
                )
            } else {
                self.fail(tokens)
            },
            State::Body => {
                let s1 = if tokens.current.type_ == TokenType::Backslash
                    && self.escape_sequence_p is None {
                    DoubleQuotedStringPView {
                        escape_sequence_p: Some(EscapeSequencePView::new()),
                        ..self
                    }
                } else {
                    self
                };
                if s1.escape_sequence_p is Some {
                    s1.feed(tokens, 0)
                } else if tokens.current.type_ == TokenType::DoubleQuotation {
                    (DoubleQuotedStringPView { state: State::End, ..self }, PResultView::End)
                } else if tokens.current.type_ == TokenType::EndOfLine {
                    self.fail(tokens)
                } else {
                    (self.append(tokens.current.value), PResultView::Ongoing)
                }
            },
            State::End => self.fail(tokens),
        }
    }
}

/// The name of `state`.
pub fn state_name(state: State) -> (r: &'static str)
    ensures
        r@ == spec_state_name(state),
{
    match state {
        State::Start => "Start",
        State::Body => "Body",
        State::End => "End",
    }
}

impl DoubleQuotedStringP {
    /// The parser before its first token.
    pub fn new() -> (r: Self)
        ensures
            r@ == DoubleQuotedStringPView::new(),
    {
        DoubleQuotedStringP { buffer: None, escape_sequence_p: None, state: State::Start }
    }

    /// Hands over the string read so far, if any, and forgets it.
    pub fn flush(&mut self) -> (r: Option<DoubleQuotedString>)
        ensures
            match r {
                Some(m) => old(self)@.buffer == Some(m@),
                None => old(self)@.buffer is None,
            },
            final(self)@ == (DoubleQuotedStringPView { buffer: None, ..old(self)@ }),
    {
        self.buffer.take()
    }

    fn append(&mut self, s: &str)
        ensures
            final(self)@ == old(self)@.append(s@),
    {
        let mut m = match self.buffer.take() {
            Some(m) => m,
            None => DoubleQuotedString { value: String::new() },
        };
        m.value.append(s);
        self.buffer = Some(m);
    }

    fn append_character(&mut self, c: char)
        ensures
            final(self)@ == old(self)@.append(seq![c]),
    {
        let mut m = match self.buffer.take() {
            Some(m) => m,
            None => DoubleQuotedString { value: String::new() },
        };
        m.value.push(c);
        assert(m.value@ =~= old(self)@.text() + seq![c]);
        self.buffer = Some(m);
    }

    fn fail(&self, tokens: &LookAheadTokens) -> (r: PResult)
        ensures
            (self@, r@) == self@.fail(tokens@),
    {
        error(ParserKind::DoubleQuotedString, state_name(self.state), tokens.current)
    }

    /// Takes the characters of the current token.
    fn feed(&mut self, tokens: &LookAheadTokens) -> (r: PResult)
        ensures
            (final(self)@, r@) == old(self)@.feed(tokens@, 0),
    {
        let characters = characters_of(tokens.current);
        let ahead: Option<Character> = match tokens.one_ahead {
            Some(t) => {
                let a = characters_of(t);
                if a.len() > 0 {
                    Some(a[0])
                } else {
                    None
                }
            },
            None => None,
        };
        let mut i: usize = 0;
        while i < characters.len()
            invariant
                i <= characters.len(),
                characters@.len() == tokens@.current.value.len(),
                forall|j: int|
                    0 <= j < characters@.len() ==> #[trigger] characters@[j] == character_at(
                        tokens@.current,
                        j,
                    ),
                ahead == characters_at(tokens@, characters@.len() - 1).one_ahead,
                old(self)@.feed(tokens@, 0) == self@.feed(tokens@, i as int),
            decreases characters.len() - i,
        {
            match self.escape_sequence_p.take() {
                None => {
                    self.append_character(characters[i].value);
                },
                Some(mut e) => {
                    let one_ahead = if i + 1 < characters.len() {
                        Some(characters[i + 1])
                    } else {
                        ahead
                    };
                    let window = LookAheadCharacters { current: characters[i], one_ahead };
                    assert(window == characters_at(tokens@, i as int));
                    match e.parse(&window) {
                        PResult::End => {
                            let decoded = tokens_stringify(&e.flush());
                            self.append(decoded.as_str());
                        },
                        PResult::Failed(d) => {
                            self.escape_sequence_p = Some(e);
                            return error_via(
                                d,
                                ParserKind::DoubleQuotedString,
                                state_name(self.state),
                                tokens.current,
                            );
                        },
                        PResult::Ongoing => {
                            self.escape_sequence_p = Some(e);
                        },
                    }
                },
            }
            i += 1;
        }
        PResult::Ongoing
    }

    /// Takes one token.
    pub fn parse(&mut self, tokens: &LookAheadTokens) -> (r: PResult)
        ensures
            (final(self)@, r@) == old(self)@.step(tokens@),
    {
        match self.state {
            State::Start => match tokens.current.type_ {
                TokenType::DoubleQuotation => {
                    self.append("");
                    proof {
                        reveal_strlit("");
                        assert(old(self)@.text() + ""@ =~= old(self)@.text() + Seq::<char>::empty());
                    }
                    self.state = State::Body;
                    PResult::Ongoing
                },
                _ => self.fail(tokens),
            },
            State::Body => {
                if tokens.current.type_ == TokenType::Backslash && self.escape_sequence_p.is_none() {
                    self.escape_sequence_p = Some(EscapeSequenceP::default());
                }
                if self.escape_sequence_p.is_some() {
                    self.feed(tokens)
                } else {
                    match tokens.current.type_ {
                        TokenType::DoubleQuotation => {
                            self.state = State::End;
                            PResult::End
                        },
                        TokenType::EndOfLine => self.fail(tokens),
                        _ => {
                            self.append(tokens.current.value.as_str());
                            PResult::Ongoing
                        },
                    }
                }
            },
            State::End => self.fail(tokens),
        }
    }
}

} // verus!
