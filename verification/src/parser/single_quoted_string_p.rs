//! Single quoted string syntax parser.
//!
//! Example: `'C:\temp'`.

use vstd::prelude::*;
use crate::diagnostic::PResult;
use crate::diagnostic::PResultView;
use crate::diagnostic::ParserKind;
use crate::diagnostic::error;
use crate::diagnostic::spec_error;
use crate::model::SingleQuotedString;
use crate::token::LookAheadTokens;
use crate::token::LookAheadTokensView;
use crate::token::TokenType;

verus! {

/// Syntax machine state.
#[derive(Clone, Copy, Debug, PartialEq, Eq, Structural)]
pub enum State {
    /// Before the opening quote.
    Start,
    /// Between the quotes.
    Body,
    End,
}

/// Reads a string between single quotes, as it stands.
#[derive(Debug)]
pub struct SingleQuotedStringP {
    pub buffer: Option<SingleQuotedString>,
    pub state: State,
}

/// The mathematical content of a [`SingleQuotedStringP`].
pub struct SingleQuotedStringPView {
    pub buffer: Option<Seq<char>>,
    pub state: State,
}

impl View for SingleQuotedStringP {
    type V = SingleQuotedStringPView;

    open spec fn view(&self) -> SingleQuotedStringPView {
        SingleQuotedStringPView {
            buffer: match self.buffer {
                Some(m) => Some(m@),
                None => None,
            },
            state: self.state,
        }
    }
}

/// The name of `state`.
pub open spec fn spec_state_name(state: State) -> Seq<char> {
    match state {
        State::Start => "Start"@,
        State::Body => "Body"@,
        State::End => "End"@,
    }
}

impl SingleQuotedStringPView {
    /// The parser before its first token.
    pub open spec fn new() -> Self {
        SingleQuotedStringPView { buffer: None, state: State::Start }
    }

    /// The content read so far.
    pub open spec fn text(self) -> Seq<char> {
        match self.buffer {
            Some(s) => s,
            None => Seq::empty(),
        }
    }

    /// `s` is put behind the content.
    pub open spec fn append(self, s: Seq<char>) -> Self {
        SingleQuotedStringPView { buffer: Some(self.text() + s), ..self }
    }

    /// The parser cannot take the token: it stays as it is and says so.
    pub open spec fn fail(self, tokens: LookAheadTokensView) -> (Self, PResultView) {
        (
            self,
            spec_error(
                ParserKind::SingleQuotedString,
                spec_state_name(self.state),
                tokens.current,
            ),
        )
    }

    /// One step.
    ///
    /// * Before the string: a single quote opens it; anything else fails.
    /// * In the string: a single quote ends it, the end of the line fails,
    ///   and any other token joins the content as it stands.
    /// * Behind the string: everything fails.
    pub open spec fn step(self, tokens: LookAheadTokensView) -> (Self, PResultView) {
        match self.state {
            State::Start => if tokens.current.type_ == TokenType::SingleQuotation {
                (
                    SingleQuotedStringPView { state: State::Body, ..self.append(Seq::empty()) },
                    PResultView::Ongoing,
                )
            } else {
                self.fail(tokens)
            },
            State::Body => if tokens.current.type_ == TokenType::SingleQuotation {
                (SingleQuotedStringPView { state: State::End, ..self }, PResultView::End)
            } else if tokens.current.type_ == TokenType::EndOfLine {
                self.fail(tokens)
            } else {
                (self.append(tokens.current.value), PResultView::Ongoing)
            },
            State::End => self.fail(tokens),
        }
    }
}

/// The name of `state`.
pub fn state_name(state: State) -> (r: &'static str)
    ensures
        r@ == spec_state_name(state),
{
    match state {
        State::Start => "Start",
        State::Body => "Body",
        State::End => "End",
    }
}

impl SingleQuotedStringP {
    /// The parser before its first token.
    pub fn new() -> (r: Self)
        ensures
            r@ == SingleQuotedStringPView::new(),
    {
        SingleQuotedStringP { buffer: None, state: State::Start }
    }

    /// Hands over the string read so far, if any, and forgets it.
    pub fn flush(&mut self) -> (r: Option<SingleQuotedString>)
        ensures
            match r {
                Some(m) => old(self)@.buffer == Some(m@),
                None => old(self)@.buffer is None,
            },
            final(self)@ == (SingleQuotedStringPView { buffer: None, ..old(self)@ }),
    {
        self.buffer.take()
    }

    fn append(&mut self, s: &str)
        ensures
            final(self)@ == old(self)@.append(s@),
    {
        let mut m = match self.buffer.take() {
            Some(m) => m,
            None => SingleQuotedString { value: String::new() },
        };
        m.value.append(s);
        self.buffer = Some(m);
    }

    fn fail(&self, tokens: &LookAheadTokens) -> (r: PResult)
        ensures
            (self@, r@) == self@.fail(tokens@),
    {
        error(ParserKind::SingleQuotedString, state_name(self.state), tokens.current)
    }

    /// Takes one token.
    pub fn parse(&mut self, tokens: &LookAheadTokens) -> (r: PResult)
        ensures
            (final(self)@, r@) == old(self)@.step(tokens@),
    {
        match self.state {
            State::Start => match tokens.current.type_ {
                TokenType::SingleQuotation => {
                    self.append("");
                    proof {
                        reveal_strlit("");
                        assert(old(self)@.text() + ""@ =~= old(self)@.text() + Seq::<char>::empty());
                    }
                    self.state = State::Body;
                    PResult::Ongoing
                },
                _ => self.fail(tokens),
            },
            State::Body => match tokens.current.type_ {
                TokenType::SingleQuotation => {
                    self.state = State::End;
                    PResult::End
                },
                TokenType::EndOfLine => self.fail(tokens),
                _ => {
                    self.append(tokens.current.value.as_str());
                    PResult::Ongoing
                },
            },
            State::End => self.fail(tokens),
        }
    }
}

} // verus!
