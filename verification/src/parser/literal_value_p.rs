//! Literal value syntax parser: an unquoted scalar.
//!
//! Examples: `1_000`, `0x0a`, `true`, `1979-05-27T07:32:00Z`.

use vstd::prelude::*;
use crate::diagnostic::PResult;
use crate::diagnostic::PResultView;
use crate::diagnostic::ParserKind;
use crate::diagnostic::error;
use crate::diagnostic::spec_error;
use crate::model::LiteralString;
use crate::token::LookAheadTokens;
use crate::token::LookAheadTokensView;
use crate::token::in_literal;
use crate::token::spec_in_literal;

verus! {

/// Syntax machine state.
#[derive(Clone, Copy, Debug, PartialEq, Eq, Structural)]
pub enum State {
    /// In the literal.
    Body,
    End,
}

/// Reads the tokens of an unquoted scalar, up to the first token that cannot
/// belong to one.
#[derive(Debug)]
pub struct LiteralValueP {
    pub buffer: Option<LiteralString>,
    pub state: State,
}

/// The mathematical content of a [`LiteralValueP`].
pub struct LiteralValuePView {
    pub buffer: Option<Seq<char>>,
    pub state: State,
}

impl View for LiteralValueP {
    type V = LiteralValuePView;

    open spec fn view(&self) -> LiteralValuePView {
        LiteralValuePView {
            buffer: match self.buffer {
                Some(m) => Some(m@),
                None => None,
            },
            state: self.state,
        }
    }
}

/// The name of `state`.
pub open spec fn spec_state_name(state: State) -> Seq<char> {
    match state {
        State::Body => "Body"@,
        State::End => "End"@,
    }
}

impl LiteralValuePView {
    /// The parser before its first token.
    pub open spec fn new() -> Self {
        LiteralValuePView { buffer: None, state: State::Body }
    }

    /// The text read so far.
    pub open spec fn text(self) -> Seq<char> {
        match self.buffer {
            Some(s) => s,
            None => Seq::empty(),
        }
    }

    /// The parser cannot take the token: it stays as it is and says so.
    pub open spec fn fail(self, tokens: LookAheadTokensView) -> (Self, PResultView) {
        (
            self,
            spec_error(ParserKind::LiteralValue, spec_state_name(self.state), tokens.current),
        )
    }

    /// One step: a token that can belong to a literal joins it, and the
    /// literal ends with it unless the token ahead can belong to it too; any
    /// other token fails, and so does every token behind the literal. A
    /// carriage return belongs to no literal.
    pub open spec fn step(self, tokens: LookAheadTokensView) -> (Self, PResultView) {
        match self.state {
            State::Body => if spec_in_literal(tokens.current) {
                let buffer = Some(self.text() + tokens.current.value);
                if tokens.one_ahead is Some && spec_in_literal(tokens.one_ahead->0) {
                    (LiteralValuePView { buffer, ..self }, PResultView::Ongoing)
                } else {
                    (LiteralValuePView { buffer, state: State::End }, PResultView::End)
                }
            } else {
                self.fail(tokens)
            },
            State::End => self.fail(tokens),
        }
    }
}

/// The name of `state`.
pub fn state_name(state: State) -> (r: &'static str)
    ensures
        r@ == spec_state_name(state),
{
    match state {
        State::Body => "Body",
        State::End => "End",
    }
}

impl LiteralValueP {
    /// The parser before its first token.
    pub fn new() -> (r: Self)
        ensures
            r@ == LiteralValuePView::new(),
    {
        LiteralValueP { buffer: None, state: State::Body }
    }

    /// Hands over the literal read so far, if any, and forgets it.
    pub fn flush(&mut self) -> (r: Option<LiteralString>)
        ensures
            match r {
                Some(m) => old(self)@.buffer == Some(m@),
                None => old(self)@.buffer is None,
            },
            final(self)@ == (LiteralValuePView { buffer: None, ..old(self)@ }),
    {
        self.buffer.take()
    }

    fn fail(&self, tokens: &LookAheadTokens) -> (r: PResult)
        ensures
            (self@, r@) == self@.fail(tokens@),
    {
        error(ParserKind::LiteralValue, state_name(self.state), tokens.current)
    }

    /// Takes one token.
    pub fn parse(&mut self, tokens: &LookAheadTokens) -> (r: PResult)
        ensures
            (final(self)@, r@) == old(self)@.step(tokens@),
    {
        match self.state {
            State::Body => {
                if in_literal(tokens.current) {
                    let mut m = match self.buffer.take() {
                        Some(m) => m,
                        None => LiteralString::default(),
                    };
                    m.push_token(tokens.current);
                    self.buffer = Some(m);
                    let more = match tokens.one_ahead {
                        Some(t) => in_literal(t),
                        None => false,
                    };
                    if more {
                        PResult::Ongoing
                    } else {
                        self.state = State::End;
                        PResult::End
                    }
                } else {
                    self.fail(tokens)
                }
            },
            State::End => self.fail(tokens),
        }
    }
}

} // verus!
