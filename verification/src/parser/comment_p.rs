//! Comment syntax parser.
//!
//! Example: `# Toml's comment`.

use vstd::prelude::*;
use crate::diagnostic::PResult;
use crate::diagnostic::PResultView;
use crate::diagnostic::ParserKind;
use crate::diagnostic::error;
use crate::diagnostic::spec_error;
use crate::model::Comment;
use crate::token::LookAheadTokens;
use crate::token::LookAheadTokensView;
use crate::token::TokenType;

verus! {

/// Syntax machine state.
#[derive(Clone, Copy, Debug, PartialEq, Eq, Structural)]
pub enum State {
    /// Behind `#`.
    Body,
    End,
}

/// Reads what stands behind `#`, up to the end of the line.
#[derive(Debug)]
pub struct CommentP {
    pub buffer: Option<Comment>,
    pub state: State,
}

/// The mathematical content of a [`CommentP`].
pub struct CommentPView {
    pub buffer: Option<Seq<char>>,
    pub state: State,
}

impl View for CommentP {
    type V = CommentPView;

    open spec fn view(&self) -> CommentPView {
        CommentPView {
            buffer: match self.buffer {
                Some(m) => Some(m@),
                None => None,
            },
            state: self.state,
        }
    }
}

/// The name of `state`.
pub open spec fn spec_state_name(state: State) -> Seq<char> {
    match state {
        State::Body => "Body"@,
        State::End => "End"@,
    }
}

impl CommentPView {
    /// The parser before its first token.
    pub open spec fn new() -> Self {
        CommentPView { buffer: Some(Seq::empty()), state: State::Body }
    }

    /// The text read so far.
    pub open spec fn text(self) -> Seq<char> {
        match self.buffer {
            Some(s) => s,
            None => Seq::empty(),
        }
    }

    /// The parser cannot take the token: it stays as it is and says so.
    pub open spec fn fail(self, tokens: LookAheadTokensView) -> (Self, PResultView) {
        (self, spec_error(ParserKind::Comment, spec_state_name(self.state), tokens.current))
    }

    /// One step: the end of the line ends the comment, and any other token
    /// joins it as it stands; behind the comment everything fails.
    pub open spec fn step(self, tokens: LookAheadTokensView) -> (Self, PResultView) {
        match self.state {
            State::Body => if tokens.current.type_ == TokenType::EndOfLine {
                (CommentPView { state: State::End, ..self }, PResultView::End)
            } else {
                (
                    CommentPView { buffer: Some(self.text() + tokens.current.value), ..self },
                    PResultView::Ongoing,
                )
            },
            State::End => self.fail(tokens),
        }
    }
}

/// The name of `state`.
pub fn state_name(state: State) -> (r: &'static str)
    ensures
        r@ == spec_state_name(state),
{
    match state {
        State::Body => "Body",
        State::End => "End",
    }
}

impl CommentP {
    /// The parser before its first token.
    pub fn new() -> (r: Self)
        ensures
            r@ == CommentPView::new(),
    {
        CommentP { buffer: Some(Comment { value: String::new() }), state: State::Body }
    }

    /// Hands over the comment read so far, if any, and forgets it.
    pub fn flush(&mut self) -> (r: Option<Comment>)
        ensures
            match r {
                Some(m) => old(self)@.buffer == Some(m@),
                None => old(self)@.buffer is None,
            },
            final(self)@ == (CommentPView { buffer: None, ..old(self)@ }),
    {
        self.buffer.take()
    }

    fn fail(&self, tokens: &LookAheadTokens) -> (r: PResult)
        ensures
            (self@, r@) == self@.fail(tokens@),
    {
        error(ParserKind::Comment, state_name(self.state), tokens.current)
    }

    /// Takes one token.
    pub fn parse(&mut self, tokens: &LookAheadTokens) -> (r: PResult)
        ensures
            (final(self)@, r@) == old(self)@.step(tokens@),
    {
        match self.state {
            State::Body => match tokens.current.type_ {
                TokenType::EndOfLine => {
                    self.state = State::End;
                    PResult::End
                },
                _ => {
                    let mut m = match self.buffer.take() {
                        Some(m) => m,
                        None => Comment { value: String::new() },
                    };
                    m.value.append(tokens.current.value.as_str());
                    self.buffer = Some(m);
                    PResult::Ongoing
                },
            },
            State::End => self.fail(tokens),
        }
    }
}

} // verus!
