//! Inline table syntax parser.
//!
//! Example: `{ key = value, key = value }`.

use vstd::prelude::*;
use crate::diagnostic::Diagnostic;
use crate::diagnostic::DiagnosticView;
use crate::diagnostic::PResult;
use crate::diagnostic::PResultView;
use crate::diagnostic::ParserKind;
use crate::diagnostic::error;
use crate::diagnostic::error_via;
use crate::diagnostic::spec_error;
use crate::diagnostic::spec_error_via;
use crate::model::InlineTable;
use crate::model::ItemValueView;
use crate::parser::key_value_p::KeyValueP;
use crate::parser::key_value_p::KeyValuePView;
use crate::parser::key_value_p::key_value_p_view;
use crate::token::LookAheadTokens;
use crate::token::LookAheadTokensView;
use crate::token::TokenType;
use crate::token::is_key_token;
use crate::token::spec_is_key_token;

verus! {

/// Inline table syntax machine state.
#[derive(Clone, Copy, Debug, PartialEq, Eq, Structural)]
pub enum State {
    /// Behind `{` or `,`: a key is awaited.
    AfterLeftCurlyBracket,
    KeyValue,
    /// Behind a key value: `,` or `}` is awaited.
    AfterKeyValue,
}

/// Reads an inline table from behind its `{` to its `}`.
#[derive(Debug)]
pub struct InlineTableP {
    pub buffer: Option<InlineTable>,
    pub key_value_p: Option<Box<KeyValueP>>,
    pub state: State,
}

/// The mathematical content of an [`InlineTableP`].
pub struct InlineTablePView {
    pub buffer: Option<Seq<ItemValueView>>,
    pub key_value_p: Option<Box<KeyValuePView>>,
    pub state: State,
}

/// The mathematical content of `p`.
pub open spec fn inline_table_p_view(p: InlineTableP) -> InlineTablePView
    decreases p,
{
    InlineTablePView {
        buffer: match p.buffer {
            Some(m) => Some(m@),
            None => None,
        },
        key_value_p: match p.key_value_p {
            Some(c) => Some(Box::new(key_value_p_view(*c))),
            None => None,
        },
        state: p.state,
    }
}

impl View for InlineTableP {
    type V = InlineTablePView;

    open spec fn view(&self) -> InlineTablePView {
        inline_table_p_view(*self)
    }
}

/// The name of `state`.
pub open spec fn spec_state_name(state: State) -> Seq<char> {
    match state {
        State::AfterLeftCurlyBracket => "AfterLeftCurlyBracket"@,
        State::KeyValue => "KeyValue"@,
        State::AfterKeyValue => "AfterKeyValue"@,
    }
}

impl InlineTablePView {
    /// The parser before its first token.
    pub open spec fn new() -> Self {
        InlineTablePView {
            buffer: Some(Seq::empty()),
            key_value_p: None,
            state: State::AfterLeftCurlyBracket,
        }
    }

    /// The items read so far.
    pub open spec fn items(self) -> Seq<ItemValueView> {
        match self.buffer {
            Some(items) => items,
            None => Seq::empty(),
        }
    }

    /// The parser cannot take the token: it stays as it is and says so.
    pub open spec fn fail(self, tokens: LookAheadTokensView) -> (Self, PResultView) {
        (self, spec_error(ParserKind::InlineTable, spec_state_name(self.state), tokens.current))
    }

    /// A parser that this one had handed the token to failed with `cause`:
    /// this one stays as it is and says so.
    pub open spec fn fail_via(self, cause: DiagnosticView, tokens: LookAheadTokensView) -> (
        Self,
        PResultView,
    ) {
        (
            self,
            spec_error_via(
                cause,
                ParserKind::InlineTable,
                spec_state_name(self.state),
                tokens.current,
            ),
        )
    }

    /// Where a key is awaited: white space is passed over; a token that can
    /// belong to a bare key starts a key value, read by its own parser from
    /// the next token on; anything else fails.
    pub open spec fn step_before_key(self, tokens: LookAheadTokensView) -> (Self, PResultView) {
        let t = tokens.current.type_;
        if t == TokenType::WhiteSpaceString {
            (self, PResultView::Ongoing)
        } else if spec_is_key_token(t) {
            (
                InlineTablePView {
                    key_value_p: Some(Box::new(KeyValuePView::new(tokens.current, false))),
                    state: State::KeyValue,
                    ..self
                },
                PResultView::Ongoing,
            )
        } else {
            self.fail(tokens)
        }
    }

    /// In a key value: the token goes to the key value's parser; when that
    /// ends, its key value joins the items.
    pub open spec fn step_key_value(self, tokens: LookAheadTokensView) -> (Self, PResultView)
        decreases self, 0int,
    {
        match self.key_value_p {
            None => self.fail(tokens),
            Some(p) => {
                let (q1, r) = p.step(tokens);
                match r {
                    PResultView::End => match q1.buffer {
                        Some(m) => (
                            InlineTablePView {
                                buffer: Some(self.items().push(ItemValueView::KeyValue(m))),
                                key_value_p: None,
                                state: State::AfterKeyValue,
                            },
                            PResultView::Ongoing,
                        ),
                        None => InlineTablePView { key_value_p: Some(Box::new(q1)), ..self }.fail(
                            tokens,
                        ),
                    },
                    PResultView::Failed(d) => InlineTablePView {
                        key_value_p: Some(Box::new(q1)),
                        ..self
                    }.fail_via(d, tokens),
                    PResultView::Ongoing => (
                        InlineTablePView { key_value_p: Some(Box::new(q1)), ..self },
                        PResultView::Ongoing,
                    ),
                }
            },
        }
    }

    /// Behind a key value: white space is passed over, `,` awaits the next
    /// key, `}` ends the table, anything else fails.
    pub open spec fn step_after_key_value(self, tokens: LookAheadTokensView) -> (
        Self,
        PResultView,
    ) {
        match tokens.current.type_ {
            TokenType::WhiteSpaceString => (self, PResultView::Ongoing),
            TokenType::Comma => (
                InlineTablePView { state: State::AfterLeftCurlyBracket, ..self },
                PResultView::Ongoing,
            ),
            TokenType::RightCurlyBracket => (self, PResultView::End),
            _ => self.fail(tokens),
        }
    }

    /// One step: see the function of each state.
    pub open spec fn step(self, tokens: LookAheadTokensView) -> (Self, PResultView)
        decreases self, 1int,
    {
        match self.state {
            State::AfterLeftCurlyBracket => self.step_before_key(tokens),
            State::KeyValue => self.step_key_value(tokens),
            State::AfterKeyValue => self.step_after_key_value(tokens),
        }
    }
}

/// The name of `state`.
pub fn state_name(state: State) -> (r: &'static str)
    ensures
        r@ == spec_state_name(state),
{
    match state {
        State::AfterLeftCurlyBracket => "AfterLeftCurlyBracket",
        State::KeyValue => "KeyValue",
        State::AfterKeyValue => "AfterKeyValue",
    }
}

impl Default for InlineTableP {
    fn default() -> (r: Self)
        ensures
            r@ == InlineTablePView::new(),
    {
        InlineTableP {
            state: State::AfterLeftCurlyBracket,
            buffer: Some(InlineTable::default()),
            key_value_p: None,
        }
    }
}

impl InlineTableP {
    /// Hands over the table read so far, if any, and forgets it.
    pub fn flush(&mut self) -> (r: Option<InlineTable>)
        ensures
            match r {
                Some(m) => old(self)@.buffer == Some(m@),
                None => old(self)@.buffer is None,
            },
            final(self)@ == (InlineTablePView { buffer: None, ..old(self)@ }),
    {
        self.buffer.take()
    }

    fn fail(&self, tokens: &LookAheadTokens) -> (r: PResult)
        ensures
            (self@, r@) == self@.fail(tokens@),
    {
        error(ParserKind::InlineTable, state_name(self.state), tokens.current)
    }

    fn fail_via(&self, cause: Diagnostic, tokens: &LookAheadTokens) -> (r: PResult)
        ensures
            (self@, r@) == self@.fail_via(cause@, tokens@),
    {
        error_via(cause, ParserKind::InlineTable, state_name(self.state), tokens.current)
    }

    fn parse_before_key(&mut self, tokens: &LookAheadTokens) -> (r: PResult)
        ensures
            (final(self)@, r@) == old(self)@.step_before_key(tokens@),
    {
        let t = tokens.current.type_;
        if t == TokenType::WhiteSpaceString {
            PResult::Ongoing
        } else if is_key_token(t) {
            self.key_value_p = Some(Box::new(KeyValueP::new(tokens.current, false)));
            self.state = State::KeyValue;
            PResult::Ongoing
        } else {
            self.fail(tokens)
        }
    }

    fn parse_key_value(&mut self, tokens: &LookAheadTokens) -> (r: PResult)
        ensures
            (final(self)@, r@) == old(self)@.step_key_value(tokens@),
        decreases *old(self), 0int,
    {
        match self.key_value_p.take() {
            None => self.fail(tokens),
            Some(mut p) => match p.parse(tokens) {
                PResult::End => match p.flush() {
                    Some(child_m) => {
                        let mut m = match self.buffer.take() {
                            Some(m) => m,
                            None => InlineTable::default(),
                        };
                        m.push_key_value(&child_m);
                        self.buffer = Some(m);
                        self.state = State::AfterKeyValue;
                        PResult::Ongoing
                    },
                    None => {
                        self.key_value_p = Some(p);
                        self.fail(tokens)
                    },
                },
                PResult::Failed(d) => {
                    self.key_value_p = Some(p);
                    self.fail_via(d, tokens)
                },
                PResult::Ongoing => {
                    self.key_value_p = Some(p);
                    PResult::Ongoing
                },
            },
        }
    }

    fn parse_after_key_value(&mut self, tokens: &LookAheadTokens) -> (r: PResult)
        ensures
            (final(self)@, r@) == old(self)@.step_after_key_value(tokens@),
    {
        match tokens.current.type_ {
            TokenType::WhiteSpaceString => PResult::Ongoing,
            TokenType::Comma => {
                self.state = State::AfterLeftCurlyBracket;
                PResult::Ongoing
            },
            TokenType::RightCurlyBracket => PResult::End,
            _ => self.fail(tokens),
        }
    }

    /// Takes one token.
    pub fn parse(&mut self, tokens: &LookAheadTokens) -> (r: PResult)
        ensures
            (final(self)@, r@) == old(self)@.step(tokens@),
        decreases *old(self), 1int,
    {
        match self.state {
            State::AfterLeftCurlyBracket => self.parse_before_key(tokens),
            State::KeyValue => self.parse_key_value(tokens),
            State::AfterKeyValue => self.parse_after_key_value(tokens),
        }
    }
}

} // verus!
