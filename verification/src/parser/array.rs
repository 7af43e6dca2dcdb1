//! Array syntax parser.
//!
//! Example: `[ 'a', 'b', 'c' ]`.

use vstd::prelude::*;
use crate::diagnostic::PResult;
use crate::diagnostic::PResultView;
use crate::diagnostic::ParserKind;
use crate::diagnostic::error;
use crate::diagnostic::error_via;
use crate::diagnostic::spec_error;
use crate::diagnostic::spec_error_via;
use crate::model::Array;
use crate::model::ItemValueView;
use crate::parser::double_quoted_string_p::DoubleQuotedStringP;
use crate::parser::double_quoted_string_p::DoubleQuotedStringPView;
use crate::parser::literal_value_p::LiteralValueP;
use crate::parser::literal_value_p::LiteralValuePView;
use crate::parser::single_quoted_string_p::SingleQuotedStringP;
use crate::parser::single_quoted_string_p::SingleQuotedStringPView;
use crate::token::LookAheadTokens;
use crate::token::LookAheadTokensView;
use crate::token::TokenType;
use crate::token::is_literal_token;
use crate::token::spec_is_literal_token;

verus! {

/// Array syntax machine state.
#[derive(Clone, Copy, Debug, PartialEq, Eq, Structural)]
pub enum ArrayState {
    /// Behind a double-quoted item: `,` or `]` is awaited.
    AfterDoubleQuotedString,
    /// Behind `[` or `,`: an item is awaited.
    AfterLeftSquareBracket,
    /// Behind a single-quoted item: `,` or `]` is awaited.
    AfterSingleQuotedString,
    /// Behind an unquoted item: `,` or `]` is awaited.
    AfterItem,
    DoubleQuotedString,
    End,
    /// In an unquoted item of several tokens.
    LiteralString,
    SingleQuotedString,
}

/// Reads an array from behind its `[` to its `]`.
#[derive(Debug)]
pub struct ArrayP {
    pub buffer: Option<Array>,
    pub double_quoted_string_p: Option<DoubleQuotedStringP>,
    pub literal_value_p: Option<LiteralValueP>,
    pub single_quoted_string_p: Option<SingleQuotedStringP>,
    pub state: ArrayState,
}

/// The mathematical content of an [`ArrayP`].
pub struct ArrayPView {
    pub buffer: Option<Seq<ItemValueView>>,
    pub double_quoted_string_p: Option<DoubleQuotedStringPView>,
    pub literal_value_p: Option<LiteralValuePView>,
    pub single_quoted_string_p: Option<SingleQuotedStringPView>,
    pub state: ArrayState,
}

impl View for ArrayP {
    type V = ArrayPView;

    open spec fn view(&self) -> ArrayPView {
        ArrayPView {
            buffer: match self.buffer {
                Some(m) => Some(m@),
                None => None,
            },
            double_quoted_string_p: match self.double_quoted_string_p {
                Some(p) => Some(p@),
                None => None,
            },
            literal_value_p: match self.literal_value_p {
                Some(p) => Some(p@),
                None => None,
            },
            single_quoted_string_p: match self.single_quoted_string_p {
                Some(p) => Some(p@),
                None => None,
            },
            state: self.state,
        }
    }
}

/// The name of `state`.
pub open spec fn spec_state_name(state: ArrayState) -> Seq<char> {
    match state {
        ArrayState::AfterDoubleQuotedString => "AfterDoubleQuotedString"@,
        ArrayState::AfterLeftSquareBracket => "AfterLeftSquareBracket"@,
        ArrayState::AfterSingleQuotedString => "AfterSingleQuotedString"@,
        ArrayState::AfterItem => "AfterItem"@,
        ArrayState::DoubleQuotedString => "DoubleQuotedString"@,
        ArrayState::End => "End"@,
        ArrayState::LiteralString => "LiteralString"@,
        ArrayState::SingleQuotedString => "SingleQuotedString"@,
    }
}

impl ArrayPView {
    /// The parser before its first token.
    pub open spec fn new() -> Self {
        ArrayPView {
            buffer: None,
            double_quoted_string_p: None,
            literal_value_p: None,
            single_quoted_string_p: None,
            state: ArrayState::AfterLeftSquareBracket,
        }
    }

    /// The items read so far.
    pub open spec fn items(self) -> Seq<ItemValueView> {
        match self.buffer {
            Some(items) => items,
            None => Seq::empty(),
        }
    }

    /// `item` is put behind the items.
    pub open spec fn push(self, item: ItemValueView) -> Self {
        ArrayPView { buffer: Some(self.items().push(item)), ..self }
    }

    /// The parser cannot take the token: it stays as it is and says so.
    pub open spec fn fail(self, tokens: LookAheadTokensView) -> (Self, PResultView) {
        (self, spec_error(ParserKind::Array, spec_state_name(self.state), tokens.current))
    }

    /// A parser that this one had handed the token to failed with `cause`:
    /// this one stays as it is and says so.
    pub open spec fn fail_via(self, cause: crate::diagnostic::DiagnosticView, tokens: LookAheadTokensView) -> (
        Self,
        PResultView,
    ) {
        (
            self,
            spec_error_via(cause, ParserKind::Array, spec_state_name(self.state), tokens.current),
        )
    }

    /// Behind an item: white space is passed over, `,` awaits the next
    /// item, `]` ends the array, anything else fails.
    pub open spec fn step_after_item(self, tokens: LookAheadTokensView) -> (Self, PResultView) {
        match tokens.current.type_ {
            TokenType::WhiteSpaceString => (self, PResultView::Ongoing),
            TokenType::Comma => (
                ArrayPView { state: ArrayState::AfterLeftSquareBracket, ..self },
                PResultView::Ongoing,
            ),
            TokenType::RightSquareBracket => (
                ArrayPView { state: ArrayState::End, ..self },
                PResultView::End,
            ),
            _ => self.fail(tokens),
        }
    }

    /// Where an item is awaited: white space is passed over; a quote starts
    /// a string and a token that can belong to an unquoted scalar starts
    /// one, each read by its own parser from this token on; anything else
    /// fails.
    pub open spec fn step_before_item(self, tokens: LookAheadTokensView) -> (Self, PResultView) {
        let t = tokens.current.type_;
        if t == TokenType::WhiteSpaceString {
            (self, PResultView::Ongoing)
        } else if t == TokenType::DoubleQuotation {
            (
                ArrayPView {
                    double_quoted_string_p: Some(DoubleQuotedStringPView::new().step(tokens).0),
                    state: ArrayState::DoubleQuotedString,
                    ..self
                },
                PResultView::Ongoing,
            )
        } else if t == TokenType::SingleQuotation {
            (
                ArrayPView {
                    single_quoted_string_p: Some(SingleQuotedStringPView::new().step(tokens).0),
                    state: ArrayState::SingleQuotedString,
                    ..self
                },
                PResultView::Ongoing,
            )
        } else if spec_is_literal_token(t) {
            ArrayPView { literal_value_p: Some(LiteralValuePView::new()), ..self }.step_literal(
                tokens,
            )
        } else {
            self.fail(tokens)
        }
    }

    /// In a double-quoted item: the token goes to the string's parser; when
    /// that ends, its string joins the items.
    pub open spec fn step_double_quoted(self, tokens: LookAheadTokensView) -> (Self, PResultView) {
        match self.double_quoted_string_p {
            None => self.fail(tokens),
            Some(p) => {
                let (q1, r) = p.step(tokens);
                match r {
                    PResultView::End => match q1.buffer {
                        Some(s) => (
                            ArrayPView {
                                double_quoted_string_p: None,
                                state: ArrayState::AfterDoubleQuotedString,
                                ..self.push(ItemValueView::DoubleQuotedString(s))
                            },
                            PResultView::Ongoing,
                        ),
                        None => ArrayPView { double_quoted_string_p: Some(q1), ..self }.fail(
                            tokens,
                        ),
                    },
                    PResultView::Failed(d) => ArrayPView {
                        double_quoted_string_p: Some(q1),
                        ..self
                    }.fail_via(d, tokens),
                    PResultView::Ongoing => (
                        ArrayPView { double_quoted_string_p: Some(q1), ..self },
                        PResultView::Ongoing,
                    ),
                }
            },
        }
    }

    /// In a single-quoted item: the token goes to the string's parser; when
    /// that ends, its string joins the items.
    pub open spec fn step_single_quoted(self, tokens: LookAheadTokensView) -> (Self, PResultView) {
        match self.single_quoted_string_p {
            None => self.fail(tokens),
            Some(p) => {
                let (q1, r) = p.step(tokens);
                match r {
                    PResultView::End => match q1.buffer {
                        Some(s) => (
                            ArrayPView {
                                single_quoted_string_p: None,
                                state: ArrayState::AfterSingleQuotedString,
                                ..self.push(ItemValueView::SingleQuotedString(s))
                            },
                            PResultView::Ongoing,
                        ),
                        None => ArrayPView { single_quoted_string_p: Some(q1), ..self }.fail(
                            tokens,
                        ),
                    },
                    PResultView::Failed(d) => ArrayPView {
                        single_quoted_string_p: Some(q1),
                        ..self
                    }.fail_via(d, tokens),
                    PResultView::Ongoing => (
                        ArrayPView { single_quoted_string_p: Some(q1), ..self },
                        PResultView::Ongoing,
                    ),
                }
            },
        }
    }

    /// In an unquoted item: the token goes to the literal's parser; when
    /// that ends, its literal joins the items.
    pub open spec fn step_literal(self, tokens: LookAheadTokensView) -> (Self, PResultView) {
        match self.literal_value_p {
            None => self.fail(tokens),
            Some(p) => {
                let (q1, r) = p.step(tokens);
                match r {
                    PResultView::End => match q1.buffer {
                        Some(s) => (
                            ArrayPView {
                                literal_value_p: None,
                                state: ArrayState::AfterItem,
                                ..self.push(ItemValueView::LiteralString(s))
                            },
                            PResultView::Ongoing,
                        ),
                        None => ArrayPView { literal_value_p: Some(q1), ..self }.fail(tokens),
                    },
                    PResultView::Failed(d) => ArrayPView {
                        literal_value_p: Some(q1),
                        ..self
                    }.fail_via(d, tokens),
                    PResultView::Ongoing => (
                        ArrayPView {
                            literal_value_p: Some(q1),
                            state: ArrayState::LiteralString,
                            ..self
                        },
                        PResultView::Ongoing,
                    ),
                }
            },
        }
    }

    /// One step: see the function of each state. Behind the array
    /// everything fails.
    pub open spec fn step(self, tokens: LookAheadTokensView) -> (Self, PResultView) {
        match self.state {
            ArrayState::AfterDoubleQuotedString => self.step_after_item(tokens),
            ArrayState::AfterLeftSquareBracket => self.step_before_item(tokens),
            ArrayState::AfterSingleQuotedString => self.step_after_item(tokens),
            ArrayState::AfterItem => self.step_after_item(tokens),
            ArrayState::DoubleQuotedString => self.step_double_quoted(tokens),
            ArrayState::End => self.fail(tokens),
            ArrayState::LiteralString => self.step_literal(tokens),
            ArrayState::SingleQuotedString => self.step_single_quoted(tokens),
        }
    }
}

/// The name of `state`.
pub fn state_name(state: ArrayState) -> (r: &'static str)
    ensures
        r@ == spec_state_name(state),
{
    match state {
        ArrayState::AfterDoubleQuotedString => "AfterDoubleQuotedString",
        ArrayState::AfterLeftSquareBracket => "AfterLeftSquareBracket",
        ArrayState::AfterSingleQuotedString => "AfterSingleQuotedString",
        ArrayState::AfterItem => "AfterItem",
        ArrayState::DoubleQuotedString => "DoubleQuotedString",
        ArrayState::End => "End",
        ArrayState::LiteralString => "LiteralString",
        ArrayState::SingleQuotedString => "SingleQuotedString",
    }
}

impl Default for ArrayP {
    fn default() -> (r: Self)
        ensures
            r@ == ArrayPView::new(),
    {
        ArrayP {
            buffer: None,
            double_quoted_string_p: None,
            literal_value_p: None,
            single_quoted_string_p: None,
            state: ArrayState::AfterLeftSquareBracket,
        }
    }
}

impl ArrayP {
    /// Hands over the array read so far, if any, and forgets it.
    pub fn flush(&mut self) -> (r: Option<Array>)
        ensures
            match r {
                Some(m) => old(self)@.buffer == Some(m@),
                None => old(self)@.buffer is None,
            },
            final(self)@ == (ArrayPView { buffer: None, ..old(self)@ }),
    {
        self.buffer.take()
    }

    /// The array under way, a new one where there is none.
    fn take_buffer(&mut self) -> (r: Array)
        ensures
            r@ == old(self)@.items(),
            final(self)@ == (ArrayPView { buffer: None, ..old(self)@ }),
    {
        match self.buffer.take() {
            Some(m) => m,
            None => Array::default(),
        }
    }

    fn fail(&self, tokens: &LookAheadTokens) -> (r: PResult)
        ensures
            (self@, r@) == self@.fail(tokens@),
    {
        error(ParserKind::Array, state_name(self.state), tokens.current)
    }

    fn fail_via(&self, cause: crate::diagnostic::Diagnostic, tokens: &LookAheadTokens) -> (r:
        PResult)
        ensures
            (self@, r@) == self@.fail_via(cause@, tokens@),
    {
        error_via(cause, ParserKind::Array, state_name(self.state), tokens.current)
    }

    fn parse_after_item(&mut self, tokens: &LookAheadTokens) -> (r: PResult)
        ensures
            (final(self)@, r@) == old(self)@.step_after_item(tokens@),
    {
        match tokens.current.type_ {
            TokenType::WhiteSpaceString => PResult::Ongoing,
            TokenType::Comma => {
                self.state = ArrayState::AfterLeftSquareBracket;
                PResult::Ongoing
            },
            TokenType::RightSquareBracket => {
                self.state = ArrayState::End;
                PResult::End
            },
            _ => self.fail(tokens),
        }
    }

    fn parse_before_item(&mut self, tokens: &LookAheadTokens) -> (r: PResult)
        ensures
            (final(self)@, r@) == old(self)@.step_before_item(tokens@),
    {
        match tokens.current.type_ {
            TokenType::WhiteSpaceString => PResult::Ongoing,
            TokenType::DoubleQuotation => {
                let mut p = DoubleQuotedStringP::new();
                let _ = p.parse(tokens);
                self.double_quoted_string_p = Some(p);
                self.state = ArrayState::DoubleQuotedString;
                PResult::Ongoing
            },
            TokenType::SingleQuotation => {
                let mut p = SingleQuotedStringP::new();
                let _ = p.parse(tokens);
                self.single_quoted_string_p = Some(p);
                self.state = ArrayState::SingleQuotedString;
                PResult::Ongoing
            },
            t => {
                if is_literal_token(t) {
                    self.literal_value_p = Some(LiteralValueP::new());
                    self.parse_literal(tokens)
                } else {
                    self.fail(tokens)
                }
            },
        }
    }

    fn parse_double_quoted(&mut self, tokens: &LookAheadTokens) -> (r: PResult)
        ensures
            (final(self)@, r@) == old(self)@.step_double_quoted(tokens@),
    {
        match self.double_quoted_string_p.take() {
            None => self.fail(tokens),
            Some(mut p) => match p.parse(tokens) {
                PResult::End => match p.flush() {
                    Some(child_m) => {
                        let mut m = self.take_buffer();
                        m.push_double_quote_string(&child_m);
                        self.buffer = Some(m);
                        self.state = ArrayState::AfterDoubleQuotedString;
                        PResult::Ongoing
                    },
                    None => {
                        self.double_quoted_string_p = Some(p);
                        self.fail(tokens)
                    },
                },
                PResult::Failed(d) => {
                    self.double_quoted_string_p = Some(p);
                    self.fail_via(d, tokens)
                },
                PResult::Ongoing => {
                    self.double_quoted_string_p = Some(p);
                    PResult::Ongoing
                },
            },
        }
    }

    fn parse_single_quoted(&mut self, tokens: &LookAheadTokens) -> (r: PResult)
        ensures
            (final(self)@, r@) == old(self)@.step_single_quoted(tokens@),
    {
        match self.single_quoted_string_p.take() {
            None => self.fail(tokens),
            Some(mut p) => match p.parse(tokens) {
                PResult::End => match p.flush() {
                    Some(child_m) => {
                        let mut m = self.take_buffer();
                        m.push_single_quote_string(&child_m);
                        self.buffer = Some(m);
                        self.state = ArrayState::AfterSingleQuotedString;
                        PResult::Ongoing
                    },
                    None => {
                        self.single_quoted_string_p = Some(p);
                        self.fail(tokens)
                    },
                },
                PResult::Failed(d) => {
                    self.single_quoted_string_p = Some(p);
                    self.fail_via(d, tokens)
                },
                PResult::Ongoing => {
                    self.single_quoted_string_p = Some(p);
                    PResult::Ongoing
                },
            },
        }
    }

    fn parse_literal(&mut self, tokens: &LookAheadTokens) -> (r: PResult)
        ensures
            (final(self)@, r@) == old(self)@.step_literal(tokens@),
    {
        match self.literal_value_p.take() {
            None => self.fail(tokens),
            Some(mut p) => match p.parse(tokens) {
                PResult::End => match p.flush() {
                    Some(child_m) => {
                        let mut m = self.take_buffer();
                        m.push_literal_string(&child_m);
                        self.buffer = Some(m);
                        self.state = ArrayState::AfterItem;
                        PResult::Ongoing
                    },
                    None => {
                        self.literal_value_p = Some(p);
                        self.fail(tokens)
                    },
                },
                PResult::Failed(d) => {
                    self.literal_value_p = Some(p);
                    self.fail_via(d, tokens)
                },
                PResult::Ongoing => {
                    self.literal_value_p = Some(p);
                    self.state = ArrayState::LiteralString;
                    PResult::Ongoing
                },
            },
        }
    }

    /// Takes one token.
    pub fn parse(&mut self, tokens: &LookAheadTokens) -> (r: PResult)
        ensures
            (final(self)@, r@) == old(self)@.step(tokens@),
    {
        match self.state {
            ArrayState::AfterDoubleQuotedString => self.parse_after_item(tokens),
            ArrayState::AfterLeftSquareBracket => self.parse_before_item(tokens),
            ArrayState::AfterSingleQuotedString => self.parse_after_item(tokens),
            ArrayState::AfterItem => self.parse_after_item(tokens),
            ArrayState::DoubleQuotedString => self.parse_double_quoted(tokens),
            ArrayState::End => self.fail(tokens),
            ArrayState::LiteralString => self.parse_literal(tokens),
            ArrayState::SingleQuotedString => self.parse_single_quoted(tokens),
        }
    }
}

} // verus!
