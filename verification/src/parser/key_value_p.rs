//! Key value syntax parser.
//!
//! Example: `key = 'value'`.

use vstd::prelude::*;
use crate::diagnostic::Diagnostic;
use crate::diagnostic::DiagnosticView;
use crate::diagnostic::PResult;
use crate::diagnostic::PResultView;
use crate::diagnostic::ParserKind;
use crate::diagnostic::error;
use crate::diagnostic::error_via;
use crate::diagnostic::spec_error;
use crate::diagnostic::spec_error_via;
use crate::model::KeyValue;
use crate::model::KeyValueView;
use crate::model::RightValue;
use crate::model::RightValueView;
use crate::parser::array::ArrayP;
use crate::parser::array::ArrayPView;
use crate::parser::double_quoted_string_p::DoubleQuotedStringP;
use crate::parser::double_quoted_string_p::DoubleQuotedStringPView;
use crate::parser::inline_table::InlineTableP;
use crate::parser::inline_table::InlineTablePView;
use crate::parser::inline_table::inline_table_p_view;
use crate::parser::literal_value_p::LiteralValueP;
use crate::parser::literal_value_p::LiteralValuePView;
use crate::parser::single_quoted_string_p::SingleQuotedStringP;
use crate::parser::single_quoted_string_p::SingleQuotedStringPView;
use crate::token::LookAheadTokens;
use crate::token::LookAheadTokensView;
use crate::token::Token;
use crate::token::TokenType;
use crate::token::TokenView;
use crate::token::is_key_token;
use crate::token::is_literal_token;
use crate::token::spec_is_key_token;
use crate::token::spec_is_literal_token;

verus! {

/// Key value syntax machine state.
#[derive(Clone, Copy, Debug, PartialEq, Eq, Structural)]
pub enum State {
    /// Behind `=`: the value is awaited.
    AfterEquals,
    Array,
    /// Behind the key and white space: `=` is awaited.
    BeforeEquals,
    DoubleQuotedString,
    End,
    InlineTable,
    /// In the key.
    Key,
    LiteralValue,
    SingleQuotedString,
}

/// Reads a key and its value, from behind the first token of the key to
/// the last token of the value.
#[derive(Debug)]
pub struct KeyValueP {
    pub array_p: Option<ArrayP>,
    pub buffer: Option<KeyValue>,
    /// Whether `.` can stand in the key.
    pub dot_allowed: bool,
    pub double_quoted_string_p: Option<DoubleQuotedStringP>,
    pub inline_table_p: Option<Box<InlineTableP>>,
    pub key: String,
    pub literal_value_p: Option<LiteralValueP>,
    pub single_quoted_string_p: Option<SingleQuotedStringP>,
    pub state: State,
}

/// The mathematical content of a [`KeyValueP`].
pub struct KeyValuePView {
    pub array_p: Option<ArrayPView>,
    pub buffer: Option<KeyValueView>,
    pub dot_allowed: bool,
    pub double_quoted_string_p: Option<DoubleQuotedStringPView>,
    pub inline_table_p: Option<Box<InlineTablePView>>,
    pub key: Seq<char>,
    pub literal_value_p: Option<LiteralValuePView>,
    pub single_quoted_string_p: Option<SingleQuotedStringPView>,
    pub state: State,
}

/// The mathematical content of `p`.
pub open spec fn key_value_p_view(p: KeyValueP) -> KeyValuePView
    decreases p,
{
    KeyValuePView {
        array_p: match p.array_p {
            Some(c) => Some(c@),
            None => None,
        },
        buffer: match p.buffer {
            Some(m) => Some(m@),
            None => None,
        },
        dot_allowed: p.dot_allowed,
        double_quoted_string_p: match p.double_quoted_string_p {
            Some(c) => Some(c@),
            None => None,
        },
        inline_table_p: match p.inline_table_p {
            Some(c) => Some(Box::new(inline_table_p_view(*c))),
            None => None,
        },
        key: p.key@,
        literal_value_p: match p.literal_value_p {
            Some(c) => Some(c@),
            None => None,
        },
        single_quoted_string_p: match p.single_quoted_string_p {
            Some(c) => Some(c@),
            None => None,
        },
        state: p.state,
    }
}

impl View for KeyValueP {
    type V = KeyValuePView;

    open spec fn view(&self) -> KeyValuePView {
        key_value_p_view(*self)
    }
}

/// The name of `state`.
pub open spec fn spec_state_name(state: State) -> Seq<char> {
    match state {
        State::AfterEquals => "AfterEquals"@,
        State::Array => "Array"@,
        State::BeforeEquals => "BeforeEquals"@,
        State::DoubleQuotedString => "DoubleQuotedString"@,
        State::End => "End"@,
        State::InlineTable => "InlineTable"@,
        State::Key => "Key"@,
        State::LiteralValue => "LiteralValue"@,
        State::SingleQuotedString => "SingleQuotedString"@,
    }
}

impl KeyValuePView {
    /// The parser behind `token`, the first of the key.
    pub open spec fn new(token: TokenView, dot_allowed: bool) -> Self {
        KeyValuePView {
            array_p: None,
            buffer: None,
            dot_allowed,
            double_quoted_string_p: None,
            inline_table_p: None,
            key: token.value,
            literal_value_p: None,
            single_quoted_string_p: None,
            state: State::Key,
        }
    }

    /// The parser cannot take the token: it stays as it is and says so.
    pub open spec fn fail(self, tokens: LookAheadTokensView) -> (Self, PResultView) {
        (self, spec_error(ParserKind::KeyValue, spec_state_name(self.state), tokens.current))
    }

    /// A parser that this one had handed the token to failed with `cause`:
    /// this one stays as it is and says so.
    pub open spec fn fail_via(self, cause: DiagnosticView, tokens: LookAheadTokensView) -> (
        Self,
        PResultView,
    ) {
        (
            self,
            spec_error_via(
                cause,
                ParserKind::KeyValue,
                spec_state_name(self.state),
                tokens.current,
            ),
        )
    }

    /// The value is read: key and value are complete.
    pub open spec fn finish(self, value: RightValueView) -> (Self, PResultView) {
        (
            KeyValuePView {
                buffer: Some(KeyValueView { key: self.key, value }),
                state: State::End,
                ..self
            },
            PResultView::End,
        )
    }

    /// In the key: a token that can belong to a bare key joins it, and so
    /// does `.` where it is allowed; white space ends the key; `=` awaits
    /// the value; anything else fails.
    pub open spec fn step_key(self, tokens: LookAheadTokensView) -> (Self, PResultView) {
        let t = tokens.current.type_;
        if spec_is_key_token(t) || (t == TokenType::Dot && self.dot_allowed) {
            (KeyValuePView { key: self.key + tokens.current.value, ..self }, PResultView::Ongoing)
        } else if t == TokenType::WhiteSpaceString {
            (KeyValuePView { state: State::BeforeEquals, ..self }, PResultView::Ongoing)
        } else if t == TokenType::Equals {
            (KeyValuePView { state: State::AfterEquals, ..self }, PResultView::Ongoing)
        } else {
            self.fail(tokens)
        }
    }

    /// Behind the key: white space is passed over, `=` awaits the value,
    /// anything else fails.
    pub open spec fn step_before_equals(self, tokens: LookAheadTokensView) -> (
        Self,
        PResultView,
    ) {
        let t = tokens.current.type_;
        if t == TokenType::WhiteSpaceString {
            (self, PResultView::Ongoing)
        } else if t == TokenType::Equals {
            (KeyValuePView { state: State::AfterEquals, ..self }, PResultView::Ongoing)
        } else {
            self.fail(tokens)
        }
    }

    /// Behind `=`: white space is passed over; a quote starts a string and
    /// a token that can belong to an unquoted scalar starts one, each read
    /// by its own parser from this token on; `[` and `{` start an array and
    /// an inline table, each read by its own parser from the next token on;
    /// anything else fails.
    pub open spec fn step_after_equals(self, tokens: LookAheadTokensView) -> (Self, PResultView) {
        let t = tokens.current.type_;
        if t == TokenType::WhiteSpaceString {
            (self, PResultView::Ongoing)
        } else if t == TokenType::DoubleQuotation {
            (
                KeyValuePView {
                    double_quoted_string_p: Some(DoubleQuotedStringPView::new().step(tokens).0),
                    state: State::DoubleQuotedString,
                    ..self
                },
                PResultView::Ongoing,
            )
        } else if t == TokenType::SingleQuotation {
            (
                KeyValuePView {
                    single_quoted_string_p: Some(SingleQuotedStringPView::new().step(tokens).0),
                    state: State::SingleQuotedString,
                    ..self
                },
                PResultView::Ongoing,
            )
        } else if t == TokenType::LeftSquareBracket {
            (
                KeyValuePView { array_p: Some(ArrayPView::new()), state: State::Array, ..self },
                PResultView::Ongoing,
            )
        } else if t == TokenType::LeftCurlyBracket {
            (
                KeyValuePView {
                    inline_table_p: Some(Box::new(InlineTablePView::new())),
                    state: State::InlineTable,
                    ..self
                },
                PResultView::Ongoing,
            )
        } else if spec_is_literal_token(t) {
            KeyValuePView { literal_value_p: Some(LiteralValuePView::new()), ..self }.step_literal(
                tokens,
            )
        } else {
            self.fail(tokens)
        }
    }

    /// In an array: the token goes to the array's parser; when that ends,
    /// its array is the value.
    pub open spec fn step_array(self, tokens: LookAheadTokensView) -> (Self, PResultView) {
        match self.array_p {
            None => self.fail(tokens),
            Some(p) => {
                let (q1, r) = p.step(tokens);
                match r {
                    PResultView::End => match q1.buffer {
                        Some(items) => KeyValuePView { array_p: None, ..self }.finish(
                            RightValueView::Array(items),
                        ),
                        None => KeyValuePView { array_p: Some(q1), ..self }.fail(tokens),
                    },
                    PResultView::Failed(d) => KeyValuePView { array_p: Some(q1), ..self }.fail_via(
                        d,
                        tokens,
                    ),
                    PResultView::Ongoing => (
                        KeyValuePView { array_p: Some(q1), ..self },
                        PResultView::Ongoing,
                    ),
                }
            },
        }
    }

    /// In a double-quoted string: the token goes to the string's parser;
    /// when that ends, its string is the value.
    pub open spec fn step_double_quoted(self, tokens: LookAheadTokensView) -> (Self, PResultView) {
        match self.double_quoted_string_p {
            None => self.fail(tokens),
            Some(p) => {
                let (q1, r) = p.step(tokens);
                match r {
                    PResultView::End => match q1.buffer {
                        Some(s) => KeyValuePView { double_quoted_string_p: None, ..self }.finish(
                            RightValueView::DoubleQuotedString(s),
                        ),
                        None => KeyValuePView { double_quoted_string_p: Some(q1), ..self }.fail(
                            tokens,
                        ),
                    },
                    PResultView::Failed(d) => KeyValuePView {
                        double_quoted_string_p: Some(q1),
                        ..self
                    }.fail_via(d, tokens),
                    PResultView::Ongoing => (
                        KeyValuePView { double_quoted_string_p: Some(q1), ..self },
                        PResultView::Ongoing,
                    ),
                }
            },
        }
    }

    /// In a single-quoted string: the token goes to the string's parser;
    /// when that ends, its string is the value.
    pub open spec fn step_single_quoted(self, tokens: LookAheadTokensView) -> (Self, PResultView) {
        match self.single_quoted_string_p {
            None => self.fail(tokens),
            Some(p) => {
                let (q1, r) = p.step(tokens);
                match r {
                    PResultView::End => match q1.buffer {
                        Some(s) => KeyValuePView { single_quoted_string_p: None, ..self }.finish(
                            RightValueView::SingleQuotedString(s),
                        ),
                        None => KeyValuePView { single_quoted_string_p: Some(q1), ..self }.fail(
                            tokens,
                        ),
                    },
                    PResultView::Failed(d) => KeyValuePView {
                        single_quoted_string_p: Some(q1),
                        ..self
                    }.fail_via(d, tokens),
                    PResultView::Ongoing => (
                        KeyValuePView { single_quoted_string_p: Some(q1), ..self },
                        PResultView::Ongoing,
                    ),
                }
            },
        }
    }

    /// In an unquoted scalar: the token goes to the literal's parser; when
    /// that ends, its literal is the value.
    pub open spec fn step_literal(self, tokens: LookAheadTokensView) -> (Self, PResultView) {
        match self.literal_value_p {
            None => self.fail(tokens),
            Some(p) => {
                let (q1, r) = p.step(tokens);
                match r {
                    PResultView::End => match q1.buffer {
                        Some(s) => KeyValuePView { literal_value_p: None, ..self }.finish(
                            RightValueView::LiteralString(s),
                        ),
                        None => KeyValuePView { literal_value_p: Some(q1), ..self }.fail(tokens),
                    },
                    PResultView::Failed(d) => KeyValuePView {
                        literal_value_p: Some(q1),
                        ..self
                    }.fail_via(d, tokens),
                    PResultView::Ongoing => (
                        KeyValuePView {
                            literal_value_p: Some(q1),
                            state: State::LiteralValue,
                            ..self
                        },
                        PResultView::Ongoing,
                    ),
                }
            },
        }
    }

    /// In an inline table: the token goes to the table's parser; when that
    /// ends, its table is the value.
    pub open spec fn step_inline_table(self, tokens: LookAheadTokensView) -> (Self, PResultView)
        decreases self, 0int,
    {
        match self.inline_table_p {
            None => self.fail(tokens),
            Some(p) => {
                let (q1, r) = p.step(tokens);
                match r {
                    PResultView::End => match q1.buffer {
                        Some(items) => KeyValuePView { inline_table_p: None, ..self }.finish(
                            RightValueView::InlineTable(items),
                        ),
                        None => KeyValuePView { inline_table_p: Some(Box::new(q1)), ..self }.fail(
                            tokens,
                        ),
                    },
                    PResultView::Failed(d) => KeyValuePView {
                        inline_table_p: Some(Box::new(q1)),
                        ..self
                    }.fail_via(d, tokens),
                    PResultView::Ongoing => (
                        KeyValuePView { inline_table_p: Some(Box::new(q1)), ..self },
                        PResultView::Ongoing,
                    ),
                }
            },
        }
    }

    /// One step: see the function of each state. Behind the value
    /// everything fails.
    pub open spec fn step(self, tokens: LookAheadTokensView) -> (Self, PResultView)
        decreases self, 1int,
    {
        match self.state {
            State::AfterEquals => self.step_after_equals(tokens),
            State::Array => self.step_array(tokens),
            State::BeforeEquals => self.step_before_equals(tokens),
            State::DoubleQuotedString => self.step_double_quoted(tokens),
            State::End => self.fail(tokens),
            State::InlineTable => self.step_inline_table(tokens),
            State::Key => self.step_key(tokens),
            State::LiteralValue => self.step_literal(tokens),
            State::SingleQuotedString => self.step_single_quoted(tokens),
        }
    }
}

/// The name of `state`.
pub fn state_name(state: State) -> (r: &'static str)
    ensures
        r@ == spec_state_name(state),
{
    match state {
        State::AfterEquals => "AfterEquals",
        State::Array => "Array",
        State::BeforeEquals => "BeforeEquals",
        State::DoubleQuotedString => "DoubleQuotedString",
        State::End => "End",
        State::InlineTable => "InlineTable",
        State::Key => "Key",
        State::LiteralValue => "LiteralValue",
        State::SingleQuotedString => "SingleQuotedString",
    }
}

impl KeyValueP {
    /// The parser behind `token`, the first of the key.
    pub fn new(token: &Token, dot_allowed: bool) -> (r: Self)
        ensures
            r@ == KeyValuePView::new(token@, dot_allowed),
    {
        KeyValueP {
            array_p: None,
            buffer: None,
            dot_allowed,
            double_quoted_string_p: None,
            inline_table_p: None,
            key: token.value.clone(),
            literal_value_p: None,
            single_quoted_string_p: None,
            state: State::Key,
        }
    }

    /// Hands over the key value read, if any, and forgets it.
    pub fn flush(&mut self) -> (r: Option<KeyValue>)
        ensures
            match r {
                Some(m) => old(self)@.buffer == Some(m@),
                None => old(self)@.buffer is None,
            },
            final(self)@ == (KeyValuePView { buffer: None, ..old(self)@ }),
    {
        self.buffer.take()
    }

    fn fail(&self, tokens: &LookAheadTokens) -> (r: PResult)
        ensures
            (self@, r@) == self@.fail(tokens@),
    {
        error(ParserKind::KeyValue, state_name(self.state), tokens.current)
    }

    fn fail_via(&self, cause: Diagnostic, tokens: &LookAheadTokens) -> (r: PResult)
        ensures
            (self@, r@) == self@.fail_via(cause@, tokens@),
    {
        error_via(cause, ParserKind::KeyValue, state_name(self.state), tokens.current)
    }

    fn finish(&mut self, value: RightValue) -> (r: PResult)
        ensures
            (final(self)@, r@) == old(self)@.finish(value@),
    {
        self.buffer = Some(KeyValue { key: self.key.clone(), value: Box::new(value) });
        self.state = State::End;
        PResult::End
    }

    fn parse_key(&mut self, tokens: &LookAheadTokens) -> (r: PResult)
        ensures
            (final(self)@, r@) == old(self)@.step_key(tokens@),
    {
        let t = tokens.current.type_;
        if is_key_token(t) || (t == TokenType::Dot && self.dot_allowed) {
            self.key.append(tokens.current.value.as_str());
            PResult::Ongoing
        } else if t == TokenType::WhiteSpaceString {
            self.state = State::BeforeEquals;
            PResult::Ongoing
        } else if t == TokenType::Equals {
            self.state = State::AfterEquals;
            PResult::Ongoing
        } else {
            self.fail(tokens)
        }
    }

    fn parse_before_equals(&mut self, tokens: &LookAheadTokens) -> (r: PResult)
        ensures
            (final(self)@, r@) == old(self)@.step_before_equals(tokens@),
    {
        let t = tokens.current.type_;
        if t == TokenType::WhiteSpaceString {
            PResult::Ongoing
        } else if t == TokenType::Equals {
            self.state = State::AfterEquals;
            PResult::Ongoing
        } else {
            self.fail(tokens)
        }
    }

    fn parse_after_equals(&mut self, tokens: &LookAheadTokens) -> (r: PResult)
        ensures
            (final(self)@, r@) == old(self)@.step_after_equals(tokens@),
    {
        let t = tokens.current.type_;
        if t == TokenType::WhiteSpaceString {
            PResult::Ongoing
        } else if t == TokenType::DoubleQuotation {
            let mut p = DoubleQuotedStringP::new();
            let _ = p.parse(tokens);
            self.double_quoted_string_p = Some(p);
            self.state = State::DoubleQuotedString;
            PResult::Ongoing
        } else if t == TokenType::SingleQuotation {
            let mut p = SingleQuotedStringP::new();
            let _ = p.parse(tokens);
            self.single_quoted_string_p = Some(p);
            self.state = State::SingleQuotedString;
            PResult::Ongoing
        } else if t == TokenType::LeftSquareBracket {
            self.array_p = Some(ArrayP::default());
            self.state = State::Array;
            PResult::Ongoing
        } else if t == TokenType::LeftCurlyBracket {
            self.inline_table_p = Some(Box::new(InlineTableP::default()));
            self.state = State::InlineTable;
            PResult::Ongoing
        } else if is_literal_token(t) {
            self.literal_value_p = Some(LiteralValueP::new());
            self.parse_literal(tokens)
        } else {
            self.fail(tokens)
        }
    }

    fn parse_array(&mut self, tokens: &LookAheadTokens) -> (r: PResult)
        ensures
            (final(self)@, r@) == old(self)@.step_array(tokens@),
    {
        match self.array_p.take() {
            None => self.fail(tokens),
            Some(mut p) => match p.parse(tokens) {
                PResult::End => match p.flush() {
                    Some(child_m) => self.finish(RightValue::Array(child_m)),
                    None => {
                        self.array_p = Some(p);
                        self.fail(tokens)
                    },
                },
                PResult::Failed(d) => {
                    self.array_p = Some(p);
                    self.fail_via(d, tokens)
                },
                PResult::Ongoing => {
                    self.array_p = Some(p);
                    PResult::Ongoing
                },
            },
        }
    }

    fn parse_double_quoted(&mut self, tokens: &LookAheadTokens) -> (r: PResult)
        ensures
            (final(self)@, r@) == old(self)@.step_double_quoted(tokens@),
    {
        match self.double_quoted_string_p.take() {
            None => self.fail(tokens),
            Some(mut p) => match p.parse(tokens) {
                PResult::End => match p.flush() {
                    Some(child_m) => self.finish(RightValue::DoubleQuotedString(child_m)),
                    None => {
                        self.double_quoted_string_p = Some(p);
                        self.fail(tokens)
                    },
                },
                PResult::Failed(d) => {
                    self.double_quoted_string_p = Some(p);
                    self.fail_via(d, tokens)
                },
                PResult::Ongoing => {
                    self.double_quoted_string_p = Some(p);
                    PResult::Ongoing
                },
            },
        }
    }

    fn parse_single_quoted(&mut self, tokens: &LookAheadTokens) -> (r: PResult)
        ensures
            (final(self)@, r@) == old(self)@.step_single_quoted(tokens@),
    {
        match self.single_quoted_string_p.take() {
            None => self.fail(tokens),
            Some(mut p) => match p.parse(tokens) {
                PResult::End => match p.flush() {
                    Some(child_m) => self.finish(RightValue::SingleQuotedString(child_m)),
                    None => {
                        self.single_quoted_string_p = Some(p);
                        self.fail(tokens)
                    },
                },
                PResult::Failed(d) => {
                    self.single_quoted_string_p = Some(p);
                    self.fail_via(d, tokens)
                },
                PResult::Ongoing => {
                    self.single_quoted_string_p = Some(p);
                    PResult::Ongoing
                },
            },
        }
    }

    fn parse_literal(&mut self, tokens: &LookAheadTokens) -> (r: PResult)
        ensures
            (final(self)@, r@) == old(self)@.step_literal(tokens@),
    {
        match self.literal_value_p.take() {
            None => self.fail(tokens),
            Some(mut p) => match p.parse(tokens) {
                PResult::End => match p.flush() {
                    Some(child_m) => self.finish(RightValue::LiteralString(child_m)),
                    None => {
                        self.literal_value_p = Some(p);
                        self.fail(tokens)
                    },
                },
                PResult::Failed(d) => {
                    self.literal_value_p = Some(p);
                    self.fail_via(d, tokens)
                },
                PResult::Ongoing => {
                    self.literal_value_p = Some(p);
                    self.state = State::LiteralValue;
                    PResult::Ongoing
                },
            },
        }
    }

    fn parse_inline_table(&mut self, tokens: &LookAheadTokens) -> (r: PResult)
        ensures
            (final(self)@, r@) == old(self)@.step_inline_table(tokens@),
        decreases *old(self), 0int,
    {
        match self.inline_table_p.take() {
            None => self.fail(tokens),
            Some(mut p) => match p.parse(tokens) {
                PResult::End => match p.flush() {
                    Some(child_m) => self.finish(RightValue::InlineTable(child_m)),
                    None => {
                        self.inline_table_p = Some(p);
                        self.fail(tokens)
                    },
                },
                PResult::Failed(d) => {
                    self.inline_table_p = Some(p);
                    self.fail_via(d, tokens)
                },
                PResult::Ongoing => {
                    self.inline_table_p = Some(p);
                    PResult::Ongoing
                },
            },
        }
    }

    /// Takes one token.
    pub fn parse(&mut self, tokens: &LookAheadTokens) -> (r: PResult)
        ensures
            (final(self)@, r@) == old(self)@.step(tokens@),
        decreases *old(self), 1int,
    {
        match self.state {
            State::AfterEquals => self.parse_after_equals(tokens),
            State::Array => self.parse_array(tokens),
            State::BeforeEquals => self.parse_before_equals(tokens),
            State::DoubleQuotedString => self.parse_double_quoted(tokens),
            State::End => self.fail(tokens),
            State::InlineTable => self.parse_inline_table(tokens),
            State::Key => self.parse_key(tokens),
            State::LiteralValue => self.parse_literal(tokens),
            State::SingleQuotedString => self.parse_single_quoted(tokens),
        }
    }
}

} // verus!
