//! Expression syntax parser: one line of a document.

use vstd::prelude::*;
use crate::diagnostic::Diagnostic;
use crate::diagnostic::DiagnosticView;
use crate::diagnostic::PResult;
use crate::diagnostic::PResultView;
use crate::diagnostic::ParserKind;
use crate::diagnostic::error;
use crate::diagnostic::error_via;
use crate::diagnostic::spec_error;
use crate::diagnostic::spec_error_via;
use crate::model::Expression;
use crate::model::ExpressionView;
use crate::parser::comment_p::CommentP;
use crate::parser::comment_p::CommentPView;
use crate::parser::header_p_of_array_of_table::HeaderPOfArrayOfTable;
use crate::parser::header_p_of_array_of_table::HeaderPOfArrayOfTableView;
use crate::parser::header_p_of_table::HeaderPOfTable;
use crate::parser::header_p_of_table::HeaderPOfTableView;
use crate::parser::key_value_p::KeyValueP;
use crate::parser::key_value_p::KeyValuePView;
use crate::token::LookAheadTokens;
use crate::token::LookAheadTokensView;
use crate::token::TokenType;
use crate::token::is_carriage_return;
use crate::token::is_key_token;
use crate::token::spec_is_carriage_return;
use crate::token::spec_is_key_token;

verus! {

/// Expression syntax machine state.
#[derive(Clone, Copy, Debug, PartialEq, Eq, Structural)]
pub enum State {
    /// Behind a key value: the end of the line is awaited.
    AfterKeyValue,
    Comment,
    End,
    /// Before the first token that is no white space.
    First,
    HeaderOfArrayOfTable,
    HeaderOfTable,
    KeyValue,
    /// Behind the first `[` of `[[`.
    SecondLeftSquareBracket,
}

/// Broad-line syntax parser.
#[derive(Debug)]
pub struct ExpressionP {
    pub buffer: Option<Expression>,
    pub comment_p: Option<CommentP>,
    pub header_p_of_array_of_table: Option<HeaderPOfArrayOfTable>,
    pub header_p_of_table: Option<HeaderPOfTable>,
    pub key_value_p: Option<KeyValueP>,
    pub state: State,
}

/// The mathematical content of an [`ExpressionP`].
pub struct ExpressionPView {
    pub buffer: Option<ExpressionView>,
    pub comment_p: Option<CommentPView>,
    pub header_p_of_array_of_table: Option<HeaderPOfArrayOfTableView>,
    pub header_p_of_table: Option<HeaderPOfTableView>,
    pub key_value_p: Option<KeyValuePView>,
    pub state: State,
}

impl View for ExpressionP {
    type V = ExpressionPView;

    open spec fn view(&self) -> ExpressionPView {
        ExpressionPView {
            buffer: match self.buffer {
                Some(m) => Some(m@),
                None => None,
            },
            comment_p: match self.comment_p {
                Some(p) => Some(p@),
                None => None,
            },
            header_p_of_array_of_table: match self.header_p_of_array_of_table {
                Some(p) => Some(p@),
                None => None,
            },
            header_p_of_table: match self.header_p_of_table {
                Some(p) => Some(p@),
                None => None,
            },
            key_value_p: match self.key_value_p {
                Some(p) => Some(p@),
                None => None,
            },
            state: self.state,
        }
    }
}

/// The name of `state`.
pub open spec fn spec_state_name(state: State) -> Seq<char> {
    match state {
        State::AfterKeyValue => "AfterKeyValue"@,
        State::Comment => "Comment"@,
        State::End => "End"@,
        State::First => "First"@,
        State::HeaderOfArrayOfTable => "HeaderOfArrayOfTable"@,
        State::HeaderOfTable => "HeaderOfTable"@,
        State::KeyValue => "KeyValue"@,
        State::SecondLeftSquareBracket => "SecondLeftSquareBracket"@,
    }
}

impl ExpressionPView {
    /// The parser before its first token.
    pub open spec fn new() -> Self {
        ExpressionPView {
            buffer: None,
            comment_p: None,
            header_p_of_array_of_table: None,
            header_p_of_table: None,
            key_value_p: None,
            state: State::First,
        }
    }

    /// The parser cannot take the token: it stays as it is and says so.
    pub open spec fn fail(self, tokens: LookAheadTokensView) -> (Self, PResultView) {
        (self, spec_error(ParserKind::Expression, spec_state_name(self.state), tokens.current))
    }

    /// A parser that this one had handed the token to failed with `cause`:
    /// this one stays as it is and says so.
    pub open spec fn fail_via(self, cause: DiagnosticView, tokens: LookAheadTokensView) -> (
        Self,
        PResultView,
    ) {
        (
            self,
            spec_error_via(
                cause,
                ParserKind::Expression,
                spec_state_name(self.state),
                tokens.current,
            ),
        )
    }

    /// The line is read: it holds `e`.
    pub open spec fn finish(self, e: ExpressionView) -> (Self, PResultView) {
        (ExpressionPView { buffer: Some(e), state: State::End, ..self }, PResultView::End)
    }

    /// Before the first token that is no white space: white space and
    /// carriage returns are passed over; the end of the line makes an empty
    /// line; `#` starts a comment; `[` starts the header of an array of
    /// tables where another `[` follows, else the header of a table; a
    /// token that can belong to a bare key starts a key value; anything
    /// else fails.
    pub open spec fn step_first(self, tokens: LookAheadTokensView) -> (Self, PResultView) {
        let t = tokens.current.type_;
        if t == TokenType::WhiteSpaceString || spec_is_carriage_return(tokens.current) {
            (self, PResultView::Ongoing)
        } else if t == TokenType::EndOfLine {
            self.finish(ExpressionView::EmptyLine)
        } else if t == TokenType::Sharp {
            (
                ExpressionPView {
                    comment_p: Some(CommentPView::new()),
                    state: State::Comment,
                    ..self
                },
                PResultView::Ongoing,
            )
        } else if t == TokenType::LeftSquareBracket {
            if tokens.one_ahead is Some && tokens.one_ahead->0.type_
                == TokenType::LeftSquareBracket {
                (
                    ExpressionPView { state: State::SecondLeftSquareBracket, ..self },
                    PResultView::Ongoing,
                )
            } else {
                (
                    ExpressionPView {
                        header_p_of_table: Some(HeaderPOfTableView::new()),
                        state: State::HeaderOfTable,
                        ..self
                    },
                    PResultView::Ongoing,
                )
            }
        } else if spec_is_key_token(t) {
            (
                ExpressionPView {
                    key_value_p: Some(KeyValuePView::new(tokens.current, true)),
                    state: State::KeyValue,
                    ..self
                },
                PResultView::Ongoing,
            )
        } else {
            self.fail(tokens)
        }
    }

    /// In a comment: the token goes to the comment's parser; when that
    /// ends, the line holds its comment.
    pub open spec fn step_comment(self, tokens: LookAheadTokensView) -> (Self, PResultView) {
        match self.comment_p {
            None => self.fail(tokens),
            Some(p) => {
                let (q1, r) = p.step(tokens);
                match r {
                    PResultView::End => match q1.buffer {
                        Some(s) => ExpressionPView { comment_p: None, ..self }.finish(
                            ExpressionView::Comment(s),
                        ),
                        None => ExpressionPView { comment_p: Some(q1), ..self }.fail(tokens),
                    },
                    PResultView::Failed(d) => ExpressionPView {
                        comment_p: Some(q1),
                        ..self
                    }.fail_via(d, tokens),
                    PResultView::Ongoing => (
                        ExpressionPView { comment_p: Some(q1), ..self },
                        PResultView::Ongoing,
                    ),
                }
            },
        }
    }

    /// In a key value: the token goes to the key value's parser; when that
    /// ends, the line holds its key value, and its end is awaited.
    pub open spec fn step_key_value(self, tokens: LookAheadTokensView) -> (Self, PResultView) {
        match self.key_value_p {
            None => self.fail(tokens),
            Some(p) => {
                let (q1, r) = p.step(tokens);
                match r {
                    PResultView::End => match q1.buffer {
                        Some(m) => (
                            ExpressionPView {
                                buffer: Some(ExpressionView::KeyValue(m)),
                                key_value_p: None,
                                state: State::AfterKeyValue,
                                ..self
                            },
                            PResultView::Ongoing,
                        ),
                        None => ExpressionPView { key_value_p: Some(q1), ..self }.fail(tokens),
                    },
                    PResultView::Failed(d) => ExpressionPView {
                        key_value_p: Some(q1),
                        ..self
                    }.fail_via(d, tokens),
                    PResultView::Ongoing => (
                        ExpressionPView { key_value_p: Some(q1), ..self },
                        PResultView::Ongoing,
                    ),
                }
            },
        }
    }

    /// Behind a key value: white space and carriage returns are passed
    /// over, the end of the line ends the line, anything else fails, a
    /// comment too.
    pub open spec fn step_after_key_value(self, tokens: LookAheadTokensView) -> (
        Self,
        PResultView,
    ) {
        let t = tokens.current.type_;
        if t == TokenType::WhiteSpaceString || spec_is_carriage_return(tokens.current) {
            (self, PResultView::Ongoing)
        } else if t == TokenType::EndOfLine {
            (ExpressionPView { state: State::End, ..self }, PResultView::End)
        } else {
            self.fail(tokens)
        }
    }

    /// Behind the first `[` of `[[`: the second one starts the name;
    /// anything else fails.
    pub open spec fn step_second_bracket(self, tokens: LookAheadTokensView) -> (
        Self,
        PResultView,
    ) {
        if tokens.current.type_ == TokenType::LeftSquareBracket {
            (
                ExpressionPView {
                    header_p_of_array_of_table: Some(HeaderPOfArrayOfTableView::new()),
                    state: State::HeaderOfArrayOfTable,
                    ..self
                },
                PResultView::Ongoing,
            )
        } else {
            self.fail(tokens)
        }
    }

    /// In the header of a table: the end of the line ends the name as it
    /// stands; any other token goes to the header's parser, and when that
    /// ends, so does the name. The line then holds the header.
    pub open spec fn step_header_of_table(self, tokens: LookAheadTokensView) -> (
        Self,
        PResultView,
    ) {
        match self.header_p_of_table {
            None => self.fail(tokens),
            Some(p) => {
                if tokens.current.type_ == TokenType::EndOfLine {
                    ExpressionPView { header_p_of_table: None, ..self }.finish(
                        ExpressionView::HeaderOfTable(p.text()),
                    )
                } else {
                    let (q1, r) = p.step(tokens);
                    match r {
                        PResultView::End => ExpressionPView {
                            header_p_of_table: None,
                            ..self
                        }.finish(ExpressionView::HeaderOfTable(q1.text())),
                        PResultView::Failed(d) => ExpressionPView {
                            header_p_of_table: Some(q1),
                            ..self
                        }.fail_via(d, tokens),
                        PResultView::Ongoing => (
                            ExpressionPView { header_p_of_table: Some(q1), ..self },
                            PResultView::Ongoing,
                        ),
                    }
                }
            },
        }
    }

    /// In the header of an array of tables: as in the header of a table.
    pub open spec fn step_header_of_array_of_table(self, tokens: LookAheadTokensView) -> (
        Self,
        PResultView,
    ) {
        match self.header_p_of_array_of_table {
            None => self.fail(tokens),
            Some(p) => {
                if tokens.current.type_ == TokenType::EndOfLine {
                    ExpressionPView { header_p_of_array_of_table: None, ..self }.finish(
                        ExpressionView::HeaderOfArrayOfTable(p.text()),
                    )
                } else {
                    let (q1, r) = p.step(tokens);
                    match r {
                        PResultView::End => ExpressionPView {
                            header_p_of_array_of_table: None,
                            ..self
                        }.finish(ExpressionView::HeaderOfArrayOfTable(q1.text())),
                        PResultView::Failed(d) => ExpressionPView {
                            header_p_of_array_of_table: Some(q1),
                            ..self
                        }.fail_via(d, tokens),
                        PResultView::Ongoing => (
                            ExpressionPView { header_p_of_array_of_table: Some(q1), ..self },
                            PResultView::Ongoing,
                        ),
                    }
                }
            },
        }
    }

    /// One step: see the function of each state. Behind the line
    /// everything fails.
    pub open spec fn step(self, tokens: LookAheadTokensView) -> (Self, PResultView) {
        match self.state {
            State::AfterKeyValue => self.step_after_key_value(tokens),
            State::Comment => self.step_comment(tokens),
            State::End => self.fail(tokens),
            State::First => self.step_first(tokens),
            State::HeaderOfArrayOfTable => self.step_header_of_array_of_table(tokens),
            State::HeaderOfTable => self.step_header_of_table(tokens),
            State::KeyValue => self.step_key_value(tokens),
            State::SecondLeftSquareBracket => self.step_second_bracket(tokens),
        }
    }
}

/// The name of `state`.
pub fn state_name(state: State) -> (r: &'static str)
    ensures
        r@ == spec_state_name(state),
{
    match state {
        State::AfterKeyValue => "AfterKeyValue",
        State::Comment => "Comment",
        State::End => "End",
        State::First => "First",
        State::HeaderOfArrayOfTable => "HeaderOfArrayOfTable",
        State::HeaderOfTable => "HeaderOfTable",
        State::KeyValue => "KeyValue",
        State::SecondLeftSquareBracket => "SecondLeftSquareBracket",
    }
}

impl Default for ExpressionP {
    fn default() -> (r: Self)
        ensures
            r@ == ExpressionPView::new(),
    {
        ExpressionP {
            buffer: None,
            comment_p: None,
            header_p_of_array_of_table: None,
            header_p_of_table: None,
            key_value_p: None,
            state: State::First,
        }
    }
}

impl ExpressionP {
    /// Hands over what the line holds, if it is read, and forgets it.
    pub fn flush(&mut self) -> (r: Option<Expression>)
        ensures
            match r {
                Some(m) => old(self)@.buffer == Some(m@),
                None => old(self)@.buffer is None,
            },
            final(self)@ == (ExpressionPView { buffer: None, ..old(self)@ }),
    {
        self.buffer.take()
    }

    fn fail(&self, tokens: &LookAheadTokens) -> (r: PResult)
        ensures
            (self@, r@) == self@.fail(tokens@),
    {
        error(ParserKind::Expression, state_name(self.state), tokens.current)
    }

    fn fail_via(&self, cause: Diagnostic, tokens: &LookAheadTokens) -> (r: PResult)
        ensures
            (self@, r@) == self@.fail_via(cause@, tokens@),
    {
        error_via(cause, ParserKind::Expression, state_name(self.state), tokens.current)
    }

    fn finish(&mut self, e: Expression) -> (r: PResult)
        ensures
            (final(self)@, r@) == old(self)@.finish(e@),
    {
        self.buffer = Some(e);
        self.state = State::End;
        PResult::End
    }

    fn parse_first(&mut self, tokens: &LookAheadTokens) -> (r: PResult)
        ensures
            (final(self)@, r@) == old(self)@.step_first(tokens@),
    {
        let t = tokens.current.type_;
        if t == TokenType::WhiteSpaceString || is_carriage_return(tokens.current) {
            PResult::Ongoing
        } else if t == TokenType::EndOfLine {
            self.finish(Expression::EmptyLine)
        } else if t == TokenType::Sharp {
            self.comment_p = Some(CommentP::new());
            self.state = State::Comment;
            PResult::Ongoing
        } else if t == TokenType::LeftSquareBracket {
            let second = match tokens.one_ahead {
                Some(a) => a.type_ == TokenType::LeftSquareBracket,
                None => false,
            };
            if second {
                self.state = State::SecondLeftSquareBracket;
            } else {
                self.header_p_of_table = Some(HeaderPOfTable::new());
                self.state = State::HeaderOfTable;
            }
            PResult::Ongoing
        } else if is_key_token(t) {
            self.key_value_p = Some(KeyValueP::new(tokens.current, true));
            self.state = State::KeyValue;
            PResult::Ongoing
        } else {
            self.fail(tokens)
        }
    }

    fn parse_comment(&mut self, tokens: &LookAheadTokens) -> (r: PResult)
        ensures
            (final(self)@, r@) == old(self)@.step_comment(tokens@),
    {
        match self.comment_p.take() {
            None => self.fail(tokens),
            Some(mut p) => match p.parse(tokens) {
                PResult::End => match p.flush() {
                    Some(child_m) => self.finish(Expression::Comment(child_m)),
                    None => {
                        self.comment_p = Some(p);
                        self.fail(tokens)
                    },
                },
                PResult::Failed(d) => {
                    self.comment_p = Some(p);
                    self.fail_via(d, tokens)
                },
                PResult::Ongoing => {
                    self.comment_p = Some(p);
                    PResult::Ongoing
                },
            },
        }
    }

    fn parse_key_value(&mut self, tokens: &LookAheadTokens) -> (r: PResult)
        ensures
            (final(self)@, r@) == old(self)@.step_key_value(tokens@),
    {
        match self.key_value_p.take() {
            None => self.fail(tokens),
            Some(mut p) => match p.parse(tokens) {
                PResult::End => match p.flush() {
                    Some(child_m) => {
                        self.buffer = Some(Expression::KeyValue(child_m));
                        self.state = State::AfterKeyValue;
                        PResult::Ongoing
                    },
                    None => {
                        self.key_value_p = Some(p);
                        self.fail(tokens)
                    },
                },
                PResult::Failed(d) => {
                    self.key_value_p = Some(p);
                    self.fail_via(d, tokens)
                },
                PResult::Ongoing => {
                    self.key_value_p = Some(p);
                    PResult::Ongoing
                },
            },
        }
    }

    fn parse_after_key_value(&mut self, tokens: &LookAheadTokens) -> (r: PResult)
        ensures
            (final(self)@, r@) == old(self)@.step_after_key_value(tokens@),
    {
        let t = tokens.current.type_;
        if t == TokenType::WhiteSpaceString || is_carriage_return(tokens.current) {
            PResult::Ongoing
        } else if t == TokenType::EndOfLine {
            self.state = State::End;
            PResult::End
        } else {
            self.fail(tokens)
        }
    }

    fn parse_second_bracket(&mut self, tokens: &LookAheadTokens) -> (r: PResult)
        ensures
            (final(self)@, r@) == old(self)@.step_second_bracket(tokens@),
    {
        if tokens.current.type_ == TokenType::LeftSquareBracket {
            self.header_p_of_array_of_table = Some(HeaderPOfArrayOfTable::new());
            self.state = State::HeaderOfArrayOfTable;
            PResult::Ongoing
        } else {
            self.fail(tokens)
        }
    }

    fn parse_header_of_table(&mut self, tokens: &LookAheadTokens) -> (r: PResult)
        ensures
            (final(self)@, r@) == old(self)@.step_header_of_table(tokens@),
    {
        match self.header_p_of_table.take() {
            None => self.fail(tokens),
            Some(mut p) => {
                let r = if tokens.current.type_ == TokenType::EndOfLine {
                    PResult::End
                } else {
                    p.parse(tokens)
                };
                match r {
                    PResult::End => {
                        let m = match p.flush() {
                            Some(m) => m,
                            None => crate::model::HeaderOfTable::default(),
                        };
                        self.finish(Expression::HeaderOfTable(m))
                    },
                    PResult::Failed(d) => {
                        self.header_p_of_table = Some(p);
                        self.fail_via(d, tokens)
                    },
                    PResult::Ongoing => {
                        self.header_p_of_table = Some(p);
                        PResult::Ongoing
                    },
                }
            },
        }
    }

    fn parse_header_of_array_of_table(&mut self, tokens: &LookAheadTokens) -> (r: PResult)
        ensures
            (final(self)@, r@) == old(self)@.step_header_of_array_of_table(tokens@),
    {
        match self.header_p_of_array_of_table.take() {
            None => self.fail(tokens),
            Some(mut p) => {
                let r = if tokens.current.type_ == TokenType::EndOfLine {
                    PResult::End
                } else {
                    p.parse(tokens)
                };
                match r {
                    PResult::End => {
                        let m = match p.flush() {
                            Some(m) => m,
                            None => crate::model::HeaderOfArrayOfTable::default(),
                        };
                        self.finish(Expression::HeaderOfArrayOfTable(m))
                    },
                    PResult::Failed(d) => {
                        self.header_p_of_array_of_table = Some(p);
                        self.fail_via(d, tokens)
                    },
                    PResult::Ongoing => {
                        self.header_p_of_array_of_table = Some(p);
                        PResult::Ongoing
                    },
                }
            },
        }
    }

    /// Takes one token.
    pub fn parse(&mut self, tokens: &LookAheadTokens) -> (r: PResult)
        ensures
            (final(self)@, r@) == old(self)@.step(tokens@),
    {
        match self.state {
            State::AfterKeyValue => self.parse_after_key_value(tokens),
            State::Comment => self.parse_comment(tokens),
            State::End => self.fail(tokens),
            State::First => self.parse_first(tokens),
            State::HeaderOfArrayOfTable => self.parse_header_of_array_of_table(tokens),
            State::HeaderOfTable => self.parse_header_of_table(tokens),
            State::KeyValue => self.parse_key_value(tokens),
            State::SecondLeftSquareBracket => self.parse_second_bracket(tokens),
        }
    }
}

} // verus!
