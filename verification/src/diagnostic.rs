//! What a syntax parser reports when it cannot go on.

use vstd::prelude::*;
use crate::token::Token;
use crate::token::TokenView;
use crate::token::Character;

verus! {

/// Identity of the parser that raised a diagnostic.
#[derive(Clone, Copy, Debug, PartialEq, Eq, Structural)]
pub enum ParserKind {
    Array,
    Comment,
    DoubleQuotedString,
    EscapeSequence,
    Expression,
    InlineTable,
    KeyValue,
    LiteralValue,
    PositionalNumeralString,
    SingleQuotedString,
}

/// A syntax error: who raised it, in which state, on which token, and the
/// error of the delegated parser that caused it, if one did.
#[derive(Debug)]
pub struct Diagnostic {
    pub parser: ParserKind,
    /// Name of the state the parser was in.
    pub state: String,
    /// Text of the offending token.
    pub token: String,
    /// 1-based column of the offending token.
    pub column_number: usize,
    pub cause: Option<Box<Diagnostic>>,
}

/// The mathematical content of a [`Diagnostic`].
pub struct DiagnosticView {
    pub parser: ParserKind,
    pub state: Seq<char>,
    pub token: Seq<char>,
    pub column_number: nat,
    pub cause: Option<Box<DiagnosticView>>,
}

/// The mathematical content of `d`, the chain of causes included.
pub open spec fn diagnostic_view(d: Diagnostic) -> DiagnosticView
    decreases d,
{
    DiagnosticView {
        parser: d.parser,
        state: d.state@,
        token: d.token@,
        column_number: d.column_number as nat,
        cause: match d.cause {
            Some(c) => Some(Box::new(diagnostic_view(*c))),
            None => None,
        },
    }
}

impl View for Diagnostic {
    type V = DiagnosticView;

    open spec fn view(&self) -> DiagnosticView {
        diagnostic_view(*self)
    }
}

/// What one step of a syntax parser comes to.
#[derive(Debug)]
pub enum PResult {
    /// The construct is complete.
    End,
    /// The input cannot belong to the construct.
    Failed(Diagnostic),
    /// More input is needed.
    Ongoing,
}

/// The mathematical content of a [`PResult`].
pub enum PResultView {
    End,
    Failed(DiagnosticView),
    Ongoing,
}

impl View for PResult {
    type V = PResultView;

    open spec fn view(&self) -> PResultView {
        match *self {
            PResult::End => PResultView::End,
            PResult::Failed(d) => PResultView::Failed(d@),
            PResult::Ongoing => PResultView::Ongoing,
        }
    }
}

/// The diagnostic of `parser`, in `state`, on `token`.
pub open spec fn spec_error(parser: ParserKind, state: Seq<char>, token: TokenView) -> PResultView {
    PResultView::Failed(
        DiagnosticView {
            parser,
            state,
            token: token.value,
            column_number: token.column_number,
            cause: None,
        },
    )
}

/// The diagnostic of `parser`, in `state`, on `token`, caused by `cause`.
pub open spec fn spec_error_via(
    cause: DiagnosticView,
    parser: ParserKind,
    state: Seq<char>,
    token: TokenView,
) -> PResultView {
    PResultView::Failed(
        DiagnosticView {
            parser,
            state,
            token: token.value,
            column_number: token.column_number,
            cause: Some(Box::new(cause)),
        },
    )
}

/// Reports that `parser`, in `state`, cannot take `token`.
pub fn error(parser: ParserKind, state: &str, token: &Token) -> (r: PResult)
    ensures
        r@ == spec_error(parser, state@, token@),
{
    PResult::Failed(
        Diagnostic {
            parser,
            state: String::from_str(state),
            token: token.value.clone(),
            column_number: token.column_number,
            cause: None,
        },
    )
}

/// Reports that `parser`, in `state`, failed on `token` because a parser it
/// had delegated to failed with `cause`.
pub fn error_via(cause: Diagnostic, parser: ParserKind, state: &str, token: &Token) -> (r: PResult)
    ensures
        r@ == spec_error_via(cause@, parser, state@, token@),
{
    PResult::Failed(
        Diagnostic {
            parser,
            state: String::from_str(state),
            token: token.value.clone(),
            column_number: token.column_number,
            cause: Some(Box::new(cause)),
        },
    )
}

/// The diagnostic of `parser`, in `state`, on `character`.
pub open spec fn spec_error_character(parser: ParserKind, state: Seq<char>, character: Character)
    -> PResultView {
    PResultView::Failed(
        DiagnosticView {
            parser,
            state,
            token: seq![character.value],
            column_number: character.column_number as nat,
            cause: None,
        },
    )
}

/// The diagnostic of `parser`, in `state`, on `character`, caused by `cause`.
pub open spec fn spec_error_character_via(
    cause: DiagnosticView,
    parser: ParserKind,
    state: Seq<char>,
    character: Character,
) -> PResultView {
    PResultView::Failed(
        DiagnosticView {
            parser,
            state,
            token: seq![character.value],
            column_number: character.column_number as nat,
            cause: Some(Box::new(cause)),
        },
    )
}

/// Reports that `parser`, in `state`, cannot take `character`.
pub fn error_character(parser: ParserKind, state: &str, character: &Character) -> (r: PResult)
    ensures
        r@ == spec_error_character(parser, state@, *character),
{
    let mut token = String::new();
    token.push(character.value);
    assert(token@ =~= seq![character.value]);
    PResult::Failed(
        Diagnostic {
            parser,
            state: String::from_str(state),
            token,
            column_number: character.column_number,
            cause: None,
        },
    )
}

/// Reports that `parser`, in `state`, failed on `character` because a parser
/// it had delegated to failed with `cause`.
pub fn error_character_via(
    cause: Diagnostic,
    parser: ParserKind,
    state: &str,
    character: &Character,
) -> (r: PResult)
    ensures
        r@ == spec_error_character_via(cause@, parser, state@, *character),
{
    let mut token = String::new();
    token.push(character.value);
    assert(token@ =~= seq![character.value]);
    PResult::Failed(
        Diagnostic {
            parser,
            state: String::from_str(state),
            token,
            column_number: character.column_number,
            cause: Some(Box::new(cause)),
        },
    )
}

} // verus!
