//! The document assembler: text in, document and diagnostics out.

use vstd::prelude::*;
use crate::diagnostic::Diagnostic;
use crate::diagnostic::DiagnosticView;
use crate::diagnostic::PResult;
use crate::diagnostic::PResultView;
use crate::diagnostic::ParserKind;
use crate::document::TomlDocument;
use crate::lexer::LexicalParser;
use crate::lexer::scan;
use crate::model::Expression;
use crate::model::ExpressionView;
use crate::parser::expression_p::ExpressionP;
use crate::parser::expression_p::ExpressionPView;
use crate::parser::expression_p::spec_state_name;
use crate::parser::expression_p::state_name;
use crate::text::chars_of;
use crate::token::LookAheadTokens;
use crate::token::Token;
use crate::token::TokenView;
use crate::token::tokens_view;
use crate::token::window_at;

verus! {

/// The entry point of the library.
pub struct Toml {}

/// The diagnostic of a line that could not be read, with the line's number.
#[derive(Debug)]
pub struct LineDiagnostic {
    /// 1-based number of the line.
    pub row_number: usize,
    pub diagnostic: Diagnostic,
}

/// The mathematical content of a [`LineDiagnostic`].
pub struct LineDiagnosticView {
    pub row_number: nat,
    pub diagnostic: DiagnosticView,
}

impl View for LineDiagnostic {
    type V = LineDiagnosticView;

    open spec fn view(&self) -> LineDiagnosticView {
        LineDiagnosticView { row_number: self.row_number as nat, diagnostic: self.diagnostic@ }
    }
}

/// The views of a sequence of line diagnostics.
pub open spec fn line_diagnostics_view(diagnostics: Seq<LineDiagnostic>) -> Seq<
    LineDiagnosticView,
> {
    diagnostics.map_values(|d: LineDiagnostic| d@)
}

/// Feeds `tokens` from position `i` on to the line parser `p`, one window
/// at a time, until it ends or fails or the tokens run out.
pub open spec fn run(p: ExpressionPView, tokens: Seq<TokenView>, i: int) -> (
    ExpressionPView,
    PResultView,
)
    decreases tokens.len() - i,
{
    if i < 0 || i >= tokens.len() {
        (p, PResultView::Ongoing)
    } else {
        let (q1, r) = p.step(window_at(tokens, i));
        match r {
            PResultView::Ongoing => run(q1, tokens, i + 1),
            _ => (q1, r),
        }
    }
}

/// The diagnostic of a line parser left in `state` when the tokens ran out.
pub open spec fn spec_unfinished(state: crate::parser::expression_p::State) -> DiagnosticView {
    DiagnosticView {
        parser: ParserKind::Expression,
        state: spec_state_name(state),
        token: Seq::empty(),
        column_number: 0,
        cause: None,
    }
}

/// What the line made of `tokens` holds, or why it cannot be read.
pub open spec fn spec_parse_tokens(tokens: Seq<TokenView>) -> Result<
    ExpressionView,
    DiagnosticView,
> {
    let (p, r) = run(ExpressionPView::new(), tokens, 0);
    match r {
        PResultView::End => match p.buffer {
            Some(e) => Ok(e),
            None => Err(spec_unfinished(p.state)),
        },
        PResultView::Failed(d) => Err(d),
        PResultView::Ongoing => Err(spec_unfinished(p.state)),
    }
}

/// What the line `line` holds, or why it cannot be read.
pub open spec fn spec_parse_line(line: Seq<char>) -> Result<ExpressionView, DiagnosticView> {
    spec_parse_tokens(scan(line))
}

/// How many characters stand in `text` from position `i` up to the next
/// line feed.
pub open spec fn line_len(text: Seq<char>, i: int) -> nat
    decreases text.len() - i,
{
    if 0 <= i < text.len() && text[i] != '\n' {
        1 + line_len(text, i + 1)
    } else {
        0
    }
}

/// The lines of `text` from position `i` on.
pub open spec fn lines_from(text: Seq<char>, i: int) -> Seq<Seq<char>>
    decreases text.len() + 1 - i,
{
    if i < 0 || i >= text.len() {
        Seq::empty()
    } else {
        proof {
            lemma_line_len_bounds(text, i);
        }
        seq![text.subrange(i, i + line_len(text, i))] + lines_from(
            text,
            i + line_len(text, i) + 1,
        )
    }
}

/// The lines of `text`: each ends before a line feed or at the end of the
/// text; behind the last line feed there is a line only if there are
/// characters. A carriage return is a character of its line like any
/// other.
pub open spec fn split_lines(text: Seq<char>) -> Seq<Seq<char>> {
    lines_from(text, 0)
}

/// The document and the diagnostics of `lines`: each line that can be read
/// gives an element, in order; each line that cannot is left out of the
/// document and gives a diagnostic with its number, in order.
pub open spec fn spec_assemble(lines: Seq<Seq<char>>) -> (
    Seq<ExpressionView>,
    Seq<LineDiagnosticView>,
)
    decreases lines.len(),
{
    if lines.len() == 0 {
        (Seq::empty(), Seq::empty())
    } else {
        let (elements, diagnostics) = spec_assemble(lines.drop_last());
        match spec_parse_line(lines.last()) {
            Ok(e) => (elements.push(e), diagnostics),
            Err(d) => (
                elements,
                diagnostics.push(LineDiagnosticView { row_number: lines.len(), diagnostic: d }),
            ),
        }
    }
}

/// A line ends within the text, before a line feed or at the end.
pub proof fn lemma_line_len_bounds(text: Seq<char>, i: int)
    requires
        0 <= i <= text.len(),
    ensures
        i + line_len(text, i) <= text.len(),
        i + line_len(text, i) < text.len() ==> text[i + line_len(text, i)] == '\n',
    decreases text.len() - i,
{
    if i < text.len() && text[i] != '\n' {
        lemma_line_len_bounds(text, i + 1);
    }
}

/// Reads the line made of `tokens`.
pub fn parse_tokens(tokens: &Vec<Token>) -> (r: Result<Expression, Diagnostic>)
    ensures
        match r {
            Ok(e) => spec_parse_tokens(tokens_view(tokens@)) == Ok::<
                ExpressionView,
                DiagnosticView,
            >(e@),
            Err(d) => spec_parse_tokens(tokens_view(tokens@)) == Err::<
                ExpressionView,
                DiagnosticView,
            >(d@),
        },
{
    let mut p = ExpressionP::default();
    let mut i: usize = 0;
    let ghost views = tokens_view(tokens@);
    while i < tokens.len()
        invariant
            i <= tokens.len(),
            views == tokens_view(tokens@),
            run(ExpressionPView::new(), views, 0) == run(p@, views, i as int),
        decreases tokens.len() - i,
    {
        let window = LookAheadTokens::at(tokens, i);
        match p.parse(&window) {
            PResult::End => {
                return match p.flush() {
                    Some(e) => Ok(e),
                    None => Err(unfinished(&p)),
                };
            },
            PResult::Failed(d) => {
                return Err(d);
            },
            PResult::Ongoing => {},
        }
        i += 1;
    }
    Err(unfinished(&p))
}

/// The diagnostic of the line parser `p`, left unfinished.
fn unfinished(p: &ExpressionP) -> (r: Diagnostic)
    ensures
        r@ == spec_unfinished(p@.state),
{
    Diagnostic {
        parser: ParserKind::Expression,
        state: String::from_str(state_name(p.state)),
        token: String::new(),
        column_number: 0,
        cause: None,
    }
}

/// Reads the line `line`, the `row_number`-th of its text.
pub fn parse_line(line: &str, row_number: usize) -> (r: Result<Expression, Diagnostic>)
    ensures
        match r {
            Ok(e) => spec_parse_line(line@) == Ok::<ExpressionView, DiagnosticView>(e@),
            Err(d) => spec_parse_line(line@) == Err::<ExpressionView, DiagnosticView>(d@),
        },
{
    let mut lexer = LexicalParser::new(row_number);
    lexer.parse_line(line);
    proof {
        assert(tokens_view(lexer.spec_product().tokens@) =~= scan(line@));
    }
    parse_tokens(&lexer.product().tokens)
}

impl Toml {
    /// Reads a document from `text`. A line that cannot be read is left
    /// out of the document, and its diagnostic is handed over with the
    /// line's number; the lines behind it are read all the same.
    ///
    /// The document keeps what the lines say, not how they spell it: white
    /// space around tokens, white space on an empty line, a carriage
    /// return before the line's end and the spelling of escape sequences
    /// are not kept, and the text of the document spells them in its own
    /// way. A comment behind a key value cannot be kept, so such a line is
    /// not read and gives a diagnostic.
    pub fn from_str(text: &str) -> (r: (TomlDocument, Vec<LineDiagnostic>))
        ensures
            (r.0@, line_diagnostics_view(r.1@)) == spec_assemble(split_lines(text@)),
    {
        let chars = chars_of(text);
        let n = chars.len();
        let mut doc = TomlDocument::default();
        let mut diagnostics: Vec<LineDiagnostic> = Vec::new();
        let mut row_number: usize = 0;
        let mut i: usize = 0;
        let ghost mut done: Seq<Seq<char>> = Seq::empty();
        proof {
            assert(done + lines_from(text@, 0) =~= split_lines(text@));
            assert(line_diagnostics_view(diagnostics@) =~= Seq::empty());
        }
        while i < n
            invariant
                chars@ == text@,
                n == chars.len(),
                i <= n,
                row_number == done.len(),
                row_number <= i,
                done + lines_from(text@, i as int) == split_lines(text@),
                (doc@, line_diagnostics_view(diagnostics@)) == spec_assemble(done),
            decreases n - i,
        {
            let mut j: usize = i;
            while j < n && chars[j] != '\n'
                invariant
                    chars@ == text@,
                    n == chars.len(),
                    i <= j <= n,
                    line_len(text@, i as int) == (j - i) + line_len(text@, j as int),
                decreases n - j,
            {
                j += 1;
            }
            let mut line = String::new();
            let mut k: usize = i;
            proof {
                assert(line@ =~= text@.subrange(i as int, k as int));
            }
            while k < j
                invariant
                    chars@ == text@,
                    n == chars.len(),
                    i <= k <= j <= n,
                    line@ == text@.subrange(i as int, k as int),
                decreases j - k,
            {
                line.push(chars[k]);
                proof {
                    assert(text@.subrange(i as int, k + 1) =~= text@.subrange(
                        i as int,
                        k as int,
                    ).push(text@[k as int]));
                }
                k += 1;
            }
            row_number += 1;
            let ghost lines = done.push(line@);
            proof {
                assert(lines.drop_last() =~= done);
                assert(lines + lines_from(text@, j + 1) =~= done + lines_from(text@, i as int));
            }
            match parse_line(line.as_str(), row_number) {
                Ok(e) => {
                    doc.push_element(&e);
                },
                Err(diagnostic) => {
                    let d = LineDiagnostic { row_number, diagnostic };
                    proof {
                        assert(line_diagnostics_view(diagnostics@.push(d))
                            =~= line_diagnostics_view(diagnostics@).push(d@));
                    }
                    diagnostics.push(d);
                },
            }
            proof {
                done = lines;
            }
            if j < n {
                i = j + 1;
            } else {
                proof {
                    assert(lines_from(text@, j + 1) =~= lines_from(text@, n as int));
                }
                i = n;
            }
        }
        proof {
            assert(done + lines_from(text@, n as int) =~= done);
        }
        (doc, diagnostics)
    }
}

} // verus!
