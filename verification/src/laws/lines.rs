//! Lines read back as they were written.

use vstd::prelude::*;
use crate::diagnostic::DiagnosticView;
use crate::diagnostic::PResultView;
use crate::laws::lexing::kind_of;
use crate::laws::lexing::lemma_accumulate;
use crate::laws::lexing::lemma_no_carriage_return;
use crate::laws::lexing::lemma_token_single;
use crate::laws::printable::printable_expression;
use crate::laws::stream::advance;
use crate::laws::stream::lemma_advance_advance;
use crate::laws::stream::lemma_advance_one;
use crate::laws::stream::lemma_delegate_advance;
use crate::laws::stream::lemma_delegate_finish;
use crate::laws::stream::lemma_starts_at_next;
use crate::laws::stream::lemma_starts_at_zero;
use crate::laws::stream::starts_at;
use crate::laws::stream::token_at;
use crate::laws::stream::window_pos;
use crate::laws::tables::key_value_step;
use crate::laws::tables::lemma_key_value;
use crate::lexer::lemma_token_end_bounds;
use crate::lexer::scan;
use crate::lexer::token_end;
use crate::model::ExpressionView;
use crate::parser::comment_p::CommentPView;
use crate::parser::expression_p::ExpressionPView;
use crate::parser::expression_p::State;
use crate::parser::key_value_p::KeyValuePView;
use crate::render::render_expression;
use crate::token::LookAheadTokensView;
use crate::token::TokenType;
use crate::toml::run;
use crate::toml::spec_parse_line;

verus! {

pub open spec fn expression_step() -> spec_fn(ExpressionPView, LookAheadTokensView) -> (
    ExpressionPView,
    PResultView,
) {
    |s: ExpressionPView, w: LookAheadTokensView| s.step(w)
}

pub open spec fn comment_step() -> spec_fn(CommentPView, LookAheadTokensView) -> (
    CommentPView,
    PResultView,
) {
    |s: CommentPView, w: LookAheadTokensView| s.step(w)
}

/// What the line parser comes to from position `pos` of `line` on.
pub open spec fn run_pos(p: ExpressionPView, line: Seq<char>, pos: int) -> (
    ExpressionPView,
    PResultView,
)
    decreases line.len() - pos,
{
    let (q1, r) = p.step(window_pos(line, pos));
    if 0 <= pos < line.len() && r is Ongoing {
        proof {
            lemma_token_end_bounds(line, pos);
        }
        run_pos(q1, line, token_end(line, pos))
    } else {
        (q1, r)
    }
}

/// Tokens by index and tokens by position give the same run.
pub proof fn lemma_run_bridge(p: ExpressionPView, line: Seq<char>, i: int, pos: int)
    requires
        starts_at(line, i, pos),
    ensures
        run(p, scan(line), i) == run_pos(p, line, pos),
    decreases line.len() - pos,
{
    lemma_starts_at_next(line, i, pos);
    let (q1, r) = p.step(window_pos(line, pos));
    if pos < line.len() {
        lemma_token_end_bounds(line, pos);
        if r is Ongoing {
            lemma_run_bridge(q1, line, i + 1, token_end(line, pos));
        }
    } else {
        assert(run(q1, scan(line), i + 1) == (q1, PResultView::Ongoing));
    }
}

/// A stretch that the line parser takes can be left out of its run.
pub proof fn lemma_run_advance(p: ExpressionPView, line: Seq<char>, pos: int, q: int)
    requires
        advance(expression_step(), p, line, pos, q) is Some,
    ensures
        run_pos(p, line, pos) == run_pos(
            advance(expression_step(), p, line, pos, q)->0,
            line,
            q,
        ),
    decreases q - pos,
{
    if pos != q {
        lemma_token_end_bounds(line, pos);
        lemma_run_advance(p.step(window_pos(line, pos)).0, line, token_end(line, pos), q);
    }
}

/// The line parser with `e` read.
pub open spec fn line_read(e: ExpressionView) -> ExpressionPView {
    ExpressionPView { buffer: Some(e), state: State::End, ..ExpressionPView::new() }
}

/// A comment reads back as it was written.
pub proof fn lemma_comment_line(s: Seq<char>)
    ensures
        run_pos(ExpressionPView::new(), seq!['#'] + s, 0) == (
            line_read(ExpressionView::Comment(s)),
            PResultView::End,
        ),
{
    let line = seq!['#'] + s;
    let step = expression_step();
    let n = line.len() as int;
    let p0 = ExpressionPView::new();
    assert(line[0] == '#');
    lemma_token_single(line, 0);
    let embed = |c: CommentPView|
        ExpressionPView { comment_p: Some(c), state: State::Comment, ..p0 };
    let c0 = CommentPView::new();
    lemma_no_carriage_return(token_at(line, 0));
    assert(p0.step(window_pos(line, 0)) == (embed(c0), PResultView::Ongoing));
    lemma_advance_one(step, p0, line, 0);
    let body = crate::parser::comment_p::State::Body;
    let state_of = |x: Seq<char>| CommentPView { buffer: Some(x), state: body };
    let takes = |t: TokenType| t != TokenType::EndOfLine;
    assert forall|j: int| 1 <= j < n implies takes(#[trigger] kind_of(line[j])) by {}
    assert(c0 == state_of(Seq::empty()));
    lemma_accumulate(comment_step(), state_of, takes, Seq::empty(), line, 1, n);
    assert(Seq::<char>::empty() + line.subrange(1, n) =~= s);
    lemma_delegate_advance(comment_step(), step, embed, c0, line, 1, n);
    lemma_advance_advance(step, p0, line, 0, 1, n);
    lemma_run_advance(p0, line, 0, n);
    let q1 = embed(state_of(s));
    assert(q1.step(window_pos(line, n)) == (
        line_read(ExpressionView::Comment(s)),
        PResultView::End,
    ));
}

/// A key value reads back as it was written.
pub proof fn lemma_key_value_line(m: crate::model::KeyValueView)
    requires
        printable_expression(ExpressionView::KeyValue(m)),
    ensures
        run_pos(ExpressionPView::new(), crate::render::render_key_value(m), 0) == (
            line_read(ExpressionView::KeyValue(m)),
            PResultView::End,
        ),
{
    let line = crate::render::render_key_value(m);
    let step = expression_step();
    let n = line.len() as int;
    let p0 = ExpressionPView::new();
    assert(line.subrange(0, n) =~= line);
    lemma_key_value(line, 0, m, true);
    let e0 = token_end(line, 0);
    let c0 = KeyValuePView::new(token_at(line, 0), true);
    let embed = |c: KeyValuePView|
        ExpressionPView { key_value_p: Some(c), state: State::KeyValue, ..p0 };
    let good = |c: KeyValuePView| c.buffer is Some;
    let on_end = |c: KeyValuePView|
        (
            ExpressionPView {
                buffer: Some(ExpressionView::KeyValue(c.buffer->0)),
                state: State::AfterKeyValue,
                ..p0
            },
            PResultView::Ongoing,
        );
    lemma_token_end_bounds(line, 0);
    assert(token_at(line, 0).value[0] == line[0]);
    assert(crate::laws::printable::is_key_char(m.key[0]));
    assert(line[0] == m.key[0]);
    lemma_no_carriage_return(token_at(line, 0));
    assert(p0.step(window_pos(line, 0)) == (embed(c0), PResultView::Ongoing));
    lemma_advance_one(step, p0, line, 0);
    lemma_delegate_finish(key_value_step(), step, embed, good, on_end, c0, line, e0, n);
    lemma_advance_advance(step, p0, line, 0, e0, n);
    lemma_run_advance(p0, line, 0, n);
    let q1 = ExpressionPView {
        buffer: Some(ExpressionView::KeyValue(m)),
        state: State::AfterKeyValue,
        ..p0
    };
    lemma_no_carriage_return(token_at(line, n));
    assert(q1.step(window_pos(line, n)) == (
        line_read(ExpressionView::KeyValue(m)),
        PResultView::End,
    ));
}

/// A comment, a key value or an empty line, written as a line, is read
/// from that line as it was.
pub proof fn lemma_line(e: ExpressionView)
    requires
        printable_expression(e),
    ensures
        spec_parse_line(render_expression(e)) == Ok::<ExpressionView, DiagnosticView>(e),
{
    let line = render_expression(e);
    let p0 = ExpressionPView::new();
    lemma_starts_at_zero(line);
    lemma_run_bridge(p0, line, 0, 0);
    match e {
        ExpressionView::Comment(s) => {
            lemma_comment_line(s);
        },
        ExpressionView::EmptyLine => {
            assert(line.len() == 0);
            lemma_no_carriage_return(token_at(line, 0));
        },
        ExpressionView::KeyValue(m) => {
            lemma_key_value_line(m);
        },
        _ => {},
    }
}

} // verus!
