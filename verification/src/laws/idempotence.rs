//! What was read, written and read again, is what was read.

use vstd::prelude::*;
use crate::diagnostic::PResultView;
use crate::laws::clean::lemma_clean_add;
use crate::laws::clean::lemma_render_clean;
use crate::laws::lexing::kind_of;
use crate::laws::lexing::lemma_accumulate;
use crate::laws::lexing::lemma_no_carriage_return;
use crate::laws::stream::token_at;
use crate::laws::lexing::lemma_token_single;
use crate::laws::lines::expression_step;
use crate::laws::lines::lemma_line;
use crate::laws::lines::lemma_run_advance;
use crate::laws::lines::lemma_run_bridge;
use crate::laws::lines::line_read;
use crate::laws::lines::run_pos;
use crate::laws::printable::clean;
use crate::laws::round_trip::lemma_document_reads_back;
use crate::laws::round_trip::one_line;
use crate::laws::round_trip::reads_back;
use crate::laws::sound::lemma_run_sound;
use crate::laws::sound::parsed;
use crate::laws::stream::lemma_advance_advance;
use crate::laws::stream::lemma_advance_one;
use crate::laws::stream::lemma_starts_at_zero;
use crate::laws::stream::window_pos;
use crate::model::ExpressionView;
use crate::parser::expression_p::ExpressionPView;
use crate::parser::expression_p::State;
use crate::parser::header_p_of_array_of_table::HeaderPOfArrayOfTableView;
use crate::parser::header_p_of_table::HeaderPOfTableView;
use crate::render::render_document;
use crate::render::render_expression;
use crate::token::TokenType;
use crate::toml::LineDiagnosticView;
use crate::toml::lemma_line_len_bounds;
use crate::toml::line_len;
use crate::toml::lines_from;
use crate::toml::spec_assemble;
use crate::toml::spec_parse_line;
use crate::toml::split_lines;

verus! {

/// The header of a table, as it can be read, reads back as it is written.
pub proof fn lemma_header_line(s: Seq<char>)
    requires
        parsed(ExpressionView::HeaderOfTable(s)),
    ensures
        run_pos(ExpressionPView::new(), seq!['['] + s, 0) == (
            line_read(ExpressionView::HeaderOfTable(s)),
            PResultView::End,
        ),
{
    let line = seq!['['] + s;
    let step = expression_step();
    let n = line.len() as int;
    let p0 = ExpressionPView::new();
    assert(line[0] == '[');
    if s.len() > 0 {
        assert(line[1] == s[0]);
    }
    lemma_token_single(line, 0);
    let state_of = |x: Seq<char>|
        ExpressionPView {
            header_p_of_table: Some(HeaderPOfTableView { buffer: Some(x) }),
            state: State::HeaderOfTable,
            ..p0
        };
    let takes = |t: TokenType| t != TokenType::EndOfLine && t != TokenType::DoubleQuotation;
    lemma_no_carriage_return(token_at(line, 0));
    assert(p0.step(window_pos(line, 0)) == (state_of(Seq::empty()), PResultView::Ongoing));
    lemma_advance_one(step, p0, line, 0);
    assert forall|j: int| 1 <= j < n implies takes(#[trigger] kind_of(line[j])) by {
        assert(line[j] == s[j - 1]);
    }
    lemma_accumulate(step, state_of, takes, Seq::empty(), line, 1, n);
    assert(Seq::<char>::empty() + line.subrange(1, n) =~= s);
    lemma_advance_advance(step, p0, line, 0, 1, n);
    lemma_run_advance(p0, line, 0, n);
    assert(state_of(s).step(window_pos(line, n)) == (
        line_read(ExpressionView::HeaderOfTable(s)),
        PResultView::End,
    ));
}

/// The header of an array of tables, as it can be read, reads back as it
/// is written.
pub proof fn lemma_header_of_array_line(s: Seq<char>)
    requires
        parsed(ExpressionView::HeaderOfArrayOfTable(s)),
    ensures
        run_pos(ExpressionPView::new(), seq!['[', '['] + s, 0) == (
            line_read(ExpressionView::HeaderOfArrayOfTable(s)),
            PResultView::End,
        ),
{
    let line = seq!['[', '['] + s;
    let step = expression_step();
    let n = line.len() as int;
    let p0 = ExpressionPView::new();
    assert(line[0] == '[');
    assert(line[1] == '[');
    lemma_token_single(line, 0);
    lemma_token_single(line, 1);
    let q1 = ExpressionPView { state: State::SecondLeftSquareBracket, ..p0 };
    let state_of = |x: Seq<char>|
        ExpressionPView {
            header_p_of_array_of_table: Some(HeaderPOfArrayOfTableView { buffer: Some(x) }),
            state: State::HeaderOfArrayOfTable,
            ..p0
        };
    let takes = |t: TokenType| t != TokenType::EndOfLine && t != TokenType::DoubleQuotation;
    lemma_no_carriage_return(token_at(line, 0));
    assert(p0.step(window_pos(line, 0)) == (q1, PResultView::Ongoing));
    lemma_advance_one(step, p0, line, 0);
    assert(q1.step(window_pos(line, 1)) == (state_of(Seq::empty()), PResultView::Ongoing));
    lemma_advance_one(step, q1, line, 1);
    assert forall|j: int| 2 <= j < n implies takes(#[trigger] kind_of(line[j])) by {
        assert(line[j] == s[j - 2]);
    }
    lemma_accumulate(step, state_of, takes, Seq::empty(), line, 2, n);
    assert(Seq::<char>::empty() + line.subrange(2, n) =~= s);
    lemma_advance_advance(step, q1, line, 1, 2, n);
    lemma_advance_advance(step, p0, line, 0, 1, n);
    lemma_run_advance(p0, line, 0, n);
    assert(state_of(s).step(window_pos(line, n)) == (
        line_read(ExpressionView::HeaderOfArrayOfTable(s)),
        PResultView::End,
    ));
}

/// What a line can hold when it is read is written without a line feed,
/// and reads back as it is written.
pub proof fn lemma_parsed_reads_back(e: ExpressionView)
    requires
        parsed(e),
    ensures
        reads_back(e),
        clean(render_expression(e)),
{
    let line = render_expression(e);
    match e {
        ExpressionView::HeaderOfTable(s) => {
            lemma_starts_at_zero(line);
            lemma_run_bridge(ExpressionPView::new(), line, 0, 0);
            lemma_header_line(s);
            lemma_clean_add(seq!['['], s);
        },
        ExpressionView::HeaderOfArrayOfTable(s) => {
            lemma_starts_at_zero(line);
            lemma_run_bridge(ExpressionPView::new(), line, 0, 0);
            lemma_header_of_array_line(s);
            lemma_clean_add(seq!['[', '['], s);
        },
        _ => {
            lemma_line(e);
            lemma_render_clean(e);
        },
    }
}

/// What is read from a line without a line feed is what a line can hold.
pub proof fn lemma_parsed_line(line: Seq<char>)
    requires
        clean(line),
    ensures
        spec_parse_line(line) matches Ok(e) ==> parsed(e),
{
    let p0 = ExpressionPView::new();
    lemma_starts_at_zero(line);
    lemma_run_bridge(p0, line, 0, 0);
    lemma_run_sound(p0, line, 0);
}

proof fn lemma_line_len_clean(text: Seq<char>, i: int, j: int)
    requires
        0 <= i <= j < i + line_len(text, i),
    ensures
        j < text.len(),
        text[j] != '\n',
    decreases j - i,
{
    if j > i {
        lemma_line_len_clean(text, i + 1, j);
    }
}

/// The lines of a text hold no line feed.
pub proof fn lemma_lines_clean(text: Seq<char>, i: int)
    ensures
        forall|j: int|
            0 <= j < lines_from(text, i).len() ==> clean(#[trigger] lines_from(text, i)[j]),
    decreases text.len() + 1 - i,
{
    if 0 <= i < text.len() {
        lemma_line_len_bounds(text, i);
        let n = line_len(text, i);
        let raw = text.subrange(i, i + n);
        assert forall|k: int| 0 <= k < raw.len() implies #[trigger] raw[k] != '\n' by {
            lemma_line_len_clean(text, i, i + k);
        }
        lemma_lines_clean(text, i + n + 1);
        let rest = lines_from(text, i + n + 1);
        let all = lines_from(text, i);
        assert forall|j: int| 0 <= j < all.len() implies clean(#[trigger] all[j]) by {
            if j > 0 {
                assert(all[j] == rest[j - 1]);
            }
        }
    }
}

/// The elements read from lines without a line feed are what lines can
/// hold.
pub proof fn lemma_assemble_parsed(lines: Seq<Seq<char>>)
    requires
        forall|j: int| 0 <= j < lines.len() ==> clean(#[trigger] lines[j]),
    ensures
        forall|j: int|
            0 <= j < spec_assemble(lines).0.len() ==> parsed(#[trigger] spec_assemble(lines).0[j]),
    decreases lines.len(),
{
    if lines.len() > 0 {
        assert forall|j: int| 0 <= j < lines.drop_last().len() implies clean(
            #[trigger] lines.drop_last()[j],
        ) by {
            assert(lines.drop_last()[j] == lines[j]);
        }
        lemma_assemble_parsed(lines.drop_last());
        assert(clean(lines.last()));
        lemma_parsed_line(lines.last());
        let before = spec_assemble(lines.drop_last()).0;
        let all = spec_assemble(lines).0;
        assert forall|j: int| 0 <= j < all.len() implies parsed(#[trigger] all[j]) by {
            if j < before.len() {
                assert(all[j] == before[j]);
            }
        }
    }
}

/// Idempotence. The document read from a text, written and read again,
/// is the document that was read, and the second reading gives no
/// diagnostic.
pub proof fn law_idempotence(text: Seq<char>)
    ensures
        spec_assemble(split_lines(render_document(spec_assemble(split_lines(text)).0))) == (
            spec_assemble(split_lines(text)).0,
            Seq::<LineDiagnosticView>::empty(),
        ),
{
    let lines = split_lines(text);
    let elements = spec_assemble(lines).0;
    lemma_lines_clean(text, 0);
    lemma_assemble_parsed(lines);
    assert forall|i: int| 0 <= i < elements.len() implies one_line(#[trigger] elements[i])
        && reads_back(elements[i]) by {
        lemma_parsed_reads_back(elements[i]);
    }
    lemma_document_reads_back(elements);
}

} // verus!
