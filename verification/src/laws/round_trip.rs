//! Documents read back as they were written.

use vstd::prelude::*;
use crate::diagnostic::DiagnosticView;
use crate::laws::lines::lemma_line;
use crate::laws::clean::lemma_render_clean;
use crate::laws::printable::clean;
use crate::laws::printable::printable_document;
use crate::model::ExpressionView;
use crate::render::render_document;
use crate::render::render_expression;
use crate::toml::LineDiagnosticView;
use crate::toml::line_len;
use crate::toml::lines_from;
use crate::toml::spec_assemble;
use crate::toml::spec_parse_line;
use crate::toml::split_lines;

verus! {

/// The lines that the elements of a document are written as.
pub open spec fn rendered_lines(elements: Seq<ExpressionView>) -> Seq<Seq<char>> {
    Seq::new(elements.len(), |i: int| render_expression(elements[i]))
}

/// The text of a document begins with the text of its first `k` elements,
/// and goes on with the line of the next and a line feed.
pub proof fn lemma_render_document_prefix(elements: Seq<ExpressionView>, k: int)
    requires
        0 <= k <= elements.len(),
    ensures
        render_document(elements.take(k)).len() <= render_document(elements).len(),
        render_document(elements).subrange(0, render_document(elements.take(k)).len() as int)
            == render_document(elements.take(k)),
        k < elements.len() ==> render_document(elements.take(k + 1)) == render_document(
            elements.take(k),
        ) + render_expression(elements[k]) + seq!['\n'],
    decreases elements.len() - k,
{
    let text = render_document(elements);
    if k == elements.len() {
        assert(elements.take(k) =~= elements);
        assert(text.subrange(0, text.len() as int) =~= text);
    } else {
        lemma_render_document_prefix(elements, k + 1);
        assert(elements.take(k + 1).drop_last() =~= elements.take(k));
        assert(elements.take(k + 1).last() == elements[k]);
        let longer = render_document(elements.take(k + 1));
        let shorter = render_document(elements.take(k));
        assert(text.subrange(0, shorter.len() as int) =~= longer.subrange(
            0,
            shorter.len() as int,
        ));
        assert(longer.subrange(0, shorter.len() as int) =~= shorter);
    }
}

/// Where `text` holds a line without a line feed from position `i` on,
/// and a line feed or nothing behind it, that is how far the line goes.
pub proof fn lemma_line_len_exact(text: Seq<char>, i: int, line: Seq<char>)
    requires
        0 <= i,
        i + line.len() <= text.len(),
        text.subrange(i, i + line.len()) == line,
        forall|j: int| 0 <= j < line.len() ==> #[trigger] line[j] != '\n',
        i + line.len() < text.len() ==> text[i + line.len()] == '\n',
    ensures
        line_len(text, i) == line.len(),
    decreases line.len(),
{
    if line.len() > 0 {
        assert(text[i] == line[0]);
        let rest = line.drop_first();
        assert(text.subrange(i + 1, i + 1 + rest.len()) =~= rest) by {
            assert forall|j: int| 0 <= j < rest.len() implies text[i + 1 + j] == rest[j] by {
                assert(text[i + 1 + j] == text.subrange(i, i + line.len())[j + 1]);
            }
        }
        assert forall|j: int| 0 <= j < rest.len() implies #[trigger] rest[j] != '\n' by {
            assert(rest[j] == line[j + 1]);
        }
        lemma_line_len_exact(text, i + 1, rest);
    }
}

/// Whether `e`, written as a line, is read from that line as it was.
pub open spec fn reads_back(e: ExpressionView) -> bool {
    spec_parse_line(render_expression(e)) == Ok::<ExpressionView, DiagnosticView>(e)
}

/// Whether `e` is written as one line: no line feed in it.
pub open spec fn one_line(e: ExpressionView) -> bool {
    clean(render_expression(e))
}

/// The text of a document whose elements are written as one line each
/// falls into the lines of its elements.
pub proof fn lemma_lines_from(elements: Seq<ExpressionView>, k: int)
    requires
        forall|i: int| 0 <= i < elements.len() ==> one_line(#[trigger] elements[i]),
        0 <= k <= elements.len(),
    ensures
        lines_from(
            render_document(elements),
            render_document(elements.take(k)).len() as int,
        ) == rendered_lines(elements).skip(k),
    decreases elements.len() - k,
{
    let text = render_document(elements);
    let i = render_document(elements.take(k)).len() as int;
    lemma_render_document_prefix(elements, k);
    if k == elements.len() {
        assert(elements.take(k) =~= elements);
        assert(rendered_lines(elements).skip(k) =~= Seq::<Seq<char>>::empty());
    } else {
        lemma_render_document_prefix(elements, k + 1);
        lemma_lines_from(elements, k + 1);
        let line = render_expression(elements[k]);
        let longer = render_document(elements.take(k + 1));
        assert(one_line(elements[k]));
        assert(longer =~= render_document(elements.take(k)) + (line + seq!['\n']));
        let prefix = text.subrange(0, longer.len() as int);
        assert(longer.len() == i + line.len() + 1);
        assert forall|j: int| 0 <= j < line.len() implies text.subrange(i, i + line.len())[j]
            == line[j] by {
            assert(text[i + j] == prefix[i + j]);
            assert(longer[i + j] == (line + seq!['\n'])[j]);
        }
        assert(text.subrange(i, i + line.len()) =~= line);
        assert(text[i + line.len()] == '\n') by {
            assert(text[i + line.len()] == prefix[i + line.len()]);
            assert(longer[i + line.len()] == (line + seq!['\n'])[line.len() as int]);
        }
        lemma_line_len_exact(text, i, line);
        assert(rendered_lines(elements).skip(k) =~= seq![line] + rendered_lines(elements).skip(
            k + 1,
        ));
    }
}

/// Lines that are all read give their elements in order, and no
/// diagnostic.
pub proof fn lemma_assemble(lines: Seq<Seq<char>>, elements: Seq<ExpressionView>)
    requires
        lines.len() == elements.len(),
        forall|i: int|
            0 <= i < lines.len() ==> spec_parse_line(#[trigger] lines[i]) == Ok::<
                ExpressionView,
                DiagnosticView,
            >(elements[i]),
    ensures
        spec_assemble(lines) == (elements, Seq::<LineDiagnosticView>::empty()),
    decreases lines.len(),
{
    if lines.len() == 0 {
        assert(elements =~= Seq::<ExpressionView>::empty());
    } else {
        lemma_assemble(lines.drop_last(), elements.drop_last());
        assert(elements.drop_last().push(elements.last()) =~= elements);
    }
}

/// A document whose elements are written as one line each, and read
/// back from it, is read from its text as it was, without a diagnostic.
pub proof fn lemma_document_reads_back(elements: Seq<ExpressionView>)
    requires
        forall|i: int|
            0 <= i < elements.len() ==> one_line(#[trigger] elements[i]) && reads_back(
                elements[i],
            ),
    ensures
        spec_assemble(split_lines(render_document(elements))) == (
            elements,
            Seq::<LineDiagnosticView>::empty(),
        ),
{
    let text = render_document(elements);
    lemma_lines_from(elements, 0);
    assert(elements.take(0) =~= Seq::<ExpressionView>::empty());
    assert(rendered_lines(elements).skip(0) =~= rendered_lines(elements));
    let lines = split_lines(text);
    assert forall|i: int| 0 <= i < lines.len() implies spec_parse_line(#[trigger] lines[i])
        == Ok::<ExpressionView, DiagnosticView>(elements[i]) by {
        assert(reads_back(elements[i]));
    }
    lemma_assemble(lines, elements);
}

/// Round trip. A document of comments, key values and empty lines is read
/// from its text as it was, without a diagnostic; so the text of what was
/// read is the text itself.
///
/// The comments, the unquoted scalars and the single-quoted strings hold
/// no line feed. The values of the key values are strings, unquoted
/// scalars, arrays of at least one string or unquoted scalar, and inline
/// tables of at least one key value with a dot-free key.
///
/// The law goes from the document to its text and back. A text that was
/// not written by the library is read to a document whose text may spell
/// the same in another way: `a=1` is written `a = 1`.
pub proof fn law_round_trip(elements: Seq<ExpressionView>)
    requires
        printable_document(elements),
    ensures
        spec_assemble(split_lines(render_document(elements))) == (
            elements,
            Seq::<LineDiagnosticView>::empty(),
        ),
        render_document(spec_assemble(split_lines(render_document(elements))).0)
            == render_document(elements),
{
    assert forall|i: int| 0 <= i < elements.len() implies one_line(#[trigger] elements[i])
        && reads_back(elements[i]) by {
        lemma_line(elements[i]);
        lemma_render_clean(elements[i]);
    }
    lemma_document_reads_back(elements);
}

} // verus!
