//! Arrays read back as they were written.

use vstd::prelude::*;
use crate::diagnostic::PResultView;
use crate::laws::lexing::breaks_at;
use crate::laws::lexing::lemma_token_single;
use crate::laws::lexing::lemma_token_within;
use crate::laws::printable::is_literal_char;
use crate::laws::printable::printable_array_item;
use crate::laws::scalars::double_quoted_step;
use crate::laws::scalars::lemma_double_quoted;
use crate::laws::scalars::lemma_literal;
use crate::laws::scalars::lemma_single_quoted;
use crate::laws::scalars::literal_step;
use crate::laws::scalars::single_quoted_step;
use crate::laws::stream::advance;
use crate::laws::stream::finish;
use crate::laws::stream::lemma_advance_advance;
use crate::laws::stream::lemma_advance_finish;
use crate::laws::stream::lemma_advance_one;
use crate::laws::stream::lemma_delegate_finish;
use crate::laws::stream::lemma_finish_one;
use crate::laws::stream::lemma_finish_unfold;
use crate::laws::stream::lemma_split;
use crate::laws::stream::window_pos;
use crate::lexer::token_end;
use crate::model::ItemValueView;
use crate::parser::array::ArrayPView;
use crate::parser::array::ArrayState;
use crate::parser::double_quoted_string_p::DoubleQuotedStringPView;
use crate::parser::literal_value_p::LiteralValuePView;
use crate::parser::single_quoted_string_p::SingleQuotedStringPView;
use crate::render::render_array;
use crate::render::render_item;
use crate::render::render_items;
use crate::token::LookAheadTokensView;

verus! {

pub open spec fn array_step() -> spec_fn(ArrayPView, LookAheadTokensView) -> (
    ArrayPView,
    PResultView,
) {
    |s: ArrayPView, w: LookAheadTokensView| s.step(w)
}

/// The array's parser where it awaits an item, with `done` read.
pub open spec fn awaiting_item(done: Option<Seq<ItemValueView>>) -> ArrayPView {
    ArrayPView {
        buffer: done,
        double_quoted_string_p: None,
        literal_value_p: None,
        single_quoted_string_p: None,
        state: ArrayState::AfterLeftSquareBracket,
    }
}

/// The state of the array's parser behind `item`.
pub open spec fn state_after(item: ItemValueView) -> ArrayState {
    match item {
        ItemValueView::DoubleQuotedString(_) => ArrayState::AfterDoubleQuotedString,
        ItemValueView::SingleQuotedString(_) => ArrayState::AfterSingleQuotedString,
        _ => ArrayState::AfterItem,
    }
}

/// The array's parser behind the last of the items `done`.
pub open spec fn after_items(done: Seq<ItemValueView>) -> ArrayPView {
    ArrayPView {
        buffer: Some(done),
        double_quoted_string_p: None,
        literal_value_p: None,
        single_quoted_string_p: None,
        state: state_after(done.last()),
    }
}

/// The array's parser, where it awaits an item, reads an item as it was
/// written.
pub proof fn lemma_array_item(
    line: Seq<char>,
    p: int,
    done: Option<Seq<ItemValueView>>,
    item: ItemValueView,
)
    requires
        printable_array_item(item),
        0 <= p,
        p + render_item(item).len() < line.len(),
        line.subrange(p, p + render_item(item).len()) == render_item(item),
        !is_literal_char(line[p + render_item(item).len()]),
    ensures
        advance(array_step(), awaiting_item(done), line, p, p + render_item(item).len()) == Some(
            after_items(awaiting_item(done).items().push(item)),
        ),
{
    let step = array_step();
    let base = awaiting_item(done);
    let q = p + render_item(item).len();
    let w0 = window_pos(line, p);
    let r = line.subrange(p, q);
    match item {
        ItemValueView::DoubleQuotedString(s) => {
            assert(line[p] == r[0]);
            lemma_double_quoted(line, p, s);
            lemma_token_single(line, p);
            lemma_finish_unfold(double_quoted_step(), DoubleQuotedStringPView::new(), line, p, q);
            let c1 = DoubleQuotedStringPView::new().step(w0).0;
            let embed = |c: DoubleQuotedStringPView|
                ArrayPView {
                    double_quoted_string_p: Some(c),
                    state: ArrayState::DoubleQuotedString,
                    ..base
                };
            let good = |c: DoubleQuotedStringPView| c.buffer is Some;
            let on_end = |c: DoubleQuotedStringPView|
                (
                    ArrayPView {
                        state: ArrayState::AfterDoubleQuotedString,
                        ..base.push(ItemValueView::DoubleQuotedString(c.buffer->0))
                    },
                    PResultView::Ongoing,
                );
            assert(base.step(w0) == (embed(c1), PResultView::Ongoing));
            lemma_advance_one(step, base, line, p);
            lemma_delegate_finish(
                double_quoted_step(),
                step,
                embed,
                good,
                on_end,
                c1,
                line,
                p + 1,
                q,
            );
            lemma_advance_advance(step, base, line, p, p + 1, q);
        },
        ItemValueView::SingleQuotedString(s) => {
            assert(line[p] == r[0]);
            lemma_single_quoted(line, p, s);
            lemma_token_single(line, p);
            lemma_finish_unfold(single_quoted_step(), SingleQuotedStringPView::new(), line, p, q);
            let c1 = SingleQuotedStringPView::new().step(w0).0;
            let embed = |c: SingleQuotedStringPView|
                ArrayPView {
                    single_quoted_string_p: Some(c),
                    state: ArrayState::SingleQuotedString,
                    ..base
                };
            let good = |c: SingleQuotedStringPView| c.buffer is Some;
            let on_end = |c: SingleQuotedStringPView|
                (
                    ArrayPView {
                        state: ArrayState::AfterSingleQuotedString,
                        ..base.push(ItemValueView::SingleQuotedString(c.buffer->0))
                    },
                    PResultView::Ongoing,
                );
            assert(base.step(w0) == (embed(c1), PResultView::Ongoing));
            lemma_advance_one(step, base, line, p);
            lemma_delegate_finish(
                single_quoted_step(),
                step,
                embed,
                good,
                on_end,
                c1,
                line,
                p + 1,
                q,
            );
            lemma_advance_advance(step, base, line, p, p + 1, q);
        },
        ItemValueView::LiteralString(s) => {
            assert forall|j: int| p <= j < q implies is_literal_char(#[trigger] line[j]) by {
                assert(line[j] == r[j - p]);
            }
            let c0 = LiteralValuePView::new();
            lemma_literal(line, p, q, c0);
            assert(c0.text() + line.subrange(p, q) =~= s);
            assert(breaks_at(line, q)) by {
                assert(is_literal_char(line[q - 1]));
            }
            lemma_token_within(line, p, q);
            let e = token_end(line, p);
            let (c1, r1) = c0.step(w0);
            let pushed = ArrayPView {
                state: ArrayState::AfterItem,
                ..base.push(ItemValueView::LiteralString(s))
            };
            if e == q {
                assert(r1 is End);
                assert(base.step(w0) == (pushed, PResultView::Ongoing));
                lemma_advance_one(step, base, line, p);
            } else {
                lemma_finish_unfold(literal_step(), c0, line, p, q);
                let embed = |c: LiteralValuePView|
                    ArrayPView {
                        literal_value_p: Some(c),
                        state: ArrayState::LiteralString,
                        ..base
                    };
                let good = |c: LiteralValuePView| c.buffer is Some;
                let on_end = |c: LiteralValuePView|
                    (
                        ArrayPView {
                            state: ArrayState::AfterItem,
                            ..base.push(ItemValueView::LiteralString(c.buffer->0))
                        },
                        PResultView::Ongoing,
                    );
                assert(base.step(w0) == (embed(c1), PResultView::Ongoing));
                lemma_advance_one(step, base, line, p);
                lemma_delegate_finish(literal_step(), step, embed, good, on_end, c1, line, e, q);
                lemma_advance_advance(step, base, line, p, e, q);
            }
        },
        _ => {},
    }
}

/// How items are written: the first `k + 1` are the first `k`, `, ` and
/// the next.
pub proof fn lemma_render_items_next(items: Seq<ItemValueView>, k: int)
    requires
        1 <= k < items.len(),
    ensures
        render_items(items.take(k + 1)) == render_items(items.take(k)) + seq![',', ' ']
            + render_item(items[k]),
{
    assert(items.take(k + 1).drop_last() =~= items.take(k));
    assert(items.take(k + 1).last() == items[k]);
}

/// How items are written begins with how the first `k` of them are
/// written.
pub proof fn lemma_render_items_prefix(items: Seq<ItemValueView>, k: int)
    requires
        1 <= k <= items.len(),
    ensures
        render_items(items.take(k)).len() <= render_items(items).len(),
        render_items(items).subrange(0, render_items(items.take(k)).len() as int) == render_items(
            items.take(k),
        ),
    decreases items.len() - k,
{
    if k == items.len() {
        assert(items.take(k) =~= items);
        assert(render_items(items).subrange(0, render_items(items).len() as int) =~= render_items(
            items,
        ));
    } else {
        lemma_render_items_prefix(items, k + 1);
        lemma_render_items_next(items, k);
        let longer = render_items(items.take(k + 1));
        let shorter = render_items(items.take(k));
        assert(render_items(items).subrange(0, shorter.len() as int) =~= longer.subrange(
            0,
            shorter.len() as int,
        ));
        assert(longer.subrange(0, shorter.len() as int) =~= shorter);
    }
}

/// The first character of an item of an array, as it is written, is no
/// white space, and the item is not empty.
pub proof fn lemma_array_item_front(item: ItemValueView)
    requires
        printable_array_item(item),
    ensures
        render_item(item).len() > 0,
        crate::token::spec_character_type(render_item(item)[0])
            != crate::token::CharacterType::Whitespace,
{
    match item {
        ItemValueView::LiteralString(s) => {
            assert(is_literal_char(s[0]));
        },
        _ => {},
    }
}

/// The array's parser reads the first `k` items as they were written.
pub proof fn lemma_array_items(line: Seq<char>, a: int, items: Seq<ItemValueView>, k: int)
    requires
        0 <= a,
        a + render_items(items).len() + 2 <= line.len(),
        line.subrange(a, a + render_items(items).len() + 2) == render_items(items) + seq![
            ' ',
            ']',
        ],
        1 <= k <= items.len(),
        forall|i: int| 0 <= i < items.len() ==> printable_array_item(#[trigger] items[i]),
    ensures
        advance(
            array_step(),
            awaiting_item(None),
            line,
            a,
            a + render_items(items.take(k)).len(),
        ) == Some(after_items(items.take(k))),
    decreases k,
{
    let step = array_step();
    let all = render_items(items);
    lemma_split(line, a, all, seq![' ', ']']);
    lemma_render_items_prefix(items, k);
    let upto = render_items(items.take(k));
    let q = a + upto.len();
    assert(line.subrange(a, q) =~= upto) by {
        assert forall|j: int| 0 <= j < upto.len() implies line[a + j] == upto[j] by {
            assert(line[a + j] == line.subrange(a, a + all.len())[j]);
            assert(all[j] == all.subrange(0, upto.len() as int)[j]);
        }
    }
    // What stands behind the first `k` items: `,` or ` `.
    assert(!is_literal_char(line[q])) by {
        if k == items.len() {
            assert(items.take(k) =~= items);
            assert(line[q] == line.subrange(a, a + all.len() + 2)[all.len() as int]);
        } else {
            lemma_render_items_prefix(items, k + 1);
            lemma_render_items_next(items, k);
            let longer = render_items(items.take(k + 1));
            assert(line[q] == line.subrange(a, a + all.len())[upto.len() as int]);
            assert(all[upto.len() as int] == all.subrange(0, longer.len() as int)[upto.len() as int]);
            assert(longer[upto.len() as int] == ',');
        }
    }
    assert(printable_array_item(items[k - 1]));
    if k == 1 {
        assert(items.take(1).drop_last() =~= Seq::<ItemValueView>::empty());
        assert(items.take(1).last() == items[0]);
        assert(upto == render_item(items[0]));
        lemma_array_item(line, a, None, items[0]);
        assert(Seq::<ItemValueView>::empty().push(items[0]) =~= items.take(1));
    } else {
        lemma_array_items(line, a, items, k - 1);
        lemma_render_items_next(items, k - 1);
        let before = render_items(items.take(k - 1));
        let m = a + before.len();
        let item = items[k - 1];
        let s0 = after_items(items.take(k - 1));
        assert(upto =~= before + seq![',', ' '] + render_item(item));
        lemma_array_item_front(item);
        assert(line[m] == ',') by {
            assert(line[m] == line.subrange(a, q)[before.len() as int]);
        }
        assert(line[m + 1] == ' ') by {
            assert(line[m + 1] == line.subrange(a, q)[m + 1 - a]);
        }
        assert(line.subrange(m + 2, q) =~= render_item(item)) by {
            assert forall|j: int| 0 <= j < render_item(item).len() implies line[m + 2 + j]
                == render_item(item)[j] by {
                assert(line[m + 2 + j] == line.subrange(a, q)[m + 2 + j - a]);
            }
        }
        assert(line[m + 2] == render_item(item)[0]) by {
            assert(line[m + 2] == line.subrange(m + 2, q)[0]);
        }
        // The comma.
        lemma_token_single(line, m);
        let s1 = awaiting_item(Some(items.take(k - 1)));
        assert(s0.step(window_pos(line, m)) == (s1, PResultView::Ongoing));
        lemma_advance_one(step, s0, line, m);
        // The space.
        lemma_token_single(line, m + 1);
        assert(s1.step(window_pos(line, m + 1)) == (s1, PResultView::Ongoing));
        lemma_advance_one(step, s1, line, m + 1);
        // The item.
        lemma_array_item(line, m + 2, Some(items.take(k - 1)), item);
        assert(items.take(k - 1).push(item) =~= items.take(k));
        lemma_advance_advance(step, s1, line, m + 1, m + 2, q);
        lemma_advance_advance(step, s0, line, m, m + 1, q);
        lemma_advance_advance(step, awaiting_item(None), line, a, m, q);
    }
}

/// The array's parser, behind the opening bracket, reads an array of
/// strings and unquoted scalars as it was written.
pub proof fn lemma_array(line: Seq<char>, a: int, items: Seq<ItemValueView>)
    requires
        0 <= a,
        a + render_array(items).len() <= line.len(),
        line.subrange(a, a + render_array(items).len()) == render_array(items),
        items.len() > 0,
        forall|i: int| 0 <= i < items.len() ==> printable_array_item(#[trigger] items[i]),
    ensures
        line[a] == '[',
        token_end(line, a) == a + 1,
        finish(array_step(), ArrayPView::new(), line, a + 1, a + render_array(items).len())
            == Some(
            ArrayPView {
                buffer: Some(items),
                double_quoted_string_p: None,
                literal_value_p: None,
                single_quoted_string_p: None,
                state: ArrayState::End,
            },
        ),
{
    let step = array_step();
    let all = render_items(items);
    let q = a + render_array(items).len();
    let r = line.subrange(a, q);
    assert(render_array(items) =~= seq!['[', ' '] + (all + seq![' ', ']']));
    lemma_split(line, a, seq!['[', ' '], all + seq![' ', ']']);
    assert(line[a] == r[0]);
    assert(line[a + 1] == r[1]);
    lemma_token_single(line, a);
    lemma_split(line, a + 2, all, seq![' ', ']']);
    let tail = line.subrange(a + 2 + all.len(), a + 2 + all.len() + 2);
    assert(line[q - 2] == tail[0]);
    assert(line[q - 1] == tail[1]);
    assert(items.take(items.len() as int) =~= items);
    assert(printable_array_item(items[0]));
    lemma_array_item_front(items[0]);
    lemma_render_items_prefix(items, 1);
    assert(items.take(1).drop_last() =~= Seq::<ItemValueView>::empty());
    assert(items.take(1).last() == items[0]);
    assert(line[a + 2] == render_item(items[0])[0]) by {
        assert(line[a + 2] == line.subrange(a + 2, a + 2 + all.len())[0]);
        assert(all[0] == all.subrange(0, render_item(items[0]).len() as int)[0]);
    }
    // The space behind the bracket.
    let s0 = ArrayPView::new();
    lemma_token_single(line, a + 1);
    assert(s0.step(window_pos(line, a + 1)) == (s0, PResultView::Ongoing));
    lemma_advance_one(step, s0, line, a + 1);
    // The items.
    lemma_array_items(line, a + 2, items, items.len() as int);
    let s1 = after_items(items);
    lemma_advance_advance(step, s0, line, a + 1, a + 2, q - 2);
    // The space before the bracket.
    lemma_token_single(line, q - 2);
    assert(s1.step(window_pos(line, q - 2)) == (s1, PResultView::Ongoing));
    lemma_advance_one(step, s1, line, q - 2);
    lemma_advance_advance(step, s0, line, a + 1, q - 2, q - 1);
    // The closing bracket.
    lemma_token_single(line, q - 1);
    lemma_finish_one(step, s1, line, q - 1);
    lemma_advance_finish(step, s0, line, a + 1, q - 1, q);
}

} // verus!
