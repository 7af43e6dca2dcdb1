//! What is written holds no line feed.

use vstd::prelude::*;
use crate::laws::printable::clean;
use crate::laws::printable::printable_array_item;
use crate::laws::printable::printable_expression;
use crate::laws::printable::printable_key;
use crate::laws::printable::printable_right_value;
use crate::laws::printable::printable_table_items;
use crate::model::ExpressionView;
use crate::model::ItemValueView;
use crate::model::KeyValueView;
use crate::model::RightValueView;
use crate::render::escape;
use crate::render::render_double_quoted;
use crate::render::render_expression;
use crate::render::render_item;
use crate::render::render_items;
use crate::render::render_key_value;
use crate::render::render_right_value;

verus! {

/// Two texts without a line feed, one behind the other, hold none.
pub proof fn lemma_clean_add(x: Seq<char>, y: Seq<char>)
    requires
        clean(x),
        clean(y),
    ensures
        clean(x + y),
{
    assert forall|i: int| 0 <= i < (x + y).len() implies #[trigger] (x + y)[i] != '\n' by {
        if i < x.len() {
            assert((x + y)[i] == x[i]);
        } else {
            assert((x + y)[i] == y[i - x.len()]);
        }
    }
}

/// How the content of a double-quoted string is written holds no line
/// feed.
pub proof fn lemma_escape_clean(s: Seq<char>)
    ensures
        clean(escape(s)),
    decreases s.len(),
{
    if s.len() > 0 {
        lemma_escape_clean(s.drop_last());
        lemma_clean_add(escape(s.drop_last()), crate::render::escape_char(s.last()));
    }
}

pub proof fn lemma_double_quoted_clean(s: Seq<char>)
    ensures
        clean(render_double_quoted(s)),
{
    lemma_escape_clean(s);
    lemma_clean_add(seq!['"'], escape(s));
    lemma_clean_add(seq!['"'] + escape(s), seq!['"']);
}

/// Whether `items` can be written without a line feed: items of an
/// array, or items of an inline table.
pub open spec fn printable_items(items: Seq<ItemValueView>) -> bool {
    (forall|i: int| 0 <= i < items.len() ==> printable_array_item(#[trigger] items[i]))
        || printable_table_items(items)
}

pub proof fn lemma_item_clean(item: ItemValueView)
    requires
        printable_array_item(item) || (item matches ItemValueView::KeyValue(m) && printable_key(
            m.key,
            false,
        ) && printable_right_value(m.value)),
    ensures
        clean(render_item(item)),
    decreases item, 0int,
{
    match item {
        ItemValueView::DoubleQuotedString(s) => {
            lemma_double_quoted_clean(s);
        },
        ItemValueView::KeyValue(m) => {
            lemma_key_value_clean(m, false);
        },
        _ => {},
    }
}

pub proof fn lemma_items_clean(items: Seq<ItemValueView>, k: int)
    requires
        printable_items(items),
        0 <= k <= items.len(),
    ensures
        clean(render_items(items.take(k))),
    decreases items, k,
{
    if k >= 1 {
        assert(items.take(k).drop_last() =~= items.take(k - 1));
        assert(items.take(k).last() == items[k - 1]);
        lemma_item_clean(items[k - 1]);
        if k > 1 {
            lemma_items_clean(items, k - 1);
            lemma_clean_add(render_items(items.take(k - 1)), seq![',', ' ']);
            lemma_clean_add(
                render_items(items.take(k - 1)) + seq![',', ' '],
                render_item(items[k - 1]),
            );
        }
    }
}

pub proof fn lemma_right_value_clean(value: RightValueView)
    requires
        printable_right_value(value),
    ensures
        clean(render_right_value(value)),
    decreases value, 0int,
{
    match value {
        RightValueView::DoubleQuotedString(s) => {
            lemma_double_quoted_clean(s);
        },
        RightValueView::Array(items) => {
            lemma_items_clean(items, items.len() as int);
            assert(items.take(items.len() as int) =~= items);
            lemma_clean_add(seq!['[', ' '], render_items(items));
            lemma_clean_add(seq!['[', ' '] + render_items(items), seq![' ', ']']);
        },
        RightValueView::InlineTable(items) => {
            lemma_items_clean(items, items.len() as int);
            assert(items.take(items.len() as int) =~= items);
            lemma_clean_add(seq!['{', ' '], render_items(items));
            lemma_clean_add(seq!['{', ' '] + render_items(items), seq![' ', '}']);
        },
        _ => {},
    }
}

pub proof fn lemma_key_value_clean(m: KeyValueView, dot_allowed: bool)
    requires
        printable_key(m.key, dot_allowed),
        printable_right_value(m.value),
    ensures
        clean(render_key_value(m)),
    decreases m, 1int,
{
    lemma_right_value_clean(m.value);
    assert(clean(m.key)) by {
        assert forall|i: int| 0 <= i < m.key.len() implies #[trigger] m.key[i] != '\n' by {
            assert(crate::laws::printable::is_key_char(m.key[i]) || m.key[i] == '.');
        }
    }
    lemma_clean_add(m.key, seq![' ', '=', ' ']);
    lemma_clean_add(m.key + seq![' ', '=', ' '], render_right_value(m.value));
}

/// A printable line is written without a line feed.
pub proof fn lemma_render_clean(e: ExpressionView)
    requires
        printable_expression(e),
    ensures
        clean(render_expression(e)),
{
    match e {
        ExpressionView::Comment(s) => {
            lemma_clean_add(seq!['#'], s);
        },
        ExpressionView::KeyValue(m) => {
            lemma_key_value_clean(m, true);
        },
        _ => {},
    }
}

} // verus!
