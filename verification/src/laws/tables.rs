//! Key values and inline tables read back as they were written.

use vstd::prelude::*;
use crate::diagnostic::PResultView;
use crate::laws::arrays::array_step;
use crate::laws::arrays::lemma_array;
use crate::laws::arrays::lemma_render_items_next;
use crate::laws::arrays::lemma_render_items_prefix;
use crate::laws::lexing::breaks_at;
use crate::laws::lexing::kind_of;
use crate::laws::lexing::lemma_accumulate;
use crate::laws::lexing::lemma_token_single;
use crate::laws::lexing::lemma_token_within;
use crate::laws::printable::is_key_char;
use crate::laws::printable::is_literal_char;
use crate::laws::printable::printable_key;
use crate::laws::printable::printable_right_value;
use crate::laws::printable::printable_table_items;
use crate::laws::scalars::double_quoted_step;
use crate::laws::scalars::lemma_double_quoted;
use crate::laws::scalars::lemma_literal;
use crate::laws::scalars::lemma_single_quoted;
use crate::laws::scalars::literal_step;
use crate::laws::scalars::single_quoted_step;
use crate::laws::stream::advance;
use crate::laws::stream::finish;
use crate::laws::stream::lemma_advance_advance;
use crate::laws::stream::lemma_advance_finish;
use crate::laws::stream::lemma_advance_one;
use crate::laws::stream::lemma_delegate_finish;
use crate::laws::stream::lemma_finish_one;
use crate::laws::stream::lemma_finish_unfold;
use crate::laws::stream::lemma_split;
use crate::laws::stream::token_at;
use crate::laws::stream::window_pos;
use crate::lexer::token_end;
use crate::model::ItemValueView;
use crate::model::KeyValueView;
use crate::model::RightValueView;
use crate::parser::array::ArrayPView;
use crate::parser::double_quoted_string_p::DoubleQuotedStringPView;
use crate::parser::inline_table::InlineTablePView;
use crate::parser::key_value_p::KeyValuePView;
use crate::parser::key_value_p::State;
use crate::parser::literal_value_p::LiteralValuePView;
use crate::parser::single_quoted_string_p::SingleQuotedStringPView;
use crate::render::render_inline_table;
use crate::render::render_item;
use crate::render::render_items;
use crate::render::render_key_value;
use crate::render::render_right_value;
use crate::token::CharacterType;
use crate::token::LookAheadTokensView;
use crate::token::TokenType;
use crate::token::spec_character_type;
use crate::token::spec_is_key_token;

verus! {

pub open spec fn key_value_step() -> spec_fn(KeyValuePView, LookAheadTokensView) -> (
    KeyValuePView,
    PResultView,
) {
    |s: KeyValuePView, w: LookAheadTokensView| s.step(w)
}

pub open spec fn inline_table_step() -> spec_fn(InlineTablePView, LookAheadTokensView) -> (
    InlineTablePView,
    PResultView,
) {
    |s: InlineTablePView, w: LookAheadTokensView| s.step(w)
}

/// The key value's parser in `state`, with `key` read and no value yet.
pub open spec fn key_value_in(key: Seq<char>, dot_allowed: bool, state: State) -> KeyValuePView {
    KeyValuePView {
        array_p: None,
        buffer: None,
        dot_allowed,
        double_quoted_string_p: None,
        inline_table_p: None,
        key,
        literal_value_p: None,
        single_quoted_string_p: None,
        state,
    }
}

/// The key value's parser with `m` read.
pub open spec fn key_value_read(m: KeyValueView, dot_allowed: bool) -> KeyValuePView {
    KeyValuePView { buffer: Some(m), ..key_value_in(m.key, dot_allowed, State::End) }
}

/// The inline table's parser where it awaits a key, with `done` read.
pub open spec fn awaiting_key(done: Seq<ItemValueView>) -> InlineTablePView {
    InlineTablePView {
        buffer: Some(done),
        key_value_p: None,
        state: crate::parser::inline_table::State::AfterLeftCurlyBracket,
    }
}

/// The inline table's parser behind the last of the items `done`.
pub open spec fn after_key_values(done: Seq<ItemValueView>) -> InlineTablePView {
    InlineTablePView {
        buffer: Some(done),
        key_value_p: None,
        state: crate::parser::inline_table::State::AfterKeyValue,
    }
}

/// A value, as it is written, is not empty and begins with no white
/// space.
pub proof fn lemma_right_value_front(value: RightValueView)
    requires
        printable_right_value(value),
    ensures
        render_right_value(value).len() > 0,
        spec_character_type(render_right_value(value)[0]) != CharacterType::Whitespace,
{
    match value {
        RightValueView::LiteralString(s) => {
            assert(is_literal_char(s[0]));
        },
        _ => {},
    }
}

/// The key value's parser, behind `=`, reads a value as it was written.
pub proof fn lemma_right_value(
    line: Seq<char>,
    p: int,
    key: Seq<char>,
    dot_allowed: bool,
    value: RightValueView,
)
    requires
        printable_right_value(value),
        0 <= p,
        p + render_right_value(value).len() <= line.len(),
        line.subrange(p, p + render_right_value(value).len()) == render_right_value(value),
        p + render_right_value(value).len() < line.len() ==> !is_literal_char(
            line[p + render_right_value(value).len()],
        ),
    ensures
        finish(
            key_value_step(),
            key_value_in(key, dot_allowed, State::AfterEquals),
            line,
            p,
            p + render_right_value(value).len(),
        ) == Some(key_value_read(KeyValueView { key, value }, dot_allowed)),
    decreases value, 0int,
{
    let step = key_value_step();
    let base = key_value_in(key, dot_allowed, State::AfterEquals);
    let q = p + render_right_value(value).len();
    let w0 = window_pos(line, p);
    let r = line.subrange(p, q);
    match value {
        RightValueView::DoubleQuotedString(s) => {
            assert(line[p] == r[0]);
            lemma_double_quoted(line, p, s);
            lemma_token_single(line, p);
            lemma_finish_unfold(double_quoted_step(), DoubleQuotedStringPView::new(), line, p, q);
            let c1 = DoubleQuotedStringPView::new().step(w0).0;
            let embed = |c: DoubleQuotedStringPView|
                KeyValuePView {
                    double_quoted_string_p: Some(c),
                    state: State::DoubleQuotedString,
                    ..base
                };
            let good = |c: DoubleQuotedStringPView| c.buffer is Some;
            let on_end = |c: DoubleQuotedStringPView|
                (
                    key_value_read(
                        KeyValueView {
                            key,
                            value: RightValueView::DoubleQuotedString(c.buffer->0),
                        },
                        dot_allowed,
                    ),
                    PResultView::End,
                );
            assert(base.step(w0) == (embed(c1), PResultView::Ongoing));
            lemma_advance_one(step, base, line, p);
            lemma_delegate_finish(
                double_quoted_step(),
                step,
                embed,
                good,
                on_end,
                c1,
                line,
                p + 1,
                q,
            );
            lemma_advance_finish(step, base, line, p, p + 1, q);
        },
        RightValueView::SingleQuotedString(s) => {
            assert(line[p] == r[0]);
            lemma_single_quoted(line, p, s);
            lemma_token_single(line, p);
            lemma_finish_unfold(single_quoted_step(), SingleQuotedStringPView::new(), line, p, q);
            let c1 = SingleQuotedStringPView::new().step(w0).0;
            let embed = |c: SingleQuotedStringPView|
                KeyValuePView {
                    single_quoted_string_p: Some(c),
                    state: State::SingleQuotedString,
                    ..base
                };
            let good = |c: SingleQuotedStringPView| c.buffer is Some;
            let on_end = |c: SingleQuotedStringPView|
                (
                    key_value_read(
                        KeyValueView {
                            key,
                            value: RightValueView::SingleQuotedString(c.buffer->0),
                        },
                        dot_allowed,
                    ),
                    PResultView::End,
                );
            assert(base.step(w0) == (embed(c1), PResultView::Ongoing));
            lemma_advance_one(step, base, line, p);
            lemma_delegate_finish(
                single_quoted_step(),
                step,
                embed,
                good,
                on_end,
                c1,
                line,
                p + 1,
                q,
            );
            lemma_advance_finish(step, base, line, p, p + 1, q);
        },
        RightValueView::LiteralString(s) => {
            assert forall|j: int| p <= j < q implies is_literal_char(#[trigger] line[j]) by {
                assert(line[j] == r[j - p]);
            }
            let c0 = LiteralValuePView::new();
            lemma_literal(line, p, q, c0);
            assert(c0.text() + line.subrange(p, q) =~= s);
            assert(breaks_at(line, q)) by {
                assert(is_literal_char(line[q - 1]));
            }
            lemma_token_within(line, p, q);
            let e = token_end(line, p);
            let (c1, r1) = c0.step(w0);
            let read = key_value_read(KeyValueView { key, value }, dot_allowed);
            if e == q {
                assert(r1 is End);
                assert(base.step(w0) == (read, PResultView::End));
                lemma_finish_one(step, base, line, p);
            } else {
                lemma_finish_unfold(literal_step(), c0, line, p, q);
                let embed = |c: LiteralValuePView|
                    KeyValuePView {
                        literal_value_p: Some(c),
                        state: State::LiteralValue,
                        ..base
                    };
                let good = |c: LiteralValuePView| c.buffer is Some;
                let on_end = |c: LiteralValuePView|
                    (
                        key_value_read(
                            KeyValueView {
                                key,
                                value: RightValueView::LiteralString(c.buffer->0),
                            },
                            dot_allowed,
                        ),
                        PResultView::End,
                    );
                assert(base.step(w0) == (embed(c1), PResultView::Ongoing));
                lemma_advance_one(step, base, line, p);
                lemma_delegate_finish(literal_step(), step, embed, good, on_end, c1, line, e, q);
                lemma_advance_finish(step, base, line, p, e, q);
            }
        },
        RightValueView::Array(items) => {
            lemma_array(line, p, items);
            let embed = |c: ArrayPView|
                KeyValuePView { array_p: Some(c), state: State::Array, ..base };
            let good = |c: ArrayPView| c.buffer is Some;
            let on_end = |c: ArrayPView|
                (
                    key_value_read(
                        KeyValueView { key, value: RightValueView::Array(c.buffer->0) },
                        dot_allowed,
                    ),
                    PResultView::End,
                );
            assert(base.step(w0) == (embed(ArrayPView::new()), PResultView::Ongoing));
            lemma_advance_one(step, base, line, p);
            lemma_delegate_finish(
                array_step(),
                step,
                embed,
                good,
                on_end,
                ArrayPView::new(),
                line,
                p + 1,
                q,
            );
            lemma_advance_finish(step, base, line, p, p + 1, q);
        },
        RightValueView::InlineTable(items) => {
            lemma_inline_table(line, p, items);
            let embed = |c: InlineTablePView|
                KeyValuePView {
                    inline_table_p: Some(Box::new(c)),
                    state: State::InlineTable,
                    ..base
                };
            let good = |c: InlineTablePView| c.buffer is Some;
            let on_end = |c: InlineTablePView|
                (
                    key_value_read(
                        KeyValueView { key, value: RightValueView::InlineTable(c.buffer->0) },
                        dot_allowed,
                    ),
                    PResultView::End,
                );
            assert(base.step(w0) == (embed(InlineTablePView::new()), PResultView::Ongoing));
            lemma_advance_one(step, base, line, p);
            lemma_delegate_finish(
                inline_table_step(),
                step,
                embed,
                good,
                on_end,
                InlineTablePView::new(),
                line,
                p + 1,
                q,
            );
            lemma_advance_finish(step, base, line, p, p + 1, q);
        },
    }
}

/// The key value's parser, made behind the first token of a key, reads
/// the rest of the key as it was written.
pub proof fn lemma_key(line: Seq<char>, a: int, key: Seq<char>, dot_allowed: bool)
    requires
        printable_key(key, dot_allowed),
        0 <= a,
        a + key.len() < line.len(),
        line.subrange(a, a + key.len()) == key,
        line[a + key.len()] == ' ',
    ensures
        a < token_end(line, a) <= a + key.len(),
        spec_is_key_token(token_at(line, a).type_),
        advance(
            key_value_step(),
            KeyValuePView::new(token_at(line, a), dot_allowed),
            line,
            token_end(line, a),
            a + key.len(),
        ) == Some(key_value_in(key, dot_allowed, State::Key)),
{
    let step = key_value_step();
    let k1 = a + key.len();
    assert forall|j: int| a <= j < k1 implies line[j] == key[j - a] by {
        assert(line[j] == line.subrange(a, k1)[j - a]);
    }
    assert(is_key_char(key[0]));
    assert(is_key_char(key[key.len() - 1]) || key[key.len() - 1] == '.');
    assert(breaks_at(line, k1));
    lemma_token_within(line, a, k1);
    let e0 = token_end(line, a);
    let state_of = |x: Seq<char>| key_value_in(x, dot_allowed, State::Key);
    let takes = |t: TokenType| spec_is_key_token(t) || (t == TokenType::Dot && dot_allowed);
    assert forall|j: int| e0 <= j < k1 implies takes(#[trigger] kind_of(line[j])) by {
        assert(is_key_char(key[j - a]) || (dot_allowed && key[j - a] == '.'));
    }
    let s0 = KeyValuePView::new(token_at(line, a), dot_allowed);
    assert(s0 == state_of(line.subrange(a, e0)));
    lemma_accumulate(step, state_of, takes, line.subrange(a, e0), line, e0, k1);
    assert(line.subrange(a, e0) + line.subrange(e0, k1) =~= key);
}

/// The key value's parser, behind the key, passes over ` = `.
pub proof fn lemma_equals(line: Seq<char>, k1: int, key: Seq<char>, dot_allowed: bool)
    requires
        0 <= k1,
        k1 + 3 < line.len(),
        line[k1] == ' ',
        line[k1 + 1] == '=',
        line[k1 + 2] == ' ',
        spec_character_type(line[k1 + 3]) != CharacterType::Whitespace,
    ensures
        advance(
            key_value_step(),
            key_value_in(key, dot_allowed, State::Key),
            line,
            k1,
            k1 + 3,
        ) == Some(key_value_in(key, dot_allowed, State::AfterEquals)),
{
    let step = key_value_step();
    let s1 = key_value_in(key, dot_allowed, State::Key);
    lemma_token_single(line, k1);
    let s2 = key_value_in(key, dot_allowed, State::BeforeEquals);
    assert(s1.step(window_pos(line, k1)) == (s2, PResultView::Ongoing));
    lemma_advance_one(step, s1, line, k1);
    lemma_token_single(line, k1 + 1);
    let s3 = key_value_in(key, dot_allowed, State::AfterEquals);
    assert(s2.step(window_pos(line, k1 + 1)) == (s3, PResultView::Ongoing));
    lemma_advance_one(step, s2, line, k1 + 1);
    lemma_token_single(line, k1 + 2);
    assert(s3.step(window_pos(line, k1 + 2)) == (s3, PResultView::Ongoing));
    lemma_advance_one(step, s3, line, k1 + 2);
    lemma_advance_advance(step, s2, line, k1 + 1, k1 + 2, k1 + 3);
    lemma_advance_advance(step, s1, line, k1, k1 + 1, k1 + 3);
}

/// The key value's parser, made behind the first token of a key, reads
/// the rest of the key and the value as they were written.
pub proof fn lemma_key_value(line: Seq<char>, a: int, m: KeyValueView, dot_allowed: bool)
    requires
        printable_key(m.key, dot_allowed),
        printable_right_value(m.value),
        0 <= a,
        a + render_key_value(m).len() <= line.len(),
        line.subrange(a, a + render_key_value(m).len()) == render_key_value(m),
        a + render_key_value(m).len() < line.len() ==> !is_literal_char(
            line[a + render_key_value(m).len()],
        ),
    ensures
        a < token_end(line, a) < a + render_key_value(m).len(),
        spec_is_key_token(token_at(line, a).type_),
        finish(
            key_value_step(),
            KeyValuePView::new(token_at(line, a), dot_allowed),
            line,
            token_end(line, a),
            a + render_key_value(m).len(),
        ) == Some(key_value_read(m, dot_allowed)),
    decreases m, 1int,
{
    let step = key_value_step();
    let key = m.key;
    let text = render_right_value(m.value);
    let q = a + render_key_value(m).len();
    let k1 = a + key.len();
    let v0 = k1 + 3;
    lemma_right_value_front(m.value);
    assert(render_key_value(m) =~= key + (seq![' ', '=', ' '] + text));
    lemma_split(line, a, key, seq![' ', '=', ' '] + text);
    lemma_split(line, k1, seq![' ', '=', ' '], text);
    let sep = line.subrange(k1, k1 + 3);
    assert(line[k1] == sep[0]);
    assert(line[k1 + 1] == sep[1]);
    assert(line[k1 + 2] == sep[2]);
    assert(line[v0] == line.subrange(v0, v0 + text.len())[0]);
    lemma_key(line, a, key, dot_allowed);
    lemma_equals(line, k1, key, dot_allowed);
    lemma_right_value(line, v0, key, dot_allowed, m.value);
    let e0 = token_end(line, a);
    let s0 = KeyValuePView::new(token_at(line, a), dot_allowed);
    let s1 = key_value_in(key, dot_allowed, State::Key);
    lemma_advance_finish(step, s1, line, k1, v0, q);
    lemma_advance_finish(step, s0, line, e0, k1, q);
}

/// The inline table's parser, where it awaits a key, reads a key value
/// as it was written.
pub proof fn lemma_table_item(
    line: Seq<char>,
    p: int,
    done: Seq<ItemValueView>,
    item: ItemValueView,
)
    requires
        item matches ItemValueView::KeyValue(m) && printable_key(m.key, false)
            && printable_right_value(m.value),
        0 <= p,
        p + render_item(item).len() < line.len(),
        line.subrange(p, p + render_item(item).len()) == render_item(item),
        !is_literal_char(line[p + render_item(item).len()]),
    ensures
        advance(inline_table_step(), awaiting_key(done), line, p, p + render_item(item).len())
            == Some(after_key_values(done.push(item))),
    decreases item, 2int,
{
    let step = inline_table_step();
    let m = item->KeyValue_0;
    let base = awaiting_key(done);
    let q = p + render_item(item).len();
    lemma_key_value(line, p, m, false);
    let e0 = token_end(line, p);
    let c0 = KeyValuePView::new(token_at(line, p), false);
    let embed = |c: KeyValuePView|
        InlineTablePView {
            key_value_p: Some(Box::new(c)),
            state: crate::parser::inline_table::State::KeyValue,
            ..base
        };
    let good = |c: KeyValuePView| c.buffer is Some;
    let on_end = |c: KeyValuePView|
        (after_key_values(done.push(ItemValueView::KeyValue(c.buffer->0))), PResultView::Ongoing);
    assert(base.step(window_pos(line, p)) == (embed(c0), PResultView::Ongoing));
    lemma_advance_one(step, base, line, p);
    lemma_delegate_finish(key_value_step(), step, embed, good, on_end, c0, line, e0, q);
    lemma_advance_advance(step, base, line, p, e0, q);
}

/// The inline table's parser reads the first `k` items as they were
/// written.
pub proof fn lemma_table_items(line: Seq<char>, a: int, items: Seq<ItemValueView>, k: int)
    requires
        0 <= a,
        a + render_items(items).len() + 2 <= line.len(),
        line.subrange(a, a + render_items(items).len() + 2) == render_items(items) + seq![
            ' ',
            '}',
        ],
        1 <= k <= items.len(),
        printable_table_items(items),
    ensures
        advance(
            inline_table_step(),
            awaiting_key(Seq::empty()),
            line,
            a,
            a + render_items(items.take(k)).len(),
        ) == Some(after_key_values(items.take(k))),
    decreases items, k,
{
    let step = inline_table_step();
    let all = render_items(items);
    lemma_split(line, a, all, seq![' ', '}']);
    lemma_render_items_prefix(items, k);
    let upto = render_items(items.take(k));
    let q = a + upto.len();
    assert(line.subrange(a, q) =~= upto) by {
        assert forall|j: int| 0 <= j < upto.len() implies line[a + j] == upto[j] by {
            assert(line[a + j] == line.subrange(a, a + all.len())[j]);
            assert(all[j] == all.subrange(0, upto.len() as int)[j]);
        }
    }
    assert(!is_literal_char(line[q])) by {
        if k == items.len() {
            assert(items.take(k) =~= items);
            assert(line[q] == line.subrange(a, a + all.len() + 2)[all.len() as int]);
        } else {
            lemma_render_items_prefix(items, k + 1);
            lemma_render_items_next(items, k);
            let longer = render_items(items.take(k + 1));
            assert(line[q] == line.subrange(a, a + all.len())[upto.len() as int]);
            assert(all[upto.len() as int] == all.subrange(0, longer.len() as int)[upto.len() as int]);
            assert(longer[upto.len() as int] == ',');
        }
    }
    let item = items[k - 1];
    assert(item matches ItemValueView::KeyValue(m) && printable_key(m.key, false)
        && printable_right_value(m.value));
    if k == 1 {
        assert(items.take(1).drop_last() =~= Seq::<ItemValueView>::empty());
        assert(items.take(1).last() == items[0]);
        assert(upto == render_item(items[0]));
        lemma_table_item(line, a, Seq::empty(), items[0]);
        assert(Seq::<ItemValueView>::empty().push(items[0]) =~= items.take(1));
    } else {
        lemma_table_items(line, a, items, k - 1);
        lemma_render_items_next(items, k - 1);
        let before = render_items(items.take(k - 1));
        let m = a + before.len();
        let s0 = after_key_values(items.take(k - 1));
        assert(upto =~= before + seq![',', ' '] + render_item(item));
        assert(is_key_char(item->KeyValue_0.key[0]));
        assert(line[m] == ',') by {
            assert(line[m] == line.subrange(a, q)[m - a]);
        }
        assert(line[m + 1] == ' ') by {
            assert(line[m + 1] == line.subrange(a, q)[m + 1 - a]);
        }
        assert(line.subrange(m + 2, q) =~= render_item(item)) by {
            assert forall|j: int| 0 <= j < render_item(item).len() implies line[m + 2 + j]
                == render_item(item)[j] by {
                assert(line[m + 2 + j] == line.subrange(a, q)[m + 2 + j - a]);
            }
        }
        assert(line[m + 2] == item->KeyValue_0.key[0]) by {
            assert(line[m + 2] == line.subrange(m + 2, q)[0]);
        }
        // The comma.
        lemma_token_single(line, m);
        let s1 = awaiting_key(items.take(k - 1));
        assert(s0.step(window_pos(line, m)) == (s1, PResultView::Ongoing));
        lemma_advance_one(step, s0, line, m);
        // The space.
        lemma_token_single(line, m + 1);
        assert(s1.step(window_pos(line, m + 1)) == (s1, PResultView::Ongoing));
        lemma_advance_one(step, s1, line, m + 1);
        // The key value.
        lemma_table_item(line, m + 2, items.take(k - 1), item);
        assert(items.take(k - 1).push(item) =~= items.take(k));
        lemma_advance_advance(step, s1, line, m + 1, m + 2, q);
        lemma_advance_advance(step, s0, line, m, m + 1, q);
        lemma_advance_advance(step, awaiting_key(Seq::empty()), line, a, m, q);
    }
}

/// The inline table's parser, behind the opening bracket, reads an inline
/// table as it was written.
pub proof fn lemma_inline_table(line: Seq<char>, a: int, items: Seq<ItemValueView>)
    requires
        0 <= a,
        a + render_inline_table(items).len() <= line.len(),
        line.subrange(a, a + render_inline_table(items).len()) == render_inline_table(items),
        items.len() > 0,
        printable_table_items(items),
    ensures
        line[a] == '{',
        token_end(line, a) == a + 1,
        finish(
            inline_table_step(),
            InlineTablePView::new(),
            line,
            a + 1,
            a + render_inline_table(items).len(),
        ) == Some(after_key_values(items)),
    decreases items, items.len() + 1,
{
    let step = inline_table_step();
    let all = render_items(items);
    let q = a + render_inline_table(items).len();
    let r = line.subrange(a, q);
    assert(render_inline_table(items) =~= seq!['{', ' '] + (all + seq![' ', '}']));
    lemma_split(line, a, seq!['{', ' '], all + seq![' ', '}']);
    assert(line[a] == r[0]);
    assert(line[a + 1] == r[1]);
    lemma_token_single(line, a);
    lemma_split(line, a + 2, all, seq![' ', '}']);
    let tail = line.subrange(a + 2 + all.len(), a + 2 + all.len() + 2);
    assert(line[q - 2] == tail[0]);
    assert(line[q - 1] == tail[1]);
    assert(items.take(items.len() as int) =~= items);
    let first = items[0];
    assert(first matches ItemValueView::KeyValue(m) && printable_key(m.key, false));
    assert(is_key_char(first->KeyValue_0.key[0]));
    assert(render_item(first) =~= first->KeyValue_0.key + (seq![' ', '=', ' ']
        + render_right_value(first->KeyValue_0.value)));
    lemma_render_items_prefix(items, 1);
    assert(items.take(1).drop_last() =~= Seq::<ItemValueView>::empty());
    assert(items.take(1).last() == items[0]);
    assert(line[a + 2] == first->KeyValue_0.key[0]) by {
        assert(line[a + 2] == line.subrange(a + 2, a + 2 + all.len())[0]);
        assert(all[0] == all.subrange(0, render_item(first).len() as int)[0]);
        assert(render_item(first)[0] == first->KeyValue_0.key[0]);
    }
    // The space behind the bracket.
    let s0 = InlineTablePView::new();
    assert(s0 == awaiting_key(Seq::empty()));
    lemma_token_single(line, a + 1);
    assert(s0.step(window_pos(line, a + 1)) == (s0, PResultView::Ongoing));
    lemma_advance_one(step, s0, line, a + 1);
    // The items.
    lemma_table_items(line, a + 2, items, items.len() as int);
    let s1 = after_key_values(items);
    lemma_advance_advance(step, s0, line, a + 1, a + 2, q - 2);
    // The space before the bracket.
    lemma_token_single(line, q - 2);
    assert(s1.step(window_pos(line, q - 2)) == (s1, PResultView::Ongoing));
    lemma_advance_one(step, s1, line, q - 2);
    lemma_advance_advance(step, s0, line, a + 1, q - 2, q - 1);
    // The closing bracket.
    lemma_token_single(line, q - 1);
    lemma_finish_one(step, s1, line, q - 1);
    lemma_advance_finish(step, s0, line, a + 1, q - 1, q);
}

} // verus!
