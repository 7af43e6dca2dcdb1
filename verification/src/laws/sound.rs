//! What the parsers read can be written so that it reads back.

use vstd::prelude::*;
use crate::laws::lexing::kind_of;
use crate::laws::lexing::lemma_token_classes;
use crate::laws::lines::run_pos;
use crate::laws::printable::clean;
use crate::laws::printable::is_key_char;
use crate::laws::printable::is_literal_char;
use crate::laws::printable::printable_array_item;
use crate::laws::printable::printable_key;
use crate::laws::printable::printable_literal;
use crate::laws::printable::printable_right_value;
use crate::laws::printable::printable_single_quoted;
use crate::laws::printable::printable_table_items;
use crate::laws::stream::token_at;
use crate::laws::stream::window_pos;
use crate::lexer::lemma_token_end_bounds;
use crate::lexer::token_end;
use crate::model::ExpressionView;
use crate::model::ItemValueView;
use crate::parser::array::ArrayPView;
use crate::parser::array::ArrayState;
use crate::parser::comment_p::CommentPView;
use crate::parser::expression_p::ExpressionPView;
use crate::parser::inline_table::InlineTablePView;
use crate::parser::key_value_p::KeyValuePView;
use crate::parser::literal_value_p::LiteralValuePView;
use crate::parser::single_quoted_string_p::SingleQuotedStringPView;
use crate::token::LookAheadTokensView;
use crate::token::TokenType;
use crate::token::TokenView;

verus! {

/// A token as the scanner makes them of a line without a line feed: the
/// end-of-line token, or at least one character, each of the token's
/// kind and none a line feed, and one character only unless the kind is
/// one of runs.
pub open spec fn lexical(t: TokenView) -> bool {
    t.type_ == TokenType::EndOfLine || (t.value.len() > 0 && (t.value.len() == 1 || t.type_
        == TokenType::AlphabetString || t.type_ == TokenType::NumeralString || t.type_
        == TokenType::WhiteSpaceString) && forall|i: int|
        0 <= i < t.value.len() ==> kind_of(#[trigger] t.value[i]) == t.type_ && t.value[i]
            != '\n')
}

/// A window of tokens as the scanner makes them.
pub open spec fn lexical_window(w: LookAheadTokensView) -> bool {
    lexical(w.current) && (w.one_ahead matches Some(t) ==> lexical(t))
}

pub proof fn lemma_token_lexical(line: Seq<char>, pos: int)
    requires
        clean(line),
    ensures
        lexical(token_at(line, pos)),
{
    if 0 <= pos < line.len() {
        lemma_token_end_bounds(line, pos);
        let t = token_at(line, pos);
        if t.value.len() > 1 {
            lemma_token_classes(line, pos, pos + 1);
        }
        assert forall|i: int| 0 <= i < t.value.len() implies kind_of(#[trigger] t.value[i])
            == t.type_ && t.value[i] != '\n' by {
            lemma_token_classes(line, pos, pos + i);
            assert(t.value[i] == line[pos + i]);
        }
    }
}

pub proof fn lemma_window_lexical(line: Seq<char>, pos: int)
    requires
        clean(line),
    ensures
        lexical_window(window_pos(line, pos)),
{
    lemma_token_lexical(line, pos);
    if 0 <= pos < line.len() {
        lemma_token_lexical(line, token_end(line, pos));
    }
}

/// Text without a double quote.
pub open spec fn unquoted(text: Seq<char>) -> bool {
    forall|i: int| 0 <= i < text.len() ==> #[trigger] text[i] != '"'
}

/// What a line can hold when it is read: a comment without a line feed;
/// an empty line; a header without a line feed or a double quote, that
/// of a table not beginning with `[`; a printable key value.
pub open spec fn parsed(e: ExpressionView) -> bool {
    match e {
        ExpressionView::Comment(s) => clean(s),
        ExpressionView::EmptyLine => true,
        ExpressionView::HeaderOfArrayOfTable(s) => clean(s) && unquoted(s),
        ExpressionView::HeaderOfTable(s) => clean(s) && unquoted(s) && (s.len() > 0 ==> s[0]
            != '['),
        ExpressionView::KeyValue(m) => printable_key(m.key, true) && printable_right_value(
            m.value,
        ),
    }
}

/// Characters that can stand in an unquoted scalar, none a line feed.
pub open spec fn literal_text(s: Seq<char>) -> bool {
    forall|i: int| 0 <= i < s.len() ==> is_literal_char(#[trigger] s[i]) && s[i] != '\n'
}

pub open spec fn sound_literal(p: LiteralValuePView) -> bool {
    &&& literal_text(p.text())
    &&& p.state == crate::parser::literal_value_p::State::End ==> p.buffer is Some
        && p.text().len() > 0
}

pub proof fn lemma_literal_sound(p: LiteralValuePView, w: LookAheadTokensView)
    requires
        sound_literal(p),
        lexical(w.current),
    ensures
        sound_literal(p.step(w).0),
        p.step(w).1 is End ==> p.step(w).0.buffer is Some && printable_literal(
            p.step(w).0.buffer->0,
        ),
{
    let q1 = p.step(w).0;
    assert forall|i: int| 0 <= i < q1.text().len() implies is_literal_char(
        #[trigger] q1.text()[i],
    ) && q1.text()[i] != '\n' by {
        if i < p.text().len() {
            assert(q1.text()[i] == p.text()[i]);
        } else {
            let k = i - p.text().len();
            assert(q1.text()[i] == w.current.value[k]);
            assert(kind_of(w.current.value[k]) == w.current.type_);
            if w.current.value[k] == '\r' {
                assert(w.current.value =~= seq!['\r']);
            }
        }
    }
}

pub open spec fn sound_single_quoted(p: SingleQuotedStringPView) -> bool {
    printable_single_quoted(p.text())
}

pub proof fn lemma_single_quoted_sound(p: SingleQuotedStringPView, w: LookAheadTokensView)
    requires
        sound_single_quoted(p),
        lexical(w.current),
    ensures
        sound_single_quoted(p.step(w).0),
{
    let q1 = p.step(w).0;
    assert forall|i: int| 0 <= i < q1.text().len() implies #[trigger] q1.text()[i] != '\''
        && q1.text()[i] != '\n' by {
        if i < p.text().len() {
            assert(q1.text()[i] == p.text()[i]);
        } else {
            assert(q1.text()[i] == w.current.value[i - p.text().len()]);
        }
    }
}

/// Whether the array's parser is behind an item.
pub open spec fn behind_item(state: ArrayState) -> bool {
    state == ArrayState::AfterItem || state == ArrayState::AfterDoubleQuotedString || state
        == ArrayState::AfterSingleQuotedString || state == ArrayState::End
}

pub open spec fn array_items(items: Seq<ItemValueView>) -> bool {
    forall|i: int| 0 <= i < items.len() ==> printable_array_item(#[trigger] items[i])
}

pub open spec fn sound_array(p: ArrayPView) -> bool {
    &&& array_items(p.items())
    &&& behind_item(p.state) ==> p.buffer is Some && p.items().len() > 0
    &&& p.single_quoted_string_p matches Some(c) ==> sound_single_quoted(c)
    &&& p.literal_value_p matches Some(c) ==> sound_literal(c)
}

pub proof fn lemma_array_push(items: Seq<ItemValueView>, item: ItemValueView)
    requires
        array_items(items),
        printable_array_item(item),
    ensures
        array_items(items.push(item)),
{
    assert forall|i: int| 0 <= i < items.push(item).len() implies printable_array_item(
        #[trigger] items.push(item)[i],
    ) by {
        if i < items.len() {
            assert(items.push(item)[i] == items[i]);
        }
    }
}

pub proof fn lemma_array_sound(p: ArrayPView, w: LookAheadTokensView)
    requires
        sound_array(p),
        lexical(w.current),
    ensures
        sound_array(p.step(w).0),
        p.step(w).1 is End ==> p.step(w).0.buffer is Some && p.step(w).0.items().len() > 0,
{
    match p.state {
        ArrayState::AfterLeftSquareBracket => {
            let t = w.current.type_;
            if t == TokenType::SingleQuotation {
                lemma_single_quoted_sound(SingleQuotedStringPView::new(), w);
            } else if t != TokenType::WhiteSpaceString && t != TokenType::DoubleQuotation
                && crate::token::spec_is_literal_token(t) {
                let c = LiteralValuePView::new();
                lemma_literal_sound(c, w);
                if c.step(w).1 is End {
                    lemma_array_push(
                        p.items(),
                        ItemValueView::LiteralString(c.step(w).0.buffer->0),
                    );
                }
            }
        },
        ArrayState::DoubleQuotedString => {
            if let Some(c) = p.double_quoted_string_p {
                if c.step(w).1 is End && c.step(w).0.buffer is Some {
                    lemma_array_push(
                        p.items(),
                        ItemValueView::DoubleQuotedString(c.step(w).0.buffer->0),
                    );
                }
            }
        },
        ArrayState::SingleQuotedString => {
            if let Some(c) = p.single_quoted_string_p {
                lemma_single_quoted_sound(c, w);
                if c.step(w).1 is End && c.step(w).0.buffer is Some {
                    lemma_array_push(
                        p.items(),
                        ItemValueView::SingleQuotedString(c.step(w).0.buffer->0),
                    );
                }
            }
        },
        ArrayState::LiteralString => {
            if let Some(c) = p.literal_value_p {
                lemma_literal_sound(c, w);
                if c.step(w).1 is End {
                    lemma_array_push(
                        p.items(),
                        ItemValueView::LiteralString(c.step(w).0.buffer->0),
                    );
                }
            }
        },
        _ => {},
    }
}

pub open spec fn sound_key_value(p: KeyValuePView) -> bool
    decreases p,
{
    &&& printable_key(p.key, p.dot_allowed)
    &&& p.buffer matches Some(m) ==> printable_key(m.key, p.dot_allowed)
        && printable_right_value(m.value)
    &&& p.array_p matches Some(c) ==> sound_array(c)
    &&& p.single_quoted_string_p matches Some(c) ==> sound_single_quoted(c)
    &&& p.literal_value_p matches Some(c) ==> sound_literal(c)
    &&& p.inline_table_p matches Some(c) ==> sound_inline_table(*c)
}

pub open spec fn sound_inline_table(p: InlineTablePView) -> bool
    decreases p,
{
    &&& printable_table_items(p.items())
    &&& p.state == crate::parser::inline_table::State::AfterKeyValue ==> p.buffer is Some
        && p.items().len() > 0
    &&& p.key_value_p matches Some(c) ==> sound_key_value(*c) && !c.dot_allowed
}

/// A key of tokens that can stand in one, behind a key of that kind, is
/// a key.
pub proof fn lemma_key_append(key: Seq<char>, dot_allowed: bool, t: TokenView)
    requires
        printable_key(key, dot_allowed),
        lexical(t),
        crate::token::spec_is_key_token(t.type_) || (t.type_ == TokenType::Dot && dot_allowed),
    ensures
        printable_key(key + t.value, dot_allowed),
{
    let k = key + t.value;
    assert(k[0] == key[0]);
    assert forall|i: int| 0 <= i < k.len() implies is_key_char(#[trigger] k[i]) || (dot_allowed
        && k[i] == '.') by {
        if i < key.len() {
            assert(k[i] == key[i]);
        } else {
            assert(k[i] == t.value[i - key.len()]);
            assert(kind_of(t.value[i - key.len()]) == t.type_);
        }
    }
}

/// The first token of a key is a key.
pub proof fn lemma_key_start(t: TokenView, dot_allowed: bool)
    requires
        lexical(t),
        crate::token::spec_is_key_token(t.type_),
    ensures
        printable_key(t.value, dot_allowed),
{
    assert forall|i: int| 0 <= i < t.value.len() implies is_key_char(#[trigger] t.value[i]) by {
        assert(kind_of(t.value[i]) == t.type_);
    }
}

pub proof fn lemma_table_push(items: Seq<ItemValueView>, item: ItemValueView)
    requires
        printable_table_items(items),
        item matches ItemValueView::KeyValue(m) && printable_key(m.key, false)
            && printable_right_value(m.value),
    ensures
        printable_table_items(items.push(item)),
{
    assert forall|i: int| 0 <= i < items.push(item).len() implies match #[trigger] items.push(
        item,
    )[i] {
        ItemValueView::KeyValue(m) => printable_key(m.key, false) && printable_right_value(
            m.value,
        ),
        _ => false,
    } by {
        if i < items.len() {
            assert(items.push(item)[i] == items[i]);
        }
    }
}

pub proof fn lemma_key_value_sound(p: KeyValuePView, w: LookAheadTokensView)
    requires
        sound_key_value(p),
        lexical(w.current),
    ensures
        sound_key_value(p.step(w).0),
        p.step(w).0.dot_allowed == p.dot_allowed,
    decreases p, 0int,
{
    match p.state {
        crate::parser::key_value_p::State::Key => {
            let t = w.current.type_;
            if crate::token::spec_is_key_token(t) || (t == TokenType::Dot && p.dot_allowed) {
                lemma_key_append(p.key, p.dot_allowed, w.current);
            }
        },
        crate::parser::key_value_p::State::AfterEquals => {
            let t = w.current.type_;
            if t == TokenType::SingleQuotation {
                lemma_single_quoted_sound(SingleQuotedStringPView::new(), w);
            } else if t == TokenType::LeftCurlyBracket {
                assert(sound_inline_table(InlineTablePView::new()));
            } else if t != TokenType::WhiteSpaceString && t != TokenType::DoubleQuotation && t
                != TokenType::LeftSquareBracket && crate::token::spec_is_literal_token(t) {
                lemma_literal_sound(LiteralValuePView::new(), w);
            }
        },
        crate::parser::key_value_p::State::Array => {
            if let Some(c) = p.array_p {
                lemma_array_sound(c, w);
            }
        },
        crate::parser::key_value_p::State::SingleQuotedString => {
            if let Some(c) = p.single_quoted_string_p {
                lemma_single_quoted_sound(c, w);
            }
        },
        crate::parser::key_value_p::State::LiteralValue => {
            if let Some(c) = p.literal_value_p {
                lemma_literal_sound(c, w);
            }
        },
        crate::parser::key_value_p::State::InlineTable => {
            if let Some(c) = p.inline_table_p {
                lemma_inline_table_sound(*c, w);
            }
        },
        _ => {},
    }
}

pub proof fn lemma_inline_table_sound(p: InlineTablePView, w: LookAheadTokensView)
    requires
        sound_inline_table(p),
        lexical(w.current),
    ensures
        sound_inline_table(p.step(w).0),
        p.step(w).1 is End ==> p.step(w).0.buffer is Some && p.step(w).0.items().len() > 0,
    decreases p, 0int,
{
    match p.state {
        crate::parser::inline_table::State::AfterLeftCurlyBracket => {
            if w.current.type_ != TokenType::WhiteSpaceString && crate::token::spec_is_key_token(
                w.current.type_,
            ) {
                lemma_key_start(w.current, false);
                assert(sound_key_value(KeyValuePView::new(w.current, false)));
            }
        },
        crate::parser::inline_table::State::KeyValue => {
            if let Some(c) = p.key_value_p {
                lemma_key_value_sound(*c, w);
                let (c1, r) = c.step(w);
                if r is End && c1.buffer is Some {
                    lemma_table_push(p.items(), ItemValueView::KeyValue(c1.buffer->0));
                }
            }
        },
        _ => {},
    }
}

pub open spec fn sound_comment(p: CommentPView) -> bool {
    clean(p.text())
}

pub proof fn lemma_comment_sound(p: CommentPView, w: LookAheadTokensView)
    requires
        sound_comment(p),
        lexical(w.current),
    ensures
        sound_comment(p.step(w).0),
{
    let q1 = p.step(w).0;
    assert forall|i: int| 0 <= i < q1.text().len() implies #[trigger] q1.text()[i] != '\n' by {
        if i < p.text().len() {
            assert(q1.text()[i] == p.text()[i]);
        } else {
            assert(q1.text()[i] == w.current.value[i - p.text().len()]);
        }
    }
}

/// The name of a header, as far as it is read: no line feed, no double
/// quote, and `[` first only where `bracket_first` allows it.
pub open spec fn header_text(s: Seq<char>, bracket_first: bool) -> bool {
    clean(s) && unquoted(s) && (s.len() > 0 && !bracket_first ==> s[0] != '[')
}

/// The name of a header with a token behind it that is no double quote
/// nor the end of the line, and no `[` where the name is empty and may
/// not begin with one.
pub proof fn lemma_header_append(s: Seq<char>, bracket_first: bool, t: TokenView)
    requires
        header_text(s, bracket_first),
        lexical(t),
        t.type_ != TokenType::DoubleQuotation,
        t.type_ != TokenType::EndOfLine,
        s.len() == 0 && !bracket_first ==> t.type_ != TokenType::LeftSquareBracket,
    ensures
        header_text(s + t.value, bracket_first),
{
    let k = s + t.value;
    assert forall|i: int| 0 <= i < k.len() implies #[trigger] k[i] != '\n' && k[i] != '"' by {
        if i < s.len() {
            assert(k[i] == s[i]);
        } else {
            assert(k[i] == t.value[i - s.len()]);
            assert(kind_of(t.value[i - s.len()]) == t.type_);
        }
    }
    if s.len() > 0 {
        assert(k[0] == s[0]);
    } else {
        assert(k[0] == t.value[0]);
        assert(kind_of(t.value[0]) == t.type_);
    }
}

/// What holds of the line parser before it takes the token `next`, if
/// there is one.
pub open spec fn sound_expression(p: ExpressionPView, next: Option<TokenView>) -> bool {
    &&& p.buffer matches Some(e) ==> parsed(e)
    &&& p.comment_p matches Some(c) ==> sound_comment(c)
    &&& p.key_value_p matches Some(c) ==> sound_key_value(c) && c.dot_allowed
    &&& p.header_p_of_array_of_table matches Some(c) ==> header_text(c.text(), true)
    &&& p.header_p_of_table matches Some(c) ==> (p.state
        == crate::parser::expression_p::State::HeaderOfTable ==> header_text(c.text(), false)
        && (c.text().len() == 0 ==> (next matches Some(t) ==> t.type_
        != TokenType::LeftSquareBracket)))
}

pub proof fn lemma_expression_sound(p: ExpressionPView, w: LookAheadTokensView)
    requires
        sound_expression(p, Some(w.current)),
        lexical_window(w),
    ensures
        sound_expression(p.step(w).0, w.one_ahead),
{
    match p.state {
        crate::parser::expression_p::State::First => {
            if w.current.type_ != TokenType::WhiteSpaceString && crate::token::spec_is_key_token(
                w.current.type_,
            ) {
                lemma_key_start(w.current, true);
                assert(sound_key_value(KeyValuePView::new(w.current, true)));
            }
        },
        crate::parser::expression_p::State::Comment => {
            if let Some(c) = p.comment_p {
                lemma_comment_sound(c, w);
            }
        },
        crate::parser::expression_p::State::KeyValue => {
            if let Some(c) = p.key_value_p {
                lemma_key_value_sound(c, w);
            }
        },
        crate::parser::expression_p::State::HeaderOfTable => {
            if let Some(c) = p.header_p_of_table {
                if w.current.type_ != TokenType::EndOfLine && w.current.type_
                    != TokenType::DoubleQuotation {
                    lemma_header_append(c.text(), false, w.current);
                }
            }
        },
        crate::parser::expression_p::State::HeaderOfArrayOfTable => {
            if let Some(c) = p.header_p_of_array_of_table {
                if w.current.type_ != TokenType::EndOfLine && w.current.type_
                    != TokenType::DoubleQuotation {
                    lemma_header_append(c.text(), true, w.current);
                }
            }
        },
        _ => {},
    }
}

/// Whatever the line parser reads of a line without a line feed can be
/// written so that it reads back.
pub proof fn lemma_run_sound(p: ExpressionPView, line: Seq<char>, pos: int)
    requires
        clean(line),
        0 <= pos <= line.len(),
        sound_expression(p, Some(token_at(line, pos))),
    ensures
        run_pos(p, line, pos).0.buffer matches Some(e) ==> parsed(e),
    decreases line.len() - pos,
{
    let w = window_pos(line, pos);
    lemma_window_lexical(line, pos);
    lemma_expression_sound(p, w);
    if pos < line.len() && p.step(w).1 is Ongoing {
        lemma_token_end_bounds(line, pos);
        lemma_run_sound(p.step(w).0, line, token_end(line, pos));
    }
}

} // verus!
