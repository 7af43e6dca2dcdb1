//! Which documents are text that reads back as themselves.

use vstd::prelude::*;
use crate::model::ExpressionView;
use crate::model::ItemValueView;
use crate::model::RightValueView;
use crate::token::spec_character_type;
use crate::token::spec_is_key_token;
use crate::token::spec_is_literal_token;
use crate::token::spec_token_type_of;

verus! {

/// Whether `c` can stand in an unquoted scalar: a character of a kind
/// that can, and no carriage return.
pub open spec fn is_literal_char(c: char) -> bool {
    spec_is_literal_token(spec_token_type_of(spec_character_type(c))) && c != '\r'
}

/// Whether `c` can stand in a bare key: a letter, a digit, `_` or `-`.
pub open spec fn is_key_char(c: char) -> bool {
    spec_is_key_token(spec_token_type_of(spec_character_type(c)))
}

/// Text without a line feed.
pub open spec fn clean(text: Seq<char>) -> bool {
    forall|i: int| 0 <= i < text.len() ==> #[trigger] text[i] != '\n'
}

/// An unquoted scalar: at least one character, each one that can stand
/// in one, none a line feed.
pub open spec fn printable_literal(s: Seq<char>) -> bool {
    s.len() > 0 && forall|i: int|
        0 <= i < s.len() ==> is_literal_char(#[trigger] s[i]) && s[i] != '\n'
}

/// A bare key: at least one character, each one that can stand in one, or
/// `.` where dots are allowed and not as the first.
pub open spec fn printable_key(s: Seq<char>, dot_allowed: bool) -> bool {
    &&& s.len() > 0
    &&& is_key_char(s[0])
    &&& forall|i: int|
        0 <= i < s.len() ==> is_key_char(#[trigger] s[i]) || (dot_allowed && s[i] == '.')
}

/// The content of a single-quoted string: no single quote, no line feed.
pub open spec fn printable_single_quoted(s: Seq<char>) -> bool {
    forall|i: int| 0 <= i < s.len() ==> #[trigger] s[i] != '\'' && s[i] != '\n'
}

/// An item of an array: a string or an unquoted scalar.
pub open spec fn printable_array_item(item: ItemValueView) -> bool {
    match item {
        ItemValueView::DoubleQuotedString(_) => true,
        ItemValueView::LiteralString(s) => printable_literal(s),
        ItemValueView::SingleQuotedString(s) => printable_single_quoted(s),
        _ => false,
    }
}

/// The items of an inline table: key values with dot-free keys and
/// printable values.
pub open spec fn printable_table_items(items: Seq<ItemValueView>) -> bool
    decreases items, 0int,
{
    forall|i: int|
        0 <= i < items.len() ==> match #[trigger] items[i] {
            ItemValueView::KeyValue(m) => printable_key(m.key, false) && printable_right_value(
                m.value,
            ),
            _ => false,
        }
}

/// A value: a string, an unquoted scalar, an array of at least one item,
/// or an inline table of at least one item.
pub open spec fn printable_right_value(value: RightValueView) -> bool
    decreases value, 1int,
{
    match value {
        RightValueView::Array(items) => items.len() > 0 && forall|i: int|
            0 <= i < items.len() ==> printable_array_item(#[trigger] items[i]),
        RightValueView::DoubleQuotedString(_) => true,
        RightValueView::InlineTable(items) => items.len() > 0 && printable_table_items(items),
        RightValueView::LiteralString(s) => printable_literal(s),
        RightValueView::SingleQuotedString(s) => printable_single_quoted(s),
    }
}

/// A line: a comment without a line feed, a key value or an empty line.
pub open spec fn printable_expression(e: ExpressionView) -> bool {
    match e {
        ExpressionView::Comment(s) => clean(s),
        ExpressionView::EmptyLine => true,
        ExpressionView::KeyValue(m) => printable_key(m.key, true) && printable_right_value(
            m.value,
        ),
        _ => false,
    }
}

/// A document of comments, key values and empty lines.
pub open spec fn printable_document(elements: Seq<ExpressionView>) -> bool {
    forall|i: int| 0 <= i < elements.len() ==> printable_expression(#[trigger] elements[i])
}

} // verus!
