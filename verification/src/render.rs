//! Writing the model back as text.

use vstd::prelude::*;
use crate::model::Array;
use crate::model::Comment;
use crate::model::DateTime;
use crate::model::DoubleQuotedString;
use crate::model::Element;
use crate::model::Expression;
use crate::model::ExpressionView;
use crate::model::HeaderOfArrayOfTable;
use crate::model::HeaderOfTable;
use crate::model::InlineTable;
use crate::model::ItemValue;
use crate::model::ItemValueView;
use crate::model::KeyValue;
use crate::model::KeyValueView;
use crate::model::LiteralString;
use crate::model::RightValue;
use crate::model::RightValueView;
use crate::model::SingleQuotedString;
use crate::model::items_view;
use crate::model::lemma_items_view;
use crate::text::chars_of;

verus! {

/// How one character of a double-quoted string is written.
pub open spec fn escape_char(c: char) -> Seq<char> {
    if c == '"' {
        seq!['\\', '"']
    } else if c == '\\' {
        seq!['\\', '\\']
    } else if c == '\n' {
        seq!['\\', 'n']
    } else if c == '\r' {
        seq!['\\', 'r']
    } else if c == '\t' {
        seq!['\\', 't']
    } else {
        seq![c]
    }
}

/// How the content of a double-quoted string is written.
pub open spec fn escape(s: Seq<char>) -> Seq<char>
    decreases s.len(),
{
    if s.len() == 0 {
        Seq::empty()
    } else {
        escape(s.drop_last()) + escape_char(s.last())
    }
}

/// How a double-quoted string with content `s` is written.
pub open spec fn render_double_quoted(s: Seq<char>) -> Seq<char> {
    seq!['"'] + escape(s) + seq!['"']
}

/// How a single-quoted string with content `s` is written.
pub open spec fn render_single_quoted(s: Seq<char>) -> Seq<char> {
    seq!['\''] + s + seq!['\'']
}

/// The items, each behind the one before it and `, `.
pub open spec fn render_items(items: Seq<ItemValueView>) -> Seq<char>
    decreases items, 0int,
{
    if items.len() == 0 {
        Seq::empty()
    } else if items.len() == 1 {
        render_item(items.last())
    } else {
        render_items(items.drop_last()) + seq![',', ' '] + render_item(items.last())
    }
}

/// How an array is written: its items between `[ ` and ` ]`.
pub open spec fn render_array(items: Seq<ItemValueView>) -> Seq<char>
    decreases items, 1int,
{
    seq!['[', ' '] + render_items(items) + seq![' ', ']']
}

/// How an inline table is written: its items between `{ ` and ` }`.
pub open spec fn render_inline_table(items: Seq<ItemValueView>) -> Seq<char>
    decreases items, 1int,
{
    seq!['{', ' '] + render_items(items) + seq![' ', '}']
}

/// How an item of an array or of an inline table is written.
pub open spec fn render_item(item: ItemValueView) -> Seq<char>
    decreases item, 2int,
{
    match item {
        ItemValueView::Array(items) => render_array(items),
        ItemValueView::DoubleQuotedString(s) => render_double_quoted(s),
        ItemValueView::InlineTable(items) => render_inline_table(items),
        ItemValueView::KeyValue(m) => render_key_value(m),
        ItemValueView::LiteralString(s) => s,
        ItemValueView::SingleQuotedString(s) => render_single_quoted(s),
    }
}

/// How a value is written.
pub open spec fn render_right_value(value: RightValueView) -> Seq<char>
    decreases value, 2int,
{
    match value {
        RightValueView::Array(items) => render_array(items),
        RightValueView::DoubleQuotedString(s) => render_double_quoted(s),
        RightValueView::InlineTable(items) => render_inline_table(items),
        RightValueView::LiteralString(s) => s,
        RightValueView::SingleQuotedString(s) => render_single_quoted(s),
    }
}

/// How a key value is written: the key, ` = `, the value.
pub open spec fn render_key_value(m: KeyValueView) -> Seq<char>
    decreases m, 3int,
{
    m.key + seq![' ', '=', ' '] + render_right_value(m.value)
}

/// The text of the line that holds `e`, without its line ending.
pub open spec fn render_expression(e: ExpressionView) -> Seq<char> {
    match e {
        ExpressionView::Comment(s) => seq!['#'] + s,
        ExpressionView::EmptyLine => Seq::empty(),
        ExpressionView::HeaderOfArrayOfTable(s) => seq!['[', '['] + s,
        ExpressionView::HeaderOfTable(s) => seq!['['] + s,
        ExpressionView::KeyValue(m) => render_key_value(m),
    }
}

/// The text of a document: each line, closed by a line feed.
pub open spec fn render_document(elements: Seq<ExpressionView>) -> Seq<char>
    decreases elements.len(),
{
    if elements.len() == 0 {
        Seq::empty()
    } else {
        render_document(elements.drop_last()) + render_expression(elements.last()) + seq!['\n']
    }
}

/// The name of the variant of `e`.
pub open spec fn expression_tag(e: ExpressionView) -> Seq<char> {
    match e {
        ExpressionView::Comment(_) => "Comment"@,
        ExpressionView::EmptyLine => "EmptyLine"@,
        ExpressionView::HeaderOfArrayOfTable(_) => "HeaderOfArrayOfTable"@,
        ExpressionView::HeaderOfTable(_) => "HeaderOfTable"@,
        ExpressionView::KeyValue(_) => "KeyValue"@,
    }
}

/// `tag`, and `text` in round brackets.
pub open spec fn tagged(tag: Seq<char>, text: Seq<char>) -> Seq<char> {
    tag + seq!['('] + text + seq![')']
}

/// The structural rendering of `e`: the variant's name, and the line in
/// round brackets.
pub open spec fn debug_expression(e: ExpressionView) -> Seq<char> {
    tagged(expression_tag(e), render_expression(e))
}

/// The structural rendering of a document: one line for each element.
pub open spec fn debug_document(elements: Seq<ExpressionView>) -> Seq<char>
    decreases elements.len(),
{
    if elements.len() == 0 {
        Seq::empty()
    } else {
        debug_document(elements.drop_last()) + debug_expression(elements.last()) + seq!['\n']
    }
}

/// Writes `text` behind `tag`, in round brackets.
pub fn tag_text(tag: &str, text: &str) -> (r: String)
    ensures
        r@ == tagged(tag@, text@),
{
    let mut r = String::from_str(tag);
    r.push('(');
    r.append(text);
    r.push(')');
    r
}

/// Writes the content of a double-quoted string behind `r`.
fn push_escaped(r: &mut String, s: &str)
    ensures
        final(r)@ == old(r)@ + escape(s@),
{
    let v = chars_of(s);
    let mut i: usize = 0;
    assert(r@ =~= old(r)@ + escape(v@.take(0)));
    while i < v.len()
        invariant
            i <= v.len(),
            v@ == s@,
            r@ == old(r)@ + escape(v@.take(i as int)),
        decreases v.len() - i,
    {
        let c = v[i];
        let ghost before = r@;
        proof {
            assert(v@.take(i + 1).drop_last() =~= v@.take(i as int));
        }
        if c == '"' {
            r.push('\\');
            r.push('"');
        } else if c == '\\' {
            r.push('\\');
            r.push('\\');
        } else if c == '\n' {
            r.push('\\');
            r.push('n');
        } else if c == '\r' {
            r.push('\\');
            r.push('r');
        } else if c == '\t' {
            r.push('\\');
            r.push('t');
        } else {
            r.push(c);
        }
        assert(r@ =~= before + escape_char(c));
        assert(r@ =~= old(r)@ + escape(v@.take(i + 1)));
        i += 1;
    }
    assert(v@.take(v.len() as int) =~= v@);
}

impl DoubleQuotedString {
    /// The string as it is written in a document.
    pub fn to_string(&self) -> (r: String)
        ensures
            r@ == render_double_quoted(self@),
    {
        let mut r = String::new();
        r.push('"');
        push_escaped(&mut r, self.value.as_str());
        r.push('"');
        assert(r@ =~= render_double_quoted(self@));
        r
    }

    /// The structural rendering: the name of the type, and the value as
    /// it is written in round brackets.
    pub fn to_debug_string(&self) -> (r: String)
        ensures
            r@ == tagged("DoubleQuotedString"@, render_double_quoted(self@)),
    {
        tag_text("DoubleQuotedString", self.to_string().as_str())
    }
}

impl SingleQuotedString {
    /// The string as it is written in a document.
    pub fn to_string(&self) -> (r: String)
        ensures
            r@ == render_single_quoted(self@),
    {
        let mut r = String::new();
        r.push('\'');
        r.append(self.value.as_str());
        r.push('\'');
        assert(r@ =~= render_single_quoted(self@));
        r
    }

    /// The structural rendering: the name of the type, and the value as
    /// it is written in round brackets.
    pub fn to_debug_string(&self) -> (r: String)
        ensures
            r@ == tagged("SingleQuotedString"@, render_single_quoted(self@)),
    {
        tag_text("SingleQuotedString", self.to_string().as_str())
    }
}

impl DateTime {
    /// The structural rendering: the name of the type, and the value as
    /// it is written in round brackets.
    pub fn to_debug_string(&self) -> (r: String)
        ensures
            r@ == tagged("DateTime"@, self@),
    {
        tag_text("DateTime", self.value.as_str())
    }

    /// The value as it is written in a document.
    pub fn to_string(&self) -> (r: String)
        ensures
            r@ == self@,
    {
        self.value.clone()
    }
}

impl LiteralString {
    /// The structural rendering: the name of the type, and the value as
    /// it is written in round brackets.
    pub fn to_debug_string(&self) -> (r: String)
        ensures
            r@ == tagged("LiteralString"@, self@),
    {
        tag_text("LiteralString", self.value.as_str())
    }

    /// The value as it is written in a document.
    pub fn to_string(&self) -> (r: String)
        ensures
            r@ == self@,
    {
        self.value.clone()
    }
}

/// Writes `items`, each behind the one before it and `, `.
pub fn items_to_string(items: &Vec<ItemValue>) -> (r: String)
    ensures
        r@ == render_items(items_view(items@)),
    decreases items, 0int,
{
    let mut r = String::new();
    let mut i: usize = 0;
    let ghost views = items_view(items@);
    proof {
        lemma_items_view(items@);
    }
    while i < items.len()
        invariant
            i <= items.len(),
            views == items_view(items@),
            views.len() == items.len(),
            forall|j: int| 0 <= j < items.len() ==> #[trigger] views[j] == items@[j]@,
            r@ == render_items(views.take(i as int)),
        decreases items.len() - i,
    {
        let ghost before = r@;
        if i > 0 {
            r.push(',');
            r.push(' ');
        }
        let s = item_to_string(&items[i]);
        r.append(s.as_str());
        proof {
            assert(views.take(i + 1).drop_last() =~= views.take(i as int));
            assert(views.take(i + 1).last() == items@[i as int]@);
            if i > 0 {
                assert(r@ =~= before + seq![',', ' '] + s@);
            } else {
                assert(r@ =~= s@);
            }
        }
        i += 1;
    }
    assert(views.take(items.len() as int) =~= views);
    r
}

/// Writes `item` as it stands in a document.
pub fn item_to_string(item: &ItemValue) -> (r: String)
    ensures
        r@ == render_item(item@),
    decreases item, 2int,
{
    match item {
        ItemValue::Array(m) => bracketed('[', items_to_string(&m.items).as_str(), ']'),
        ItemValue::DoubleQuotedString(m) => m.to_string(),
        ItemValue::InlineTable(m) => bracketed('{', items_to_string(&m.items).as_str(), '}'),
        ItemValue::KeyValue(m) => key_value_to_string(m),
        ItemValue::LiteralString(m) => m.to_string(),
        ItemValue::SingleQuotedString(m) => m.to_string(),
    }
}

/// Writes `value` as it stands in a document.
pub fn right_value_to_string(value: &RightValue) -> (r: String)
    ensures
        r@ == render_right_value(value@),
    decreases value, 2int,
{
    match value {
        RightValue::Array(m) => bracketed('[', items_to_string(&m.items).as_str(), ']'),
        RightValue::DoubleQuotedString(m) => m.to_string(),
        RightValue::InlineTable(m) => bracketed('{', items_to_string(&m.items).as_str(), '}'),
        RightValue::LiteralString(m) => m.to_string(),
        RightValue::SingleQuotedString(m) => m.to_string(),
    }
}

/// Writes `m` as it stands in a document.
pub fn key_value_to_string(m: &KeyValue) -> (r: String)
    ensures
        r@ == render_key_value(m@),
    decreases m, 3int,
{
    let mut r = m.key.clone();
    r.push(' ');
    r.push('=');
    r.push(' ');
    let s = right_value_to_string(&m.value);
    r.append(s.as_str());
    assert(r@ =~= render_key_value(m@));
    r
}

/// `open`, a space, `inner`, a space, `close`.
fn bracketed(open: char, inner: &str, close: char) -> (r: String)
    ensures
        r@ == seq![open, ' '] + inner@ + seq![' ', close],
{
    let mut r = String::new();
    r.push(open);
    r.push(' ');
    r.append(inner);
    r.push(' ');
    r.push(close);
    assert(r@ =~= seq![open, ' '] + inner@ + seq![' ', close]);
    r
}

impl Array {
    /// The value as it is written in a document.
    pub fn to_string(&self) -> (r: String)
        ensures
            r@ == render_array(self@),
    {
        bracketed('[', items_to_string(&self.items).as_str(), ']')
    }
}

impl InlineTable {
    /// The value as it is written in a document.
    pub fn to_string(&self) -> (r: String)
        ensures
            r@ == render_inline_table(self@),
    {
        bracketed('{', items_to_string(&self.items).as_str(), '}')
    }
}

impl KeyValue {
    /// The value as it is written in a document.
    pub fn to_string(&self) -> (r: String)
        ensures
            r@ == render_key_value(self@),
    {
        key_value_to_string(self)
    }
}

impl RightValue {
    /// The value as it is written in a document.
    pub fn to_string(&self) -> (r: String)
        ensures
            r@ == render_right_value(self@),
    {
        right_value_to_string(self)
    }
}

impl ItemValue {
    /// The value as it is written in a document.
    pub fn to_string(&self) -> (r: String)
        ensures
            r@ == render_item(self@),
    {
        item_to_string(self)
    }
}

impl Element {
    /// The text of the line, without its line ending.
    pub fn to_string(&self) -> (r: String)
        ensures
            r@ == render_expression(self@),
    {
        self.to_expression().to_string()
    }
}

impl Expression {
    /// The text of the line, without its line ending.
    pub fn to_string(&self) -> (r: String)
        ensures
            r@ == render_expression(self@),
    {
        match self {
            Expression::Comment(m) => {
                let mut r = String::new();
                r.push('#');
                r.append(m.value.as_str());
                assert(r@ =~= seq!['#'] + m@);
                r
            },
            Expression::EmptyLine => String::new(),
            Expression::HeaderOfArrayOfTable(m) => {
                let mut r = String::new();
                r.push('[');
                r.push('[');
                r.append(m.value.as_str());
                assert(r@ =~= seq!['[', '['] + m@);
                r
            },
            Expression::HeaderOfTable(m) => {
                let mut r = String::new();
                r.push('[');
                r.append(m.value.as_str());
                assert(r@ =~= seq!['['] + m@);
                r
            },
            Expression::KeyValue(m) => key_value_to_string(m),
        }
    }

    /// The variant's name, and the line in round brackets.
    pub fn to_debug_string(&self) -> (r: String)
        ensures
            r@ == debug_expression(self@),
    {
        let text = self.to_string();
        match self {
            Expression::Comment(_) => tag_text("Comment", text.as_str()),
            Expression::EmptyLine => tag_text("EmptyLine", text.as_str()),
            Expression::HeaderOfArrayOfTable(_) => tag_text("HeaderOfArrayOfTable", text.as_str()),
            Expression::HeaderOfTable(_) => tag_text("HeaderOfTable", text.as_str()),
            Expression::KeyValue(_) => tag_text("KeyValue", text.as_str()),
        }
    }
}

} // verus!
