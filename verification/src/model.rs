//! The document model: what the syntax parsers build, and how it is written
//! back as text.

use vstd::prelude::*;
use crate::token::Token;
use crate::token::tokens_text;
use crate::token::tokens_view;

verus! {

/// A comment: the text behind `#`, up to the end of the line.
#[derive(Debug)]
pub struct Comment {
    pub value: String,
}

/// A string written between double quotes, escape sequences decoded.
#[derive(Debug)]
pub struct DoubleQuotedString {
    pub value: String,
}

/// A string written between single quotes, taken as it stands.
#[derive(Debug)]
pub struct SingleQuotedString {
    pub value: String,
}

/// An unquoted scalar: a number, a boolean, a date or a time, before it is
/// converted.
#[derive(Debug)]
pub struct LiteralString {
    pub value: String,
}

/// An unquoted date or time, before it is converted.
#[derive(Debug)]
pub struct DateTime {
    pub value: String,
}

/// It has multiple item values.
#[derive(Debug)]
pub struct Array {
    pub items: Vec<ItemValue>,
}

/// It has multiple item values.
#[derive(Debug)]
pub struct InlineTable {
    pub items: Vec<ItemValue>,
}

/// It has a key and a value.
#[derive(Debug)]
pub struct KeyValue {
    pub key: String,
    pub value: Box<RightValue>,
}

/// The right side of the key value model.
#[derive(Debug)]
pub enum RightValue {
    Array(Array),
    DoubleQuotedString(DoubleQuotedString),
    InlineTable(InlineTable),
    LiteralString(LiteralString),
    SingleQuotedString(SingleQuotedString),
}

/// Array, inline table item.
#[derive(Debug)]
pub enum ItemValue {
    Array(Array),
    DoubleQuotedString(DoubleQuotedString),
    InlineTable(InlineTable),
    KeyValue(KeyValue),
    LiteralString(LiteralString),
    SingleQuotedString(SingleQuotedString),
}

/// What stands in a table header behind the opening bracket, up to a
/// double quote or the end of the line: the name, and the closing bracket
/// where the line has one.
#[derive(Debug)]
pub struct HeaderOfTable {
    pub value: String,
}

/// What stands in the header of an array of tables behind the opening
/// brackets, up to a double quote or the end of the line: the name, and
/// the closing brackets where the line has them.
#[derive(Debug)]
pub struct HeaderOfArrayOfTable {
    pub value: String,
}

/// What one source line holds.
#[derive(Debug)]
pub enum Expression {
    Comment(Comment),
    EmptyLine,
    HeaderOfArrayOfTable(HeaderOfArrayOfTable),
    HeaderOfTable(HeaderOfTable),
    KeyValue(KeyValue),
}

/// Either a comment or a key value.
#[derive(Debug)]
pub enum Element {
    Comment(Comment),
    KeyValue(KeyValue),
}

/// It has multiple elements: comments and key values, in order.
#[derive(Debug)]
pub struct Document {
    pub elements: Vec<Element>,
}

/// The mathematical content of an [`ItemValue`].
pub enum ItemValueView {
    Array(Seq<ItemValueView>),
    DoubleQuotedString(Seq<char>),
    InlineTable(Seq<ItemValueView>),
    KeyValue(KeyValueView),
    LiteralString(Seq<char>),
    SingleQuotedString(Seq<char>),
}

/// The mathematical content of a [`RightValue`].
pub enum RightValueView {
    Array(Seq<ItemValueView>),
    DoubleQuotedString(Seq<char>),
    InlineTable(Seq<ItemValueView>),
    LiteralString(Seq<char>),
    SingleQuotedString(Seq<char>),
}

/// The mathematical content of a [`KeyValue`].
pub struct KeyValueView {
    pub key: Seq<char>,
    pub value: RightValueView,
}

/// The mathematical content of an [`Expression`].
pub enum ExpressionView {
    Comment(Seq<char>),
    EmptyLine,
    HeaderOfArrayOfTable(Seq<char>),
    HeaderOfTable(Seq<char>),
    KeyValue(KeyValueView),
}

/// The mathematical content of `items`, item by item.
pub open spec fn items_view(items: Seq<ItemValue>) -> Seq<ItemValueView>
    decreases items, 0int,
{
    if items.len() == 0 {
        Seq::empty()
    } else {
        items_view(items.drop_last()).push(item_value_view(items.last()))
    }
}

/// The mathematical content of `item`.
pub open spec fn item_value_view(item: ItemValue) -> ItemValueView
    decreases item, 1int,
{
    match item {
        ItemValue::Array(m) => ItemValueView::Array(items_view(m.items@)),
        ItemValue::DoubleQuotedString(m) => ItemValueView::DoubleQuotedString(m.value@),
        ItemValue::InlineTable(m) => ItemValueView::InlineTable(items_view(m.items@)),
        ItemValue::KeyValue(m) => ItemValueView::KeyValue(key_value_view(m)),
        ItemValue::LiteralString(m) => ItemValueView::LiteralString(m.value@),
        ItemValue::SingleQuotedString(m) => ItemValueView::SingleQuotedString(m.value@),
    }
}

/// The mathematical content of `value`.
pub open spec fn right_value_view(value: RightValue) -> RightValueView
    decreases value, 1int,
{
    match value {
        RightValue::Array(m) => RightValueView::Array(items_view(m.items@)),
        RightValue::DoubleQuotedString(m) => RightValueView::DoubleQuotedString(m.value@),
        RightValue::InlineTable(m) => RightValueView::InlineTable(items_view(m.items@)),
        RightValue::LiteralString(m) => RightValueView::LiteralString(m.value@),
        RightValue::SingleQuotedString(m) => RightValueView::SingleQuotedString(m.value@),
    }
}

/// The mathematical content of `m`.
pub open spec fn key_value_view(m: KeyValue) -> KeyValueView
    decreases m, 2int,
{
    KeyValueView { key: m.key@, value: right_value_view(*m.value) }
}

/// `items_view` goes item by item.
pub proof fn lemma_items_view(items: Seq<ItemValue>)
    ensures
        items_view(items).len() == items.len(),
        forall|i: int| 0 <= i < items.len() ==> #[trigger] items_view(items)[i] == item_value_view(
            items[i],
        ),
    decreases items.len(),
{
    if items.len() > 0 {
        lemma_items_view(items.drop_last());
    }
}

/// The content of items with one more is their content with one more.
pub proof fn lemma_items_view_push(items: Seq<ItemValue>, item: ItemValue)
    ensures
        items_view(items.push(item)) == items_view(items).push(item_value_view(item)),
{
    assert(items.push(item).drop_last() =~= items);
}

impl View for Comment {
    type V = Seq<char>;

    open spec fn view(&self) -> Seq<char> {
        self.value@
    }
}

impl View for DoubleQuotedString {
    type V = Seq<char>;

    open spec fn view(&self) -> Seq<char> {
        self.value@
    }
}

impl View for SingleQuotedString {
    type V = Seq<char>;

    open spec fn view(&self) -> Seq<char> {
        self.value@
    }
}

impl View for LiteralString {
    type V = Seq<char>;

    open spec fn view(&self) -> Seq<char> {
        self.value@
    }
}

impl View for DateTime {
    type V = Seq<char>;

    open spec fn view(&self) -> Seq<char> {
        self.value@
    }
}

impl View for HeaderOfTable {
    type V = Seq<char>;

    open spec fn view(&self) -> Seq<char> {
        self.value@
    }
}

impl View for HeaderOfArrayOfTable {
    type V = Seq<char>;

    open spec fn view(&self) -> Seq<char> {
        self.value@
    }
}

impl View for Array {
    type V = Seq<ItemValueView>;

    open spec fn view(&self) -> Seq<ItemValueView> {
        items_view(self.items@)
    }
}

impl View for InlineTable {
    type V = Seq<ItemValueView>;

    open spec fn view(&self) -> Seq<ItemValueView> {
        items_view(self.items@)
    }
}

impl View for ItemValue {
    type V = ItemValueView;

    open spec fn view(&self) -> ItemValueView {
        item_value_view(*self)
    }
}

impl View for RightValue {
    type V = RightValueView;

    open spec fn view(&self) -> RightValueView {
        right_value_view(*self)
    }
}

impl View for KeyValue {
    type V = KeyValueView;

    open spec fn view(&self) -> KeyValueView {
        key_value_view(*self)
    }
}

impl View for Expression {
    type V = ExpressionView;

    open spec fn view(&self) -> ExpressionView {
        match *self {
            Expression::Comment(m) => ExpressionView::Comment(m@),
            Expression::EmptyLine => ExpressionView::EmptyLine,
            Expression::HeaderOfArrayOfTable(m) => ExpressionView::HeaderOfArrayOfTable(m@),
            Expression::HeaderOfTable(m) => ExpressionView::HeaderOfTable(m@),
            Expression::KeyValue(m) => ExpressionView::KeyValue(m@),
        }
    }
}

impl View for Element {
    type V = ExpressionView;

    open spec fn view(&self) -> ExpressionView {
        match *self {
            Element::Comment(m) => ExpressionView::Comment(m@),
            Element::KeyValue(m) => ExpressionView::KeyValue(m@),
        }
    }
}

impl View for Document {
    type V = Seq<ExpressionView>;

    open spec fn view(&self) -> Seq<ExpressionView> {
        self.elements@.map_values(|e: Element| e@)
    }
}

/// The views of a sequence of expressions.
pub open spec fn expressions_view(elements: Seq<Expression>) -> Seq<ExpressionView> {
    elements.map_values(|e: Expression| e@)
}

impl Default for LiteralString {
    fn default() -> (r: Self)
        ensures
            r@ == Seq::<char>::empty(),
    {
        LiteralString { value: String::new() }
    }
}

impl LiteralString {
    /// The literal that is the text of `token`.
    pub fn new(token: &Token) -> (r: Self)
        ensures
            r@ == token@.value,
    {
        LiteralString { value: token.value.clone() }
    }

    /// Puts the texts of `tokens` behind the literal.
    pub fn extend_tokens(&mut self, tokens: &Vec<Token>)
        ensures
            final(self)@ == old(self)@ + tokens_text(tokens_view(tokens@)),
    {
        let text = crate::token::tokens_stringify(tokens);
        self.value.append(text.as_str());
    }

    /// Puts the text of `token` behind the literal.
    pub fn push_token(&mut self, token: &Token)
        ensures
            final(self)@ == old(self)@ + token@.value,
    {
        self.value.append(token.value.as_str());
    }
}

impl Default for DateTime {
    fn default() -> (r: Self)
        ensures
            r@ == Seq::<char>::empty(),
    {
        DateTime { value: String::new() }
    }
}

impl DateTime {
    /// Puts the texts of `tokens` behind the date or time.
    pub fn extend_tokens(&mut self, tokens: &Vec<Token>)
        ensures
            final(self)@ == old(self)@ + tokens_text(tokens_view(tokens@)),
    {
        let text = crate::token::tokens_stringify(tokens);
        self.value.append(text.as_str());
    }

    /// Puts the text of `token` behind the date or time.
    pub fn push_token(&mut self, token: &Token)
        ensures
            final(self)@ == old(self)@ + token@.value,
    {
        self.value.append(token.value.as_str());
    }
}

impl Default for Document {
    fn default() -> (r: Self)
        ensures
            r@ == Seq::<ExpressionView>::empty(),
    {
        let r = Document { elements: Vec::new() };
        assert(r@ =~= Seq::empty());
        r
    }
}

impl Element {
    /// The line that holds the element.
    pub fn to_expression(&self) -> (r: Expression)
        ensures
            r@ == self@,
    {
        match self {
            Element::Comment(m) => Expression::Comment(m.clone()),
            Element::KeyValue(m) => Expression::KeyValue(clone_key_value(m)),
        }
    }
}

impl Document {
    /// Puts a copy of `m` behind the elements.
    pub fn push_element(&mut self, m: &Element)
        ensures
            final(self)@ == old(self)@.push(m@),
    {
        let e = m.clone();
        assert(self.elements@.push(e).map_values(|e: Element| e@) =~= self.elements@.map_values(
            |e: Element| e@,
        ).push(e@));
        self.elements.push(e);
    }

    /// The lines that hold the elements, in order.
    pub fn to_expressions(&self) -> (r: Vec<Expression>)
        ensures
            expressions_view(r@) == self@,
    {
        let mut r: Vec<Expression> = Vec::new();
        let mut i: usize = 0;
        while i < self.elements.len()
            invariant
                i <= self.elements.len(),
                expressions_view(r@) == self@.take(i as int),
            decreases self.elements.len() - i,
        {
            let e = self.elements[i].to_expression();
            proof {
                assert(expressions_view(r@.push(e)) =~= expressions_view(r@).push(e@));
                assert(self@.take(i + 1) =~= self@.take(i as int).push(self.elements@[i as int]@));
            }
            r.push(e);
            i += 1;
        }
        assert(self@.take(self.elements.len() as int) =~= self@);
        r
    }
}

impl Default for Array {
    fn default() -> (r: Self)
        ensures
            r@ == Seq::<ItemValueView>::empty(),
    {
        Array { items: Vec::new() }
    }
}

impl Array {
    /// Puts a copy of `m` behind the items.
    pub fn push_literal_string(&mut self, m: &LiteralString)
        ensures
            final(self)@ == old(self)@.push(ItemValueView::LiteralString(m@)),
    {
        let item = ItemValue::LiteralString(m.clone());
        proof {
            lemma_items_view_push(self.items@, item);
        }
        self.items.push(item);
    }

    /// Puts a copy of `m` behind the items.
    pub fn push_double_quote_string(&mut self, m: &DoubleQuotedString)
        ensures
            final(self)@ == old(self)@.push(ItemValueView::DoubleQuotedString(m@)),
    {
        let item = ItemValue::DoubleQuotedString(m.clone());
        proof {
            lemma_items_view_push(self.items@, item);
        }
        self.items.push(item);
    }

    /// Puts a copy of `m` behind the items.
    pub fn push_single_quote_string(&mut self, m: &SingleQuotedString)
        ensures
            final(self)@ == old(self)@.push(ItemValueView::SingleQuotedString(m@)),
    {
        let item = ItemValue::SingleQuotedString(m.clone());
        proof {
            lemma_items_view_push(self.items@, item);
        }
        self.items.push(item);
    }
}

impl Default for InlineTable {
    fn default() -> (r: Self)
        ensures
            r@ == Seq::<ItemValueView>::empty(),
    {
        InlineTable { items: Vec::new() }
    }
}

impl InlineTable {
    /// Puts a copy of `m` behind the items.
    pub fn push_key_value(&mut self, m: &KeyValue)
        ensures
            final(self)@ == old(self)@.push(ItemValueView::KeyValue(m@)),
    {
        let item = ItemValue::KeyValue(clone_key_value(m));
        proof {
            lemma_items_view_push(self.items@, item);
        }
        self.items.push(item);
    }
}

impl KeyValue {
    /// The key value of `key` and `value`.
    pub fn new(key: &str, value: RightValue) -> (r: Self)
        ensures
            r@ == (KeyValueView { key: key@, value: value@ }),
    {
        KeyValue { key: String::from_str(key), value: Box::new(value) }
    }
}

impl Default for HeaderOfTable {
    fn default() -> (r: Self)
        ensures
            r@ == Seq::<char>::empty(),
    {
        HeaderOfTable { value: String::new() }
    }
}

impl HeaderOfTable {
    /// Puts the text of `token` behind the name.
    pub fn push_token(&mut self, token: &Token)
        ensures
            final(self)@ == old(self)@ + token@.value,
    {
        self.value.append(token.value.as_str());
    }
}

impl Default for HeaderOfArrayOfTable {
    fn default() -> (r: Self)
        ensures
            r@ == Seq::<char>::empty(),
    {
        HeaderOfArrayOfTable { value: String::new() }
    }
}

impl HeaderOfArrayOfTable {
    /// Puts the text of `token` behind the name.
    pub fn push_token(&mut self, token: &Token)
        ensures
            final(self)@ == old(self)@ + token@.value,
    {
        self.value.append(token.value.as_str());
    }
}

// ---------------------------------------------------------------------------
// Copies
// ---------------------------------------------------------------------------

impl Clone for Comment {
    fn clone(&self) -> (r: Self)
        ensures
            r == *self,
    {
        Comment { value: self.value.clone() }
    }
}

impl Clone for DoubleQuotedString {
    fn clone(&self) -> (r: Self)
        ensures
            r == *self,
    {
        DoubleQuotedString { value: self.value.clone() }
    }
}

impl Clone for SingleQuotedString {
    fn clone(&self) -> (r: Self)
        ensures
            r == *self,
    {
        SingleQuotedString { value: self.value.clone() }
    }
}

impl Clone for LiteralString {
    fn clone(&self) -> (r: Self)
        ensures
            r == *self,
    {
        LiteralString { value: self.value.clone() }
    }
}

impl Clone for DateTime {
    fn clone(&self) -> (r: Self)
        ensures
            r == *self,
    {
        DateTime { value: self.value.clone() }
    }
}

impl Clone for HeaderOfTable {
    fn clone(&self) -> (r: Self)
        ensures
            r == *self,
    {
        HeaderOfTable { value: self.value.clone() }
    }
}

impl Clone for HeaderOfArrayOfTable {
    fn clone(&self) -> (r: Self)
        ensures
            r == *self,
    {
        HeaderOfArrayOfTable { value: self.value.clone() }
    }
}

/// A copy of `items`, item by item.
pub fn clone_items(items: &Vec<ItemValue>) -> (r: Vec<ItemValue>)
    ensures
        items_view(r@) == items_view(items@),
    decreases items, 0int,
{
    let mut r: Vec<ItemValue> = Vec::new();
    let mut i: usize = 0;
    while i < items.len()
        invariant
            i <= items.len(),
            items_view(r@) == items_view(items@.take(i as int)),
        decreases items.len() - i,
    {
        let item = clone_item(&items[i]);
        proof {
            lemma_items_view_push(r@, item);
            assert(items@.take(i + 1) =~= items@.take(i as int).push(items@[i as int]));
            lemma_items_view_push(items@.take(i as int), items@[i as int]);
        }
        r.push(item);
        i += 1;
    }
    assert(items@.take(items.len() as int) =~= items@);
    r
}

/// A copy of `item`.
pub fn clone_item(item: &ItemValue) -> (r: ItemValue)
    ensures
        r@ == item@,
    decreases item, 1int,
{
    match item {
        ItemValue::Array(m) => ItemValue::Array(Array { items: clone_items(&m.items) }),
        ItemValue::DoubleQuotedString(m) => ItemValue::DoubleQuotedString(m.clone()),
        ItemValue::InlineTable(m) => ItemValue::InlineTable(
            InlineTable { items: clone_items(&m.items) },
        ),
        ItemValue::KeyValue(m) => ItemValue::KeyValue(clone_key_value(m)),
        ItemValue::LiteralString(m) => ItemValue::LiteralString(m.clone()),
        ItemValue::SingleQuotedString(m) => ItemValue::SingleQuotedString(m.clone()),
    }
}

/// A copy of `value`.
pub fn clone_right_value(value: &RightValue) -> (r: RightValue)
    ensures
        r@ == value@,
    decreases value, 1int,
{
    match value {
        RightValue::Array(m) => RightValue::Array(Array { items: clone_items(&m.items) }),
        RightValue::DoubleQuotedString(m) => RightValue::DoubleQuotedString(m.clone()),
        RightValue::InlineTable(m) => RightValue::InlineTable(
            InlineTable { items: clone_items(&m.items) },
        ),
        RightValue::LiteralString(m) => RightValue::LiteralString(m.clone()),
        RightValue::SingleQuotedString(m) => RightValue::SingleQuotedString(m.clone()),
    }
}

/// A copy of `m`.
pub fn clone_key_value(m: &KeyValue) -> (r: KeyValue)
    ensures
        r@ == m@,
    decreases m, 2int,
{
    KeyValue { key: m.key.clone(), value: Box::new(clone_right_value(&m.value)) }
}

impl Clone for Array {
    fn clone(&self) -> (r: Self)
        ensures
            r@ == self@,
    {
        Array { items: clone_items(&self.items) }
    }
}

impl Clone for InlineTable {
    fn clone(&self) -> (r: Self)
        ensures
            r@ == self@,
    {
        InlineTable { items: clone_items(&self.items) }
    }
}

impl Clone for ItemValue {
    fn clone(&self) -> (r: Self)
        ensures
            r@ == self@,
    {
        clone_item(self)
    }
}

impl Clone for RightValue {
    fn clone(&self) -> (r: Self)
        ensures
            r@ == self@,
    {
        clone_right_value(self)
    }
}

impl Clone for KeyValue {
    fn clone(&self) -> (r: Self)
        ensures
            r@ == self@,
    {
        clone_key_value(self)
    }
}

impl Clone for Element {
    fn clone(&self) -> (r: Self)
        ensures
            r@ == self@,
    {
        match self {
            Element::Comment(m) => Element::Comment(m.clone()),
            Element::KeyValue(m) => Element::KeyValue(clone_key_value(m)),
        }
    }
}

impl Clone for Expression {
    fn clone(&self) -> (r: Self)
        ensures
            r@ == self@,
    {
        match self {
            Expression::Comment(m) => Expression::Comment(m.clone()),
            Expression::EmptyLine => Expression::EmptyLine,
            Expression::HeaderOfArrayOfTable(m) => Expression::HeaderOfArrayOfTable(m.clone()),
            Expression::HeaderOfTable(m) => Expression::HeaderOfTable(m.clone()),
            Expression::KeyValue(m) => Expression::KeyValue(clone_key_value(m)),
        }
    }
}

} // verus!
