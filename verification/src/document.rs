//! The document and its typed accessors.

use vstd::prelude::*;
use crate::datetime::OffsetDateTime;
use crate::datetime::fixed_offset_datetime_of;
use crate::datetime::naive_date_of;
use crate::datetime::naive_datetime_of;
use crate::datetime::naive_time_of;
use crate::datetime::parse_datetime_fixed_offset;
use crate::datetime::parse_datetime_utc;
use crate::datetime::parse_naive_date;
use crate::datetime::parse_naive_datetime;
use crate::datetime::parse_naive_time;
use crate::datetime::utc_datetime_of;
use crate::model::Document;
use crate::model::Expression;
use crate::model::ExpressionView;
use crate::model::KeyValue;
use crate::model::KeyValueView;
use crate::model::LiteralString;
use crate::model::RightValue;
use crate::model::RightValueView;
use crate::model::expressions_view;
use crate::numeric::IntegerLiteral;
use crate::numeric::IntegerReading;
use crate::numeric::SignedMagnitude;
use crate::numeric::is_nan;
use crate::numeric::read_bool;
use crate::numeric::read_integer;
use crate::numeric::spec_is_nan;
use crate::numeric::spec_radix_of;
use crate::numeric::spec_read_bool;
use crate::numeric::spec_read_integer;
use crate::numeric::strip_underscores;
use crate::numeric::without_underscores;
use crate::render::debug_document;
use crate::render::render_document;
use crate::render::render_double_quoted;
use crate::render::render_single_quoted;
use crate::render::tagged;
use crate::text::chars_of;
use crate::text::string_of;

verus! {

/// It has multiple expressions, in the order of the lines they come from.
#[derive(Debug)]
pub struct TomlDocument {
    pub elements: Vec<Expression>,
}

impl View for TomlDocument {
    type V = Seq<ExpressionView>;

    open spec fn view(&self) -> Seq<ExpressionView> {
        expressions_view(self.elements@)
    }
}

/// It has the lines of a document, in order.
#[derive(Debug)]
pub struct DocumentM {
    pub items: Vec<Expression>,
}

impl View for DocumentM {
    type V = Seq<ExpressionView>;

    open spec fn view(&self) -> Seq<ExpressionView> {
        expressions_view(self.items@)
    }
}

/// A literal announces a radix and writes no number that fits the
/// requested type.
#[derive(Clone, Copy, Debug, PartialEq, Eq, Structural)]
pub struct ConversionFatal {
    /// The radix that the literal announces.
    pub radix: u32,
}

/// A float literal, before it is converted.
#[derive(Debug)]
pub enum FloatLiteral {
    /// One of `nan`, `+nan`, `-nan`.
    Nan,
    /// Any other literal, without its underscores.
    Decimal(String),
}

/// The mathematical content of a [`FloatLiteral`].
pub enum FloatLiteralView {
    Nan,
    Decimal(Seq<char>),
}

impl View for FloatLiteral {
    type V = FloatLiteralView;

    open spec fn view(&self) -> FloatLiteralView {
        match *self {
            FloatLiteral::Nan => FloatLiteralView::Nan,
            FloatLiteral::Decimal(s) => FloatLiteralView::Decimal(s@),
        }
    }
}

/// Whether `e` is a key value with key `key`.
pub open spec fn is_key_value_of(e: ExpressionView, key: Seq<char>) -> bool {
    e matches ExpressionView::KeyValue(m) && m.key == key
}

/// The position of the first key value with key `key` among `elements`,
/// from position `from` on; their number where there is none.
pub open spec fn spec_position(elements: Seq<ExpressionView>, key: Seq<char>, from: int) -> int
    decreases elements.len() - from,
{
    if from < 0 || from >= elements.len() {
        elements.len() as int
    } else if is_key_value_of(elements[from], key) {
        from
    } else {
        spec_position(elements, key, from + 1)
    }
}

/// The first key value with key `key` among `elements`: tables give no
/// scope, only the key as it is written counts.
pub open spec fn spec_lookup(elements: Seq<ExpressionView>, key: Seq<char>) -> Option<
    KeyValueView,
> {
    let i = spec_position(elements, key, 0);
    if i < elements.len() {
        Some(elements[i]->KeyValue_0)
    } else {
        None
    }
}

/// The text of the unquoted scalar that `key` has in `elements`.
pub open spec fn spec_literal_by_key(elements: Seq<ExpressionView>, key: Seq<char>) -> Option<
    Seq<char>,
> {
    match spec_lookup(elements, key) {
        Some(m) => match m.value {
            RightValueView::LiteralString(s) => Some(s),
            _ => None,
        },
        None => None,
    }
}

/// The integer between `min` and `max` that `key` has in `elements`.
pub open spec fn spec_integer_by_key(
    elements: Seq<ExpressionView>,
    key: Seq<char>,
    signed: bool,
    min: int,
    max: int,
) -> Result<Option<int>, ConversionFatal> {
    match spec_literal_by_key(elements, key) {
        Some(text) => match spec_read_integer(text, signed, min, max) {
            IntegerReading::Value(v) => Ok(Some(v)),
            IntegerReading::NoValue => Ok(None),
            IntegerReading::Malformed => Err(
                ConversionFatal { radix: spec_radix_of(strip_underscores(text)) as u32 },
            ),
        },
        None => Ok(None),
    }
}

/// The string that `key` has in `elements`: the content of a quoted
/// string.
pub open spec fn spec_string_by_key(elements: Seq<ExpressionView>, key: Seq<char>) -> Option<
    Seq<char>,
> {
    match spec_lookup(elements, key) {
        Some(m) => match m.value {
            RightValueView::DoubleQuotedString(s) => Some(s),
            RightValueView::SingleQuotedString(s) => Some(s),
            _ => None,
        },
        None => None,
    }
}

/// The structural rendering of the string that `key` has in `elements`;
/// empty where it has none.
pub open spec fn spec_debug_string_by_key(elements: Seq<ExpressionView>, key: Seq<char>) -> Seq<
    char,
> {
    match spec_lookup(elements, key) {
        Some(m) => match m.value {
            RightValueView::DoubleQuotedString(s) => tagged(
                "DoubleQuotedString"@,
                render_double_quoted(s),
            ),
            RightValueView::SingleQuotedString(s) => tagged(
                "SingleQuotedString"@,
                render_single_quoted(s),
            ),
            _ => Seq::empty(),
        },
        None => Seq::empty(),
    }
}

/// The float literal that `key` has in `elements`.
pub open spec fn spec_float_literal_by_key(elements: Seq<ExpressionView>, key: Seq<char>)
    -> Option<FloatLiteralView> {
    match spec_literal_by_key(elements, key) {
        Some(text) => if spec_is_nan(text) {
            Some(FloatLiteralView::Nan)
        } else {
            Some(FloatLiteralView::Decimal(strip_underscores(text)))
        },
        None => None,
    }
}

/// `spec_position` finds the first key value with the key, or nothing.
pub proof fn lemma_position_bounds(elements: Seq<ExpressionView>, key: Seq<char>, from: int)
    requires
        0 <= from <= elements.len(),
    ensures
        from <= spec_position(elements, key, from) <= elements.len(),
        spec_position(elements, key, from) < elements.len() ==> is_key_value_of(
            elements[spec_position(elements, key, from)],
            key,
        ),
        forall|j: int|
            from <= j < spec_position(elements, key, from) ==> !is_key_value_of(
                #[trigger] elements[j],
                key,
            ),
    decreases elements.len() - from,
{
    if from < elements.len() && !is_key_value_of(elements[from], key) {
        lemma_position_bounds(elements, key, from + 1);
    }
}

/// The value of `m` as an `i128`.
fn to_i128(m: SignedMagnitude) -> (r: i128)
    requires
        i128::MIN <= m.value() <= i128::MAX,
    ensures
        r == m.value(),
{
    if m.negative {
        if m.magnitude > i128::MAX as u128 {
            i128::MIN
        } else {
            -(m.magnitude as i128)
        }
    } else {
        m.magnitude as i128
    }
}

/// The value of `m` as an `isize`.
fn to_isize(m: SignedMagnitude) -> (r: isize)
    requires
        isize::MIN <= m.value() <= isize::MAX,
    ensures
        r == m.value(),
{
    if m.negative {
        if m.magnitude > isize::MAX as u128 {
            isize::MIN
        } else {
            -(m.magnitude as isize)
        }
    } else {
        m.magnitude as isize
    }
}

impl Default for DocumentM {
    fn default() -> (r: Self)
        ensures
            r@ == Seq::<ExpressionView>::empty(),
    {
        let r = DocumentM { items: Vec::new() };
        assert(r@ =~= Seq::empty());
        r
    }
}

impl DocumentM {
    /// The structural rendering: one line for each item, its variant's
    /// name and its text in round brackets.
    pub fn to_debug_string(&self) -> (r: String)
        ensures
            r@ == debug_document(self@),
    {
        debug_lines(&self.items)
    }
}

impl Document {
    /// The document of the same lines.
    pub fn to_toml_document(&self) -> (r: TomlDocument)
        ensures
            r@ == self@,
    {
        TomlDocument { elements: self.to_expressions() }
    }

    /// The text of the document: each line, closed by a line feed.
    pub fn to_string(&self) -> (r: String)
        ensures
            r@ == render_document(self@),
    {
        self.to_toml_document().to_string()
    }
}

/// The structural rendering of `items`: one line for each.
fn debug_lines(items: &Vec<Expression>) -> (r: String)
    ensures
        r@ == debug_document(expressions_view(items@)),
{
    let mut r = String::new();
    let mut i: usize = 0;
    let ghost views = expressions_view(items@);
    while i < items.len()
        invariant
            i <= items.len(),
            views == expressions_view(items@),
            r@ == debug_document(views.take(i as int)),
        decreases items.len() - i,
    {
        let ghost before = r@;
        let s = items[i].to_debug_string();
        r.append(s.as_str());
        r.push('\n');
        proof {
            assert(views.take(i + 1).drop_last() =~= views.take(i as int));
            assert(views.take(i + 1).last() == items@[i as int]@);
            assert(r@ =~= before + s@ + seq!['\n']);
        }
        i += 1;
    }
    assert(views.take(items.len() as int) =~= views);
    r
}

impl Default for TomlDocument {
    fn default() -> (r: Self)
        ensures
            r@ == Seq::<ExpressionView>::empty(),
    {
        let r = TomlDocument { elements: Vec::new() };
        assert(r@ =~= Seq::empty());
        r
    }
}

impl TomlDocument {
    /// Whether the document has a key value with key `key`.
    pub open spec fn spec_contains_key(&self, key: Seq<char>) -> bool {
        spec_lookup(self@, key) is Some
    }

    /// The key value with key `key`.
    fn find(&self, key: &str) -> (r: Option<&KeyValue>)
        ensures
            match r {
                Some(m) => spec_lookup(self@, key@) == Some(m@),
                None => spec_lookup(self@, key@) is None,
            },
    {
        match self.get_right_value_by_key(key) {
            Some(Expression::KeyValue(m)) => Some(m),
            _ => None,
        }
    }

    /// The text of the unquoted scalar of `key`.
    fn literal_text(&self, key: &str) -> (r: Option<&LiteralString>)
        ensures
            match r {
                Some(m) => spec_literal_by_key(self@, key@) == Some(m@),
                None => spec_literal_by_key(self@, key@) is None,
            },
    {
        match self.find(key) {
            Some(m) => match &*m.value {
                RightValue::LiteralString(literal) => Some(literal),
                _ => None,
            },
            None => None,
        }
    }

    /// Right of `left = right`: the first line that gives `key` a value.
    pub fn get_right_value_by_key(&self, key: &str) -> (r: Option<&Expression>)
        ensures
            match r {
                Some(e) => e@ is KeyValue && spec_lookup(self@, key@) == Some(e@->KeyValue_0),
                None => spec_lookup(self@, key@) is None,
            },
    {
        let wanted = String::from_str(key);
        let mut i: usize = 0;
        proof {
            lemma_position_bounds(self@, key@, 0);
        }
        while i < self.elements.len()
            invariant
                i <= self.elements.len(),
                wanted@ == key@,
                spec_position(self@, key@, 0) == spec_position(self@, key@, i as int),
            decreases self.elements.len() - i,
        {
            let elem = &self.elements[i];
            assert(self@[i as int] == elem@);
            match elem {
                Expression::KeyValue(m) => {
                    if m.key == wanted {
                        return Some(elem);
                    }
                },
                _ => {},
            }
            i += 1;
        }
        None
    }

    /// Right of `left = right`, where it is an unquoted scalar.
    pub fn get_literal_string_by_key(&self, key: &str) -> (r: Option<&LiteralString>)
        ensures
            match r {
                Some(m) => spec_literal_by_key(self@, key@) == Some(m@),
                None => spec_literal_by_key(self@, key@) is None,
            },
            !self.spec_contains_key(key@) ==> r is None,
    {
        self.literal_text(key)
    }

    /// Contains key.
    pub fn contains_key(&self, key: &str) -> (r: bool)
        ensures
            r == self.spec_contains_key(key@),
    {
        self.find(key).is_some()
    }

    /// Right integer of `left = 123`.
    pub fn get_i128_by_key(&self, key: &str) -> (r: Result<Option<i128>, ConversionFatal>)
        ensures
            match spec_integer_by_key(self@, key@, true, i128::MIN as int, i128::MAX as int) {
                Ok(Some(v)) => r == Ok::<Option<i128>, ConversionFatal>(Some(v as i128)),
                Ok(None) => r == Ok::<Option<i128>, ConversionFatal>(None),
                Err(e) => r == Err::<Option<i128>, ConversionFatal>(e),
            },
            !self.spec_contains_key(key@) ==> r == Ok::<Option<i128>, ConversionFatal>(None),
    {
        match self.literal_text(key) {
            Some(literal) => {
                let chars = chars_of(literal.value.as_str());
                match read_integer(&chars, true, i128::MAX as u128, i128::MAX as u128 + 1) {
                    IntegerLiteral::Value(m) => Ok(Some(to_i128(m))),
                    IntegerLiteral::NoValue => Ok(None),
                    IntegerLiteral::Malformed => Err(announced_radix(&chars)),
                }
            },
            None => Ok(None),
        }
    }

    /// Right integer of `left = 123`.
    pub fn get_isize_by_key(&self, key: &str) -> (r: Result<Option<isize>, ConversionFatal>)
        ensures
            match spec_integer_by_key(self@, key@, true, isize::MIN as int, isize::MAX as int) {
                Ok(Some(v)) => r == Ok::<Option<isize>, ConversionFatal>(Some(v as isize)),
                Ok(None) => r == Ok::<Option<isize>, ConversionFatal>(None),
                Err(e) => r == Err::<Option<isize>, ConversionFatal>(e),
            },
            !self.spec_contains_key(key@) ==> r == Ok::<Option<isize>, ConversionFatal>(None),
    {
        match self.literal_text(key) {
            Some(literal) => {
                let chars = chars_of(literal.value.as_str());
                match read_integer(&chars, true, isize::MAX as u128, isize::MAX as u128 + 1) {
                    IntegerLiteral::Value(m) => Ok(Some(to_isize(m))),
                    IntegerLiteral::NoValue => Ok(None),
                    IntegerLiteral::Malformed => Err(announced_radix(&chars)),
                }
            },
            None => Ok(None),
        }
    }

    /// Right integer of `left = 123`.
    pub fn get_u128_by_key(&self, key: &str) -> (r: Result<Option<u128>, ConversionFatal>)
        ensures
            match spec_integer_by_key(self@, key@, false, 0, u128::MAX as int) {
                Ok(Some(v)) => r == Ok::<Option<u128>, ConversionFatal>(Some(v as u128)),
                Ok(None) => r == Ok::<Option<u128>, ConversionFatal>(None),
                Err(e) => r == Err::<Option<u128>, ConversionFatal>(e),
            },
            !self.spec_contains_key(key@) ==> r == Ok::<Option<u128>, ConversionFatal>(None),
    {
        match self.literal_text(key) {
            Some(literal) => {
                let chars = chars_of(literal.value.as_str());
                match read_integer(&chars, false, u128::MAX, 0) {
                    IntegerLiteral::Value(m) => Ok(Some(m.magnitude)),
                    IntegerLiteral::NoValue => Ok(None),
                    IntegerLiteral::Malformed => Err(announced_radix(&chars)),
                }
            },
            None => Ok(None),
        }
    }

    /// Right integer of `left = 123`.
    pub fn get_usize_by_key(&self, key: &str) -> (r: Result<Option<usize>, ConversionFatal>)
        ensures
            match spec_integer_by_key(self@, key@, false, 0, usize::MAX as int) {
                Ok(Some(v)) => r == Ok::<Option<usize>, ConversionFatal>(Some(v as usize)),
                Ok(None) => r == Ok::<Option<usize>, ConversionFatal>(None),
                Err(e) => r == Err::<Option<usize>, ConversionFatal>(e),
            },
            !self.spec_contains_key(key@) ==> r == Ok::<Option<usize>, ConversionFatal>(None),
    {
        match self.literal_text(key) {
            Some(literal) => {
                let chars = chars_of(literal.value.as_str());
                match read_integer(&chars, false, usize::MAX as u128, 0) {
                    IntegerLiteral::Value(m) => Ok(Some(m.magnitude as usize)),
                    IntegerLiteral::NoValue => Ok(None),
                    IntegerLiteral::Malformed => Err(announced_radix(&chars)),
                }
            },
            None => Ok(None),
        }
    }

    /// Right float of `left = 1.2`, before it is converted: whether the
    /// literal is a NaN, and else its text without underscores.
    pub fn get_float_literal_by_key(&self, key: &str) -> (r: Option<FloatLiteral>)
        ensures
            match r {
                Some(m) => spec_float_literal_by_key(self@, key@) == Some(m@),
                None => spec_float_literal_by_key(self@, key@) is None,
            },
            !self.spec_contains_key(key@) ==> r is None,
    {
        match self.literal_text(key) {
            Some(literal) => {
                let chars = chars_of(literal.value.as_str());
                if is_nan(&chars) {
                    Some(FloatLiteral::Nan)
                } else {
                    Some(FloatLiteral::Decimal(string_of(&without_underscores(&chars))))
                }
            },
            None => None,
        }
    }

    /// Right string of `left = "abc"`, borrowed from the document.
    pub fn get_str_by_key(&self, key: &str) -> (r: Option<&str>)
        ensures
            match r {
                Some(s) => spec_string_by_key(self@, key@) == Some(s@),
                None => spec_string_by_key(self@, key@) is None,
            },
            !self.spec_contains_key(key@) ==> r is None,
    {
        match self.find(key) {
            Some(m) => match &*m.value {
                RightValue::DoubleQuotedString(s) => Some(s.value.as_str()),
                RightValue::SingleQuotedString(s) => Some(s.value.as_str()),
                _ => None,
            },
            None => None,
        }
    }

    /// Right string of `left = "abc"`.
    pub fn get_string_by_key(&self, key: &str) -> (r: Option<String>)
        ensures
            match r {
                Some(s) => spec_string_by_key(self@, key@) == Some(s@),
                None => spec_string_by_key(self@, key@) is None,
            },
            !self.spec_contains_key(key@) ==> r is None,
    {
        match self.find(key) {
            Some(m) => match &*m.value {
                RightValue::DoubleQuotedString(s) => Some(s.value.clone()),
                RightValue::SingleQuotedString(s) => Some(s.value.clone()),
                _ => None,
            },
            None => None,
        }
    }

    /// For this library developer.
    pub fn get_debug_string_by_key(&self, key: &str) -> (r: String)
        ensures
            r@ == spec_debug_string_by_key(self@, key@),
    {
        match self.find(key) {
            Some(m) => match &*m.value {
                RightValue::DoubleQuotedString(s) => s.to_debug_string(),
                RightValue::SingleQuotedString(s) => s.to_debug_string(),
                _ => String::new(),
            },
            None => String::new(),
        }
    }

    /// Right boolean of `left = true`.
    pub fn get_bool_by_key(&self, key: &str) -> (r: Option<bool>)
        ensures
            r == match spec_literal_by_key(self@, key@) {
                Some(text) => spec_read_bool(text),
                None => None,
            },
            !self.spec_contains_key(key@) ==> r is None,
    {
        match self.literal_text(key) {
            Some(literal) => read_bool(&chars_of(literal.value.as_str())),
            None => None,
        }
    }

    /// DateTime. UTC.
    pub fn get_datetime_utc_by_key(&self, key: &str) -> (r: Option<OffsetDateTime>)
        ensures
            r == match spec_literal_by_key(self@, key@) {
                Some(text) => utc_datetime_of(text),
                None => None,
            },
            !self.spec_contains_key(key@) ==> r is None,
    {
        match self.literal_text(key) {
            Some(literal) => parse_datetime_utc(literal.value.as_str()),
            None => None,
        }
    }

    /// DateTime. Local. The point in time that the unquoted scalar of `key`
    /// writes as a date and time with an offset, and that offset. The
    /// offset of the time zone of the machine is not looked up here: to
    /// tell the point in time in local time is left to the caller.
    pub fn get_datetime_local_by_key(&self, key: &str) -> (r: Option<OffsetDateTime>)
        ensures
            r == match spec_literal_by_key(self@, key@) {
                Some(text) => fixed_offset_datetime_of(text),
                None => None,
            },
            !self.spec_contains_key(key@) ==> r is None,
    {
        match self.literal_text(key) {
            Some(literal) => parse_datetime_fixed_offset(literal.value.as_str()),
            None => None,
        }
    }

    /// DateTime. Fixed offset.
    pub fn get_datetime_fixed_offset_by_key(&self, key: &str) -> (r: Option<OffsetDateTime>)
        ensures
            r == match spec_literal_by_key(self@, key@) {
                Some(text) => fixed_offset_datetime_of(text),
                None => None,
            },
            !self.spec_contains_key(key@) ==> r is None,
    {
        match self.literal_text(key) {
            Some(literal) => parse_datetime_fixed_offset(literal.value.as_str()),
            None => None,
        }
    }

    /// DateTime. Naive.
    pub fn get_naive_datetime_by_key(&self, key: &str) -> (r: Option<chrono::NaiveDateTime>)
        ensures
            r == match spec_literal_by_key(self@, key@) {
                Some(text) => naive_datetime_of(text),
                None => None,
            },
            !self.spec_contains_key(key@) ==> r is None,
    {
        match self.literal_text(key) {
            Some(literal) => parse_naive_datetime(literal.value.as_str()),
            None => None,
        }
    }

    /// Date. Naive.
    pub fn get_naive_date_by_key(&self, key: &str) -> (r: Option<chrono::NaiveDate>)
        ensures
            r == match spec_literal_by_key(self@, key@) {
                Some(text) => naive_date_of(text),
                None => None,
            },
            !self.spec_contains_key(key@) ==> r is None,
    {
        match self.literal_text(key) {
            Some(literal) => parse_naive_date(literal.value.as_str()),
            None => None,
        }
    }

    /// Time. Naive.
    pub fn get_naive_time_by_key(&self, key: &str) -> (r: Option<chrono::NaiveTime>)
        ensures
            r == match spec_literal_by_key(self@, key@) {
                Some(text) => naive_time_of(text),
                None => None,
            },
            !self.spec_contains_key(key@) ==> r is None,
    {
        match self.literal_text(key) {
            Some(literal) => parse_naive_time(literal.value.as_str()),
            None => None,
        }
    }

    /// Puts a copy of `m` behind the elements.
    pub fn push_element(&mut self, m: &Expression)
        ensures
            final(self)@ == old(self)@.push(m@),
    {
        let e = m.clone();
        assert(expressions_view(self.elements@.push(e)) =~= expressions_view(
            self.elements@,
        ).push(e@));
        self.elements.push(e);
    }

    /// The structural rendering: one line for each element, its variant's
    /// name and its text in round brackets.
    pub fn to_debug_string(&self) -> (r: String)
        ensures
            r@ == debug_document(self@),
    {
        debug_lines(&self.elements)
    }

    /// The text of the document: each line, closed by a line feed.
    ///
    /// The text spells the document in one fixed way, which need not be
    /// that of the text it was read from: ` = ` stands between key and
    /// value, `, ` between items, one space inside brackets; a
    /// double-quoted string has escape sequences for `"`, `\`, line feed,
    /// carriage return and tab and for nothing else; an empty line is
    /// empty. What is read from this text is the document again.
    pub fn to_string(&self) -> (r: String)
        ensures
            r@ == render_document(self@),
    {
        let mut r = String::new();
        let mut i: usize = 0;
        while i < self.elements.len()
            invariant
                i <= self.elements.len(),
                r@ == render_document(self@.take(i as int)),
            decreases self.elements.len() - i,
        {
            let ghost before = r@;
            let s = self.elements[i].to_string();
            r.append(s.as_str());
            r.push('\n');
            proof {
                assert(self@.take(i + 1).drop_last() =~= self@.take(i as int));
                assert(self@.take(i + 1).last() == self.elements@[i as int]@);
                assert(r@ =~= before + s@ + seq!['\n']);
            }
            i += 1;
        }
        assert(self@.take(self.elements.len() as int) =~= self@);
        r
    }
}

/// The radix that the literal `chars` announces, as the failure to read it.
fn announced_radix(chars: &Vec<char>) -> (r: ConversionFatal)
    ensures
        r == (ConversionFatal { radix: spec_radix_of(strip_underscores(chars@)) as u32 }),
{
    ConversionFatal { radix: crate::numeric::radix_of(&without_underscores(chars)) }
}

} // verus!
