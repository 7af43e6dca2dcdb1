//! Characters and tokens: the units that the scanner produces and the
//! syntax parsers consume.

use vstd::prelude::*;

verus! {

/// Classification of a single character.
#[derive(Clone, Copy, Debug, PartialEq, Eq, Structural)]
pub enum CharacterType {
    /// `A-Z`, `a-z`.
    Alpha,
    Backslash,
    Colon,
    Comma,
    /// `0-9`.
    Digit,
    Dot,
    DoubleQuotation,
    Equals,
    Hyphen,
    LeftCurlyBracket,
    LeftSquareBracket,
    /// The line feed.
    Newline,
    RightCurlyBracket,
    RightSquareBracket,
    Sharp,
    SingleQuotation,
    Underscore,
    /// Tab or space.
    Whitespace,
    Unknown,
}

/// Classification of a token.
#[derive(Clone, Copy, Debug, PartialEq, Eq, Structural)]
pub enum TokenType {
    /// A run of letters.
    AlphabetString,
    Backslash,
    Colon,
    Comma,
    Dot,
    DoubleQuotation,
    /// The synthetic token that closes every line.
    EndOfLine,
    Equals,
    /// A decoded escape sequence.
    EscapeSequence,
    Hyphen,
    LeftCurlyBracket,
    LeftSquareBracket,
    /// A run of digits.
    NumeralString,
    RightCurlyBracket,
    RightSquareBracket,
    Sharp,
    SingleQuotation,
    Underscore,
    Unknown,
    /// A run of tabs and spaces.
    WhiteSpaceString,
}

/// Whether `c` is a letter: `A-Z`, `a-z`.
pub open spec fn is_alpha(c: char) -> bool {
    ('A' <= c && c <= 'Z') || ('a' <= c && c <= 'z')
}

/// Whether `c` is a digit: `0-9`.
pub open spec fn is_digit(c: char) -> bool {
    '0' <= c && c <= '9'
}

/// Whether `c` is a tab or a space.
pub open spec fn is_whitespace(c: char) -> bool {
    c == '\t' || c == ' '
}

/// The class of the character `c`.
pub open spec fn spec_character_type(c: char) -> CharacterType {
    if is_alpha(c) {
        CharacterType::Alpha
    } else if is_digit(c) {
        CharacterType::Digit
    } else if is_whitespace(c) {
        CharacterType::Whitespace
    } else if c == '\\' {
        CharacterType::Backslash
    } else if c == ':' {
        CharacterType::Colon
    } else if c == ',' {
        CharacterType::Comma
    } else if c == '.' {
        CharacterType::Dot
    } else if c == '"' {
        CharacterType::DoubleQuotation
    } else if c == '=' {
        CharacterType::Equals
    } else if c == '-' {
        CharacterType::Hyphen
    } else if c == '{' {
        CharacterType::LeftCurlyBracket
    } else if c == '[' {
        CharacterType::LeftSquareBracket
    } else if c == '\n' {
        CharacterType::Newline
    } else if c == '}' {
        CharacterType::RightCurlyBracket
    } else if c == ']' {
        CharacterType::RightSquareBracket
    } else if c == '#' {
        CharacterType::Sharp
    } else if c == '\'' {
        CharacterType::SingleQuotation
    } else if c == '_' {
        CharacterType::Underscore
    } else {
        CharacterType::Unknown
    }
}

/// The kind of the token that the scanner starts on a character of class `t`.
pub open spec fn spec_token_type_of(t: CharacterType) -> TokenType {
    match t {
        CharacterType::Alpha => TokenType::AlphabetString,
        CharacterType::Backslash => TokenType::Backslash,
        CharacterType::Colon => TokenType::Colon,
        CharacterType::Comma => TokenType::Comma,
        CharacterType::Digit => TokenType::NumeralString,
        CharacterType::Dot => TokenType::Dot,
        CharacterType::DoubleQuotation => TokenType::DoubleQuotation,
        CharacterType::Equals => TokenType::Equals,
        CharacterType::Hyphen => TokenType::Hyphen,
        CharacterType::LeftCurlyBracket => TokenType::LeftCurlyBracket,
        CharacterType::LeftSquareBracket => TokenType::LeftSquareBracket,
        CharacterType::Newline => TokenType::Unknown,
        CharacterType::RightCurlyBracket => TokenType::RightCurlyBracket,
        CharacterType::RightSquareBracket => TokenType::RightSquareBracket,
        CharacterType::Sharp => TokenType::Sharp,
        CharacterType::SingleQuotation => TokenType::SingleQuotation,
        CharacterType::Underscore => TokenType::Underscore,
        CharacterType::Whitespace => TokenType::WhiteSpaceString,
        CharacterType::Unknown => TokenType::Unknown,
    }
}

/// Classifies one character.
pub fn character_type(c: char) -> (r: CharacterType)
    ensures
        r == spec_character_type(c),
{
    if (c >= 'A' && c <= 'Z') || (c >= 'a' && c <= 'z') {
        CharacterType::Alpha
    } else if c >= '0' && c <= '9' {
        CharacterType::Digit
    } else if c == '\t' || c == ' ' {
        CharacterType::Whitespace
    } else if c == '\\' {
        CharacterType::Backslash
    } else if c == ':' {
        CharacterType::Colon
    } else if c == ',' {
        CharacterType::Comma
    } else if c == '.' {
        CharacterType::Dot
    } else if c == '"' {
        CharacterType::DoubleQuotation
    } else if c == '=' {
        CharacterType::Equals
    } else if c == '-' {
        CharacterType::Hyphen
    } else if c == '{' {
        CharacterType::LeftCurlyBracket
    } else if c == '[' {
        CharacterType::LeftSquareBracket
    } else if c == '\n' {
        CharacterType::Newline
    } else if c == '}' {
        CharacterType::RightCurlyBracket
    } else if c == ']' {
        CharacterType::RightSquareBracket
    } else if c == '#' {
        CharacterType::Sharp
    } else if c == '\'' {
        CharacterType::SingleQuotation
    } else if c == '_' {
        CharacterType::Underscore
    } else {
        CharacterType::Unknown
    }
}

/// The kind of the token that starts on a character of class `t`.
pub fn token_type_of(t: CharacterType) -> (r: TokenType)
    ensures
        r == spec_token_type_of(t),
{
    match t {
        CharacterType::Alpha => TokenType::AlphabetString,
        CharacterType::Backslash => TokenType::Backslash,
        CharacterType::Colon => TokenType::Colon,
        CharacterType::Comma => TokenType::Comma,
        CharacterType::Digit => TokenType::NumeralString,
        CharacterType::Dot => TokenType::Dot,
        CharacterType::DoubleQuotation => TokenType::DoubleQuotation,
        CharacterType::Equals => TokenType::Equals,
        CharacterType::Hyphen => TokenType::Hyphen,
        CharacterType::LeftCurlyBracket => TokenType::LeftCurlyBracket,
        CharacterType::LeftSquareBracket => TokenType::LeftSquareBracket,
        CharacterType::Newline => TokenType::Unknown,
        CharacterType::RightCurlyBracket => TokenType::RightCurlyBracket,
        CharacterType::RightSquareBracket => TokenType::RightSquareBracket,
        CharacterType::Sharp => TokenType::Sharp,
        CharacterType::SingleQuotation => TokenType::SingleQuotation,
        CharacterType::Underscore => TokenType::Underscore,
        CharacterType::Whitespace => TokenType::WhiteSpaceString,
        CharacterType::Unknown => TokenType::Unknown,
    }
}

/// Whether a token of kind `t` can be part of an unquoted scalar: letters,
/// digits, `_`, `-`, `.`, `:` and every character without a kind of its own.
pub open spec fn spec_is_literal_token(t: TokenType) -> bool {
    t == TokenType::AlphabetString || t == TokenType::NumeralString || t == TokenType::Underscore
        || t == TokenType::Hyphen || t == TokenType::Dot || t == TokenType::Colon || t
        == TokenType::Unknown
}

/// Whether a token of kind `t` can be part of a bare key: letters, digits,
/// `_` and `-`.
pub open spec fn spec_is_key_token(t: TokenType) -> bool {
    t == TokenType::AlphabetString || t == TokenType::NumeralString || t == TokenType::Underscore
        || t == TokenType::Hyphen
}

/// Whether a token of kind `t` can be part of an unquoted scalar.
pub fn is_literal_token(t: TokenType) -> (r: bool)
    ensures
        r == spec_is_literal_token(t),
{
    match t {
        TokenType::AlphabetString
        | TokenType::NumeralString
        | TokenType::Underscore
        | TokenType::Hyphen
        | TokenType::Dot
        | TokenType::Colon
        | TokenType::Unknown => true,
        _ => false,
    }
}

/// Whether a token of kind `t` can be part of a bare key.
pub fn is_key_token(t: TokenType) -> (r: bool)
    ensures
        r == spec_is_key_token(t),
{
    match t {
        TokenType::AlphabetString
        | TokenType::NumeralString
        | TokenType::Underscore
        | TokenType::Hyphen => true,
        _ => false,
    }
}

/// The column `i` characters behind `column_number`, as far as columns go.
pub open spec fn spec_column_at(column_number: nat, i: int) -> usize {
    if column_number + i <= usize::MAX {
        (column_number + i) as usize
    } else {
        usize::MAX
    }
}

/// The character at position `i` of `token`.
pub open spec fn character_at(token: TokenView, i: int) -> Character {
    Character {
        column_number: spec_column_at(token.column_number, i),
        value: token.value[i],
        type_: spec_character_type(token.value[i]),
    }
}

/// The character at position `i` of the current token of `tokens`, and the
/// character behind it: the next of that token, or the first of the token
/// ahead.
pub open spec fn characters_at(tokens: LookAheadTokensView, i: int) -> LookAheadCharacters {
    LookAheadCharacters {
        current: character_at(tokens.current, i),
        one_ahead: if i + 1 < tokens.current.value.len() {
            Some(character_at(tokens.current, i + 1))
        } else {
            match tokens.one_ahead {
                Some(t) => if t.value.len() > 0 {
                    Some(character_at(t, 0))
                } else {
                    None
                },
                None => None,
            }
        },
    }
}

/// One character of a line, with its 1-based column.
#[derive(Clone, Copy, Debug)]
pub struct Character {
    pub column_number: usize,
    pub value: char,
    pub type_: CharacterType,
}

impl Character {
    /// The character `value` at `column_number`, with its class.
    pub fn new(column_number: usize, value: char) -> (r: Character)
        ensures
            r == (Character { column_number, value, type_: spec_character_type(value) }),
    {
        Character { column_number, value, type_: character_type(value) }
    }
}

/// The character under the cursor and the one after it, if any.
#[derive(Clone, Copy, Debug)]
pub struct LookAheadCharacters {
    pub current: Character,
    pub one_ahead: Option<Character>,
}

/// A lexical unit: where it starts, what it says, what it is.
#[derive(Debug)]
pub struct Token {
    /// 1-based column of the first character.
    pub column_number: usize,
    pub value: String,
    pub type_: TokenType,
}

/// The mathematical content of a [`Token`].
pub struct TokenView {
    pub column_number: nat,
    pub value: Seq<char>,
    pub type_: TokenType,
}

impl View for Token {
    type V = TokenView;

    open spec fn view(&self) -> TokenView {
        TokenView {
            column_number: self.column_number as nat,
            value: self.value@,
            type_: self.type_,
        }
    }
}

impl Clone for Token {
    fn clone(&self) -> (r: Self)
        ensures
            r == *self,
    {
        Token { column_number: self.column_number, value: self.value.clone(), type_: self.type_ }
    }
}

/// The characters of a token, each with its column.
pub fn characters_of(token: &Token) -> (r: Vec<Character>)
    ensures
        r@.len() == token@.value.len(),
        forall|i: int| 0 <= i < r@.len() ==> #[trigger] r@[i] == character_at(token@, i),
{
    let v = crate::text::chars_of(token.value.as_str());
    let mut r: Vec<Character> = Vec::new();
    let mut i: usize = 0;
    while i < v.len()
        invariant
            i <= v.len(),
            v@ == token@.value,
            r@.len() == i,
            forall|j: int| 0 <= j < i ==> #[trigger] r@[j] == character_at(token@, j),
        decreases v.len() - i,
    {
        let column_number = match token.column_number.checked_add(i) {
            Some(c) => c,
            None => usize::MAX,
        };
        r.push(Character::new(column_number, v[i]));
        i += 1;
    }
    r
}

impl Token {
    /// The token of kind `type_` that says `value` and starts at
    /// `column_number`.
    pub fn new(column_number: usize, value: &str, type_: TokenType) -> (r: Token)
        ensures
            r@ == (TokenView { column_number: column_number as nat, value: value@, type_ }),
    {
        Token { column_number, value: String::from_str(value), type_ }
    }

    /// The literal text of the token.
    pub fn to_string(&self) -> (r: String)
        ensures
            r@ == self@.value,
    {
        self.value.clone()
    }
}

/// The views of a sequence of tokens.
pub open spec fn tokens_view(tokens: Seq<Token>) -> Seq<TokenView> {
    tokens.map_values(|t: Token| t@)
}

/// The texts of `tokens`, joined in order.
pub open spec fn tokens_text(tokens: Seq<TokenView>) -> Seq<char>
    decreases tokens.len(),
{
    if tokens.len() == 0 {
        Seq::empty()
    } else {
        tokens_text(tokens.drop_last()) + tokens.last().value
    }
}

/// Joins the texts of `tokens`.
pub fn tokens_stringify(tokens: &Vec<Token>) -> (r: String)
    ensures
        r@ == tokens_text(tokens_view(tokens@)),
{
    let mut r = String::new();
    let mut i: usize = 0;
    while i < tokens.len()
        invariant
            i <= tokens.len(),
            r@ == tokens_text(tokens_view(tokens@.take(i as int))),
        decreases tokens.len() - i,
    {
        proof {
            let next = tokens_view(tokens@.take(i + 1));
            assert(next.drop_last() =~= tokens_view(tokens@.take(i as int)));
            assert(next.last() == tokens@[i as int]@);
        }
        r.append(tokens[i].value.as_str());
        i += 1;
    }
    assert(tokens@.take(tokens.len() as int) =~= tokens@);
    r
}

/// Whether `t` is a carriage return by itself.
pub open spec fn spec_is_carriage_return(t: TokenView) -> bool {
    t.value == seq!['\r']
}

/// Whether `t` can be part of an unquoted scalar: a token of a kind that
/// can, and no carriage return.
pub open spec fn spec_in_literal(t: TokenView) -> bool {
    spec_is_literal_token(t.type_) && !spec_is_carriage_return(t)
}

/// Whether `t` is a carriage return by itself.
pub fn is_carriage_return(t: &Token) -> (r: bool)
    ensures
        r == spec_is_carriage_return(t@),
{
    let s = t.value.as_str();
    if s.unicode_len() == 1 {
        let c = s.get_char(0);
        proof {
            if c == '\r' {
                assert(s@ =~= seq!['\r']);
            } else {
                assert(seq!['\r'][0] == '\r');
            }
        }
        c == '\r'
    } else {
        proof {
            assert(seq!['\r'].len() == 1);
        }
        false
    }
}

/// Whether `t` can be part of an unquoted scalar.
pub fn in_literal(t: &Token) -> (r: bool)
    ensures
        r == spec_in_literal(t@),
{
    is_literal_token(t.type_) && !is_carriage_return(t)
}

/// The tokens of one source line, closed by an end-of-line token.
#[derive(Debug)]
pub struct TokenLine {
    pub row_number: usize,
    pub tokens: Vec<Token>,
}

impl TokenLine {
    /// The line with number `row_number`, without a token yet.
    pub fn new(row_number: usize) -> (r: TokenLine)
        ensures
            r.row_number == row_number,
            r.tokens@ =~= Seq::<Token>::empty(),
    {
        TokenLine { row_number, tokens: Vec::new() }
    }
}

/// The token under the cursor and the one after it, if any.
pub struct LookAheadTokens<'a> {
    pub current: &'a Token,
    pub one_ahead: Option<&'a Token>,
}

/// The mathematical content of [`LookAheadTokens`].
pub struct LookAheadTokensView {
    pub current: TokenView,
    pub one_ahead: Option<TokenView>,
}

impl<'a> View for LookAheadTokens<'a> {
    type V = LookAheadTokensView;

    open spec fn view(&self) -> LookAheadTokensView {
        LookAheadTokensView {
            current: self.current@,
            one_ahead: match self.one_ahead {
                Some(t) => Some(t@),
                None => None,
            },
        }
    }
}

/// The window that `tokens` shows at position `i`.
pub open spec fn window_at(tokens: Seq<TokenView>, i: int) -> LookAheadTokensView {
    LookAheadTokensView {
        current: tokens[i],
        one_ahead: if i + 1 < tokens.len() {
            Some(tokens[i + 1])
        } else {
            None
        },
    }
}

impl<'a> LookAheadTokens<'a> {
    /// The window at position `i` of `tokens`.
    pub fn at(tokens: &'a Vec<Token>, i: usize) -> (r: LookAheadTokens<'a>)
        requires
            i < tokens.len(),
        ensures
            r@ == window_at(tokens_view(tokens@), i as int),
    {
        let one_ahead = if i + 1 < tokens.len() {
            Some(&tokens[i + 1])
        } else {
            None
        };
        LookAheadTokens { current: &tokens[i], one_ahead }
    }
}

} // verus!
