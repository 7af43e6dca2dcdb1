//! The lexical scanner: one line of text in, its tokens out.

use vstd::prelude::*;
use crate::text::chars_of;
use crate::token::CharacterType;
use crate::token::Token;
use crate::token::TokenLine;
use crate::token::TokenType;
use crate::token::TokenView;
use crate::token::character_type;
use crate::token::spec_character_type;
use crate::token::spec_token_type_of;
use crate::token::token_type_of;
use crate::token::tokens_view;

verus! {

/// Whether consecutive characters of class `t` join into one token.
pub open spec fn merges(t: CharacterType) -> bool {
    t == CharacterType::Alpha || t == CharacterType::Digit || t == CharacterType::Whitespace
}

/// How many characters of class `t` stand in a row in `line` from position `i`.
pub open spec fn run_len(line: Seq<char>, i: int, t: CharacterType) -> nat
    decreases line.len() - i,
{
    if 0 <= i < line.len() && spec_character_type(line[i]) == t {
        1 + run_len(line, i + 1, t)
    } else {
        0
    }
}

/// Whether the token that starts at position `i` of `line` is that one
/// character: a character that never merges, or a letter right behind a
/// backslash.
pub open spec fn stands_alone(line: Seq<char>, i: int) -> bool {
    let t = spec_character_type(line[i]);
    !merges(t) || (t == CharacterType::Alpha && i > 0 && line[i - 1] == '\\')
}

/// The position behind the token that starts at position `i` of `line`.
pub open spec fn token_end(line: Seq<char>, i: int) -> int {
    if stands_alone(line, i) {
        i + 1
    } else {
        i + 1 + run_len(line, i + 1, spec_character_type(line[i]))
    }
}

/// The token that closes a line of `len` characters.
pub open spec fn end_of_line_token(len: nat) -> TokenView {
    TokenView { column_number: len, value: seq!['\n'], type_: TokenType::EndOfLine }
}

/// The tokens of `line` from position `i` on, the end-of-line token last.
pub open spec fn scan_from(line: Seq<char>, i: int) -> Seq<TokenView>
    decreases line.len() - i,
{
    if i < 0 || i >= line.len() {
        seq![end_of_line_token(line.len())]
    } else {
        proof {
            lemma_token_end_bounds(line, i);
        }
        seq![
            TokenView {
                column_number: (i + 1) as nat,
                value: line.subrange(i, token_end(line, i)),
                type_: spec_token_type_of(spec_character_type(line[i])),
            },
        ] + scan_from(line, token_end(line, i))
    }
}

/// The tokens of `line`: every maximal run of letters, of digits, of tabs and
/// spaces is one token, but a letter right behind a backslash is a token by
/// itself; every other character is a token; the end-of-line token closes
/// the sequence. A token's column is the 1-based position of its first
/// character; that of the end-of-line token is the number of characters.
pub open spec fn scan(line: Seq<char>) -> Seq<TokenView> {
    scan_from(line, 0)
}

/// A token has at least one character and ends within the line.
pub proof fn lemma_token_end_bounds(line: Seq<char>, i: int)
    requires
        0 <= i < line.len(),
    ensures
        i < token_end(line, i) <= line.len(),
{
    lemma_run_len_bounds(line, i + 1, spec_character_type(line[i]));
}

/// A run ends within the line.
pub proof fn lemma_run_len_bounds(line: Seq<char>, i: int, t: CharacterType)
    requires
        0 <= i <= line.len(),
    ensures
        i + run_len(line, i, t) <= line.len(),
    decreases line.len() - i,
{
    if i < line.len() && spec_character_type(line[i]) == t {
        lemma_run_len_bounds(line, i + 1, t);
    }
}

#[derive(Clone, Copy, Debug, PartialEq, Eq, Structural)]
enum State {
    /// Behind a backslash, before one letter.
    AlphabetCharacter,
    AlphabetString,
    First,
    NumeralString,
    WhiteSpaceString,
}

/// Lexical parser.
pub struct LexicalParser {
    state: State,
    product: TokenLine,
    buf_token_type: TokenType,
    buf: String,
}

impl LexicalParser {
    /// The tokens produced so far.
    pub closed spec fn spec_product(&self) -> TokenLine {
        self.product
    }

    /// After `k` characters of `line`: `done` tokens are out, the token that
    /// starts at `start` is under way, and what is left to scan from `start`
    /// completes the scan of the line.
    spec fn scanning(&self, before: Seq<TokenView>, line: Seq<char>, k: int, start: int) -> bool {
        let tokens = tokens_view(self.product.tokens@);
        &&& 0 <= start <= k <= line.len()
        &&& before.len() <= tokens.len()
        &&& tokens.subrange(0, before.len() as int) =~= before
        &&& tokens.subrange(before.len() as int, tokens.len() as int) + scan_from(line, start)
            =~= scan(line)
        &&& self.buf@ =~= line.subrange(start, k)
        &&& start < k ==> self.buf_token_type == spec_token_type_of(
            spec_character_type(line[start]),
        )
        &&& start == k ==> self.state == State::First
        &&& match self.state {
            State::First => {
                &&& start < k ==> token_end(line, start) == k
                &&& 0 < k < line.len() && line[k - 1] == '\\' ==> spec_character_type(line[k])
                    != CharacterType::Alpha
            },
            State::AlphabetCharacter => {
                &&& start + 1 == k
                &&& k < line.len()
                &&& line[start] == '\\'
                &&& spec_character_type(line[k]) == CharacterType::Alpha
            },
            State::AlphabetString => self.in_run(line, k, start, CharacterType::Alpha),
            State::NumeralString => self.in_run(line, k, start, CharacterType::Digit),
            State::WhiteSpaceString => self.in_run(line, k, start, CharacterType::Whitespace),
        }
    }

    spec fn in_run(&self, line: Seq<char>, k: int, start: int, t: CharacterType) -> bool {
        &&& start < k < line.len()
        &&& spec_character_type(line[start]) == t
        &&& spec_character_type(line[k]) == t
        &&& !stands_alone(line, start)
        &&& token_end(line, start) == k + run_len(line, k, t)
    }

    /// The scanner of the line with number `row_number`, with no token
    /// produced yet.
    pub fn new(row_number: usize) -> (r: Self)
        ensures
            r.spec_product().row_number == row_number,
            r.spec_product().tokens@.len() == 0,
    {
        LexicalParser {
            state: State::First,
            product: TokenLine::new(row_number),
            buf_token_type: TokenType::WhiteSpaceString,
            buf: String::new(),
        }
    }

    /// Puts the token under way, if there is one, among the tokens.
    fn flush(&mut self, column_number: usize)
        ensures
            final(self).product.row_number == old(self).product.row_number,
            final(self).buf@.len() == 0,
            final(self).buf_token_type == old(self).buf_token_type,
            old(self).buf@.len() == 0 ==> final(self).state == old(self).state && final(self).product.tokens@ == old(self).product.tokens@,
            old(self).buf@.len() > 0 ==> final(self).state == State::First && tokens_view(
                final(self).product.tokens@,
            ) == tokens_view(old(self).product.tokens@).push(
                TokenView {
                    column_number: column_number as nat,
                    value: old(self).buf@,
                    type_: old(self).buf_token_type,
                },
            ),
    {
        if self.buf.as_str().unicode_len() > 0 {
            let token = Token::new(column_number, self.buf.as_str(), self.buf_token_type);
            proof {
                assert(tokens_view(self.product.tokens@.push(token)) =~= tokens_view(
                    self.product.tokens@,
                ).push(token@));
            }
            self.product.tokens.push(token);
            self.buf = String::new();
            self.state = State::First;
        }
    }

    /// The tokens produced so far.
    pub fn product(&self) -> (r: &TokenLine)
        ensures
            *r == self.spec_product(),
    {
        &self.product
    }

    /// Scans `line` and puts its tokens behind those already produced.
    pub fn parse_line(&mut self, line: &str)
        ensures
            final(self).spec_product().row_number == old(self).spec_product().row_number,
            tokens_view(final(self).spec_product().tokens@) == tokens_view(
                old(self).spec_product().tokens@,
            ) + scan(line@),
    {
        let ch_vec = chars_of(line);
        self.state = State::First;
        self.buf = String::new();
        let ghost before = tokens_view(self.product.tokens@);
        let mut column_number_of_token: usize = 1;
        let mut i: usize = 0;
        proof {
            assert(tokens_view(self.product.tokens@).subrange(0, before.len() as int) =~= before);
            assert(tokens_view(self.product.tokens@).subrange(
                before.len() as int,
                before.len() as int,
            ) + scan_from(line@, 0) =~= scan(line@));
        }
        while i < ch_vec.len()
            invariant
                ch_vec@ == line@,
                i <= ch_vec.len(),
                1 <= column_number_of_token <= i + 1,
                self.scanning(before, line@, i as int, column_number_of_token - 1),
                self.product.row_number == old(self).product.row_number,
            decreases ch_vec.len() - i,
        {
            let ch1 = if i + 1 < ch_vec.len() {
                Some(ch_vec[i + 1])
            } else {
                None
            };
            self.one_delay_loop(
                i,
                (ch_vec[i], ch1),
                &mut column_number_of_token,
                Ghost(before),
                Ghost(line@),
            );
            i += 1;
        }
        let ghost start = column_number_of_token - 1;
        let ghost mid = tokens_view(self.product.tokens@);
        self.flush(column_number_of_token);
        let end_of_line = Token::new(ch_vec.len(), "\n", TokenType::EndOfLine);
        proof {
            reveal_strlit("\n");
            assert(end_of_line@.value =~= seq!['\n']);
            assert(tokens_view(self.product.tokens@.push(end_of_line)) =~= tokens_view(
                self.product.tokens@,
            ).push(end_of_line@));
            let n = line@.len() as int;
            assert(scan_from(line@, n) =~= seq![end_of_line_token(line@.len())]);
            if start < n {
                assert(line@.subrange(start, n) == line@.subrange(start, token_end(line@, start)));
            }
            let fin = tokens_view(self.product.tokens@).push(end_of_line@);
            assert(fin =~= before + scan(line@)) by {
                assert(mid =~= before + mid.subrange(before.len() as int, mid.len() as int));
            }
        }
        self.product.tokens.push(end_of_line);
    }

    /// Takes the character at position `i`, knowing the one behind it.
    fn one_delay_loop(
        &mut self,
        i: usize,
        chars: (char, Option<char>),
        column_number_of_token: &mut usize,
        Ghost(before): Ghost<Seq<TokenView>>,
        Ghost(line): Ghost<Seq<char>>,
    )
        requires
            i < line.len(),
            i < usize::MAX,
            chars.0 == line[i as int],
            chars.1 == (if i + 1 < line.len() {
                Some(line[i + 1])
            } else {
                None
            }),
            1 <= *old(column_number_of_token) <= i + 1,
            old(self).scanning(before, line, i as int, *old(column_number_of_token) - 1),
        ensures
            1 <= *final(column_number_of_token) <= i + 2,
            final(self).scanning(before, line, i + 1, *final(column_number_of_token) - 1),
            final(self).product.row_number == old(self).product.row_number,
    {
        let ch0 = chars.0;
        let column_number = i + 1;
        let ghost start = *column_number_of_token - 1;
        let ghost mid = tokens_view(self.product.tokens@);
        let ghost blen = before.len() as int;
        proof {
            lemma_token_end_bounds(line, i as int);
        }
        match self.state {
            State::AlphabetCharacter => {
                self.flush(*column_number_of_token);
                self.buf.push(ch0);
                *column_number_of_token = column_number;
                self.buf_token_type = TokenType::AlphabetString;
                self.state = State::First;
                proof {
                    let now = tokens_view(self.product.tokens@);
                    assert(line.subrange(i as int, i + 1) =~= Seq::<char>::empty().push(ch0));
                    assert(token_end(line, start) == i);
                    assert(now.subrange(0, blen) =~= before);
                    assert(now.subrange(blen, now.len() as int) + scan_from(line, i as int)
                        =~= mid.subrange(blen, mid.len() as int) + scan_from(line, start));
                }
            },
            State::AlphabetString => {
                self.buf.push(ch0);
                proof {
                    assert(line.subrange(start, i + 1) =~= line.subrange(start, i as int).push(
                        ch0,
                    ));
                }
                match chars.1 {
                    Some(ch1) => {
                        match character_type(ch1) {
                            CharacterType::Alpha => {},
                            _ => {
                                self.state = State::First;
                            },
                        }
                    },
                    None => {
                        self.state = State::First;
                    },
                }
            },
            State::First => {
                self.flush(*column_number_of_token);
                self.buf.push(ch0);
                *column_number_of_token = column_number;
                let t = character_type(ch0);
                self.buf_token_type = token_type_of(t);
                proof {
                    let now = tokens_view(self.product.tokens@);
                    assert(line.subrange(i as int, i + 1) =~= Seq::<char>::empty().push(ch0));
                    assert(now.subrange(0, blen) =~= before);
                    assert(now.subrange(blen, now.len() as int) + scan_from(line, i as int)
                        =~= mid.subrange(blen, mid.len() as int) + scan_from(line, start));
                }
                match chars.1 {
                    Some(ch1) => {
                        let t1 = character_type(ch1);
                        match t {
                            CharacterType::Alpha => {
                                if t1 == CharacterType::Alpha {
                                    self.state = State::AlphabetString;
                                }
                            },
                            CharacterType::Backslash => {
                                if t1 == CharacterType::Alpha {
                                    self.state = State::AlphabetCharacter;
                                }
                            },
                            CharacterType::Digit => {
                                if t1 == CharacterType::Digit {
                                    self.state = State::NumeralString;
                                }
                            },
                            CharacterType::Whitespace => {
                                if t1 == CharacterType::Whitespace {
                                    self.state = State::WhiteSpaceString;
                                }
                            },
                            _ => {},
                        }
                    },
                    None => {},
                }
            },
            State::NumeralString => {
                self.buf.push(ch0);
                proof {
                    assert(line.subrange(start, i + 1) =~= line.subrange(start, i as int).push(
                        ch0,
                    ));
                }
                match chars.1 {
                    Some(ch1) => {
                        match character_type(ch1) {
                            CharacterType::Digit => {},
                            _ => {
                                self.state = State::First;
                            },
                        }
                    },
                    None => {
                        self.state = State::First;
                    },
                }
            },
            State::WhiteSpaceString => {
                self.buf.push(ch0);
                proof {
                    assert(line.subrange(start, i + 1) =~= line.subrange(start, i as int).push(
                        ch0,
                    ));
                }
                match chars.1 {
                    Some(ch1) => {
                        match character_type(ch1) {
                            CharacterType::Whitespace => {},
                            _ => {
                                self.state = State::First;
                            },
                        }
                    },
                    None => {
                        self.state = State::First;
                    },
                }
            },
        }
    }
}

} // verus!
