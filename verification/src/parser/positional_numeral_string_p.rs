//! Positional numeral string parser: a fixed number of digits in a radix.

use vstd::prelude::*;
use crate::diagnostic::PResult;
use crate::diagnostic::PResultView;
use crate::diagnostic::ParserKind;
use crate::diagnostic::error_character;
use crate::diagnostic::spec_error_character;
use crate::numeric::digit_in;
use crate::numeric::spec_digit_in;
use crate::token::LookAheadCharacters;

verus! {

/// Takes `expected_digits` digits in `radix`, one character at a time.
#[derive(Debug)]
pub struct PositionalNumeralStringP {
    pub buffer: String,
    pub radix: u32,
    pub expected_digits: usize,
}

/// The mathematical content of a [`PositionalNumeralStringP`].
pub struct PositionalNumeralStringPView {
    pub buffer: Seq<char>,
    pub radix: u32,
    pub expected_digits: usize,
}

impl View for PositionalNumeralStringP {
    type V = PositionalNumeralStringPView;

    open spec fn view(&self) -> PositionalNumeralStringPView {
        PositionalNumeralStringPView {
            buffer: self.buffer@,
            radix: self.radix,
            expected_digits: self.expected_digits,
        }
    }
}

impl PositionalNumeralStringPView {
    /// The parser for digits in `radix`, before it is told how many.
    pub open spec fn new(radix: u32) -> Self {
        PositionalNumeralStringPView { buffer: Seq::empty(), radix, expected_digits: 0 }
    }

    /// One step: a digit is kept, and the construct ends with the last
    /// expected one; anything else, or a character too many, fails.
    pub open spec fn step(self, characters: LookAheadCharacters) -> (Self, PResultView) {
        if self.buffer.len() >= self.expected_digits {
            (
                self,
                spec_error_character(
                    ParserKind::PositionalNumeralString,
                    "End"@,
                    characters.current,
                ),
            )
        } else if spec_digit_in(characters.current.value, self.radix as int) is None {
            (
                self,
                spec_error_character(
                    ParserKind::PositionalNumeralString,
                    "Digits"@,
                    characters.current,
                ),
            )
        } else {
            let next = PositionalNumeralStringPView {
                buffer: self.buffer.push(characters.current.value),
                ..self
            };
            if next.buffer.len() == self.expected_digits {
                (next, PResultView::End)
            } else {
                (next, PResultView::Ongoing)
            }
        }
    }
}

impl PositionalNumeralStringP {
    /// The parser for digits in `radix`, before it is told how many.
    pub fn new(radix: u32) -> (r: Self)
        ensures
            r@ == PositionalNumeralStringPView::new(radix),
    {
        PositionalNumeralStringP { buffer: String::new(), radix, expected_digits: 0 }
    }

    /// Sets how many digits make the numeral.
    pub fn set_expected_digits(self, expected_digits: usize) -> (r: Self)
        ensures
            r@ == (PositionalNumeralStringPView { expected_digits, ..self@ }),
    {
        PositionalNumeralStringP { buffer: self.buffer, radix: self.radix, expected_digits }
    }

    /// Hands over the digits taken so far and forgets them.
    pub fn flush(&mut self) -> (r: String)
        ensures
            r@ == old(self)@.buffer,
            final(self)@ == (PositionalNumeralStringPView { buffer: Seq::empty(), ..old(self)@ }),
    {
        let mut m = String::new();
        std::mem::swap(&mut self.buffer, &mut m);
        m
    }

    /// Takes one character.
    pub fn parse(&mut self, characters: &LookAheadCharacters) -> (r: PResult)
        ensures
            (final(self)@, r@) == old(self)@.step(*characters),
    {
        let len = self.buffer.as_str().unicode_len();
        if len >= self.expected_digits {
            return error_character(
                ParserKind::PositionalNumeralString,
                "End",
                &characters.current,
            );
        }
        match digit_in(characters.current.value, self.radix) {
            None => error_character(
                ParserKind::PositionalNumeralString,
                "Digits",
                &characters.current,
            ),
            Some(_) => {
                self.buffer.push(characters.current.value);
                if len + 1 == self.expected_digits {
                    PResult::End
                } else {
                    PResult::Ongoing
                }
            },
        }
    }
}

} // verus!
