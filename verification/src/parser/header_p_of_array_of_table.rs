//! Header of array of table syntax parser.
//!
//! Example: `[[name]]`.

use vstd::prelude::*;
use crate::diagnostic::PResult;
use crate::diagnostic::PResultView;
use crate::model::HeaderOfArrayOfTable;
use crate::token::LookAheadTokens;
use crate::token::LookAheadTokensView;
use crate::token::TokenType;

verus! {

/// Reads the name in the header of an array of tables, from behind the opening
/// brackets on: every token joins the name as it stands, up to a double
/// quote, which ends it.
#[derive(Debug)]
pub struct HeaderPOfArrayOfTable {
    pub buffer: Option<HeaderOfArrayOfTable>,
}

/// The mathematical content of a [`HeaderPOfArrayOfTable`].
pub struct HeaderPOfArrayOfTableView {
    pub buffer: Option<Seq<char>>,
}

impl View for HeaderPOfArrayOfTable {
    type V = HeaderPOfArrayOfTableView;

    open spec fn view(&self) -> HeaderPOfArrayOfTableView {
        HeaderPOfArrayOfTableView {
            buffer: match self.buffer {
                Some(m) => Some(m@),
                None => None,
            },
        }
    }
}

impl HeaderPOfArrayOfTableView {
    /// The parser before its first token.
    pub open spec fn new() -> Self {
        HeaderPOfArrayOfTableView { buffer: Some(Seq::empty()) }
    }

    /// The name read so far.
    pub open spec fn text(self) -> Seq<char> {
        match self.buffer {
            Some(s) => s,
            None => Seq::empty(),
        }
    }

    /// One step: a double quote ends the name, and any other token joins
    /// it as it stands.
    pub open spec fn step(self, tokens: LookAheadTokensView) -> (Self, PResultView) {
        if tokens.current.type_ == TokenType::DoubleQuotation {
            (self, PResultView::End)
        } else {
            (
                HeaderPOfArrayOfTableView { buffer: Some(self.text() + tokens.current.value) },
                PResultView::Ongoing,
            )
        }
    }
}

impl HeaderPOfArrayOfTable {
    /// Hands over the name read so far, if any, and forgets it.
    pub fn flush(&mut self) -> (r: Option<HeaderOfArrayOfTable>)
        ensures
            match r {
                Some(m) => old(self)@.buffer == Some(m@),
                None => old(self)@.buffer is None,
            },
            final(self)@ == (HeaderPOfArrayOfTableView { buffer: None }),
    {
        self.buffer.take()
    }

    /// The parser before its first token.
    pub fn new() -> (r: Self)
        ensures
            r@ == HeaderPOfArrayOfTableView::new(),
    {
        HeaderPOfArrayOfTable { buffer: Some(HeaderOfArrayOfTable::default()) }
    }

    /// Takes one token.
    pub fn parse(&mut self, tokens: &LookAheadTokens) -> (r: PResult)
        ensures
            (final(self)@, r@) == old(self)@.step(tokens@),
    {
        match tokens.current.type_ {
            TokenType::DoubleQuotation => {
                // End of syntax.
                PResult::End
            },
            _ => {
                let mut m = match self.buffer.take() {
                    Some(m) => m,
                    None => HeaderOfArrayOfTable::default(),
                };
                m.push_token(tokens.current);
                self.buffer = Some(m);
                PResult::Ongoing
            },
        }
    }
}

} // verus!
