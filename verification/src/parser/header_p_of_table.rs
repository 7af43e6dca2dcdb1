//! Header of table syntax parser.
//!
//! Example: `[name]`.

use vstd::prelude::*;
use crate::diagnostic::PResult;
use crate::diagnostic::PResultView;
use crate::model::HeaderOfTable;
use crate::token::LookAheadTokens;
use crate::token::LookAheadTokensView;
use crate::token::TokenType;

verus! {

/// Reads the name in the header of a table, from behind the opening
/// bracket on: every token joins the name as it stands, up to a double
/// quote, which ends it.
#[derive(Debug)]
pub struct HeaderPOfTable {
    pub buffer: Option<HeaderOfTable>,
}

/// The mathematical content of a [`HeaderPOfTable`].
pub struct HeaderPOfTableView {
    pub buffer: Option<Seq<char>>,
}

impl View for HeaderPOfTable {
    type V = HeaderPOfTableView;

    open spec fn view(&self) -> HeaderPOfTableView {
        HeaderPOfTableView {
            buffer: match self.buffer {
                Some(m) => Some(m@),
                None => None,
            },
        }
    }
}

impl HeaderPOfTableView {
    /// The parser before its first token.
    pub open spec fn new() -> Self {
        HeaderPOfTableView { buffer: Some(Seq::empty()) }
    }

    /// The name read so far.
    pub open spec fn text(self) -> Seq<char> {
        match self.buffer {
            Some(s) => s,
            None => Seq::empty(),
        }
    }

    /// One step: a double quote ends the name, and any other token joins
    /// it as it stands.
    pub open spec fn step(self, tokens: LookAheadTokensView) -> (Self, PResultView) {
        if tokens.current.type_ == TokenType::DoubleQuotation {
            (self, PResultView::End)
        } else {
            (
                HeaderPOfTableView { buffer: Some(self.text() + tokens.current.value) },
                PResultView::Ongoing,
            )
        }
    }
}

impl HeaderPOfTable {
    /// Hands over the name read so far, if any, and forgets it.
    pub fn flush(&mut self) -> (r: Option<HeaderOfTable>)
        ensures
            match r {
                Some(m) => old(self)@.buffer == Some(m@),
                None => old(self)@.buffer is None,
            },
            final(self)@ == (HeaderPOfTableView { buffer: None }),
    {
        self.buffer.take()
    }

    /// The parser before its first token.
    pub fn new() -> (r: Self)
        ensures
            r@ == HeaderPOfTableView::new(),
    {
        HeaderPOfTable { buffer: Some(HeaderOfTable::default()) }
    }

    /// Takes one token.
    pub fn parse(&mut self, tokens: &LookAheadTokens) -> (r: PResult)
        ensures
            (final(self)@, r@) == old(self)@.step(tokens@),
    {
        match tokens.current.type_ {
            TokenType::DoubleQuotation => {
                // End of syntax.
                PResult::End
            },
            _ => {
                let mut m = match self.buffer.take() {
                    Some(m) => m,
                    None => HeaderOfTable::default(),
                };
                m.push_token(tokens.current);
                self.buffer = Some(m);
                PResult::Ongoing
            },
        }
    }
}

} // verus!
