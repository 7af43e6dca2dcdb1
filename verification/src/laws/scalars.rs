//! Strings and unquoted scalars read back as they were written.

use vstd::prelude::*;
use crate::diagnostic::PResultView;
use crate::laws::lexing::breaks_at;
use crate::laws::lexing::kind_of;
use crate::laws::lexing::lemma_accumulate;
use crate::laws::lexing::lemma_token_classes;
use crate::laws::lexing::lemma_token_single;
use crate::laws::lexing::lemma_token_within;
use crate::laws::printable::is_literal_char;
use crate::laws::printable::printable_single_quoted;
use crate::laws::stream::advance;
use crate::laws::stream::finish;
use crate::laws::stream::lemma_advance_advance;
use crate::laws::stream::lemma_advance_finish;
use crate::laws::stream::lemma_advance_one;
use crate::laws::stream::lemma_finish_one;
use crate::laws::stream::token_at;
use crate::laws::stream::window_pos;
use crate::lexer::lemma_token_end_bounds;
use crate::lexer::token_end;
use crate::parser::double_quoted_string_p::DoubleQuotedStringPView;
use crate::parser::escape_sequence_p::EscapeSequencePView;
use crate::parser::literal_value_p::LiteralValuePView;
use crate::parser::single_quoted_string_p::SingleQuotedStringPView;
use crate::render::escape;
use crate::render::escape_char;
use crate::render::render_double_quoted;
use crate::render::render_single_quoted;
use crate::token::LookAheadTokensView;
use crate::token::TokenType;
use crate::token::tokens_text;

verus! {

pub open spec fn literal_step() -> spec_fn(LiteralValuePView, LookAheadTokensView) -> (
    LiteralValuePView,
    PResultView,
) {
    |s: LiteralValuePView, w: LookAheadTokensView| s.step(w)
}

pub open spec fn single_quoted_step() -> spec_fn(
    SingleQuotedStringPView,
    LookAheadTokensView,
) -> (SingleQuotedStringPView, PResultView) {
    |s: SingleQuotedStringPView, w: LookAheadTokensView| s.step(w)
}

pub open spec fn double_quoted_step() -> spec_fn(
    DoubleQuotedStringPView,
    LookAheadTokensView,
) -> (DoubleQuotedStringPView, PResultView) {
    |s: DoubleQuotedStringPView, w: LookAheadTokensView| s.step(w)
}

/// The literal's parser, over a stretch of characters that can stand in a
/// literal and up to one that cannot, ends with the stretch behind what
/// it held.
pub proof fn lemma_literal(line: Seq<char>, a: int, b: int, p: LiteralValuePView)
    requires
        0 <= a < b <= line.len(),
        p.state == crate::parser::literal_value_p::State::Body,
        forall|j: int| a <= j < b ==> is_literal_char(#[trigger] line[j]),
        b < line.len() ==> !is_literal_char(line[b]),
    ensures
        finish(literal_step(), p, line, a, b) == Some(
            LiteralValuePView {
                buffer: Some(p.text() + line.subrange(a, b)),
                state: crate::parser::literal_value_p::State::End,
            },
        ),
    decreases b - a,
{
    assert(breaks_at(line, b)) by {
        if b < line.len() {
            assert(is_literal_char(line[b - 1]));
        }
    }
    lemma_token_within(line, a, b);
    let e = token_end(line, a);
    let w = window_pos(line, a);
    assert(is_literal_char(line[a]));
    assert(w.current.value[0] == line[a]);
    if e == b {
        if b < line.len() && line[b] == '\r' {
            assert(line.subrange(b, b + 1) =~= seq!['\r']);
        }
    } else {
        assert(is_literal_char(line[e]));
        lemma_token_end_bounds(line, e);
        assert(token_at(line, e).value[0] == line[e]);
        let q1 = LiteralValuePView { buffer: Some(p.text() + w.current.value), ..p };
        assert(p.step(w) == (q1, PResultView::Ongoing));
        lemma_literal(line, e, b, q1);
        assert(p.text() + line.subrange(a, e) + line.subrange(e, b) =~= p.text()
            + line.subrange(a, b));
    }
}

/// A single-quoted string without a single quote in it reads back as it
/// was written.
pub proof fn lemma_single_quoted(line: Seq<char>, a: int, s: Seq<char>)
    requires
        0 <= a,
        a + s.len() + 2 <= line.len(),
        line.subrange(a, a + s.len() + 2) == render_single_quoted(s),
        printable_single_quoted(s),
    ensures
        finish(single_quoted_step(), SingleQuotedStringPView::new(), line, a, a + s.len() + 2)
            == Some(
            SingleQuotedStringPView {
                buffer: Some(s),
                state: crate::parser::single_quoted_string_p::State::End,
            },
        ),
{
    let step = single_quoted_step();
    let r = line.subrange(a, a + s.len() + 2);
    let b = a + 1 + s.len();
    assert(r[0] == '\'');
    assert(line[a] == r[0]);
    assert(r[b - a] == '\'');
    assert(line[b] == r[b - a]);
    assert forall|j: int| a + 1 <= j < b implies line[j] == s[j - a - 1] by {
        assert(line[j] == r[j - a]);
    }
    assert(line.subrange(a + 1, b) =~= s);
    // The opening quote.
    lemma_token_single(line, a);
    let p0 = SingleQuotedStringPView::new();
    let body = crate::parser::single_quoted_string_p::State::Body;
    let q1 = SingleQuotedStringPView { buffer: Some(Seq::<char>::empty()), state: body };
    assert(p0.text() + Seq::<char>::empty() =~= Seq::<char>::empty());
    assert(p0.step(window_pos(line, a)) == (q1, PResultView::Ongoing));
    lemma_advance_one(step, p0, line, a);
    // The content.
    let state_of = |x: Seq<char>| SingleQuotedStringPView { buffer: Some(x), state: body };
    let takes = |t: TokenType| t != TokenType::SingleQuotation && t != TokenType::EndOfLine;
    assert forall|j: int| a + 1 <= j < b implies takes(#[trigger] kind_of(line[j])) by {
        assert(s[j - a - 1] != '\'');
    }
    lemma_accumulate(step, state_of, takes, Seq::empty(), line, a + 1, b);
    assert(Seq::<char>::empty() + line.subrange(a + 1, b) =~= s);
    assert(state_of(Seq::empty()) == q1);
    lemma_advance_advance(step, p0, line, a, a + 1, b);
    // The closing quote.
    lemma_token_single(line, b);
    lemma_finish_one(step, state_of(s), line, b);
    lemma_advance_finish(step, p0, line, a, b, b + 1);
}

/// The way a string is written goes character by character from the
/// front too.
pub proof fn lemma_escape_front(s: Seq<char>)
    requires
        s.len() > 0,
    ensures
        escape(s) == escape_char(s[0]) + escape(s.drop_first()),
    decreases s.len(),
{
    if s.len() == 1 {
        assert(s.drop_last() =~= Seq::<char>::empty());
        assert(s.drop_first() =~= Seq::<char>::empty());
        assert(escape(s) =~= escape_char(s[0]) + escape(s.drop_first()));
    } else {
        lemma_escape_front(s.drop_last());
        assert(s.drop_last().drop_first() =~= s.drop_first().drop_last());
        assert(escape(s) =~= escape_char(s[0]) + escape(s.drop_first()));
    }
}

/// Whether `c` is written as it stands between double quotes.
pub open spec fn is_plain(c: char) -> bool {
    c != '"' && c != '\\' && c != '\n' && c != '\r' && c != '\t'
}

/// The character that stands behind the backslash where `c` is written.
pub open spec fn escape_letter(c: char) -> char {
    if c == '\n' {
        'n'
    } else if c == '\r' {
        'r'
    } else if c == '\t' {
        't'
    } else {
        c
    }
}

/// In a double-quoted string: what `line` holds from position `p` on is
/// how `s` is written, and the closing quote.
pub open spec fn holds_escaped(line: Seq<char>, p: int, s: Seq<char>) -> bool {
    &&& 0 <= p
    &&& p + escape(s).len() + 1 <= line.len()
    &&& line.subrange(p, p + escape(s).len() + 1) == escape(s) + seq!['"']
}

/// Where `line` holds how `s` is written, it begins with how the first
/// character of `s` is written, and goes on with how the rest is.
pub proof fn lemma_holds_escaped_front(line: Seq<char>, p: int, s: Seq<char>)
    requires
        holds_escaped(line, p, s),
    ensures
        s.len() == 0 ==> line[p] == '"',
        s.len() > 0 && is_plain(s[0]) ==> line[p] == s[0] && holds_escaped(
            line,
            p + 1,
            s.drop_first(),
        ),
        s.len() > 0 && !is_plain(s[0]) ==> line[p] == '\\' && line[p + 1] == escape_letter(s[0])
            && holds_escaped(line, p + 2, s.drop_first()),
{
    let r = line.subrange(p, p + escape(s).len() + 1);
    assert(line[p] == r[0]);
    if s.len() > 0 {
        lemma_escape_front(s);
        let head = escape_char(s[0]);
        let rest = escape(s.drop_first());
        assert(r =~= head + rest + seq!['"']);
        assert(line[p + 1] == r[1]);
        assert(line.subrange(p + head.len(), p + escape(s).len() + 1) =~= rest + seq!['"']) by {
            assert forall|k: int| 0 <= k < rest.len() + 1 implies line[p + head.len() + k] == (rest
                + seq!['"'])[k] by {
                assert(line[p + head.len() + k] == r[head.len() + k]);
            }
        }
    }
}

/// Where `line` holds how `s` is written and begins with `k` characters
/// that are neither a backslash nor a double quote, they are the first
/// `k` characters of `s`, written as they stand.
pub proof fn lemma_plain_stretch(line: Seq<char>, p: int, s: Seq<char>, k: int)
    requires
        holds_escaped(line, p, s),
        0 <= k,
        p + k <= line.len(),
        forall|j: int| p <= j < p + k ==> #[trigger] line[j] != '\\' && line[j] != '"',
    ensures
        k <= s.len(),
        line.subrange(p, p + k) == s.take(k),
        holds_escaped(line, p + k, s.skip(k)),
        escape(s).len() == k + escape(s.skip(k)).len(),
    decreases k,
{
    if k == 0 {
        assert(s.skip(0) =~= s);
        assert(line.subrange(p, p) =~= s.take(0));
    } else {
        lemma_holds_escaped_front(line, p, s);
        if s.len() > 0 {
            lemma_escape_front(s);
        }
        assert(line[p] != '\\' && line[p] != '"');
        lemma_plain_stretch(line, p + 1, s.drop_first(), k - 1);
        assert(s.drop_first().skip(k - 1) =~= s.skip(k));
        assert(line.subrange(p, p + k) =~= seq![line[p]] + line.subrange(p + 1, p + k));
        assert(s.take(k) =~= seq![s[0]] + s.drop_first().take(k - 1));
    }
}

/// The string's parser, between the quotes and with no escape sequence
/// under way, takes a character that is written behind a backslash.
pub proof fn lemma_escape_pair(line: Seq<char>, p: int, c: char, done: Seq<char>)
    requires
        0 <= p,
        p + 2 <= line.len(),
        !is_plain(c),
        line[p] == '\\',
        line[p + 1] == escape_letter(c),
    ensures
        advance(
            double_quoted_step(),
            DoubleQuotedStringPView {
                buffer: Some(done),
                escape_sequence_p: None,
                state: crate::parser::double_quoted_string_p::State::Body,
            },
            line,
            p,
            p + 2,
        ) == Some(
            DoubleQuotedStringPView {
                buffer: Some(done.push(c)),
                escape_sequence_p: None,
                state: crate::parser::double_quoted_string_p::State::Body,
            },
        ),
{
    reveal_with_fuel(DoubleQuotedStringPView::feed, 3);
    reveal_with_fuel(tokens_text, 2);
    let step = double_quoted_step();
    let body = crate::parser::double_quoted_string_p::State::Body;
    let p0 = DoubleQuotedStringPView { buffer: Some(done), escape_sequence_p: None, state: body };
    let x = escape_letter(c);
    // The backslash.
    lemma_token_single(line, p);
    assert(token_end(line, p + 1) == p + 2);
    assert(line.subrange(p + 1, p + 2) =~= seq![x]);
    let w0 = window_pos(line, p);
    assert(w0.current.value.len() == 1);
    assert(w0.one_ahead == Some(token_at(line, p + 1)));
    let e1 = EscapeSequencePView {
        state: crate::parser::escape_sequence_p::State::EscapedCharacter,
        ..EscapeSequencePView::new()
    };
    let q1 = DoubleQuotedStringPView { escape_sequence_p: Some(e1), ..p0 };
    assert(p0.step(w0) == (q1, PResultView::Ongoing));
    lemma_advance_one(step, p0, line, p);
    // The character behind it.
    let w1 = window_pos(line, p + 1);
    assert(w1.current.value =~= seq![x]);
    let q2 = DoubleQuotedStringPView { buffer: Some(done.push(c)), ..p0 };
    assert(done + seq![c] =~= done.push(c));
    assert(Seq::<crate::token::TokenView>::empty().push(
        crate::parser::escape_sequence_p::escaped(
            crate::token::character_at(w1.current, 0).column_number,
            c,
        ),
    ).drop_last() =~= Seq::<crate::token::TokenView>::empty());
    assert(q1.step(w1) == (q2, PResultView::Ongoing));
    lemma_advance_one(step, q1, line, p + 1);
    lemma_advance_advance(step, p0, line, p, p + 1, p + 2);
}

/// The string's parser, between the quotes and with no escape sequence
/// under way, reads the rest of the content and the closing quote.
pub proof fn lemma_double_quoted_body(line: Seq<char>, p: int, done: Seq<char>, s: Seq<char>)
    requires
        holds_escaped(line, p, s),
    ensures
        finish(
            double_quoted_step(),
            DoubleQuotedStringPView {
                buffer: Some(done),
                escape_sequence_p: None,
                state: crate::parser::double_quoted_string_p::State::Body,
            },
            line,
            p,
            p + escape(s).len() + 1,
        ) == Some(
            DoubleQuotedStringPView {
                buffer: Some(done + s),
                escape_sequence_p: None,
                state: crate::parser::double_quoted_string_p::State::End,
            },
        ),
    decreases s.len(),
{
    let step = double_quoted_step();
    let body = crate::parser::double_quoted_string_p::State::Body;
    let p0 = DoubleQuotedStringPView { buffer: Some(done), escape_sequence_p: None, state: body };
    let q = p + escape(s).len() + 1;
    lemma_holds_escaped_front(line, p, s);
    if s.len() == 0 {
        lemma_token_single(line, p);
        assert(done + s =~= done);
        lemma_finish_one(step, p0, line, p);
    } else if !is_plain(s[0]) {
        lemma_escape_front(s);
        lemma_escape_pair(line, p, s[0], done);
        lemma_double_quoted_body(line, p + 2, done.push(s[0]), s.drop_first());
        assert(done.push(s[0]) + s.drop_first() =~= done + s);
        lemma_advance_finish(step, p0, line, p, p + 2, q);
    } else {
        lemma_token_end_bounds(line, p);
        let e = token_end(line, p);
        let k = e - p;
        assert forall|j: int| p <= j < e implies #[trigger] line[j] != '\\' && line[j] != '"' by {
            lemma_token_classes(line, p, j);
        }
        lemma_plain_stretch(line, p, s, k);
        let w = window_pos(line, p);
        let q1 = DoubleQuotedStringPView { buffer: Some(done + s.take(k)), ..p0 };
        assert(p0.step(w) == (q1, PResultView::Ongoing));
        lemma_advance_one(step, p0, line, p);
        lemma_double_quoted_body(line, e, done + s.take(k), s.skip(k));
        assert(done + s.take(k) + s.skip(k) =~= done + s);
        lemma_advance_finish(step, p0, line, p, e, q);
    }
}

/// A double-quoted string reads back as it was written.
pub proof fn lemma_double_quoted(line: Seq<char>, a: int, s: Seq<char>)
    requires
        0 <= a,
        a + escape(s).len() + 2 <= line.len(),
        line.subrange(a, a + escape(s).len() + 2) == render_double_quoted(s),
    ensures
        finish(
            double_quoted_step(),
            DoubleQuotedStringPView::new(),
            line,
            a,
            a + escape(s).len() + 2,
        ) == Some(
            DoubleQuotedStringPView {
                buffer: Some(s),
                escape_sequence_p: None,
                state: crate::parser::double_quoted_string_p::State::End,
            },
        ),
{
    let step = double_quoted_step();
    let r = line.subrange(a, a + escape(s).len() + 2);
    let q = a + escape(s).len() + 2;
    assert(line[a] == r[0]);
    assert(line.subrange(a + 1, q) =~= escape(s) + seq!['"']) by {
        assert forall|k: int| 0 <= k < escape(s).len() + 1 implies line[a + 1 + k] == (escape(s)
            + seq!['"'])[k] by {
            assert(line[a + 1 + k] == r[1 + k]);
        }
    }
    lemma_token_single(line, a);
    let p0 = DoubleQuotedStringPView::new();
    let q1 = DoubleQuotedStringPView {
        buffer: Some(Seq::<char>::empty()),
        escape_sequence_p: None,
        state: crate::parser::double_quoted_string_p::State::Body,
    };
    assert(p0.text() + Seq::<char>::empty() =~= Seq::<char>::empty());
    assert(p0.step(window_pos(line, a)) == (q1, PResultView::Ongoing));
    lemma_advance_one(step, p0, line, a);
    lemma_double_quoted_body(line, a + 1, Seq::empty(), s);
    assert(Seq::<char>::empty() + s =~= s);
    lemma_advance_finish(step, p0, line, a, a + 1, q);
}

} // verus!
