//! Tokens by the position they start at, and parsers run over them.

use vstd::prelude::*;
use crate::diagnostic::PResultView;
use crate::lexer::end_of_line_token;
use crate::lexer::lemma_token_end_bounds;
use crate::lexer::scan;
use crate::lexer::scan_from;
use crate::lexer::token_end;
use crate::token::LookAheadTokensView;
use crate::token::TokenView;
use crate::token::spec_character_type;
use crate::token::spec_token_type_of;
use crate::token::window_at;

verus! {

/// The token that starts at position `pos` of `line`; behind the last
/// character, the end-of-line token.
pub open spec fn token_at(line: Seq<char>, pos: int) -> TokenView {
    if 0 <= pos < line.len() {
        TokenView {
            column_number: (pos + 1) as nat,
            value: line.subrange(pos, token_end(line, pos)),
            type_: spec_token_type_of(spec_character_type(line[pos])),
        }
    } else {
        end_of_line_token(line.len())
    }
}

/// What a parser sees at position `pos` of `line`: the token that starts
/// there and the one behind it.
pub open spec fn window_pos(line: Seq<char>, pos: int) -> LookAheadTokensView {
    LookAheadTokensView {
        current: token_at(line, pos),
        one_ahead: if 0 <= pos < line.len() {
            Some(token_at(line, token_end(line, pos)))
        } else {
            None
        },
    }
}

/// The token with index `i` of the line starts at position `pos`.
pub open spec fn starts_at(line: Seq<char>, i: int, pos: int) -> bool {
    &&& 0 <= i < scan(line).len()
    &&& 0 <= pos <= line.len()
    &&& scan(line).subrange(i, scan(line).len() as int) == scan_from(line, pos)
}

pub proof fn lemma_starts_at_zero(line: Seq<char>)
    ensures
        starts_at(line, 0, 0),
{
    lemma_scan_from_nonempty(line, 0);
    assert(scan(line).subrange(0, scan(line).len() as int) =~= scan_from(line, 0));
}

pub proof fn lemma_scan_from_nonempty(line: Seq<char>, pos: int)
    ensures
        scan_from(line, pos).len() >= 1,
        scan_from(line, pos)[0] == token_at(line, pos),
{
    if 0 <= pos < line.len() {
        lemma_token_end_bounds(line, pos);
    }
}

/// The window at the index of a token is the window at its position, and
/// the next index is that of the token behind it.
pub proof fn lemma_starts_at_next(line: Seq<char>, i: int, pos: int)
    requires
        starts_at(line, i, pos),
    ensures
        window_at(scan(line), i) == window_pos(line, pos),
        pos < line.len() ==> starts_at(line, i + 1, token_end(line, pos)),
        pos == line.len() ==> i + 1 == scan(line).len(),
{
    let tokens = scan(line);
    let rest = tokens.subrange(i, tokens.len() as int);
    lemma_scan_from_nonempty(line, pos);
    assert(tokens[i] == rest[0]);
    if pos < line.len() {
        let e = token_end(line, pos);
        lemma_token_end_bounds(line, pos);
        lemma_scan_from_nonempty(line, e);
        let tail = scan_from(line, e);
        assert(rest =~= seq![token_at(line, pos)] + tail);
        assert(rest.len() == 1 + tail.len());
        assert(tokens.subrange(i + 1, tokens.len() as int) =~= tail) by {
            assert forall|k: int| 0 <= k < tail.len() implies tokens.subrange(
                i + 1,
                tokens.len() as int,
            )[k] == tail[k] by {
                assert(tokens[i + 1 + k] == rest[1 + k]);
            }
        }
        assert(tokens[i + 1] == rest[1]);
        assert(rest[1] == tail[0]);
    } else {
        assert(rest.len() == 1);
    }
}

/// The state of a parser that starts in `s` at position `pos` of `line`
/// and takes every token up to position `q`, each with the answer that
/// more is needed; nothing where a token gets another answer or `q` is
/// not where a token starts.
pub open spec fn advance<S>(
    step: spec_fn(S, LookAheadTokensView) -> (S, PResultView),
    s: S,
    line: Seq<char>,
    pos: int,
    q: int,
) -> Option<S>
    decreases q - pos,
{
    if pos == q {
        Some(s)
    } else if pos < 0 || pos > q || pos >= line.len() || token_end(line, pos) > q {
        None
    } else {
        proof {
            lemma_token_end_bounds(line, pos);
        }
        let (s1, r) = step(s, window_pos(line, pos));
        if r is Ongoing {
            advance(step, s1, line, token_end(line, pos), q)
        } else {
            None
        }
    }
}

/// The state of a parser that starts in `s` at position `pos` of `line`,
/// takes every token up to position `q`, and answers that its construct
/// is complete to the last of them and that more is needed to each one
/// before; nothing otherwise.
pub open spec fn finish<S>(
    step: spec_fn(S, LookAheadTokensView) -> (S, PResultView),
    s: S,
    line: Seq<char>,
    pos: int,
    q: int,
) -> Option<S>
    decreases q - pos,
{
    if pos < 0 || pos >= q || pos >= line.len() || token_end(line, pos) > q {
        None
    } else {
        proof {
            lemma_token_end_bounds(line, pos);
        }
        let (s1, r) = step(s, window_pos(line, pos));
        if token_end(line, pos) == q {
            if r is End {
                Some(s1)
            } else {
                None
            }
        } else if r is Ongoing {
            finish(step, s1, line, token_end(line, pos), q)
        } else {
            None
        }
    }
}

/// One token, to which the parser answers that more is needed.
pub proof fn lemma_advance_one<S>(
    step: spec_fn(S, LookAheadTokensView) -> (S, PResultView),
    s: S,
    line: Seq<char>,
    pos: int,
)
    requires
        0 <= pos < line.len(),
        step(s, window_pos(line, pos)).1 is Ongoing,
    ensures
        advance(step, s, line, pos, token_end(line, pos)) == Some(
            step(s, window_pos(line, pos)).0,
        ),
{
    lemma_token_end_bounds(line, pos);
    let e = token_end(line, pos);
    assert(advance(step, step(s, window_pos(line, pos)).0, line, e, e) == Some(
        step(s, window_pos(line, pos)).0,
    ));
}

/// One token, to which the parser answers that its construct is complete.
pub proof fn lemma_finish_one<S>(
    step: spec_fn(S, LookAheadTokensView) -> (S, PResultView),
    s: S,
    line: Seq<char>,
    pos: int,
)
    requires
        0 <= pos < line.len(),
        step(s, window_pos(line, pos)).1 is End,
    ensures
        finish(step, s, line, pos, token_end(line, pos)) == Some(
            step(s, window_pos(line, pos)).0,
        ),
{
    lemma_token_end_bounds(line, pos);
}

/// Two stretches, one behind the other, make one.
pub proof fn lemma_advance_advance<S>(
    step: spec_fn(S, LookAheadTokensView) -> (S, PResultView),
    s: S,
    line: Seq<char>,
    pos: int,
    mid: int,
    q: int,
)
    requires
        advance(step, s, line, pos, mid) is Some,
        advance(step, advance(step, s, line, pos, mid)->0, line, mid, q) is Some,
        pos <= mid <= q,
    ensures
        advance(step, s, line, pos, q) == advance(
            step,
            advance(step, s, line, pos, mid)->0,
            line,
            mid,
            q,
        ),
    decreases mid - pos,
{
    if pos < mid {
        lemma_token_end_bounds(line, pos);
        let (s1, r) = step(s, window_pos(line, pos));
        lemma_advance_reaches(step, s1, line, token_end(line, pos), mid);
        lemma_advance_advance(step, s1, line, token_end(line, pos), mid, q);
    }
}

/// A stretch that can be taken does not begin behind its end.
pub proof fn lemma_advance_reaches<S>(
    step: spec_fn(S, LookAheadTokensView) -> (S, PResultView),
    s: S,
    line: Seq<char>,
    pos: int,
    q: int,
)
    requires
        advance(step, s, line, pos, q) is Some,
    ensures
        pos <= q,
        pos < q ==> 0 <= pos < line.len(),
{
}

/// A stretch, and behind it a stretch to the end of the construct, make
/// one stretch to the end of the construct.
pub proof fn lemma_advance_finish<S>(
    step: spec_fn(S, LookAheadTokensView) -> (S, PResultView),
    s: S,
    line: Seq<char>,
    pos: int,
    mid: int,
    q: int,
)
    requires
        advance(step, s, line, pos, mid) is Some,
        finish(step, advance(step, s, line, pos, mid)->0, line, mid, q) is Some,
    ensures
        finish(step, s, line, pos, q) == finish(
            step,
            advance(step, s, line, pos, mid)->0,
            line,
            mid,
            q,
        ),
    decreases mid - pos,
{
    if pos < mid {
        lemma_token_end_bounds(line, pos);
        let (s1, r) = step(s, window_pos(line, pos));
        lemma_advance_reaches(step, s1, line, token_end(line, pos), mid);
        lemma_advance_finish(step, s1, line, token_end(line, pos), mid, q);
    }
}

/// A parser that hands every token to a parser of its own, and answers
/// that more is needed whenever that one does, goes where that one goes.
pub proof fn lemma_delegate_advance<C, P>(
    child: spec_fn(C, LookAheadTokensView) -> (C, PResultView),
    parent: spec_fn(P, LookAheadTokensView) -> (P, PResultView),
    embed: spec_fn(C) -> P,
    c: C,
    line: Seq<char>,
    pos: int,
    q: int,
)
    requires
        advance(child, c, line, pos, q) is Some,
        forall|x: C, w: LookAheadTokensView| #[trigger]
            child(x, w).1 is Ongoing ==> parent(embed(x), w) == (
                embed(child(x, w).0),
                PResultView::Ongoing,
            ),
    ensures
        advance(parent, embed(c), line, pos, q) == Some(
            embed(advance(child, c, line, pos, q)->0),
        ),
    decreases q - pos,
{
    if pos != q {
        lemma_token_end_bounds(line, pos);
        let w = window_pos(line, pos);
        assert(child(c, w).1 is Ongoing);
        lemma_delegate_advance(child, parent, embed, child(c, w).0, line, token_end(line, pos), q);
    }
}

/// A parser that hands every token to a parser of its own goes on where
/// that one completes its construct, provided that it leaves a `good`
/// state: what the parser does then is `on_end`.
pub proof fn lemma_delegate_finish<C, P>(
    child: spec_fn(C, LookAheadTokensView) -> (C, PResultView),
    parent: spec_fn(P, LookAheadTokensView) -> (P, PResultView),
    embed: spec_fn(C) -> P,
    good: spec_fn(C) -> bool,
    on_end: spec_fn(C) -> (P, PResultView),
    c: C,
    line: Seq<char>,
    pos: int,
    q: int,
)
    requires
        finish(child, c, line, pos, q) is Some,
        good(finish(child, c, line, pos, q)->0),
        forall|x: C, w: LookAheadTokensView| #[trigger]
            child(x, w).1 is Ongoing ==> parent(embed(x), w) == (
                embed(child(x, w).0),
                PResultView::Ongoing,
            ),
        forall|x: C, w: LookAheadTokensView| #[trigger]
            child(x, w).1 is End && good(child(x, w).0) ==> parent(embed(x), w) == on_end(
                child(x, w).0,
            ),
    ensures
        on_end(finish(child, c, line, pos, q)->0).1 is Ongoing ==> advance(
            parent,
            embed(c),
            line,
            pos,
            q,
        ) == Some(on_end(finish(child, c, line, pos, q)->0).0),
        on_end(finish(child, c, line, pos, q)->0).1 is End ==> finish(
            parent,
            embed(c),
            line,
            pos,
            q,
        ) == Some(on_end(finish(child, c, line, pos, q)->0).0),
    decreases q - pos,
{
    lemma_token_end_bounds(line, pos);
    let w = window_pos(line, pos);
    let e = token_end(line, pos);
    if e == q {
        assert(child(c, w).1 is End);
        let q1 = on_end(child(c, w).0).0;
        assert(advance(parent, q1, line, e, e) == Some(q1));
    } else {
        assert(child(c, w).1 is Ongoing);
        lemma_delegate_finish(child, parent, embed, good, on_end, child(c, w).0, line, e, q);
    }
}

/// The first step of a stretch to the end of a construct, where the
/// stretch has more than one token.
pub proof fn lemma_finish_unfold<S>(
    step: spec_fn(S, LookAheadTokensView) -> (S, PResultView),
    s: S,
    line: Seq<char>,
    pos: int,
    q: int,
)
    requires
        finish(step, s, line, pos, q) is Some,
        token_end(line, pos) != q,
    ensures
        step(s, window_pos(line, pos)).1 is Ongoing,
        finish(step, s, line, pos, q) == finish(
            step,
            step(s, window_pos(line, pos)).0,
            line,
            token_end(line, pos),
            q,
        ),
{
}

/// What `line` holds from position `a` on, where it holds `x` and then
/// `y`.
pub proof fn lemma_split(line: Seq<char>, a: int, x: Seq<char>, y: Seq<char>)
    requires
        0 <= a,
        a + x.len() + y.len() <= line.len(),
        line.subrange(a, a + x.len() + y.len()) == x + y,
    ensures
        line.subrange(a, a + x.len()) == x,
        line.subrange(a + x.len(), a + x.len() + y.len()) == y,
{
    let r = line.subrange(a, a + x.len() + y.len());
    assert forall|k: int| 0 <= k < x.len() implies line[a + k] == x[k] by {
        assert(line[a + k] == r[k]);
    }
    assert forall|k: int| 0 <= k < y.len() implies line[a + x.len() + k] == y[k] by {
        assert(line[a + x.len() + k] == r[x.len() + k]);
    }
    assert(line.subrange(a, a + x.len()) =~= x);
    assert(line.subrange(a + x.len(), a + x.len() + y.len()) =~= y);
}

} // verus!
