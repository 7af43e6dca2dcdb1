//! Where tokens begin and end.

use vstd::prelude::*;
use crate::diagnostic::PResultView;
use crate::laws::stream::advance;
use crate::laws::stream::token_at;
use crate::laws::stream::window_pos;
use crate::lexer::lemma_token_end_bounds;
use crate::lexer::merges;
use crate::lexer::run_len;
use crate::lexer::stands_alone;
use crate::lexer::token_end;
use crate::token::CharacterType;
use crate::token::LookAheadTokensView;
use crate::token::TokenType;
use crate::token::spec_character_type;
use crate::token::spec_token_type_of;

verus! {

/// No token goes over position `b` of `line`: the line ends there, or the
/// character there does not merge, or is of another class than the one
/// before it.
pub open spec fn breaks_at(line: Seq<char>, b: int) -> bool {
    b <= 0 || b >= line.len() || !merges(spec_character_type(line[b])) || spec_character_type(
        line[b],
    ) != spec_character_type(line[b - 1])
}

/// The kind of the token that starts on the character `c`.
pub open spec fn kind_of(c: char) -> TokenType {
    spec_token_type_of(spec_character_type(c))
}

proof fn lemma_run_within(line: Seq<char>, p: int, b: int, t: CharacterType)
    requires
        0 < p <= b <= line.len(),
        spec_character_type(line[p - 1]) == t,
        merges(t),
        breaks_at(line, b),
    ensures
        p + run_len(line, p, t) <= b,
    decreases b - p,
{
    if p < b && spec_character_type(line[p]) == t {
        lemma_run_within(line, p + 1, b, t);
    }
}

/// A token that starts before a break ends at or before it.
pub proof fn lemma_token_within(line: Seq<char>, p: int, b: int)
    requires
        0 <= p < b <= line.len(),
        breaks_at(line, b),
    ensures
        p < token_end(line, p) <= b,
{
    lemma_token_end_bounds(line, p);
    if !stands_alone(line, p) {
        lemma_run_within(line, p + 1, b, spec_character_type(line[p]));
    }
}

proof fn lemma_run_classes(line: Seq<char>, p: int, t: CharacterType, j: int)
    requires
        0 <= p <= j < p + run_len(line, p, t),
    ensures
        j < line.len(),
        spec_character_type(line[j]) == t,
    decreases j - p,
{
    if j > p {
        lemma_run_classes(line, p + 1, t, j);
    }
}

/// The characters of a token are of the class of its first character.
pub proof fn lemma_token_classes(line: Seq<char>, p: int, j: int)
    requires
        0 <= p <= j < token_end(line, p),
        p < line.len(),
    ensures
        j < line.len(),
        spec_character_type(line[j]) == spec_character_type(line[p]),
        j > p ==> merges(spec_character_type(line[p])),
{
    if j > p {
        lemma_run_classes(line, p + 1, spec_character_type(line[p]), j);
    }
}

/// A token is its first character alone where that character does not
/// merge, or the next is of another class, or the line ends.
pub proof fn lemma_token_single(line: Seq<char>, p: int)
    requires
        0 <= p < line.len(),
        breaks_at(line, p + 1),
    ensures
        token_end(line, p) == p + 1,
        token_at(line, p).value == seq![line[p]],
        token_at(line, p).type_ == kind_of(line[p]),
{
    lemma_token_within(line, p, p + 1);
    assert(line.subrange(p, p + 1) =~= seq![line[p]]);
}

/// A parser that takes every token of some kinds by putting its text
/// behind what it holds, and asks for more, holds a whole stretch of
/// characters of these kinds once it has gone over it.
pub proof fn lemma_accumulate<S>(
    step: spec_fn(S, LookAheadTokensView) -> (S, PResultView),
    state_of: spec_fn(Seq<char>) -> S,
    takes: spec_fn(TokenType) -> bool,
    held: Seq<char>,
    line: Seq<char>,
    a: int,
    b: int,
)
    requires
        0 <= a <= b <= line.len(),
        breaks_at(line, b),
        forall|j: int| a <= j < b ==> takes(#[trigger] kind_of(line[j])),
        forall|x: Seq<char>, w: LookAheadTokensView|
            takes(w.current.type_) ==> #[trigger] step(state_of(x), w) == (
                state_of(x + w.current.value),
                PResultView::Ongoing,
            ),
    ensures
        advance(step, state_of(held), line, a, b) == Some(state_of(held + line.subrange(a, b))),
    decreases b - a,
{
    if a == b {
        assert(held + line.subrange(a, b) =~= held);
    } else {
        lemma_token_within(line, a, b);
        let e = token_end(line, a);
        let w = window_pos(line, a);
        assert(takes(kind_of(line[a])));
        assert(step(state_of(held), w) == (state_of(held + w.current.value), PResultView::Ongoing));
        lemma_accumulate(step, state_of, takes, held + w.current.value, line, e, b);
        assert(held + line.subrange(a, e) + line.subrange(e, b) =~= held + line.subrange(a, b));
    }
}

/// A token that begins with another character is no carriage return.
pub proof fn lemma_no_carriage_return(t: crate::token::TokenView)
    requires
        t.value.len() > 0,
        t.value[0] != '\r',
    ensures
        !crate::token::spec_is_carriage_return(t),
{
    assert(seq!['\r'][0] == '\r');
}

/// The texts of a token and of the tokens behind it, joined.
pub proof fn lemma_tokens_text_front(t: crate::token::TokenView, rest: Seq<crate::token::TokenView>)
    ensures
        crate::token::tokens_text(seq![t] + rest) == t.value + crate::token::tokens_text(rest),
    decreases rest.len(),
{
    let all = seq![t] + rest;
    if rest.len() == 0 {
        reveal_with_fuel(crate::token::tokens_text, 2);
        assert(all.drop_last() =~= Seq::<crate::token::TokenView>::empty());
        assert(all.last() == t);
        assert(crate::token::tokens_text(all) =~= t.value + crate::token::tokens_text(rest));
    } else {
        lemma_tokens_text_front(t, rest.drop_last());
        assert(all.drop_last() =~= seq![t] + rest.drop_last());
        assert(all.last() == rest.last());
        let inner = crate::token::tokens_text(rest.drop_last());
        assert(crate::token::tokens_text(all) == t.value + inner + rest.last().value);
        assert(crate::token::tokens_text(rest) == inner + rest.last().value);
        assert(t.value + inner + rest.last().value =~= t.value + (inner + rest.last().value));
    }
}

proof fn lemma_scan_from_text(line: Seq<char>, pos: int)
    requires
        0 <= pos <= line.len(),
    ensures
        crate::token::tokens_text(crate::lexer::scan_from(line, pos)) == line.subrange(
            pos,
            line.len() as int,
        ).push('\n'),
    decreases line.len() - pos,
{
    if pos < line.len() {
        lemma_token_end_bounds(line, pos);
        let e = token_end(line, pos);
        lemma_scan_from_text(line, e);
        lemma_tokens_text_front(token_at(line, pos), crate::lexer::scan_from(line, e));
        assert(line.subrange(pos, e) + line.subrange(e, line.len() as int).push('\n')
            =~= line.subrange(pos, line.len() as int).push('\n'));
    } else {
        let t = crate::lexer::end_of_line_token(line.len());
        lemma_tokens_text_front(t, Seq::empty());
        assert(seq![t] + Seq::<crate::token::TokenView>::empty() =~= seq![t]);
        assert(t.value + Seq::<char>::empty() =~= line.subrange(pos, line.len() as int).push(
            '\n',
        ));
    }
}

/// The texts of the tokens of a line, joined, are the line and a line
/// feed: the scanner loses nothing and adds nothing else.
pub proof fn law_scan_text(line: Seq<char>)
    ensures
        crate::token::tokens_text(crate::lexer::scan(line)) == line.push('\n'),
{
    lemma_scan_from_text(line, 0);
    assert(line.subrange(0, line.len() as int) =~= line);
}

} // verus!
