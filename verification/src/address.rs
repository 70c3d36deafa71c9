//! The address of a game's page, which ends in the name of the rulebook
//! and the name of the game: `.../game/standard/my-game`.

use vstd::prelude::*;

verus! {

/// The byte that separates the segments of an address.
pub const SLASH: u8 = 47;

/// A stretch of a text: the bytes from `from` up to, not including, `to`.
#[derive(Clone, Copy, Debug, PartialEq, Eq, Structural)]
pub struct Span {
    pub from: usize,
    pub to: usize,
}

/// Where an address names the rulebook and the game.
#[derive(Clone, Copy, Debug, PartialEq, Eq, Structural)]
pub struct GameAddress {
    pub rulebook: Span,
    pub name: Span,
}

/// Whether the span is a segment of the text: a stretch without a slash
/// that is not empty and cannot be made longer.
pub open spec fn is_segment(text: Seq<u8>, span: Span) -> bool {
    &&& span.from < span.to <= text.len()
    &&& forall|i: int| span.from <= i < span.to ==> text[i] != SLASH
    &&& (span.from == 0 || text[span.from - 1] == SLASH)
    &&& (span.to == text.len() || text[span.to as int] == SLASH)
}

/// Whether the text holds nothing but slashes from `from` up to `to`.
pub open spec fn only_slashes(text: Seq<u8>, from: int, to: int) -> bool {
    forall|i: int| from <= i < to ==> text[i] == SLASH
}

/// Whether the two spans are the last two segments of the text: the
/// game's name is the last segment, and the rulebook's name the one
/// before it.
pub open spec fn addresses(text: Seq<u8>, address: GameAddress) -> bool {
    &&& is_segment(text, address.rulebook)
    &&& is_segment(text, address.name)
    &&& address.rulebook.to <= address.name.from
    &&& only_slashes(text, address.rulebook.to as int, address.name.from as int)
    &&& only_slashes(text, address.name.to as int, text.len() as int)
}

/// The end of the last segment that ends at or before `end`; 0 when
/// there is none.
fn segment_end(text: &[u8], end: usize) -> (at: usize)
    requires
        end <= text@.len(),
    ensures
        at <= end,
        only_slashes(text@, at as int, end as int),
        at > 0 ==> text@[at - 1] != SLASH,
{
    let mut at = end;
    while at > 0 && text[at - 1] == SLASH
        invariant
            at <= end <= text@.len(),
            only_slashes(text@, at as int, end as int),
        decreases at,
    {
        at -= 1;
    }
    at
}

/// The start of the segment that ends at `end`.
fn segment_start(text: &[u8], end: usize) -> (at: usize)
    requires
        end <= text@.len(),
    ensures
        at <= end,
        forall|i: int| at <= i < end ==> text@[i] != SLASH,
        at == 0 || text@[at - 1] == SLASH,
{
    let mut at = end;
    while at > 0 && text[at - 1] != SLASH
        invariant
            at <= end <= text@.len(),
            forall|i: int| at <= i < end ==> text@[i] != SLASH,
        decreases at,
    {
        at -= 1;
    }
    at
}

/// A segment after which the text holds only slashes up to `limit`, where
/// a segment or the text ends, is the segment found from `limit`.
proof fn lemma_last_segment(text: Seq<u8>, span: Span, limit: int, from: int, to: int)
    requires
        is_segment(text, span),
        span.to <= limit <= text.len(),
        only_slashes(text, span.to as int, limit),
        0 <= from <= to <= limit,
        only_slashes(text, to, limit),
        to > 0 ==> text[to - 1] != SLASH,
        forall|i: int| from <= i < to ==> text[i] != SLASH,
        from == 0 || text[from - 1] == SLASH,
    ensures
        span.to == to,
        span.from == from,
{
    assert(text[span.to - 1] != SLASH);
    if span.to < to {
        assert(text[to - 1] == SLASH);
    }
    if to < span.to {
        assert(text[span.to - 1] == SLASH);
    }
    if span.from < from {
        assert(text[from - 1] != SLASH);
    }
    if from < span.from {
        assert(text[span.from - 1] != SLASH);
    }
}

/// Finds the names of the rulebook and of the game in an address: its
/// last two segments, whatever stands before them, and however many
/// slashes separate or follow them. `None` when the address has fewer
/// than two segments.
pub fn game_address(text: &[u8]) -> (found: Option<GameAddress>)
    ensures
        match found {
            Some(address) => addresses(text@, address),
            None => forall|address: GameAddress| !addresses(text@, address),
        },
{
    let name_to = segment_end(text, text.len());
    let name_from = segment_start(text, name_to);
    let rulebook_to = segment_end(text, name_from);
    let rulebook_from = segment_start(text, rulebook_to);
    proof {
        let name = Span { from: name_from, to: name_to };
        let rulebook = Span { from: rulebook_from, to: rulebook_to };
        assert forall|address: GameAddress| addresses(text@, address) implies address.name
            == name && address.rulebook == rulebook by {
            lemma_last_segment(
                text@,
                address.name,
                text@.len() as int,
                name_from as int,
                name_to as int,
            );
            lemma_last_segment(
                text@,
                address.rulebook,
                name_from as int,
                rulebook_from as int,
                rulebook_to as int,
            );
        }
    }
    if name_to == 0 || rulebook_to == 0 {
        None
    } else {
        Some(
            GameAddress {
                rulebook: Span { from: rulebook_from, to: rulebook_to },
                name: Span { from: name_from, to: name_to },
            },
        )
    }
}

/// An address names one rulebook and one game at most: two readings of
/// the same address agree.
pub proof fn law_address_is_read_one_way(text: Seq<u8>, a: GameAddress, b: GameAddress)
    requires
        addresses(text, a),
        addresses(text, b),
    ensures
        a == b,
{
    lemma_last_segment(
        text,
        a.name,
        text.len() as int,
        b.name.from as int,
        b.name.to as int,
    );
    lemma_last_segment(
        text,
        a.rulebook,
        b.name.from as int,
        b.rulebook.from as int,
        b.rulebook.to as int,
    );
}

} // verus!
