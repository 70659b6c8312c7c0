//! The move orderer.
//!
//! Each candidate move gets a sort key: captures are searched first, then
//! promotions, then moves that give check, then the rest in their original
//! enumeration order. The ordering only accelerates alpha-beta pruning; it
//! never changes which value the search computes, so its contract is an
//! exact description of the produced sequence, together with laws that it
//! is sorted by key and a permutation of its input.

use vstd::prelude::*;
use vstd::multiset::Multiset;
use crate::model::{Move, Occupant};
use crate::rules::{
    apply_move, checkers_count, checkers_of, child_of, moves_of, read_squares, squares_of,
};

verus! {

/// The sort key of move `m` in position `b`: lower keys are searched
/// earlier. A capture counts -10000, a promotion -8000, giving check -5000,
/// additively; a quiet move keeps key 0.
pub open spec fn spec_priority(b: chess::Board, m: Move) -> int {
    (if squares_of(b)[m.to as int] is Some {
        -10000int
    } else {
        0int
    }) + (if m.promotion is Some {
        -8000int
    } else {
        0int
    }) + (if checkers_of(child_of(b, m)) > 0 {
        -5000int
    } else {
        0int
    })
}

/// Whether the key marks a tactically significant move (capture, promotion
/// or check): exactly the moves whose child ply is extended.
pub open spec fn is_tactical_key(key: i32) -> bool {
    key < 0
}

/// The moves of `ms` paired with their keys in `b`, in input order.
pub open spec fn spec_keyed(b: chess::Board, ms: Seq<Move>) -> Seq<(Move, i32)> {
    Seq::new(ms.len(), |i: int| (ms[i], spec_priority(b, ms[i]) as i32))
}

/// Where a new entry of key `key` lands in the key-sorted sequence `s`: just
/// before the first entry with a strictly greater key, so entries of equal
/// key keep their arrival order.
pub open spec fn insert_position(s: Seq<(Move, i32)>, key: i32) -> int
    decreases s.len(),
{
    if s.len() == 0 {
        0
    } else if key < s[0].1 {
        0
    } else {
        1 + insert_position(s.drop_first(), key)
    }
}

/// One insertion-sort step: `x` placed at its position in `s`.
pub open spec fn spec_insert(s: Seq<(Move, i32)>, x: (Move, i32)) -> Seq<(Move, i32)> {
    s.insert(insert_position(s, x.1), x)
}

/// Insertion sort of the keyed entries, stable with respect to equal keys.
pub open spec fn spec_isort(s: Seq<(Move, i32)>) -> Seq<(Move, i32)>
    decreases s.len(),
{
    if s.len() == 0 {
        Seq::empty()
    } else {
        spec_insert(spec_isort(s.drop_last()), s.last())
    }
}

/// The ordered keyed moves of `ms` in position `b`.
pub open spec fn spec_ordered(b: chess::Board, ms: Seq<Move>) -> Seq<(Move, i32)> {
    spec_isort(spec_keyed(b, ms))
}

/// The entries stand in weakly ascending key order.
pub open spec fn sorted_by_key(s: Seq<(Move, i32)>) -> bool {
    forall|i: int, j: int| 0 <= i < j < s.len() ==> (#[trigger] s[i]).1 <= (#[trigger] s[j]).1
}

/// The insert position lies in the sequence, everything before it has a key
/// at most `key`, and the entry at it (if any) has a strictly greater key.
pub proof fn lemma_insert_position_props(s: Seq<(Move, i32)>, key: i32)
    ensures
        0 <= insert_position(s, key) <= s.len(),
        forall|j: int| 0 <= j < insert_position(s, key) ==> (#[trigger] s[j]).1 <= key,
        insert_position(s, key) < s.len() ==> key < s[insert_position(s, key)].1,
    decreases s.len(),
{
    if s.len() > 0 && !(key < s[0].1) {
        lemma_insert_position_props(s.drop_first(), key);
        assert forall|j: int| 0 <= j < insert_position(s, key) implies (#[trigger] s[j]).1
            <= key by {
            if j > 0 {
                assert(s[j] == s.drop_first()[j - 1]);
            }
        }
    }
}

/// A linear scan that stopped at `i` found exactly the insert position.
proof fn lemma_insert_position_is(s: Seq<(Move, i32)>, key: i32, i: int)
    requires
        0 <= i <= s.len(),
        forall|j: int| 0 <= j < i ==> !(key < (#[trigger] s[j]).1),
        i < s.len() ==> key < s[i].1,
    ensures
        insert_position(s, key) == i,
    decreases i,
{
    if i == 0 {
    } else {
        assert(!(key < s[0].1));
        lemma_insert_position_is(s.drop_first(), key, i - 1);
    }
}

/// Inserting an entry at its position keeps the sequence sorted by key.
proof fn lemma_insert_keeps_sorted(s: Seq<(Move, i32)>, x: (Move, i32))
    requires
        sorted_by_key(s),
    ensures
        sorted_by_key(spec_insert(s, x)),
{
    lemma_insert_position_props(s, x.1);
    let p = insert_position(s, x.1);
    let t = s.insert(p, x);
    s.insert_ensures(p, x);
    assert forall|i: int, j: int| 0 <= i < j < t.len() implies (#[trigger] t[i]).1 <= (
    #[trigger] t[j]).1 by {
        if i < p {
            assert(t[i] == s[i]);
        } else if i > p {
            assert(t[i] == s[i - 1]);
        }
        if j < p {
            assert(t[j] == s[j]);
        } else if j > p {
            assert(t[j] == s[j - 1]);
        }
    }
}

/// Inserting an entry adds exactly it to the sequence's multiset.
proof fn lemma_insert_multiset(s: Seq<(Move, i32)>, x: (Move, i32))
    ensures
        spec_insert(s, x).to_multiset() == s.to_multiset().insert(x),
{
    lemma_insert_position_props(s, x.1);
    broadcast use vstd::seq_lib::to_multiset_insert;

}

/// Law: the orderer only permutes. The ordered sequence is sorted by key and
/// holds exactly the keyed input entries, no more and no fewer.
pub proof fn lemma_isort_permutes(s: Seq<(Move, i32)>)
    ensures
        sorted_by_key(spec_isort(s)),
        spec_isort(s).to_multiset() == s.to_multiset(),
        spec_isort(s).len() == s.len(),
    decreases s.len(),
{
    broadcast use vstd::seq_lib::group_to_multiset_ensures;

    if s.len() == 0 {
        assert(s.to_multiset() =~= Multiset::empty());
    } else {
        let t = s.drop_last();
        lemma_isort_permutes(t);
        lemma_insert_keeps_sorted(spec_isort(t), s.last());
        lemma_insert_multiset(spec_isort(t), s.last());
        assert(t.push(s.last()) =~= s);
        assert(t.push(s.last()).to_multiset() == t.to_multiset().insert(s.last()));
        lemma_insert_position_props(spec_isort(t), s.last().1);
        spec_isort(t).insert_ensures(insert_position(spec_isort(t), s.last().1), s.last());
    }
}

/// Law: every ordered entry is one of the input moves, paired with that
/// move's own key, and the ordered sequence has the input's length.
pub proof fn lemma_ordered_elements(b: chess::Board, ms: Seq<Move>)
    ensures
        spec_ordered(b, ms).len() == ms.len(),
        forall|k: int| 0 <= k < ms.len() ==> ms.contains((#[trigger] spec_ordered(b, ms)[k]).0)
            && spec_ordered(b, ms)[k].1 as int == spec_priority(b, spec_ordered(b, ms)[k].0),
{
    broadcast use vstd::seq_lib::group_to_multiset_ensures;

    let keyed = spec_keyed(b, ms);
    let ord = spec_ordered(b, ms);
    lemma_isort_permutes(keyed);
    assert forall|k: int| 0 <= k < ms.len() implies ms.contains((#[trigger] ord[k]).0) && ord[k].1
        as int == spec_priority(b, ord[k].0) by {
        assert(ord.contains(ord[k]));
        assert(ord.to_multiset().count(ord[k]) > 0);
        assert(keyed.contains(ord[k]));
        let i = choose|i: int| 0 <= i < keyed.len() && keyed[i] == ord[k];
        assert(keyed[i] == (ms[i], spec_priority(b, ms[i]) as i32));
        assert(spec_priority(b, ms[i]) as i32 as int == spec_priority(b, ms[i]));
        assert(ms[i] == ord[k].0);
    }
}

/// The key of move `m` of position `board`, computed from the rules
/// provider's answers. `sqs` is the board's square list, read once and
/// shared by all the keys of one node.
fn move_priority(board: &chess::Board, sqs: &Vec<Option<Occupant>>, m: &Move) -> (r: i32)
    requires
        moves_of(*board).contains(*m),
        m.wf(),
        sqs@ == squares_of(*board),
        sqs@.len() == 64,
    ensures
        r as int == spec_priority(*board, *m),
{
    let mut p: i32 = 0;
    if sqs[m.to as usize].is_some() {
        p = p - 10000;
    }
    if m.promotion.is_some() {
        p = p - 8000;
    }
    let chl = apply_move(board, m);
    if checkers_count(&chl) > 0 {
        p = p - 5000;
    }
    p
}

/// Places `x` into the key-sorted vector `v`, keeping it sorted and placing
/// `x` after all entries of equal key.
fn insert_sorted(v: &mut Vec<(Move, i32)>, x: (Move, i32))
    ensures
        final(v)@ == spec_insert(old(v)@, x),
{
    let mut i: usize = 0;
    while i < v.len() && v[i].1 <= x.1
        invariant
            0 <= i <= v@.len(),
            *v == *old(v),
            forall|j: int| 0 <= j < i ==> !(x.1 < (#[trigger] v@[j]).1),
        decreases v@.len() - i,
    {
        i = i + 1;
    }
    proof {
        lemma_insert_position_is(v@, x.1, i as int);
    }
    v.insert(i, x);
}

/// Orders the candidate moves `moves` of position `board` best-first: keys
/// ascending, ties kept in input order. Returns each move with its key.
pub fn order_moves(board: &chess::Board, moves: &Vec<Move>) -> (r: Vec<(Move, i32)>)
    requires
        forall|i: int| 0 <= i < moves@.len() ==> moves_of(*board).contains(#[trigger] moves@[i])
            && moves@[i].wf(),
    ensures
        r@ == spec_ordered(*board, moves@),
{
    let sqs = read_squares(board);
    let mut keyed: Vec<(Move, i32)> = Vec::new();
    let mut i: usize = 0;
    while i < moves.len()
        invariant
            0 <= i <= moves@.len(),
            keyed@ == spec_keyed(*board, moves@).take(i as int),
            sqs@ == squares_of(*board),
            sqs@.len() == 64,
            forall|k: int| 0 <= k < moves@.len() ==> moves_of(*board).contains(#[trigger] moves@[k])
                && moves@[k].wf(),
        decreases moves@.len() - i,
    {
        let key = move_priority(board, &sqs, &moves[i]);
        keyed.push((moves[i], key));
        proof {
            assert(keyed@ =~= spec_keyed(*board, moves@).take(i + 1));
        }
        i = i + 1;
    }
    proof {
        assert(keyed@ =~= spec_keyed(*board, moves@));
    }
    let mut r: Vec<(Move, i32)> = Vec::new();
    let mut k: usize = 0;
    while k < keyed.len()
        invariant
            0 <= k <= keyed@.len(),
            keyed@ == spec_keyed(*board, moves@),
            r@ == spec_isort(keyed@.take(k as int)),
        decreases keyed@.len() - k,
    {
        insert_sorted(&mut r, keyed[k]);
        proof {
            assert(keyed@.take(k + 1).drop_last() =~= keyed@.take(k as int));
            assert(keyed@.take(k + 1).last() == keyed@[k as int]);
        }
        k = k + 1;
    }
    proof {
        assert(keyed@.take(keyed@.len() as int) =~= keyed@);
    }
    r
}

} // verus!
