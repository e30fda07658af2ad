//! Lists in pieces of bounded size.

use vstd::prelude::*;

verus! {

/// The pieces of a list: `n` items each, the last with what is left; no piece
/// of an empty list.
pub open spec fn chunked<T>(s: Seq<T>, n: nat) -> Seq<Seq<T>>
    decreases s.len(),
{
    if s.len() == 0 || n == 0 {
        Seq::empty()
    } else if s.len() <= n {
        seq![s]
    } else {
        seq![s.take(n as int)] + chunked(s.skip(n as int), n)
    }
}

/// Pieces one behind the other.
pub open spec fn flat<T>(pieces: Seq<Seq<T>>) -> Seq<T>
    decreases pieces.len(),
{
    if pieces.len() == 0 {
        Seq::empty()
    } else {
        pieces[0] + flat(pieces.drop_first())
    }
}

/// What a list of lists holds.
pub open spec fn lists<T>(v: Seq<Vec<T>>) -> Seq<Seq<T>> {
    v.map_values(|piece: Vec<T>| piece@)
}

/// A list in pieces of `n` items.
pub fn split_list<T>(list: Vec<T>, n: usize) -> (r: Vec<Vec<T>>)
    requires
        n > 0,
    ensures
        lists(r@) == chunked(list@, n as nat),
{
    let ghost all = list@;
    let mut out: Vec<Vec<T>> = Vec::new();
    let mut rest = list;
    assert(lists(out@) + chunked(rest@, n as nat) =~= chunked(all, n as nat));
    while rest.len() > n
        invariant
            n > 0,
            lists(out@) + chunked(rest@, n as nat) == chunked(all, n as nat),
        decreases rest@.len(),
    {
        let ghost before = lists(out@);
        let ghost whole = rest@;
        let tail = rest.split_off(n);
        assert(rest@ =~= whole.take(n as int));
        assert(tail@ =~= whole.skip(n as int));
        let ghost first = rest@;
        out.push(rest);
        assert(lists(out@) =~= before.push(first));
        assert(before + (seq![first] + chunked(tail@, n as nat)) =~= before.push(first) + chunked(
            tail@,
            n as nat,
        ));
        rest = tail;
    }
    if rest.len() > 0 {
        let ghost before = lists(out@);
        let ghost last = rest@;
        out.push(rest);
        assert(lists(out@) =~= before + seq![last]);
    } else {
        assert(lists(out@) + chunked(rest@, n as nat) =~= lists(out@));
    }
    out
}

/// The pieces of a list are the list: nothing is lost, added or moved.
pub proof fn law_chunks_keep_everything<T>(s: Seq<T>, n: nat)
    requires
        n > 0,
    ensures
        flat(chunked(s, n)) == s,
    decreases s.len(),
{
    let pieces = chunked(s, n);
    if s.len() == 0 {
        assert(flat(pieces) =~= s);
    } else if s.len() <= n {
        assert(pieces.drop_first() =~= Seq::<Seq<T>>::empty());
        assert(flat(pieces.drop_first()) =~= Seq::<T>::empty());
        assert(flat(pieces) =~= s);
    } else {
        law_chunks_keep_everything(s.skip(n as int), n);
        assert(pieces.drop_first() =~= chunked(s.skip(n as int), n));
        assert(flat(pieces) =~= s);
    }
}

/// No piece is empty or larger than asked for, and only an empty list has
/// none.
pub proof fn law_chunks_are_bounded<T>(s: Seq<T>, n: nat)
    requires
        n > 0,
    ensures
        forall|i: int|
            0 <= i < chunked(s, n).len() ==> 0 < (#[trigger] chunked(s, n)[i]).len() <= n,
        chunked(s, n).len() == 0 <==> s.len() == 0,
    decreases s.len(),
{
    if s.len() > n {
        law_chunks_are_bounded(s.skip(n as int), n);
        let rest = chunked(s.skip(n as int), n);
        let all = chunked(s, n);
        assert forall|i: int| 0 <= i < all.len() implies 0 < (#[trigger] all[i]).len() <= n by {
            if i > 0 {
                assert(all[i] == rest[i - 1]);
            }
        }
    }
}

/// Every piece but the last has all the items it may have, and pieces come in
/// order: the first one is what the list starts with.
pub proof fn law_chunks_are_full<T>(s: Seq<T>, n: nat)
    requires
        n > 0,
    ensures
        s.len() == 0 ==> chunked(s, n).len() == 0,
        0 < s.len() <= n ==> chunked(s, n) == seq![s],
        s.len() > n ==> chunked(s, n) == seq![s.take(n as int)] + chunked(s.skip(n as int), n),
{
}

/// Pieces put one behind the other give all that each of them holds.
pub proof fn law_pieces_put_together<T>(pieces: Seq<Seq<T>>, piece: Seq<T>)
    ensures
        flat(Seq::<Seq<T>>::empty()) == Seq::<T>::empty(),
        flat(pieces.push(piece)) == flat(pieces) + piece,
    decreases pieces.len(),
{
    if pieces.len() == 0 {
        let all = pieces.push(piece);
        assert(all.drop_first() =~= Seq::<Seq<T>>::empty());
        assert(flat(all.drop_first()) == Seq::<T>::empty());
        assert(flat(all) =~= flat(pieces) + piece);
    } else {
        law_pieces_put_together(pieces.drop_first(), piece);
        assert(pieces.push(piece).drop_first() =~= pieces.drop_first().push(piece));
        assert(flat(pieces.push(piece)) =~= flat(pieces) + piece);
    }
}

/// A list of lists holds each of them, in order.
pub proof fn law_lists_say_what_they_hold<T>(v: Seq<Vec<T>>, i: int)
    ensures
        lists(v).len() == v.len(),
        0 <= i < v.len() ==> lists(v)[i] == v[i]@,
{
}

} // verus!
