//! What every placed entity family shares: a longitudinal position, the
//! frontier of a family, and recycling of what fell behind.
use vstd::prelude::*;

verus! {

/// Largest magnitude of a longitudinal position (a billion units).
pub const COORD_LIMIT: i64 = 1_000_000_000_000;

/// A position that the simulation can hold without overflow.
pub open spec fn coord_ok(z: int) -> bool {
    -COORD_LIMIT <= z <= COORD_LIMIT
}

/// Distance ahead of the player inside which every generator places content.
pub const LOOKAHEAD_LIMIT: i64 = 1_000_000;

/// A player position from which everything placed ahead stays within [`coord_ok`].
pub open spec fn player_pos_ok(z: int) -> bool {
    -COORD_LIMIT <= z <= COORD_LIMIT - LOOKAHEAD_LIMIT
}

/// An entity that stands at a longitudinal position.
pub trait Placed {
    spec fn pos(&self) -> i64;

    fn z(&self) -> (r: i64)
        ensures
            r == self.pos(),
    ;
}

/// The positions of a sequence of entities, in order.
pub open spec fn positions<T: Placed>(s: Seq<T>) -> Seq<i64> {
    Seq::new(s.len(), |i: int| s[i].pos())
}

/// The largest of `from` and the positions in `zs`.
pub open spec fn furthest_z(zs: Seq<i64>, from: i64) -> i64
    decreases zs.len(),
{
    if zs.len() == 0 {
        from
    } else {
        let m = furthest_z(zs.drop_last(), from);
        if zs.last() > m {
            zs.last()
        } else {
            m
        }
    }
}

/// Keeps an entity that stands at or ahead of `limit`.
pub open spec fn at_or_ahead<T: Placed>(limit: i64) -> spec_fn(T) -> bool {
    |t: T| t.pos() >= limit
}

/// The frontier of a family: the largest of `from` and every position in `items`.
pub fn furthest_position<T: Placed>(items: &Vec<T>, from: i64) -> (r: i64)
    ensures
        r == furthest_z(positions(items@), from),
{
    let mut m = from;
    let mut i: usize = 0;
    while i < items.len()
        invariant
            0 <= i <= items.len(),
            m == furthest_z(positions(items@).take(i as int), from),
        decreases items.len() - i,
    {
        assert(positions(items@).take(i + 1).drop_last() =~= positions(items@).take(i as int));
        let z = items[i].z();
        if z > m {
            m = z;
        }
        i += 1;
    }
    assert(positions(items@).take(items.len() as int) =~= positions(items@));
    m
}

/// Removes every entity that stands behind `limit`, keeping the order of the
/// rest; the result marks, index by index, the entities that were removed.
pub fn retain_from<T: Placed + Copy>(items: &mut Vec<T>, limit: i64) -> (removed: Vec<bool>)
    ensures
        final(items)@ == old(items)@.filter(at_or_ahead::<T>(limit)),
        removed@.len() == old(items)@.len(),
        forall|i: int| 0 <= i < removed@.len() ==> removed@[i] == (old(items)@[i].pos() < limit),
{
    let ghost orig = items@;
    let mut kept: Vec<T> = Vec::new();
    let mut removed: Vec<bool> = Vec::new();
    let mut i: usize = 0;
    while i < items.len()
        invariant
            items@ == orig,
            0 <= i <= orig.len(),
            kept@ == orig.take(i as int).filter(at_or_ahead::<T>(limit)),
            removed@.len() == i,
            forall|j: int| 0 <= j < i ==> removed@[j] == (orig[j].pos() < limit),
        decreases orig.len() - i,
    {
        proof {
            reveal(Seq::filter);
            assert(orig.take(i + 1).drop_last() =~= orig.take(i as int));
        }
        let it = items[i];
        let behind = it.z() < limit;
        if !behind {
            kept.push(it);
        }
        removed.push(behind);
        i += 1;
    }
    assert(orig.take(orig.len() as int) =~= orig);
    *items = kept;
    removed
}

/// Keeping what stands at or ahead of `limit` from a sequence whose first
/// `m` entities stand behind it and the rest do not leaves the suffix from `m`.
pub proof fn lemma_filter_suffix<T: Placed>(s: Seq<T>, limit: i64, m: int)
    requires
        0 <= m <= s.len(),
        forall|i: int| 0 <= i < m ==> (#[trigger] s[i]).pos() < limit,
        forall|i: int| m <= i < s.len() ==> (#[trigger] s[i]).pos() >= limit,
    ensures
        s.filter(at_or_ahead::<T>(limit)) == s.subrange(m, s.len() as int),
    decreases s.len(),
{
    reveal(Seq::filter);
    if s.len() > 0 {
        let d = s.drop_last();
        if m == s.len() {
            lemma_filter_suffix(d, limit, m - 1);
            assert(s.subrange(m, s.len() as int) =~= d.subrange(m - 1, d.len() as int));
        } else {
            assert forall|i: int| 0 <= i < m implies (#[trigger] d[i]).pos() < limit by {
                assert(d[i] == s[i]);
            }
            assert forall|i: int| m <= i < d.len() implies (#[trigger] d[i]).pos() >= limit by {
                assert(d[i] == s[i]);
            }
            lemma_filter_suffix(d, limit, m);
            assert(s.subrange(m, s.len() as int) =~= d.subrange(m, d.len() as int).push(s.last()));
        }
    }
}

/// The frontier of entities whose positions are within [`coord_ok`] is
/// within it too, and at least `from`.
pub proof fn lemma_frontier_in_range<T: Placed>(items: Seq<T>, from: i64)
    requires
        coord_ok(from as int),
        forall|i: int| 0 <= i < items.len() ==> coord_ok((#[trigger] items[i]).pos() as int),
    ensures
        coord_ok(furthest_z(positions(items), from) as int),
        furthest_z(positions(items), from) >= from,
    decreases items.len(),
{
    if items.len() > 0 {
        let d = items.drop_last();
        assert(positions(items).drop_last() =~= positions(d));
        assert forall|i: int| 0 <= i < d.len() implies coord_ok((#[trigger] d[i]).pos() as int) by {
            assert(d[i] == items[i]);
        }
        lemma_frontier_in_range(d, from);
        assert(coord_ok(items[items.len() - 1].pos() as int));
    }
}

} // verus!
