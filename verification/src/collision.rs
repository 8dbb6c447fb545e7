use vstd::prelude::*;

verus! {

use crate::geom::{dist_sq, pos_in_range, lemma_square_bound, COORD_LIMIT};
use crate::scene::{Player, Collider};

/// Two sphere colliders overlap when the distance between their centers is at
/// most the sum of their radii; stated over squared lengths, which is
/// equivalent since both sides are nonnegative.
pub open spec fn overlaps(c1: Collider, c2: Collider) -> bool {
    dist_sq(c1.pos, c2.pos) <= (c1.radius + c2.radius) * (c1.radius + c2.radius)
}

/// Sphere-sphere intersection test.
pub fn sphere_collision(c1: &Collider, c2: &Collider) -> (hit: bool)
    requires
        pos_in_range(c1.pos),
        pos_in_range(c2.pos),
    ensures
        hit == overlaps(*c1, *c2),
{
    let dx: i128 = (c1.pos.x as i128) - (c2.pos.x as i128);
    let dy: i128 = (c1.pos.y as i128) - (c2.pos.y as i128);
    let dz: i128 = (c1.pos.z as i128) - (c2.pos.z as i128);
    let rsum: i128 = (c1.radius as i128) + (c2.radius as i128);
    proof {
        lemma_square_bound(dx as int, 2 * COORD_LIMIT);
        lemma_square_bound(dy as int, 2 * COORD_LIMIT);
        lemma_square_bound(dz as int, 2 * COORD_LIMIT);
        lemma_square_bound(rsum as int, 0x2_0000_0000);
    }
    dx * dx + dy * dy + dz * dz <= rsum * rsum
}

/// Every collider position is within the coordinate range the arithmetic of
/// the sweep needs.
pub open spec fn all_in_range(cs: Seq<Collider>) -> bool {
    forall|k: int| 0 <= k < cs.len() ==> pos_in_range((#[trigger] cs[k]).pos)
}

/// An ordered pair of collider indices the sweep reports: the owners differ
/// and the spheres overlap.  Only owners are compared, never indices, so a
/// collider is never paired with itself yet a coinciding pair of distinct
/// owners is reported in both orders.
pub open spec fn pair_hits(cs: Seq<Collider>, i: int, j: int) -> bool {
    cs[i].owner != cs[j].owner && overlaps(cs[i], cs[j])
}

/// The reported pairs from enumeration position (i, j) onward, in enumeration
/// order: the inner index j runs over all colliders before the outer index i
/// advances.
pub open spec fn overlap_pairs_from(cs: Seq<Collider>, i: int, j: int) -> Seq<(usize, usize)>
    decreases cs.len() - i, cs.len() - j + 1,
{
    if i < 0 || j < 0 || i >= cs.len() {
        Seq::empty()
    } else if j >= cs.len() {
        overlap_pairs_from(cs, i + 1, 0)
    } else if pair_hits(cs, i, j) {
        seq![(i as usize, j as usize)] + overlap_pairs_from(cs, i, j + 1)
    } else {
        overlap_pairs_from(cs, i, j + 1)
    }
}

/// All pairs the sweep reports for one tick, in enumeration order.
pub open spec fn overlap_pairs(cs: Seq<Collider>) -> Seq<(usize, usize)> {
    overlap_pairs_from(cs, 0, 0)
}

/// The pairs reported from position (i, j) onward are exactly the hitting
/// pairs at or after (i, j) in enumeration order.
pub proof fn lemma_overlap_pairs_from_contains(cs: Seq<Collider>, i: int, j: int, p: (usize, usize))
    requires
        cs.len() <= usize::MAX,
        0 <= i,
        0 <= j <= cs.len(),
    ensures
        overlap_pairs_from(cs, i, j).contains(p) <==> {
            &&& p.0 < cs.len()
            &&& p.1 < cs.len()
            &&& pair_hits(cs, p.0 as int, p.1 as int)
            &&& p.0 > i || (p.0 == i && p.1 >= j)
        },
    decreases cs.len() - i, cs.len() - j + 1,
{
    broadcast use vstd::seq_lib::lemma_seq_empty_contains_nothing;
    broadcast use vstd::seq_lib::lemma_seq_concat_contains_all_elements;

    if i >= cs.len() {
        // nothing is reported and no pair at or after (i, j) is in range
    } else if j >= cs.len() {
        lemma_overlap_pairs_from_contains(cs, i + 1, 0, p);
    } else {
        lemma_overlap_pairs_from_contains(cs, i, j + 1, p);
        if pair_hits(cs, i, j) {
            let head = seq![(i as usize, j as usize)];
            assert(head.contains(p) <==> p == (i as usize, j as usize)) by {
                if head.contains(p) {
                    let k = choose|k: int| 0 <= k < head.len() && head[k] == p;
                    assert(head[0] == (i as usize, j as usize));
                }
                assert(head[0] == (i as usize, j as usize));
            }
        }
    }
}

/// Overlap is reported for a pair of distinct owners exactly when the squared
/// distance between the centers is at most the square of the summed radii.
pub proof fn lemma_overlap_reported_iff(cs: Seq<Collider>, i: int, j: int)
    requires
        cs.len() <= usize::MAX,
        0 <= i < cs.len(),
        0 <= j < cs.len(),
    ensures
        overlap_pairs(cs).contains((i as usize, j as usize)) <==> {
            &&& cs[i].owner != cs[j].owner
            &&& dist_sq(cs[i].pos, cs[j].pos) <= (cs[i].radius + cs[j].radius) * (cs[i].radius
                + cs[j].radius)
        },
{
    lemma_overlap_pairs_from_contains(cs, 0, 0, (i as usize, j as usize));
}

/// Two colliders with the same owner are never reported as a pair, whatever
/// the distance between them.
pub proof fn lemma_same_owner_never_paired(cs: Seq<Collider>, i: int, j: int)
    requires
        cs.len() <= usize::MAX,
        0 <= i < cs.len(),
        0 <= j < cs.len(),
        cs[i].owner == cs[j].owner,
    ensures
        !overlap_pairs(cs).contains((i as usize, j as usize)),
{
    lemma_overlap_pairs_from_contains(cs, 0, 0, (i as usize, j as usize));
}

/// Scan all ordered collider pairs and collect those of distinct owners whose
/// spheres overlap, in enumeration order.
pub fn detect_overlaps(colliders: &Vec<Collider>) -> (pairs: Vec<(usize, usize)>)
    requires
        all_in_range(colliders@),
    ensures
        pairs@ == overlap_pairs(colliders@),
        forall|t: int|
            0 <= t < pairs@.len() ==> (#[trigger] pairs@[t]).0 < colliders@.len() && pairs@[t].1
                < colliders@.len(),
{
    let n = colliders.len();
    let mut pairs: Vec<(usize, usize)> = Vec::new();
    let mut i: usize = 0;
    while i < n
        invariant
            all_in_range(colliders@),
            n == colliders@.len(),
            i <= n,
            pairs@ + overlap_pairs_from(colliders@, i as int, 0) == overlap_pairs(colliders@),
            forall|t: int|
                0 <= t < pairs@.len() ==> (#[trigger] pairs@[t]).0 < n && pairs@[t].1 < n,
        decreases n - i,
    {
        let mut j: usize = 0;
        while j < n
            invariant
                all_in_range(colliders@),
                n == colliders@.len(),
                i < n,
                j <= n,
                pairs@ + overlap_pairs_from(colliders@, i as int, j as int) == overlap_pairs(
                    colliders@,
                ),
                forall|t: int|
                    0 <= t < pairs@.len() ==> (#[trigger] pairs@[t]).0 < n && pairs@[t].1 < n,
            decreases n - j,
        {
            let ghost prev = pairs@;
            let hit = if colliders[i].owner != colliders[j].owner {
                sphere_collision(&colliders[i], &colliders[j])
            } else {
                false
            };
            if hit {
                pairs.push((i, j));
            }
            proof {
                assert(pair_hits(colliders@, i as int, j as int) == hit);
                if hit {
                    assert(overlap_pairs_from(colliders@, i as int, j as int) == seq![(i, j)]
                        + overlap_pairs_from(colliders@, i as int, j + 1));
                    assert(pairs@ + overlap_pairs_from(colliders@, i as int, j + 1) =~= prev
                        + overlap_pairs_from(colliders@, i as int, j as int));
                } else {
                    assert(overlap_pairs_from(colliders@, i as int, j as int)
                        == overlap_pairs_from(colliders@, i as int, j + 1));
                }
            }
            j = j + 1;
        }
        proof {
            assert(overlap_pairs_from(colliders@, i as int, n as int) == overlap_pairs_from(
                colliders@,
                i + 1,
                0,
            ));
        }
        i = i + 1;
    }
    proof {
        assert(pairs@ + overlap_pairs_from(colliders@, n as int, 0) =~= pairs@);
    }
    pairs
}

/// The X coordinate the resolver teleports the first owner's player to: just
/// outside the second collider along the X axis, two first-collider radii
/// away.  An exact X tie is pushed toward negative X.
pub open spec fn resolve_x(c1: Collider, c2: Collider) -> int {
    if c1.pos.x > c2.pos.x {
        c2.pos.x + 2 * c1.radius
    } else {
        c2.pos.x - 2 * c1.radius
    }
}

/// A reported pair can be resolved when some player carries the first
/// collider's owner identifier.
pub open spec fn resolvable(ps: Seq<Player>, cs: Seq<Collider>, p: (usize, usize)) -> bool {
    exists|k: int| 0 <= k < ps.len() && ps[k].id == cs[p.0 as int].owner
}

/// The resolution one tick applies: reported pair t is the first in
/// enumeration order whose first owner has a player, and player k is the
/// first player carrying that identifier.
pub open spec fn first_resolution(ps: Seq<Player>, cs: Seq<Collider>, t: int, k: int) -> bool {
    let pairs = overlap_pairs(cs);
    &&& 0 <= t < pairs.len()
    &&& 0 <= k < ps.len()
    &&& ps[k].id == cs[pairs[t].0 as int].owner
    &&& forall|s: int| 0 <= s < t ==> !resolvable(ps, cs, pairs[s])
    &&& forall|m: int| 0 <= m < k ==> ps[m].id != cs[pairs[t].0 as int].owner
}

/// At most one (pair, player) combination is the first resolution.
pub proof fn lemma_first_resolution_unique(
    ps: Seq<Player>,
    cs: Seq<Collider>,
    t1: int,
    k1: int,
    t2: int,
    k2: int,
)
    requires
        first_resolution(ps, cs, t1, k1),
        first_resolution(ps, cs, t2, k2),
    ensures
        t1 == t2,
        k1 == k2,
{
    let pairs = overlap_pairs(cs);
    if t1 < t2 {
        assert(resolvable(ps, cs, pairs[t1]));
    }
    if t2 < t1 {
        assert(resolvable(ps, cs, pairs[t2]));
    }
}

/// One collision sweep: every reported pair raises one collision event until
/// the first pair whose first owner has a player; that player is teleported
/// along the X axis to sit just outside the second collider and the sweep
/// stops.  The number of events raised is returned.
pub fn check_for_collisions(players: &mut Vec<Player>, colliders: &Vec<Collider>) -> (events:
    usize)
    requires
        all_in_range(colliders@),
    ensures
        final(players)@.len() == old(players)@.len(),
        (forall|s: int|
            0 <= s < overlap_pairs(colliders@).len() ==> !resolvable(
                old(players)@,
                colliders@,
                #[trigger] overlap_pairs(colliders@)[s],
            )) ==> (events == overlap_pairs(colliders@).len() && final(players)@ == old(
            players,
        )@),
        (exists|s: int|
            0 <= s < overlap_pairs(colliders@).len() && resolvable(
                old(players)@,
                colliders@,
                #[trigger] overlap_pairs(colliders@)[s],
            )) ==> exists|t: int, k: int| first_resolution(old(players)@, colliders@, t, k),
        forall|t: int, k: int|
            #[trigger] first_resolution(old(players)@, colliders@, t, k) ==> {
                let pairs = overlap_pairs(colliders@);
                let c1 = colliders@[pairs[t].0 as int];
                let c2 = colliders@[pairs[t].1 as int];
                &&& events == t + 1
                &&& forall|m: int|
                    0 <= m < old(players)@.len() && m != k ==> final(players)@[m] == old(
                        players,
                    )@[m]
                &&& final(players)@[k].id == old(players)@[k].id
                &&& final(players)@[k].vel == old(players)@[k].vel
                &&& final(players)@[k].pos.y == old(players)@[k].pos.y
                &&& final(players)@[k].pos.z == old(players)@[k].pos.z
                &&& final(players)@[k].pos.x == resolve_x(c1, c2)
            },
{
    let pairs = detect_overlaps(colliders);
    let n = pairs.len();
    let mut events: usize = 0;
    let mut t: usize = 0;
    while t < n
        invariant
            all_in_range(colliders@),
            pairs@ == overlap_pairs(colliders@),
            n == pairs@.len(),
            forall|s: int|
                0 <= s < pairs@.len() ==> (#[trigger] pairs@[s]).0 < colliders@.len()
                    && pairs@[s].1 < colliders@.len(),
            t <= n,
            events == t,
            players@ == old(players)@,
            forall|s: int| 0 <= s < t ==> !resolvable(players@, colliders@, #[trigger] pairs@[s]),
        decreases n - t,
    {
        events = events + 1;
        let pair = pairs[t];
        let ci = pair.0;
        let cj = pair.1;
        let owner = colliders[ci].owner;
        let pn = players.len();
        let mut k: usize = 0;
        while k < pn
            invariant
                all_in_range(colliders@),
                pairs@ == overlap_pairs(colliders@),
                n == pairs@.len(),
                forall|s: int|
                    0 <= s < pairs@.len() ==> (#[trigger] pairs@[s]).0 < colliders@.len()
                        && pairs@[s].1 < colliders@.len(),
                t < n,
                events == t + 1,
                players@ == old(players)@,
                pn == players@.len(),
                k <= pn,
                pairs@[t as int] == (ci, cj),
                owner == colliders@[ci as int].owner,
                forall|s: int|
                    0 <= s < t ==> !resolvable(players@, colliders@, #[trigger] pairs@[s]),
                forall|m: int| 0 <= m < k ==> players@[m].id != owner,
            decreases pn - k,
        {
            if players[k].id == owner {
                proof {
                    assert(first_resolution(old(players)@, colliders@, t as int, k as int));
                }
                let c1 = colliders[ci];
                let c2 = colliders[cj];
                let newx: i64 = if c1.pos.x > c2.pos.x {
                    c2.pos.x + 2 * (c1.radius as i64)
                } else {
                    c2.pos.x - 2 * (c1.radius as i64)
                };
                let mut moved = players[k];
                moved.pos.x = newx;
                players.set(k, moved);
                proof {
                    assert forall|t2: int, k2: int|
                        #[trigger] first_resolution(
                            old(players)@,
                            colliders@,
                            t2,
                            k2,
                        ) implies t2 == t && k2 == k by {
                        lemma_first_resolution_unique(
                            old(players)@,
                            colliders@,
                            t2,
                            k2,
                            t as int,
                            k as int,
                        );
                    }
                }
                return events;
            }
            k = k + 1;
        }
        proof {
            assert(!resolvable(players@, colliders@, pairs@[t as int]));
        }
        t = t + 1;
    }
    proof {
        assert forall|t2: int, k2: int|
            !first_resolution(old(players)@, colliders@, t2, k2) by {
            if first_resolution(old(players)@, colliders@, t2, k2) {
                let pairs_s = overlap_pairs(colliders@);
                assert(resolvable(old(players)@, colliders@, pairs_s[t2]));
            }
        }
    }
    events
}

} // verus!
