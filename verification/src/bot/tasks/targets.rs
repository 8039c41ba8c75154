//! Which nodes are dug when nodes of one kind are collected.
//!
//! The caller computes distances, in floating point. It hands in, for each node
//! that [`collect_candidates`] finds, whether it is within the radius, and a rank:
//! a number by which distances are ordered.

use crate::types::IVec3;
use crate::world::{name_of_node, node_at, World, WorldView};
use std::collections::VecDeque;
use vstd::arithmetic::div_mod::lemma_fundamental_div_mod_converse;
use vstd::prelude::*;

verus! {

/// The radius within which nodes are collected.
pub open spec fn collect_radius(radius: i32) -> int {
    if radius < 1 {
        1
    } else if radius > 6 {
        6
    } else {
        radius as int
    }
}

/// How many targets are queued: the wanted number and a few substitutes, in case a
/// node changes, is protected, or cannot be reached.
pub open spec fn target_limit(count: u16) -> int {
    let wanted = if count < 1 {
        1int
    } else if count > 8 {
        8
    } else {
        count as int
    };
    if wanted + 3 < 8 {
        wanted + 3
    } else {
        8
    }
}

/// The positions of a cube around a node, by height, then along x, then along z.
pub open spec fn scan_pos(center: IVec3, radius: int, n: int) -> IVec3 {
    let side = 2 * radius + 1;
    IVec3 {
        y: (center.y - radius + n / (side * side)) as i32,
        x: (center.x - radius + (n / side) % side) as i32,
        z: (center.z - radius + n % side) as i32,
    }
}

pub open spec fn cube_size(radius: int) -> int {
    (2 * radius + 1) * (2 * radius + 1) * (2 * radius + 1)
}

/// A node of the given name, other than the preferred one.
pub open spec fn is_candidate(
    w: WorldView,
    name: Seq<char>,
    preferred: Option<IVec3>,
    p: IVec3,
) -> bool {
    preferred != Some(p) && match node_at(w, p) {
        Some(node) => name_of_node(w, node) == name,
        None => false,
    }
}

/// The candidates among the first `n` positions of the cube.
pub open spec fn candidates(
    w: WorldView,
    center: IVec3,
    radius: int,
    name: Seq<char>,
    preferred: Option<IVec3>,
    n: nat,
) -> Seq<IVec3>
    decreases n,
{
    if n == 0 {
        seq![]
    } else {
        let before = candidates(w, center, radius, name, preferred, (n - 1) as nat);
        let p = scan_pos(center, radius, n - 1);
        if is_candidate(w, name, preferred, p) {
            before.push(p)
        } else {
            before
        }
    }
}

/// A position far enough from the limits of the map that a cube around it is there.
pub open spec fn has_room(center: IVec3) -> bool {
    &&& i32::MIN + 6 <= center.x <= i32::MAX - 6
    &&& i32::MIN + 6 <= center.y <= i32::MAX - 6
    &&& i32::MIN + 6 <= center.z <= i32::MAX - 6
}

/// The nodes of the given name in the cube around a position, without the
/// preferred one.
pub fn collect_candidates(
    world: &World,
    center: IVec3,
    radius: i32,
    name: &str,
    preferred: Option<IVec3>,
) -> (found: Vec<IVec3>)
    requires
        world.wf(),
        has_room(center),
    ensures
        found@ == candidates(
            world@,
            center,
            collect_radius(radius),
            name@,
            preferred,
            cube_size(collect_radius(radius)) as nat,
        ),
{
    let r: i32 = if radius < 1 { 1 } else if radius > 6 { 6 } else { radius };
    let side: i32 = 2 * r + 1;
    let wanted = name.to_owned();
    let mut found: Vec<IVec3> = Vec::new();
    assert(1 <= r <= 6 && 3 <= side <= 13);
    assert(0 < side * side <= 169) by (nonlinear_arith)
        requires
            3 <= side <= 13,
    ;
    let plane: i32 = side * side;
    assert(0 < plane * side <= 2197) by (nonlinear_arith)
        requires
            3 <= side <= 13,
            0 < plane <= 169,
    ;
    let total: i32 = plane * side;
    let mut n: i32 = 0;
    while n < total
        invariant
            0 <= n <= total,
            1 <= r <= 6,
            side == 2 * r + 1,
            plane == side * side,
            total == plane * side,
            0 < plane <= 169,
            total <= 2197,
            r == collect_radius(radius),
            world.wf(),
            has_room(center),
            wanted@ == name@,
            found@ == candidates(world@, center, r as int, name@, preferred, n as nat),
        decreases total - n,
    {
        proof {
            scan_offsets(n as int, side as int);
        }
        let p = IVec3 {
            y: center.y - r + n / plane,
            x: center.x - r + (n / side) % side,
            z: center.z - r + n % side,
        };
        assert(p == scan_pos(center, r as int, n as int));
        let skipped = match preferred {
            Some(q) => q == p,
            None => false,
        };
        if !skipped {
            if let Some(node) = world.get_node(p) {
                if world.node_name(node) == wanted {
                    found.push(p);
                }
            }
        }
        n = n + 1;
    }
    found
}

proof fn scan_offsets(n: int, side: int)
    requires
        3 <= side <= 13,
        0 <= n < side * side * side,
    ensures
        0 <= n / (side * side) < side,
        0 <= (n / side) % side < side,
        0 <= n % side < side,
{
    assert(0 <= n / (side * side) < side) by (nonlinear_arith)
        requires
            3 <= side,
            0 <= n < side * side * side,
    ;
    assert(n / side >= 0) by (nonlinear_arith)
        requires
            3 <= side,
            0 <= n,
    ;
}

/// A node with its rank.
#[derive(Clone, Copy, Debug, PartialEq, Eq, Structural)]
pub struct Ranked {
    pub rank: u32,
    pub pos: IVec3,
}

/// The nodes within the radius, among the first `n`.
pub open spec fn within_radius(
    found: Seq<IVec3>,
    ranks: Seq<u32>,
    within: Seq<bool>,
    n: nat,
) -> Seq<Ranked>
    decreases n,
{
    if n == 0 {
        seq![]
    } else {
        let before = within_radius(found, ranks, within, (n - 1) as nat);
        if within[n - 1] {
            before.push(Ranked { rank: ranks[n - 1], pos: found[n - 1] })
        } else {
            before
        }
    }
}

/// A sorted list with one more node, behind those of the same rank.
pub open spec fn inserted(s: Seq<Ranked>, r: Ranked) -> Seq<Ranked>
    decreases s.len(),
{
    if s.len() == 0 || s.last().rank <= r.rank {
        s.push(r)
    } else {
        inserted(s.drop_last(), r).push(s.last())
    }
}

/// The nodes by rank; those of the same rank stay in their order.
pub open spec fn by_rank(s: Seq<Ranked>) -> Seq<Ranked>
    decreases s.len(),
{
    if s.len() == 0 {
        seq![]
    } else {
        inserted(by_rank(s.drop_last()), s.last())
    }
}

/// Where a position is in a list, from `at` on.
pub open spec fn position_at(s: Seq<Ranked>, p: IVec3, at: int) -> Option<int>
    decreases s.len() - at,
{
    if at < 0 || at >= s.len() {
        None
    } else if s[at].pos == p {
        Some(at)
    } else {
        position_at(s, p, at + 1)
    }
}

/// The preferred node changes places with the first one.
pub open spec fn preferred_first(s: Seq<Ranked>, preferred: Option<Ranked>) -> Seq<Ranked> {
    match preferred {
        Some(r) => match position_at(s, r.pos, 0) {
            Some(i) => s.update(0, s[i]).update(i, s[0]),
            None => s,
        },
        None => s,
    }
}

/// The targets, nearest first but for the preferred one.
pub open spec fn chosen_targets(
    found: Seq<IVec3>,
    ranks: Seq<u32>,
    within: Seq<bool>,
    preferred: Option<Ranked>,
    count: u16,
) -> Seq<Option<IVec3>> {
    let head = match preferred {
        Some(r) => seq![r],
        None => seq![],
    };
    let all = preferred_first(
        by_rank(head + within_radius(found, ranks, within, found.len())),
        preferred,
    );
    let limit = target_limit(count);
    (if all.len() <= limit {
        all
    } else {
        all.take(limit)
    }).map_values(|r: Ranked| Some(r.pos))
}

/// Where a node belongs in a sorted list.
proof fn inserted_at(s: Seq<Ranked>, r: Ranked, at: int)
    requires
        0 <= at <= s.len(),
        at == 0 || s[at - 1].rank <= r.rank,
        forall|k: int| at <= k < s.len() ==> (#[trigger] s[k]).rank > r.rank,
    ensures
        inserted(s, r) == s.insert(at, r),
    decreases s.len(),
{
    if at == s.len() {
        assert(s.insert(at, r) =~= s.push(r));
    } else {
        assert(s.last() == s[s.len() - 1]);
        inserted_at(s.drop_last(), r, at);
        assert(s.insert(at, r) =~= s.drop_last().insert(at, r).push(s.last()));
    }
}

fn insert_by_rank(list: &mut Vec<Ranked>, r: Ranked)
    ensures
        final(list)@ == inserted(old(list)@, r),
{
    let mut at: usize = list.len();
    while at > 0 && list[at - 1].rank > r.rank
        invariant
            at <= list.len(),
            list@ == old(list)@,
            forall|k: int| at <= k < list@.len() ==> (#[trigger] list@[k]).rank > r.rank,
        ensures
            at <= list.len(),
            list@ == old(list)@,
            forall|k: int| at <= k < list@.len() ==> (#[trigger] list@[k]).rank > r.rank,
            at == 0 || list@[at - 1].rank <= r.rank,
        decreases at,
    {
        at = at - 1;
    }
    proof {
        inserted_at(list@, r, at as int);
    }
    list.insert(at, r);
}

/// Chooses the targets of a collection.
pub fn choose_targets(
    found: &Vec<IVec3>,
    ranks: &Vec<u32>,
    within: &Vec<bool>,
    preferred: Option<Ranked>,
    count: u16,
) -> (targets: VecDeque<Option<IVec3>>)
    requires
        ranks@.len() == found@.len(),
        within@.len() == found@.len(),
    ensures
        targets@ == chosen_targets(found@, ranks@, within@, preferred, count),
{
    let mut list: Vec<Ranked> = Vec::new();
    let ghost head = match preferred {
        Some(r) => seq![r],
        None => seq![],
    };
    if let Some(r) = preferred {
        insert_by_rank(&mut list, r);
        proof {
            reveal_with_fuel(by_rank, 2);
            assert(head.drop_last() =~= Seq::<Ranked>::empty());
        }
    }
    let mut n: usize = 0;
    assert(head + within_radius(found@, ranks@, within@, 0) =~= head);
    while n < found.len()
        invariant
            n <= found.len(),
            ranks@.len() == found@.len(),
            within@.len() == found@.len(),
            list@ == by_rank(head + within_radius(found@, ranks@, within@, n as nat)),
        decreases found.len() - n,
    {
        if within[n] {
            let r = Ranked { rank: ranks[n], pos: found[n] };
            let ghost before = head + within_radius(found@, ranks@, within@, n as nat);
            let ghost after = head + within_radius(found@, ranks@, within@, (n + 1) as nat);
            assert(after.drop_last() =~= before);
            insert_by_rank(&mut list, r);
        }
        n = n + 1;
    }
    let ghost sorted = list@;
    if let Some(r) = preferred {
        let mut i: usize = 0;
        while i < list.len() && list[i].pos != r.pos
            invariant
                i <= list.len(),
                list@ == sorted,
                position_at(sorted, r.pos, 0) == position_at(sorted, r.pos, i as int),
            ensures
                i <= list.len(),
                list@ == sorted,
                position_at(sorted, r.pos, 0) == position_at(sorted, r.pos, i as int),
                i < list.len() ==> list@[i as int].pos == r.pos,
            decreases list.len() - i,
        {
            i = i + 1;
        }
        if i < list.len() {
            let first: Ranked = list[0];
            let other: Ranked = list[i];
            list[0] = other;
            list[i] = first;
        }
    }
    assert(list@ =~= preferred_first(sorted, preferred));
    let wanted: usize = if count < 1 { 1 } else if count > 8 { 8 } else { count as usize };
    let limit: usize = if wanted + 3 < 8 { wanted + 3 } else { 8 };
    let most: usize = if list.len() < limit { list.len() } else { limit };
    let mut targets: VecDeque<Option<IVec3>> = VecDeque::new();
    let mut k: usize = 0;
    while k < most
        invariant
            k <= most <= list.len(),
            targets@ =~= list@.take(k as int).map_values(|r: Ranked| Some(r.pos)),
        decreases most - k,
    {
        targets.push_back(Some(list[k].pos));
        k = k + 1;
    }
    assert(targets@ =~= chosen_targets(found@, ranks@, within@, preferred, count));
    targets
}

/// Sorting by rank keeps the nodes and puts nearer ones first.
pub proof fn ranked_nodes_are_sorted(s: Seq<Ranked>)
    ensures
        by_rank(s).to_multiset() == s.to_multiset(),
        forall|i: int, j: int|
            0 <= i < j < by_rank(s).len() ==> (#[trigger] by_rank(s)[i]).rank <= (
            #[trigger] by_rank(s)[j]).rank,
    decreases s.len(),
{
    if s.len() > 0 {
        ranked_nodes_are_sorted(s.drop_last());
        inserted_is_sorted(by_rank(s.drop_last()), s.last());
        assert(s =~= s.drop_last().push(s.last()));
        vstd::seq_lib::lemma_multiset_commutative(s.drop_last(), seq![s.last()]);
        assert(s.to_multiset() == s.drop_last().to_multiset().insert(s.last())) by {
            broadcast use vstd::seq_lib::group_to_multiset_ensures;

        }
    } else {
        assert(s =~= Seq::<Ranked>::empty());
    }
}

proof fn inserted_is_sorted(s: Seq<Ranked>, r: Ranked)
    requires
        forall|i: int, j: int| 0 <= i < j < s.len() ==> (#[trigger] s[i]).rank <= (#[trigger] s[j]).rank,
    ensures
        inserted(s, r).to_multiset() == s.to_multiset().insert(r),
        forall|i: int, j: int|
            0 <= i < j < inserted(s, r).len() ==> (#[trigger] inserted(s, r)[i]).rank <= (
            #[trigger] inserted(s, r)[j]).rank,
        inserted(s, r).len() == s.len() + 1,
        forall|k: int|
            0 <= k < inserted(s, r).len() ==> (#[trigger] inserted(s, r)[k]).rank <= (if s.len() == 0
                || s.last().rank <= r.rank {
                r.rank
            } else {
                s.last().rank
            }),
    decreases s.len(),
{
    broadcast use vstd::seq_lib::group_to_multiset_ensures;

    if s.len() == 0 || s.last().rank <= r.rank {
        assert(s.push(r).to_multiset() == s.to_multiset().insert(r));
    } else {
        let rest = s.drop_last();
        assert forall|i: int, j: int| 0 <= i < j < rest.len() implies (#[trigger] rest[i]).rank <= (
        #[trigger] rest[j]).rank by {
            assert(s[i].rank <= s[j].rank);
        }
        inserted_is_sorted(rest, r);
        if rest.len() > 0 {
            assert(s[rest.len() - 1].rank <= s[s.len() - 1].rank);
        }
        assert(s =~= rest.push(s.last()));
        let all = inserted(rest, r).push(s.last());
        assert(all.to_multiset() == inserted(rest, r).to_multiset().insert(s.last()));
        assert(s.to_multiset() == rest.to_multiset().insert(s.last()));
        assert(all.to_multiset() =~= s.to_multiset().insert(r));
    }
}

/// Never more than eight targets are queued.
pub proof fn few_targets_are_queued(
    found: Seq<IVec3>,
    ranks: Seq<u32>,
    within: Seq<bool>,
    preferred: Option<Ranked>,
    count: u16,
)
    ensures
        chosen_targets(found, ranks, within, preferred, count).len() <= target_limit(count) <= 8,
{
}

/// The cube is walked through without leaving a node out: the node at any offset has its
/// turn, and every turn is a node of the cube.
proof fn every_node_has_its_turn(center: IVec3, radius: int, dx: int, dy: int, dz: int)
    requires
        1 <= radius <= 6,
        has_room(center),
        -radius <= dx <= radius,
        -radius <= dy <= radius,
        -radius <= dz <= radius,
    ensures
        ({
            let side = 2 * radius + 1;
            let n = (dy + radius) * (side * side) + (dx + radius) * side + (dz + radius);
            &&& 0 <= n < cube_size(radius)
            &&& scan_pos(center, radius, n) == (IVec3 {
                x: (center.x + dx) as i32,
                y: (center.y + dy) as i32,
                z: (center.z + dz) as i32,
            })
        }),
{
    let side = 2 * radius + 1;
    let a = dy + radius;
    let b = dx + radius;
    let c = dz + radius;
    let n = a * (side * side) + b * side + c;
    let row = a * side + b;
    assert(n == row * side + c) by (nonlinear_arith)
        requires
            n == a * (side * side) + b * side + c,
            row == a * side + b,
    ;
    assert(n % side == c && n / side == row) by {
        lemma_fundamental_div_mod_converse(n, side, row, c);
    }
    assert(row % side == b && row / side == a) by {
        lemma_fundamental_div_mod_converse(row, side, a, b);
    }
    assert(n / (side * side) == a) by {
        assert(0 <= b * side + c < side * side) by (nonlinear_arith)
            requires
                0 <= b < side,
                0 <= c < side,
        ;
        lemma_fundamental_div_mod_converse(n, side * side, a, b * side + c);
    }
    assert(0 <= n < cube_size(radius)) by (nonlinear_arith)
        requires
            0 <= a < side,
            0 <= b < side,
            0 <= c < side,
            side == 2 * radius + 1,
            n == a * (side * side) + b * side + c,
            cube_size(radius) == side * side * side,
    ;
}

proof fn candidates_so_far(
    w: WorldView,
    center: IVec3,
    radius: int,
    name: Seq<char>,
    preferred: Option<IVec3>,
    n: nat,
    p: IVec3,
)
    ensures
        candidates(w, center, radius, name, preferred, n).contains(p) <==> is_candidate(
            w,
            name,
            preferred,
            p,
        ) && exists|k: int| 0 <= k < n && #[trigger] scan_pos(center, radius, k) == p,
    decreases n,
{
    if n > 0 {
        let before = candidates(w, center, radius, name, preferred, (n - 1) as nat);
        candidates_so_far(w, center, radius, name, preferred, (n - 1) as nat, p);
        let q = scan_pos(center, radius, n - 1);
        let all = candidates(w, center, radius, name, preferred, n);
        if is_candidate(w, name, preferred, q) {
            assert(all == before.push(q));
            if before.contains(p) {
                let i = choose|i: int| 0 <= i < before.len() && before[i] == p;
                assert(all[i] == p);
            }
            if q == p {
                assert(all[before.len() as int] == p);
            }
            if all.contains(p) && !before.contains(p) {
                let i = choose|i: int| 0 <= i < all.len() && all[i] == p;
                if i < before.len() {
                    assert(before[i] == p);
                }
                assert(q == p);
            }
        }
        if is_candidate(w, name, preferred, p) && exists|k: int|
            0 <= k < n && #[trigger] scan_pos(center, radius, k) == p {
            let k = choose|k: int| 0 <= k < n && #[trigger] scan_pos(center, radius, k) == p;
            if k < n - 1 {
                assert(scan_pos(center, radius, k) == p);
            }
        }
    }
}

/// A node that is within the cube is found exactly where it has the wanted name and is not
/// the preferred one; nothing outside the cube is found. The cube reaches one to six
/// nodes in each direction.
pub proof fn wanted_nodes_of_the_cube_are_found(
    w: WorldView,
    center: IVec3,
    wanted: i32,
    name: Seq<char>,
    preferred: Option<IVec3>,
    p: IVec3,
)
    requires
        has_room(center),
    ensures
        ({
            let radius = if wanted < 1 {
                1
            } else if wanted > 6 {
                6
            } else {
                wanted as int
            };
            let found = candidates(
                w,
                center,
                collect_radius(wanted),
                name,
                preferred,
                cube_size(collect_radius(wanted)) as nat,
            );
            found.contains(p) <==> {
                &&& -radius <= p.x - center.x <= radius
                &&& -radius <= p.y - center.y <= radius
                &&& -radius <= p.z - center.z <= radius
                &&& preferred != Some(p)
                &&& node_at(w, p) is Some
                &&& name_of_node(w, node_at(w, p)->0) == name
            }
        }),
{
    let radius = collect_radius(wanted);
    let size = cube_size(radius) as nat;
    let side = 2 * radius + 1;
    assert(0 <= cube_size(radius)) by (nonlinear_arith)
        requires
            radius >= 1,
            cube_size(radius) == (2 * radius + 1) * (2 * radius + 1) * (2 * radius + 1),
    ;
    candidates_so_far(w, center, radius, name, preferred, size, p);
    let dx = p.x - center.x;
    let dy = p.y - center.y;
    let dz = p.z - center.z;
    if -radius <= dx <= radius && -radius <= dy <= radius && -radius <= dz <= radius {
        every_node_has_its_turn(center, radius, dx, dy, dz);
        let n = (dy + radius) * (side * side) + (dx + radius) * side + (dz + radius);
        assert(scan_pos(center, radius, n) == p);
    }
    if exists|k: int| 0 <= k < size && #[trigger] scan_pos(center, radius, k) == p {
        let k = choose|k: int| 0 <= k < size && #[trigger] scan_pos(center, radius, k) == p;
        scan_offsets(k, side);
    }
}

/// The nodes that are ranked are those that were found and are within the radius, with their
/// ranks.
pub proof fn within_radius_members(
    found: Seq<IVec3>,
    ranks: Seq<u32>,
    within: Seq<bool>,
    n: nat,
    r: Ranked,
)
    ensures
        within_radius(found, ranks, within, n).contains(r) <==> exists|k: int|
            0 <= k < n && #[trigger] within[k] && r.pos == found[k] && r.rank == ranks[k],
    decreases n,
{
    if n > 0 {
        let before = within_radius(found, ranks, within, (n - 1) as nat);
        let all = within_radius(found, ranks, within, n);
        within_radius_members(found, ranks, within, (n - 1) as nat, r);
        let last = Ranked { rank: ranks[n - 1], pos: found[n - 1] };
        if within[n - 1] {
            assert(all == before.push(last));
            if before.contains(r) {
                let i = choose|i: int| 0 <= i < before.len() && before[i] == r;
                assert(all[i] == r);
            }
            if last == r {
                assert(all[before.len() as int] == r);
            }
            if all.contains(r) && !before.contains(r) {
                let i = choose|i: int| 0 <= i < all.len() && all[i] == r;
                if i < before.len() {
                    assert(before[i] == r);
                }
                assert(last == r);
            }
        }
    }
}

/// Targets without a preferred one: as many as the limit allows, each a node within the
/// radius, and no node within the radius that is not among them is nearer than one
/// that is.
pub proof fn nearest_nodes_are_chosen(
    found: Seq<IVec3>,
    ranks: Seq<u32>,
    within: Seq<bool>,
    count: u16,
    k: int,
)
    requires
        0 <= k < chosen_targets(found, ranks, within, None, count).len(),
    ensures
        ({
            let near = within_radius(found, ranks, within, found.len());
            let sorted = by_rank(near);
            let chosen = chosen_targets(found, ranks, within, None, count);
            &&& chosen.len() == if near.len() < target_limit(count) {
                near.len() as int
            } else {
                target_limit(count)
            }
            &&& chosen[k] == Some(sorted[k].pos)
            &&& near.to_multiset() == sorted.to_multiset()
            &&& forall|i: int, j: int|
                0 <= i < j < sorted.len() ==> (#[trigger] sorted[i]).rank <= (
                #[trigger] sorted[j]).rank
        }),
{
    let near = within_radius(found, ranks, within, found.len());
    assert(Seq::<Ranked>::empty() + near =~= near);
    ranked_nodes_are_sorted(near);
    near.to_multiset_ensures();
    by_rank(near).to_multiset_ensures();
    assert(near.len() == by_rank(near).len());
}

/// The preferred node comes first, wherever it ranks.
pub proof fn preferred_node_comes_first(
    found: Seq<IVec3>,
    ranks: Seq<u32>,
    within: Seq<bool>,
    preferred: Ranked,
    count: u16,
)
    ensures
        ({
            let chosen = chosen_targets(found, ranks, within, Some(preferred), count);
            &&& chosen.len() > 0
            &&& chosen[0] == Some(preferred.pos)
        }),
{
    let near = within_radius(found, ranks, within, found.len());
    let all = seq![preferred] + near;
    ranked_nodes_are_sorted(all);
    all.to_multiset_ensures();
    by_rank(all).to_multiset_ensures();
    assert(all[0] == preferred);
    assert(all.contains(preferred));
    assert(by_rank(all).contains(preferred)) by {
        assert(all.to_multiset().count(preferred) > 0);
        assert(by_rank(all).to_multiset().count(preferred) > 0);
    }
    let j = choose|j: int| 0 <= j < by_rank(all).len() && by_rank(all)[j] == preferred;
    found_position(by_rank(all), preferred.pos, 0, j);
}

proof fn found_position(s: Seq<Ranked>, p: IVec3, at: int, j: int)
    requires
        0 <= at <= j < s.len(),
        s[j].pos == p,
    ensures
        match position_at(s, p, at) {
            Some(i) => at <= i < s.len() && s[i].pos == p,
            None => false,
        },
    decreases j - at,
{
    if s[at].pos != p {
        found_position(s, p, at + 1, j);
    }
}

/// Beside the wanted number, one to eight, up to three substitutes are queued, eight targets
/// at most.
pub proof fn substitutes_are_few(count: u16)
    ensures
        1 <= count <= 5 ==> target_limit(count) == count + 3,
        count > 5 ==> target_limit(count) == 8,
        count == 0 ==> target_limit(count) == 4,
{
}

} // verus!
