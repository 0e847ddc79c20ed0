//! Properties that hold of the simulation across its systems.
use vstd::prelude::*;
use crate::bounds::ScreenBounds;
use crate::entity::{Entity, Kind, AsteroidSize, fragments};
use crate::vector::{dist2, Vec2};
use crate::input::Controls;
use crate::world::{
    ship_count, steered, decelerated, shots, advanced, hits_resolved, in_range_prefix as kept_in_range,
    integrated, bullet_touches, is_initial_scene, out_of_range, in_range_prefix, all_fragments,
    row_fragments, survivors, destroyed, linked, tier,
};

verus! {

/// After one step of motion, an entity that would pass an edge of the field
/// by more than half its size lands exactly that far beyond the opposite
/// edge, on each axis on its own; one that would not keeps the moved position.
pub proof fn lemma_motion_wraps_at_edges(e: Entity, b: ScreenBounds)
    requires
        e.wf(),
        b.wf(),
    ensures
        ({
            let hs = e.spec_scale() / 2;
            let x = e.position.x + e.velocity.x;
            let y = e.position.y + e.velocity.y;
            let r = integrated(e, b).position;
            &&& x > b.half_width + hs ==> r.x == -b.half_width - hs
            &&& x < -b.half_width - hs ==> r.x == b.half_width + hs
            &&& -b.half_width - hs <= x <= b.half_width + hs ==> r.x == x
            &&& y > b.half_height + hs ==> r.y == -b.half_height - hs
            &&& y < -b.half_height - hs ==> r.y == b.half_height + hs
            &&& -b.half_height - hs <= y <= b.half_height + hs ==> r.y == y
        }),
{
}

proof fn lemma_count_push(s: Seq<Entity>, e: Entity)
    ensures
        ship_count(s.push(e)) == ship_count(s) + if e.is_starship() { 1int } else { 0 },
{
    assert(s.push(e).drop_last() =~= s);
}

proof fn lemma_count_same_kinds(s: Seq<Entity>, t: Seq<Entity>)
    requires
        s.len() == t.len(),
        forall|i: int| 0 <= i < s.len() ==> (#[trigger] s[i]).is_starship() == t[i].is_starship(),
    ensures
        ship_count(s) == ship_count(t),
    decreases s.len(),
{
    if s.len() > 0 {
        let (a, b) = (s.drop_last(), t.drop_last());
        assert forall|i: int| 0 <= i < a.len() implies (#[trigger] a[i]).is_starship() == b[i].is_starship() by {
            assert(s[i].is_starship() == t[i].is_starship());
        }
        lemma_count_same_kinds(a, b);
        assert(s[s.len() - 1].is_starship() == t[t.len() - 1].is_starship());
    }
}

proof fn lemma_count_no_ships(s: Seq<Entity>)
    requires
        forall|i: int| 0 <= i < s.len() ==> !(#[trigger] s[i]).is_starship(),
    ensures
        ship_count(s) == 0,
    decreases s.len(),
{
    if s.len() > 0 {
        let a = s.drop_last();
        assert forall|i: int| 0 <= i < a.len() implies !(#[trigger] a[i]).is_starship() by {
            assert(!s[i].is_starship());
        }
        lemma_count_no_ships(a);
        assert(!s[s.len() - 1].is_starship());
    }
}

proof fn lemma_count_concat(a: Seq<Entity>, b: Seq<Entity>)
    ensures
        ship_count(a + b) == ship_count(a) + ship_count(b),
    decreases b.len(),
{
    if b.len() == 0 {
        assert(a + b =~= a);
    } else {
        assert((a + b).drop_last() =~= a + b.drop_last());
        lemma_count_concat(a, b.drop_last());
        assert((a + b).last() == b.last());
    }
}

proof fn lemma_shots_hold_no_ship(s: Seq<Entity>, c: Controls, n: int)
    ensures
        forall|i: int| 0 <= i < shots(s, c, n).len() ==> !(#[trigger] shots(s, c, n)[i]).is_starship(),
    decreases n,
{
    if n > 0 {
        lemma_shots_hold_no_ship(s, c, n - 1);
        let prev = shots(s, c, n - 1);
        assert forall|i: int| 0 <= i < shots(s, c, n).len() implies !(#[trigger] shots(s, c, n)[i]).is_starship() by {
            if i < prev.len() {
                assert(shots(s, c, n)[i] == prev[i]);
            }
        }
    }
}

proof fn lemma_range_keeps_ships(s: Seq<Entity>, n: int)
    requires
        0 <= n <= s.len(),
    ensures
        ship_count(kept_in_range(s, n)) == ship_count(s.take(n)),
    decreases n,
{
    if n == 0 {
        assert(s.take(0) =~= Seq::<Entity>::empty());
    } else {
        lemma_range_keeps_ships(s, n - 1);
        assert(s.take(n) =~= s.take(n - 1).push(s[n - 1]));
        lemma_count_push(s.take(n - 1), s[n - 1]);
        if !crate::world::out_of_range(s[n - 1]) {
            lemma_count_push(kept_in_range(s, n - 1), s[n - 1]);
        }
    }
}

proof fn lemma_survivors_keep_ships(s: Seq<Entity>, n: int)
    requires
        0 <= n <= s.len(),
    ensures
        ship_count(survivors(s, n)) == ship_count(s.take(n)),
    decreases n,
{
    if n == 0 {
        assert(s.take(0) =~= Seq::<Entity>::empty());
    } else {
        lemma_survivors_keep_ships(s, n - 1);
        assert(s.take(n) =~= s.take(n - 1).push(s[n - 1]));
        lemma_count_push(s.take(n - 1), s[n - 1]);
        if destroyed(s, n - 1) {
            let i = choose|i: int| 0 <= i < s.len() && #[trigger] linked(s, n - 1, i);
            assert(!s[n - 1].is_starship());
        } else {
            lemma_count_push(survivors(s, n - 1), s[n - 1]);
        }
    }
}

/// A frame keeps a store with exactly one ship at exactly one ship: the
/// controls, friction, spent bullets, motion and bullet hits never add or
/// remove a ship, and a reset brings back exactly one.
pub proof fn lemma_step_keeps_ship_count(s: Seq<Entity>, b: ScreenBounds, c: Controls, r: Seq<Entity>, reset: bool)
    requires
        ship_count(s) == 1,
        reset ==> is_initial_scene(r, b),
        !reset ==> hits_resolved(advanced(s, b, c), r, b),
    ensures
        ship_count(r) == 1,
{
    if reset {
        lemma_initial_scene_contents(r, b);
        lemma_count_same_kinds(r, seq![r[0], r[1], r[1], r[1], r[1], r[1], r[1]]);
        let t = seq![r[0], r[1], r[1], r[1], r[1], r[1], r[1]];
        assert(t.drop_last().drop_last().drop_last().drop_last().drop_last().drop_last() =~= seq![r[0]]);
        assert(seq![r[0]].drop_last() =~= Seq::<Entity>::empty());
        assert(ship_count(t) == 1) by {
            reveal_with_fuel(ship_count, 8);
        }
    } else {
        let m1 = s.map_values(|e: Entity| steered(e, c));
        let sh = shots(s, c, s.len() as int);
        let s1 = m1 + sh;
        lemma_count_same_kinds(s, m1);
        lemma_shots_hold_no_ship(s, c, s.len() as int);
        lemma_count_no_ships(sh);
        lemma_count_concat(m1, sh);
        let s2 = if c.up_pressed { s1 } else { s1.map_values(|e: Entity| decelerated(e)) };
        lemma_count_same_kinds(s1, s2);
        let s3 = kept_in_range(s2, s2.len() as int);
        lemma_range_keeps_ships(s2, s2.len() as int);
        assert(s2.take(s2.len() as int) =~= s2);
        let s4 = s3.map_values(|e: Entity| integrated(e, b));
        lemma_count_same_kinds(s3, s4);
        assert(s4 == advanced(s, b, c));
        let kept = survivors(s4, s4.len() as int);
        lemma_survivors_keep_ships(s4, s4.len() as int);
        assert(s4.take(s4.len() as int) =~= s4);
        let tail = r.skip(kept.len() as int);
        assert(r =~= r.take(kept.len() as int) + tail);
        assert forall|i: int| 0 <= i < tail.len() implies !(#[trigger] tail[i]).is_starship() by {
            assert(r[kept.len() + i].is_asteroid());
        }
        lemma_count_no_ships(tail);
        lemma_count_concat(r.take(kept.len() as int), tail);
    }
}

/// The fragments that destroying asteroid `a` leaves: its split tiers, where it stood.
pub open spec fn placed(a: Entity) -> Seq<(AsteroidSize, Vec2)> {
    fragments(tier(a)).map_values(|t: AsteroidSize| (t, a.position))
}

proof fn lemma_row_prefix(s: Seq<Entity>, i: int, m1: int, m2: int)
    requires
        0 <= m1 <= m2 <= s.len(),
    ensures
        row_fragments(s, i, m1).len() <= row_fragments(s, i, m2).len(),
        row_fragments(s, i, m2).take(row_fragments(s, i, m1).len() as int) == row_fragments(s, i, m1),
    decreases m2,
{
    if m2 == m1 {
        assert(row_fragments(s, i, m2).take(row_fragments(s, i, m1).len() as int) =~= row_fragments(s, i, m1));
    } else {
        lemma_row_prefix(s, i, m1, m2 - 1);
        let a = row_fragments(s, i, m1);
        let b = row_fragments(s, i, m2 - 1);
        let c = row_fragments(s, i, m2);
        assert(c.take(b.len() as int) =~= b);
        assert(c.take(a.len() as int) =~= b.take(a.len() as int));
    }
}

proof fn lemma_all_prefix(s: Seq<Entity>, n1: int, n2: int)
    requires
        0 <= n1 <= n2,
    ensures
        all_fragments(s, n1).len() <= all_fragments(s, n2).len(),
        all_fragments(s, n2).take(all_fragments(s, n1).len() as int) == all_fragments(s, n1),
    decreases n2,
{
    if n2 == n1 {
        assert(all_fragments(s, n2).take(all_fragments(s, n1).len() as int) =~= all_fragments(s, n1));
    } else {
        lemma_all_prefix(s, n1, n2 - 1);
        let a = all_fragments(s, n1);
        let b = all_fragments(s, n2 - 1);
        let c = all_fragments(s, n2);
        assert(c.take(b.len() as int) =~= b);
        assert(c.take(a.len() as int) =~= b.take(a.len() as int));
    }
}

/// In any store, a bullet touching an asteroid destroys it and is destroyed
/// with it, and the hit leaves the asteroid's fragments where it stood: two
/// of the next tier down for a Big or Medium asteroid, none for a Small one.
/// They stand, in order, among the fragments that follow the survivors.
pub proof fn lemma_hit_splits(s: Seq<Entity>, i: int, j: int)
    requires
        0 <= i < s.len(),
        0 <= j < s.len(),
        bullet_touches(s[i], s[j]),
    ensures
        destroyed(s, i),
        destroyed(s, j),
        exists|p: int|
            0 <= p && p + placed(s[j]).len() <= all_fragments(s, s.len() as int).len()
                && #[trigger] all_fragments(s, s.len() as int).subrange(p, p + placed(s[j]).len()) == placed(s[j]),
{
    assert(linked(s, i, j));
    assert(linked(s, j, i));
    let n = s.len() as int;
    let a = s[j];
    let f = placed(a);
    let before = row_fragments(s, i, j);
    let upto = row_fragments(s, i, j + 1);
    match tier(a).spec_split() {
        Some(t) => {
            assert(upto == before.push((t, a.position)).push((t, a.position)));
            assert(f =~= seq![(t, a.position), (t, a.position)]);
            assert(upto =~= before + f);
        },
        None => {
            assert(f =~= Seq::<(AsteroidSize, Vec2)>::empty());
            assert(upto =~= before + f);
        },
    }
    lemma_row_prefix(s, i, j + 1, n);
    let row = row_fragments(s, i, n);
    lemma_all_prefix(s, i + 1, n);
    let head = all_fragments(s, i);
    let whole = all_fragments(s, n);
    assert(all_fragments(s, i + 1) == head + row);
    let p: int = head.len() as int + before.len() as int;
    assert(whole.subrange(p, p + f.len() as int) =~= f) by {
        assert forall|k: int| 0 <= k < f.len() implies whole[p + k] == f[k] by {
            assert(whole.take((head + row).len() as int)[p + k] == (head + row)[p + k]);
            assert((head + row)[p + k] == row[before.len() + k]);
            assert(row.take(upto.len() as int)[before.len() + k] == upto[before.len() + k]);
        }
    }
}

/// In any store, a bullet and an asteroid at the same point destroy each
/// other, whatever the asteroid's tier.
pub proof fn lemma_same_point_destroys_both(s: Seq<Entity>, i: int, j: int)
    requires
        0 <= i < s.len(),
        0 <= j < s.len(),
        s[i].is_bullet(),
        s[j].is_asteroid(),
        s[i].position == s[j].position,
    ensures
        destroyed(s, i),
        destroyed(s, j),
{
    lemma_same_point_collides(s[i], s[j]);
    lemma_hit_splits(s, i, j);
}

/// A bullet and an asteroid at the same point always collide, whatever the
/// asteroid's tier.
pub proof fn lemma_same_point_collides(b: Entity, a: Entity)
    requires
        b.is_bullet(),
        a.is_asteroid(),
        b.position == a.position,
    ensures
        bullet_touches(b, a),
{
    assert(dist2(b.position, a.position) == 0) by (nonlinear_arith)
        requires
            b.position == a.position,
    ;
    let reach = b.spec_scale() / 2 + a.spec_scale() / 2;
    assert(reach > 0);
    assert(reach * reach > 0) by (nonlinear_arith)
        requires
            reach > 0,
    ;
}

/// A starting scene holds exactly one ship, at rest at the origin with
/// heading zero, six Big asteroids and no bullet.
pub proof fn lemma_initial_scene_contents(s: Seq<Entity>, b: ScreenBounds)
    requires
        is_initial_scene(s, b),
    ensures
        s.len() == 7,
        forall|i: int| 0 <= i < s.len() ==> !(#[trigger] s[i]).is_bullet(),
        forall|i: int| 0 <= i < s.len() ==> ((#[trigger] s[i]).is_starship() <==> i == 0),
        s[0].kind == (Kind::Starship { heading: 0 }),
        s[0].position.x == 0 && s[0].position.y == 0,
        s[0].velocity.x == 0 && s[0].velocity.y == 0,
        forall|i: int| 1 <= i < s.len() ==> (#[trigger] s[i]).kind == (Kind::Asteroid { size: AsteroidSize::Big }),
{
    assert forall|i: int| 1 <= i < s.len() implies (#[trigger] s[i]).kind == (Kind::Asteroid {
        size: AsteroidSize::Big,
    }) by {
        assert(crate::world::is_fresh_asteroid(s[i], b));
    }
}

/// Removing spent bullets keeps exactly the entities that are not bullets
/// flown farther than the bullet distance from where they were fired: an
/// entity is in the result if and only if it is in the store and is not out
/// of range.
pub proof fn lemma_bullet_lifetime(s: Seq<Entity>, n: int, e: Entity)
    requires
        0 <= n <= s.len(),
    ensures
        in_range_prefix(s, n).contains(e) <==> (s.take(n).contains(e) && !out_of_range(e)),
    decreases n,
{
    if n > 0 {
        lemma_bullet_lifetime(s, n - 1, e);
        assert(s.take(n) =~= s.take(n - 1).push(s[n - 1]));
        let prev = in_range_prefix(s, n - 1);
        if !out_of_range(s[n - 1]) {
            assert(prev.push(s[n - 1]).contains(e) <==> (prev.contains(e) || e == s[n - 1])) by {
                if e == s[n - 1] {
                    assert(prev.push(s[n - 1])[prev.len() as int] == e);
                }
                let pushed = prev.push(s[n - 1]);
                if prev.contains(e) {
                    let k = choose|k: int| 0 <= k < prev.len() && #[trigger] prev[k] == e;
                    assert(pushed[k] == e);
                }
                if pushed.contains(e) && e != s[n - 1] {
                    let k = choose|k: int| 0 <= k < pushed.len() && #[trigger] pushed[k] == e;
                    assert(prev[k] == e);
                }
            }
        }
        assert(s.take(n).contains(e) <==> (s.take(n - 1).contains(e) || e == s[n - 1])) by {
            if e == s[n - 1] {
                assert(s.take(n)[n - 1] == e);
            }
            let t = s.take(n);
            if s.take(n - 1).contains(e) {
                let k = choose|k: int| 0 <= k < n - 1 && #[trigger] s.take(n - 1)[k] == e;
                assert(t[k] == e);
            }
            if t.contains(e) && e != s[n - 1] {
                let k = choose|k: int| 0 <= k < t.len() && #[trigger] t[k] == e;
                assert(s.take(n - 1)[k] == e);
            }
        }
    } else {
        assert(s.take(0).len() == 0);
    }
}

/// One bullet over one asteroid: both go, and the asteroid leaves the
/// fragments of its tier where it stood: two Medium for a Big, two Small
/// for a Medium, none for a Small.
pub proof fn lemma_single_hit_splits(b: Entity, a: Entity)
    requires
        bullet_touches(b, a),
    ensures
        ({
            let s = seq![b, a];
            &&& survivors(s, 2).len() == 0
            &&& all_fragments(s, 2).map_values(|p: (AsteroidSize, crate::vector::Vec2)| p.0) =~= fragments(tier(a))
            &&& forall|k: int| 0 <= k < all_fragments(s, 2).len() ==> (#[trigger] all_fragments(s, 2)[k]).1 == a.position
        }),
{
    let s = seq![b, a];
    assert(linked(s, 0, 1));
    assert(linked(s, 1, 0));
    assert(destroyed(s, 0));
    assert(destroyed(s, 1));
    assert(!bullet_touches(a, a));
    assert(!bullet_touches(a, b));
    assert(!bullet_touches(b, b));
    assert(s[0] == b && s[1] == a);
    assert(row_fragments(s, 1, 0).len() == 0);
    assert(row_fragments(s, 1, 1) =~= row_fragments(s, 1, 0));
    assert(row_fragments(s, 1, 2) =~= row_fragments(s, 1, 1));
    assert(row_fragments(s, 0, 0).len() == 0);
    assert(row_fragments(s, 0, 1) =~= row_fragments(s, 0, 0));
    assert(all_fragments(s, 0).len() == 0);
    assert(all_fragments(s, 1) =~= row_fragments(s, 0, 2));
    assert(all_fragments(s, 2) =~= row_fragments(s, 0, 2));
    assert(survivors(s, 0).len() == 0);
    assert(survivors(s, 1) == survivors(s, 0));
    assert(survivors(s, 2) == survivors(s, 1));
    let f = all_fragments(s, 2);
    match tier(a).spec_split() {
        Some(t) => {
            assert(f =~= seq![(t, a.position), (t, a.position)]);
            assert(f.map_values(|p: (AsteroidSize, crate::vector::Vec2)| p.0) =~= seq![t, t]);
        },
        None => {
            assert(f.len() == 0);
        },
    }
}

} // verus!
