//! Collisions: bullets against enemies, then enemies against the player.
use vstd::prelude::*;
use crate::geometry::{
    disks_touch, lane_max, lane_min, touching, BULLET_RADIUS, COORD_LIMIT, DRIFT_LIMIT,
    ENEMY_PER_ROW, ENEMY_RADIUS, PLAYER_RADIUS,
};
use crate::world::{
    bullet_ok, bullets_drawn_from, enemies_drawn_from, enemy_ok, in_lanes, lane_offset,
    lockstep, Bullet, Enemy, Player, World,
};

verus! {

pub open spec fn bullet_hits(b: Bullet, e: Enemy) -> bool {
    touching(b.pos, e.pos, BULLET_RADIUS + ENEMY_RADIUS)
}

pub open spec fn enemy_reaches(p: Player, e: Enemy) -> bool {
    touching(p.pos, e.pos, PLAYER_RADIUS + ENEMY_RADIUS)
}

/// How many of `es` the bullet `b` overlaps.
pub open spec fn hits_of(b: Bullet, es: Seq<Enemy>) -> nat
    decreases es.len(),
{
    if es.len() == 0 {
        0
    } else {
        hits_of(b, es.drop_last()) + if bullet_hits(b, es.last()) {
            1nat
        } else {
            0nat
        }
    }
}

/// How many (bullet, enemy) pairs overlap.
pub open spec fn pair_hits(bs: Seq<Bullet>, es: Seq<Enemy>) -> nat
    decreases bs.len(),
{
    if bs.len() == 0 {
        0
    } else {
        pair_hits(bs.drop_last(), es) + hits_of(bs.last(), es)
    }
}

/// Whether some bullet of `bs` overlaps `e`.
pub open spec fn struck(e: Enemy, bs: Seq<Bullet>) -> bool {
    exists|k: int| 0 <= k < bs.len() && bullet_hits(#[trigger] bs[k], e)
}

/// The bullets that overlap no enemy, in their order.
pub open spec fn surviving_bullets(bs: Seq<Bullet>, es: Seq<Enemy>) -> Seq<Bullet>
    decreases bs.len(),
{
    if bs.len() == 0 {
        bs
    } else {
        let rest = surviving_bullets(bs.drop_last(), es);
        if hits_of(bs.last(), es) == 0 {
            rest.push(bs.last())
        } else {
            rest
        }
    }
}

/// The enemies that no bullet overlaps, in their order.
pub open spec fn surviving_enemies(es: Seq<Enemy>, bs: Seq<Bullet>) -> Seq<Enemy>
    decreases es.len(),
{
    if es.len() == 0 {
        es
    } else {
        let rest = surviving_enemies(es.drop_last(), bs);
        if !struck(es.last(), bs) {
            rest.push(es.last())
        } else {
            rest
        }
    }
}

proof fn lemma_struck_step(e: Enemy, bs: Seq<Bullet>, i: int)
    requires
        0 <= i < bs.len(),
    ensures
        struck(e, bs.take(i + 1)) == (struck(e, bs.take(i)) || bullet_hits(bs[i], e)),
{
    let s1 = bs.take(i + 1);
    let s0 = bs.take(i);
    if struck(e, s1) {
        let k = choose|k: int| 0 <= k < s1.len() && bullet_hits(#[trigger] s1[k], e);
        if k < i {
            assert(s0[k] == s1[k]);
        }
    }
    if struck(e, s0) {
        let k = choose|k: int| 0 <= k < s0.len() && bullet_hits(#[trigger] s0[k], e);
        assert(s1[k] == s0[k]);
    }
    if bullet_hits(bs[i], e) {
        assert(s1[i] == bs[i]);
    }
}

/// Every enemy that survives the bullets was one of `es`.
pub proof fn lemma_surviving_enemies_from(es: Seq<Enemy>, bs: Seq<Bullet>)
    ensures
        enemies_drawn_from(surviving_enemies(es, bs), es),
        surviving_enemies(es, bs).len() <= es.len(),
    decreases es.len(),
{
    if es.len() > 0 {
        let init = es.drop_last();
        lemma_surviving_enemies_from(init, bs);
        let rest = surviving_enemies(init, bs);
        let all = surviving_enemies(es, bs);
        assert forall|k: int| #![trigger all[k]] 0 <= k < all.len() implies exists|i: int|
            0 <= i < es.len() && all[k] == #[trigger] es[i] by {
            if k < rest.len() {
                let i = choose|i: int| 0 <= i < init.len() && rest[k] == #[trigger] init[i];
                assert(all[k] == es[i]);
            } else {
                assert(all[k] == es[es.len() - 1]);
            }
        }
    }
}

/// Every bullet that survives the enemies was one of `bs`.
pub proof fn lemma_surviving_bullets_from(bs: Seq<Bullet>, es: Seq<Enemy>)
    ensures
        bullets_drawn_from(surviving_bullets(bs, es), bs),
    decreases bs.len(),
{
    if bs.len() > 0 {
        let init = bs.drop_last();
        lemma_surviving_bullets_from(init, es);
        let rest = surviving_bullets(init, es);
        let all = surviving_bullets(bs, es);
        assert forall|k: int| #![trigger all[k]] 0 <= k < all.len() implies exists|i: int|
            0 <= i < bs.len() && all[k] == #[trigger] bs[i] by {
            if k < rest.len() {
                let i = choose|i: int| 0 <= i < init.len() && rest[k] == #[trigger] init[i];
                assert(all[k] == bs[i]);
            } else {
                assert(all[k] == bs[bs.len() - 1]);
            }
        }
    }
}

/// What holds of each enemy, or of each pair of enemies, holds of any
/// selection of them.
pub proof fn lemma_drawn_keeps(fresh: Seq<Enemy>, es: Seq<Enemy>, bx: int)
    requires
        enemies_drawn_from(fresh, es),
    ensures
        (forall|i: int| 0 <= i < es.len() ==> enemy_ok(#[trigger] es[i], bx)) ==> (forall|k: int|
            0 <= k < fresh.len() ==> enemy_ok(#[trigger] fresh[k], bx)),
        forall|w: int| in_lanes(es, w) ==> #[trigger] in_lanes(fresh, w),
        lockstep(es) ==> lockstep(fresh),
{
    assert forall|w: int| in_lanes(es, w) implies #[trigger] in_lanes(fresh, w) by {
        assert forall|k: int| 0 <= k < fresh.len() implies lane_min((#[trigger] fresh[k]).col as int)
            <= fresh[k].pos.x <= lane_max(w, fresh[k].col as int) by {
            let i = choose|i: int| 0 <= i < es.len() && fresh[k] == #[trigger] es[i];
        }
    }
    if lockstep(es) {
        assert forall|k: int, l: int|
            0 <= k < fresh.len() && 0 <= l < fresh.len() implies lane_offset(#[trigger] fresh[k])
            == lane_offset(#[trigger] fresh[l]) && fresh[k].direction == fresh[l].direction by {
            let i = choose|i: int| 0 <= i < es.len() && fresh[k] == #[trigger] es[i];
            let j = choose|j: int| 0 <= j < es.len() && fresh[l] == #[trigger] es[j];
            assert(lane_offset(es[i]) == lane_offset(es[j]));
        }
    }
    if forall|i: int| 0 <= i < es.len() ==> enemy_ok(#[trigger] es[i], bx) {
        assert forall|k: int| 0 <= k < fresh.len() implies enemy_ok(#[trigger] fresh[k], bx) by {
            let i = choose|i: int| 0 <= i < es.len() && fresh[k] == #[trigger] es[i];
        }
    }
}

/// What holds of each enemy, or of each pair of enemies, still holds once
/// one of them is removed.
pub proof fn lemma_remove_keeps(es: Seq<Enemy>, j: int, bx: int)
    requires
        0 <= j < es.len(),
    ensures
        (forall|i: int| 0 <= i < es.len() ==> enemy_ok(#[trigger] es[i], bx)) ==> (forall|k: int|
            0 <= k < es.remove(j).len() ==> enemy_ok(#[trigger] es.remove(j)[k], bx)),
        forall|w: int| in_lanes(es, w) ==> #[trigger] in_lanes(es.remove(j), w),
        lockstep(es) ==> lockstep(es.remove(j)),
{
    let r = es.remove(j);
    assert forall|k: int| 0 <= k < r.len() implies r[k] == es[if k < j {
        k
    } else {
        k + 1
    }] by {}
    assert forall|w: int| in_lanes(es, w) implies #[trigger] in_lanes(r, w) by {
        assert forall|k: int| 0 <= k < r.len() implies lane_min((#[trigger] r[k]).col as int)
            <= r[k].pos.x <= lane_max(w, r[k].col as int) by {
            let i = if k < j { k } else { k + 1 };
            assert(r[k] == es[i]);
        }
    }
    if lockstep(es) {
        assert forall|k: int, l: int|
            0 <= k < r.len() && 0 <= l < r.len() implies lane_offset(#[trigger] r[k])
            == lane_offset(#[trigger] r[l]) && r[k].direction == r[l].direction by {
            let i = if k < j { k } else { k + 1 };
            let m = if l < j { l } else { l + 1 };
            assert(r[k] == es[i]);
            assert(r[l] == es[m]);
            assert(lane_offset(es[i]) == lane_offset(es[m]));
        }
    }
    if forall|i: int| 0 <= i < es.len() ==> enemy_ok(#[trigger] es[i], bx) {
        assert forall|k: int| 0 <= k < r.len() implies enemy_ok(#[trigger] r[k], bx) by {
            let i = if k < j { k } else { k + 1 };
            assert(r[k] == es[i]);
        }
    }
}

impl World {
    /// Resolves every overlapping (bullet, enemy) pair at once: each pair
    /// scores a point, and every bullet or enemy in some pair is removed.
    /// Returns the number of pairs.
    pub fn bullet_hit_enemy(&mut self) -> (hits: u64)
        requires
            old(self).bullets_within(DRIFT_LIMIT as int),
            old(self).enemies_within(DRIFT_LIMIT as int),
            old(self).score + ENEMY_PER_ROW * old(self).bullets@.len() <= u64::MAX,
        ensures
            hits == pair_hits(old(self).bullets@, old(self).enemies@),
            final(self).score == old(self).score + hits,
            final(self).bullets@ == surviving_bullets(old(self).bullets@, old(self).enemies@),
            final(self).enemies@ == surviving_enemies(old(self).enemies@, old(self).bullets@),
            final(self).player == old(self).player,
            final(self).next_id == old(self).next_id,
            final(self).bullets_within(DRIFT_LIMIT as int),
            bullets_drawn_from(final(self).bullets@, old(self).bullets@),
            final(self).enemies_within(DRIFT_LIMIT as int),
            old(self).enemies_within(COORD_LIMIT as int) ==> final(self).enemies_within(
                COORD_LIMIT as int,
            ),
            forall|w: int| in_lanes(old(self).enemies@, w) ==> #[trigger] in_lanes(final(self).enemies@, w),
            lockstep(old(self).enemies@) ==> lockstep(final(self).enemies@),
    {
        let ghost bs = self.bullets@;
        let ghost es = self.enemies@;
        let nb = self.bullets.len();
        let ne = self.enemies.len();
        let mut flags: Vec<bool> = Vec::new();
        for j in 0..ne
            invariant
                flags@.len() == j,
                forall|k: int| 0 <= k < j ==> !flags@[k],
        {
            flags.push(false);
        }
        let mut kept: Vec<Bullet> = Vec::new();
        let mut total: u64 = 0;
        for i in 0..nb
            invariant
                bs == self.bullets@,
                es == self.enemies@,
                nb == bs.len(),
                ne == es.len(),
                ne <= ENEMY_PER_ROW,
                self.bullets_within(DRIFT_LIMIT as int),
                self.enemies_within(DRIFT_LIMIT as int),
                self.score + ENEMY_PER_ROW * nb <= u64::MAX,
                flags@.len() == ne,
                forall|j: int| 0 <= j < ne ==> #[trigger] flags@[j] == struck(es[j], bs.take(i as int)),
                kept@ == surviving_bullets(bs.take(i as int), es),
                forall|k: int| 0 <= k < kept@.len() ==> bullet_ok(#[trigger] kept@[k], DRIFT_LIMIT as int),
                total == pair_hits(bs.take(i as int), es),
                total <= ENEMY_PER_ROW * i,
        {
            let b = self.bullets[i];
            let mut count: u64 = 0;
            for j in 0..ne
                invariant
                    bs == self.bullets@,
                    es == self.enemies@,
                    0 <= i < nb,
                    nb == bs.len(),
                    ne == es.len(),
                    b == bs[i as int],
                    self.bullets_within(DRIFT_LIMIT as int),
                    self.enemies_within(DRIFT_LIMIT as int),
                    flags@.len() == ne,
                    forall|k: int|
                        0 <= k < j ==> #[trigger] flags@[k] == struck(es[k], bs.take(i + 1)),
                    forall|k: int| j <= k < ne ==> #[trigger] flags@[k] == struck(es[k], bs.take(i as int)),
                    count == hits_of(b, es.take(j as int)),
                    count <= j,
            {
                let e = self.enemies[j];
                assert(es.take(j + 1).drop_last() =~= es.take(j as int));
                proof {
                    lemma_struck_step(e, bs, i as int);
                }
                if disks_touch(b.pos, e.pos, BULLET_RADIUS + ENEMY_RADIUS) {
                    count = count + 1;
                    flags.set(j, true);
                }
            }
            assert(es.take(ne as int) =~= es);
            assert(bs.take(i + 1).drop_last() =~= bs.take(i as int));
            if count == 0 {
                kept.push(b);
            }
            total = total + count;
        }
        assert(bs.take(nb as int) =~= bs);
        let mut kept_enemies: Vec<Enemy> = Vec::new();
        for j in 0..ne
            invariant
                es == self.enemies@,
                ne == es.len(),
                flags@.len() == ne,
                forall|k: int| 0 <= k < ne ==> #[trigger] flags@[k] == struck(es[k], bs),
                kept_enemies@ == surviving_enemies(es.take(j as int), bs),
        {
            assert(es.take(j + 1).drop_last() =~= es.take(j as int));
            if !flags[j] {
                kept_enemies.push(self.enemies[j]);
            }
        }
        assert(es.take(ne as int) =~= es);
        proof {
            lemma_surviving_enemies_from(es, bs);
            lemma_surviving_bullets_from(bs, es);
            lemma_drawn_keeps(kept_enemies@, es, DRIFT_LIMIT as int);
            lemma_drawn_keeps(kept_enemies@, es, COORD_LIMIT as int);
        }
        self.bullets = kept;
        self.enemies = kept_enemies;
        self.score = self.score + total;
        total
    }

    /// Finds the first enemy that overlaps the player; if there is one, both
    /// are removed and `Some(score)` announces the end of the run.
    pub fn enemy_hit_player(&mut self) -> (over: Option<u64>)
        requires
            old(self).player_within(DRIFT_LIMIT as int),
            old(self).enemies_within(DRIFT_LIMIT as int),
        ensures
            final(self).bullets == old(self).bullets,
            final(self).score == old(self).score,
            final(self).next_id == old(self).next_id,
            over.is_some() <==> (old(self).player.is_some() && exists|j: int|
                0 <= j < old(self).enemies@.len() && enemy_reaches(
                    old(self).player.unwrap(),
                    #[trigger] old(self).enemies@[j],
                )),
            over.is_some() ==> {
                &&& over == Some(old(self).score)
                &&& final(self).player.is_none()
                &&& exists|j: int|
                    0 <= j < old(self).enemies@.len() && enemy_reaches(
                        old(self).player.unwrap(),
                        #[trigger] old(self).enemies@[j],
                    ) && (forall|k: int|
                        0 <= k < j ==> !enemy_reaches(
                            old(self).player.unwrap(),
                            #[trigger] old(self).enemies@[k],
                        )) && final(self).enemies@ == old(self).enemies@.remove(j)
            },
            over.is_none() ==> final(self).player == old(self).player && final(self).enemies
                == old(self).enemies,
            final(self).player_within(DRIFT_LIMIT as int),
            final(self).player.is_some() ==> final(self).player == old(self).player,
            final(self).enemies_within(DRIFT_LIMIT as int),
            old(self).enemies_within(COORD_LIMIT as int) ==> final(self).enemies_within(
                COORD_LIMIT as int,
            ),
            forall|w: int| in_lanes(old(self).enemies@, w) ==> #[trigger] in_lanes(final(self).enemies@, w),
            lockstep(old(self).enemies@) ==> lockstep(final(self).enemies@),
    {
        if let Some(p) = self.player {
            let n = self.enemies.len();
            let mut j: usize = 0;
            while j < n
                invariant
                    n == self.enemies@.len(),
                    *self == *old(self),
                    self.player == Some(p),
                    self.player_within(DRIFT_LIMIT as int),
                    self.enemies_within(DRIFT_LIMIT as int),
                    j <= n,
                    forall|k: int| 0 <= k < j ==> !enemy_reaches(p, #[trigger] self.enemies@[k]),
                decreases n - j,
            {
                let e = self.enemies[j];
                if disks_touch(p.pos, e.pos, PLAYER_RADIUS + ENEMY_RADIUS) {
                    assert(enemy_reaches(p, self.enemies@[j as int]));
                    proof {
                        lemma_remove_keeps(self.enemies@, j as int, DRIFT_LIMIT as int);
                        lemma_remove_keeps(self.enemies@, j as int, COORD_LIMIT as int);
                    }
                    self.enemies.remove(j);
                    self.player = None;
                    return Some(self.score);
                }
                j = j + 1;
            }
            None
        } else {
            None
        }
    }
}

} // verus!
