//! Spawning and despawning of the player, the enemy row and bullets.
use vstd::prelude::*;
use crate::geometry::{
    bullet_y_max, Extent, Point, BULLET_RADIUS, COORD_LIMIT, DRIFT_LIMIT, ENEMY_PER_ROW,
    ENEMY_SPACING, PADDING,
};
use crate::world::{bullet_ok, bullets_drawn_from, Bullet, Enemy, Heading, Player, World};

verus! {

/// The enemy of column `c` in a freshly spawned row, heading right.
pub open spec fn row_enemy(height: int, first_id: int, c: int) -> Enemy {
    Enemy {
        id: (first_id + c) as u64,
        pos: Point { x: (PADDING + ENEMY_SPACING * c) as i64, y: (height - PADDING) as i64 },
        direction: Heading::Right,
        row: 0,
        col: c as usize,
    }
}

/// The bullets that are still below the top of the field.
pub open spec fn bullets_in_field(bs: Seq<Bullet>, height: int) -> Seq<Bullet>
    decreases bs.len(),
{
    if bs.len() == 0 {
        bs
    } else {
        let rest = bullets_in_field(bs.drop_last(), height);
        if bs.last().pos.y <= bullet_y_max(height) {
            rest.push(bs.last())
        } else {
            rest
        }
    }
}

/// Every bullet still in the field was one of `bs`.
pub proof fn lemma_in_field_from(bs: Seq<Bullet>, height: int)
    ensures
        bullets_drawn_from(bullets_in_field(bs, height), bs),
    decreases bs.len(),
{
    if bs.len() > 0 {
        let init = bs.drop_last();
        lemma_in_field_from(init, height);
        let rest = bullets_in_field(init, height);
        let all = bullets_in_field(bs, height);
        assert forall|k: int| #![trigger all[k]] 0 <= k < all.len() implies exists|i: int|
            0 <= i < bs.len() && all[k] == #[trigger] bs[i] by {
            if k < rest.len() {
                let i = choose|i: int| 0 <= i < init.len() && rest[k] == #[trigger] init[i];
                assert(all[k] == bs[i]);
            } else {
                assert(all[k] == bs[bs.len() - 1]);
            }
        }
    }
}

impl World {
    /// Places a new player at the centre of the window.
    pub fn spawn_player(&mut self, extent: Extent)
        requires
            extent.wf(),
            old(self).next_id < u64::MAX,
        ensures
            final(self).player == Some(
                Player {
                    id: old(self).next_id,
                    pos: Point { x: (extent.width / 2) as i64, y: (extent.height / 2) as i64 },
                },
            ),
            final(self).next_id == old(self).next_id + 1,
            final(self).enemies == old(self).enemies,
            final(self).bullets == old(self).bullets,
            final(self).score == old(self).score,
            final(self).player_within(COORD_LIMIT as int),
    {
        let pos = Point { x: extent.width / 2, y: extent.height / 2 };
        self.player = Some(Player { id: self.next_id, pos });
        self.next_id = self.next_id + 1;
    }

    /// Replaces the enemies with one row, evenly spaced from the left
    /// padding, at the top of the field, all heading right.
    pub fn spawn_enemies(&mut self, extent: Extent)
        requires
            extent.wf(),
            old(self).next_id <= u64::MAX - ENEMY_PER_ROW,
        ensures
            final(self).enemies@.len() == ENEMY_PER_ROW,
            forall|c: int|
                0 <= c < ENEMY_PER_ROW ==> #[trigger] final(self).enemies@[c] == row_enemy(
                    extent.height as int,
                    old(self).next_id as int,
                    c,
                ),
            final(self).next_id == old(self).next_id + ENEMY_PER_ROW,
            final(self).player == old(self).player,
            final(self).bullets == old(self).bullets,
            final(self).score == old(self).score,
            final(self).enemies_within(COORD_LIMIT as int),
    {
        let ghost first = self.next_id;
        let mut row: Vec<Enemy> = Vec::new();
        let y = extent.height - PADDING;
        for i in 0..ENEMY_PER_ROW
            invariant
                extent.wf(),
                y == extent.height - PADDING,
                self.next_id == first + i,
                first <= u64::MAX - ENEMY_PER_ROW,
                row@.len() == i,
                forall|c: int| 0 <= c < i ==> #[trigger] row@[c] == row_enemy(
                    extent.height as int,
                    first as int,
                    c,
                ),
                self.player == old(self).player,
                self.bullets == old(self).bullets,
                self.score == old(self).score,
        {
            let x = PADDING + ENEMY_SPACING * i as i64;
            row.push(
                Enemy {
                    id: self.next_id,
                    pos: Point { x, y },
                    direction: Heading::Right,
                    row: 0,
                    col: i,
                },
            );
            self.next_id = self.next_id + 1;
        }
        self.enemies = row;
    }

    /// Removes the player, every enemy and every bullet.
    pub fn despawn_entities(&mut self)
        ensures
            final(self).player.is_none(),
            final(self).enemies@.len() == 0,
            final(self).bullets@.len() == 0,
            final(self).score == old(self).score,
            final(self).next_id == old(self).next_id,
            final(self).wf(),
    {
        self.player = None;
        self.enemies = Vec::new();
        self.bullets = Vec::new();
    }

    /// On a press of the fire key, fires a bullet from where the player
    /// stands; returns whether one was fired.
    pub fn bullet_spawn(&mut self, fire: bool) -> (fired: bool)
        requires
            old(self).next_id < u64::MAX,
        ensures
            fired == (fire && old(self).player.is_some()),
            fired ==> final(self).bullets@ == old(self).bullets@.push(
                Bullet { id: old(self).next_id, pos: old(self).player.unwrap().pos },
            ) && final(self).next_id == old(self).next_id + 1,
            !fired ==> final(self).bullets == old(self).bullets && final(self).next_id == old(
                self,
            ).next_id,
            final(self).player == old(self).player,
            final(self).enemies == old(self).enemies,
            final(self).score == old(self).score,
            old(self).player_within(COORD_LIMIT as int) && old(self).bullets_within(
                DRIFT_LIMIT as int,
            ) ==> final(self).bullets_within(DRIFT_LIMIT as int),
    {
        if fire {
            if let Some(p) = self.player {
                self.bullets.push(Bullet { id: self.next_id, pos: p.pos });
                self.next_id = self.next_id + 1;
                return true;
            }
        }
        false
    }

    /// Removes the bullets that have left the field through its top.
    pub fn bullet_bounds(&mut self, extent: Extent)
        requires
            extent.wf(),
            old(self).bullets_within(DRIFT_LIMIT as int),
        ensures
            final(self).bullets@ == bullets_in_field(old(self).bullets@, extent.height as int),
            bullets_drawn_from(final(self).bullets@, old(self).bullets@),
            final(self).bullets_within(COORD_LIMIT as int),
            forall|i: int|
                0 <= i < final(self).bullets@.len() ==> (#[trigger] final(self).bullets@[i]).pos.y
                    <= bullet_y_max(extent.height as int),
            final(self).player == old(self).player,
            final(self).enemies == old(self).enemies,
            final(self).score == old(self).score,
            final(self).next_id == old(self).next_id,
    {
        let ghost bs = self.bullets@;
        let n = self.bullets.len();
        let top = extent.height - BULLET_RADIUS;
        let mut kept: Vec<Bullet> = Vec::new();
        for i in 0..n
            invariant
                bs == self.bullets@,
                n == bs.len(),
                extent.wf(),
                top == bullet_y_max(extent.height as int),
                self.bullets_within(DRIFT_LIMIT as int),
                kept@ == bullets_in_field(bs.take(i as int), extent.height as int),
                forall|k: int| 0 <= k < kept@.len() ==> #[trigger] kept@[k].pos.y <= top,
                forall|k: int| 0 <= k < kept@.len() ==> bullet_ok(#[trigger] kept@[k], COORD_LIMIT as int),
        {
            assert(bs.take(i + 1).drop_last() =~= bs.take(i as int));
            let b = self.bullets[i];
            if b.pos.y <= top {
                kept.push(b);
            }
        }
        assert(bs.take(n as int) =~= bs);
        proof {
            lemma_in_field_from(bs, extent.height as int);
        }
        self.bullets = kept;
    }
}

} // verus!
