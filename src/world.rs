//! The entities of a run and the stages that move and contain them.
use vstd::prelude::*;
use crate::geometry::{
    clamp_axis, clamp_spec, diagonal_component, is_diagonal_component, lane_bounds, lane_max,
    lane_min, player_x_max, player_x_min, player_y_max, player_y_min, within, Extent, Point,
    BULLET_SPEED, COORD_LIMIT, DRIFT_LIMIT, ENEMY_PER_ROW, ENEMY_SPEED, PLAYER_RADIUS,
    PLAYER_SPEED,
};

verus! {

/// Horizontal sense of an enemy's motion: the unit vector `(1, 0)` or `(-1, 0)`.
#[derive(Clone, Copy, Debug, PartialEq, Eq, Structural)]
pub enum Heading {
    Right,
    Left,
}

impl Heading {
    pub open spec fn dx(self) -> int {
        match self {
            Heading::Right => 1,
            Heading::Left => -1,
        }
    }

    pub open spec fn dy(self) -> int {
        0
    }

    pub open spec fn flip_spec(self) -> Heading {
        match self {
            Heading::Right => Heading::Left,
            Heading::Left => Heading::Right,
        }
    }

    pub fn flipped(self) -> (r: Heading)
        ensures
            r == self.flip_spec(),
            r.dx() == -self.dx(),
    {
        match self {
            Heading::Right => Heading::Left,
            Heading::Left => Heading::Right,
        }
    }
}

#[derive(Clone, Copy, Debug, PartialEq, Eq, Structural)]
pub struct Player {
    pub id: u64,
    pub pos: Point,
}

#[derive(Clone, Copy, Debug, PartialEq, Eq, Structural)]
pub struct Enemy {
    pub id: u64,
    pub pos: Point,
    pub direction: Heading,
    pub row: usize,
    pub col: usize,
}

#[derive(Clone, Copy, Debug, PartialEq, Eq, Structural)]
pub struct Bullet {
    pub id: u64,
    pub pos: Point,
}

/// The arrow keys held during a frame.
#[derive(Clone, Copy, Debug, PartialEq, Eq, Structural)]
pub struct Held {
    pub left: bool,
    pub right: bool,
    pub up: bool,
    pub down: bool,
}

/// -1, 0 or 1: the sum of the unit steps of two opposite keys.
pub open spec fn axis(neg: bool, pos: bool) -> int {
    (if pos { 1int } else { 0int }) - (if neg { 1int } else { 0int })
}

impl Held {
    pub open spec fn ax(self) -> int {
        axis(self.left, self.right)
    }

    pub open spec fn ay(self) -> int {
        axis(self.down, self.up)
    }
}

/// `step / sqrt(2)` rounded down.
pub open spec fn diag_of(step: int) -> int {
    choose|c: int| c >= 0 && is_diagonal_component(c, step)
}

/// How far a player moving `step` goes along each axis that a key drives:
/// the whole step when one axis is driven, the normalised share on a diagonal.
pub open spec fn player_reach(keys: Held, step: int) -> int {
    if keys.ax() != 0 && keys.ay() != 0 {
        diag_of(step)
    } else {
        step
    }
}

pub open spec fn enemy_ok(e: Enemy, bx: int) -> bool {
    &&& -bx <= e.pos.x <= bx
    &&& -COORD_LIMIT <= e.pos.y <= COORD_LIMIT
    &&& e.col < ENEMY_PER_ROW
}

pub open spec fn bullet_ok(b: Bullet, top: int) -> bool {
    -COORD_LIMIT <= b.pos.x <= COORD_LIMIT && -COORD_LIMIT <= b.pos.y <= top
}

/// Every enemy stands inside its lane.
pub open spec fn in_lanes(es: Seq<Enemy>, width: int) -> bool {
    forall|i: int|
        0 <= i < es.len() ==> lane_min((#[trigger] es[i]).col as int) <= es[i].pos.x <= lane_max(
            width,
            es[i].col as int,
        )
}

/// How far an enemy stands from the left end of its lane.
pub open spec fn lane_offset(e: Enemy) -> int {
    e.pos.x - lane_min(e.col as int)
}

/// The row moves as one: every enemy stands at the same offset in its lane
/// and heads the same way.
pub open spec fn lockstep(es: Seq<Enemy>) -> bool {
    forall|i: int, j: int|
        0 <= i < es.len() && 0 <= j < es.len() ==> lane_offset(#[trigger] es[i]) == lane_offset(
            #[trigger] es[j],
        ) && es[i].direction == es[j].direction
}

/// Every enemy of `fresh` is one of `es`.
pub open spec fn enemies_drawn_from(fresh: Seq<Enemy>, es: Seq<Enemy>) -> bool {
    forall|k: int|
        #![trigger fresh[k]]
        0 <= k < fresh.len() ==> exists|i: int| 0 <= i < es.len() && fresh[k] == #[trigger] es[i]
}

/// The length of every lane in a window `width` wide.
pub open spec fn lane_span(width: int) -> int {
    lane_max(width, 0) - lane_min(0)
}

/// A change to each enemy that depends only on its lane offset and heading
/// keeps a row that moves as one moving as one.
pub proof fn lemma_uniform_change(
    es: Seq<Enemy>,
    out: Seq<Enemy>,
    shift: spec_fn(int, Heading) -> int,
    turn: spec_fn(int, Heading) -> Heading,
)
    requires
        lockstep(es),
        out.len() == es.len(),
        forall|i: int|
            0 <= i < es.len() ==> lane_offset(#[trigger] out[i]) == shift(
                lane_offset(es[i]),
                es[i].direction,
            ) && out[i].direction == turn(lane_offset(es[i]), es[i].direction),
    ensures
        lockstep(out),
{
    assert forall|i: int, j: int|
        0 <= i < out.len() && 0 <= j < out.len() implies lane_offset(#[trigger] out[i])
        == lane_offset(#[trigger] out[j]) && out[i].direction == out[j].direction by {
        assert(lane_offset(es[i]) == lane_offset(es[j]));
        assert(es[i].direction == es[j].direction);
    }
}

/// Every bullet of `fresh` is one of `bs`.
pub open spec fn bullets_drawn_from(fresh: Seq<Bullet>, bs: Seq<Bullet>) -> bool {
    forall|k: int|
        #![trigger fresh[k]]
        0 <= k < fresh.len() ==> exists|i: int| 0 <= i < bs.len() && fresh[k] == #[trigger] bs[i]
}

/// Everything alive during a run, and the score.
pub struct World {
    pub player: Option<Player>,
    pub enemies: Vec<Enemy>,
    pub bullets: Vec<Bullet>,
    pub score: u64,
    pub next_id: u64,
}

impl World {
    pub open spec fn player_within(&self, b: int) -> bool {
        match self.player {
            Some(p) => within(p.pos, b),
            None => true,
        }
    }

    pub open spec fn enemies_within(&self, bx: int) -> bool {
        &&& self.enemies@.len() <= ENEMY_PER_ROW
        &&& forall|i: int| 0 <= i < self.enemies@.len() ==> enemy_ok(#[trigger] self.enemies@[i], bx)
    }

    pub open spec fn bullets_within(&self, top: int) -> bool {
        forall|i: int| 0 <= i < self.bullets@.len() ==> bullet_ok(#[trigger] self.bullets@[i], top)
    }

    /// Coordinates are small enough for every stage's arithmetic, and every
    /// enemy belongs to a lane of the row.
    pub open spec fn wf(&self) -> bool {
        &&& self.player_within(COORD_LIMIT as int)
        &&& self.enemies_within(COORD_LIMIT as int)
        &&& self.bullets_within(COORD_LIMIT as int)
    }

    /// An empty world with a zero score.
    pub fn new() -> (r: World)
        ensures
            r.player.is_none(),
            r.enemies@.len() == 0,
            r.bullets@.len() == 0,
            r.score == 0,
            r.next_id == 0,
            r.wf(),
    {
        World { player: None, enemies: Vec::new(), bullets: Vec::new(), score: 0, next_id: 0 }
    }

    /// Moves the player along the held arrow keys, normalising a diagonal.
    pub fn player_movement(&mut self, keys: Held, dt_us: u32)
        requires
            old(self).player_within(COORD_LIMIT as int),
        ensures
            final(self).enemies == old(self).enemies,
            final(self).bullets == old(self).bullets,
            final(self).score == old(self).score,
            final(self).next_id == old(self).next_id,
            final(self).player_within(DRIFT_LIMIT as int),
            match (old(self).player, final(self).player) {
                (None, None) => true,
                (Some(p), Some(q)) => {
                    let d = player_reach(keys, PLAYER_SPEED * dt_us);
                    &&& q.id == p.id
                    &&& q.pos.x == p.pos.x + keys.ax() * d
                    &&& q.pos.y == p.pos.y + keys.ay() * d
                },
                _ => false,
            },
    {
        if let Some(p) = self.player {
            let step: u64 = PLAYER_SPEED as u64 * dt_us as u64;
            let diagonal = keys.left != keys.right && keys.up != keys.down;
            let d: i64 = if diagonal {
                let c = diagonal_component(step);
                proof {
                    lemma_diag_of(c as int, step as int);
                }
                c as i64
            } else {
                step as i64
            };
            let pos = Point {
                x: nudge(p.pos.x, keys.left, keys.right, d),
                y: nudge(p.pos.y, keys.down, keys.up, d),
            };
            self.player = Some(Player { id: p.id, pos });
        }
    }

    /// Clamps the player into the window, keeping its whole sprite inside.
    pub fn player_bounds(&mut self, extent: Extent)
        requires
            extent.wf(),
            old(self).player_within(DRIFT_LIMIT as int),
        ensures
            final(self).enemies == old(self).enemies,
            final(self).bullets == old(self).bullets,
            final(self).score == old(self).score,
            final(self).next_id == old(self).next_id,
            final(self).player_within(COORD_LIMIT as int),
            match (old(self).player, final(self).player) {
                (None, None) => true,
                (Some(p), Some(q)) => {
                    &&& q.id == p.id
                    &&& q.pos.x == clamp_spec(
                        p.pos.x as int,
                        player_x_min(),
                        player_x_max(extent.width as int),
                    )
                    &&& q.pos.y == clamp_spec(
                        p.pos.y as int,
                        player_y_min(),
                        player_y_max(extent.height as int),
                    )
                },
                _ => false,
            },
    {
        if let Some(p) = self.player {
            let x = clamp_axis(p.pos.x, PLAYER_RADIUS, extent.width - PLAYER_RADIUS);
            let y = clamp_axis(p.pos.y, PLAYER_RADIUS, extent.height - PLAYER_RADIUS);
            self.player = Some(Player { id: p.id, pos: Point { x, y } });
        }
    }

    /// Moves every enemy one step along its heading.
    pub fn enemy_movement(&mut self, dt_us: u32)
        requires
            old(self).enemies_within(COORD_LIMIT as int),
        ensures
            final(self).player == old(self).player,
            final(self).bullets == old(self).bullets,
            final(self).score == old(self).score,
            final(self).next_id == old(self).next_id,
            final(self).enemies_within(DRIFT_LIMIT as int),
            final(self).enemies@.len() == old(self).enemies@.len(),
            forall|i: int|
                0 <= i < old(self).enemies@.len() ==> {
                    let e = #[trigger] old(self).enemies@[i];
                    let f = final(self).enemies@[i];
                    &&& f.pos.x == e.pos.x + e.direction.dx() * (ENEMY_SPEED * dt_us)
                    &&& f.pos.y == e.pos.y + e.direction.dy() * (ENEMY_SPEED * dt_us)
                    &&& f == Enemy { pos: f.pos, ..e }
                },
            lockstep(old(self).enemies@) ==> lockstep(final(self).enemies@),
    {
        let step: i64 = ENEMY_SPEED * dt_us as i64;
        let n = self.enemies.len();
        let mut out: Vec<Enemy> = Vec::new();
        for i in 0..n
            invariant
                n == self.enemies@.len(),
                self.enemies_within(COORD_LIMIT as int),
                step == ENEMY_SPEED * dt_us,
                out@.len() == i,
                forall|k: int|
                    0 <= k < i ==> {
                        let e = #[trigger] self.enemies@[k];
                        let f = out@[k];
                        &&& f.pos.x == e.pos.x + e.direction.dx() * step
                        &&& f.pos.y == e.pos.y
                        &&& f == Enemy { pos: f.pos, ..e }
                    },
                forall|k: int| 0 <= k < i ==> enemy_ok(#[trigger] out@[k], DRIFT_LIMIT as int),
        {
            let e = self.enemies[i];
            let x = match e.direction {
                Heading::Right => e.pos.x + step,
                Heading::Left => e.pos.x - step,
            };
            out.push(Enemy { pos: Point { x, y: e.pos.y }, ..e });
        }
        proof {
            let es = self.enemies@;
            if lockstep(es) {
                lemma_uniform_change(
                    es,
                    out@,
                    |o: int, d: Heading| o + d.dx() * step,
                    |o: int, d: Heading| d,
                );
            }
        }
        self.enemies = out;
    }

    /// Clamps every enemy into its lane; its height is left as it is.
    pub fn enemy_bounds(&mut self, extent: Extent)
        requires
            extent.wf(),
            old(self).enemies_within(DRIFT_LIMIT as int),
        ensures
            final(self).player == old(self).player,
            final(self).bullets == old(self).bullets,
            final(self).score == old(self).score,
            final(self).next_id == old(self).next_id,
            final(self).enemies_within(COORD_LIMIT as int),
            final(self).enemies@.len() == old(self).enemies@.len(),
            forall|i: int|
                0 <= i < old(self).enemies@.len() ==> {
                    let e = #[trigger] old(self).enemies@[i];
                    let f = final(self).enemies@[i];
                    &&& f.pos.x == clamp_spec(
                        e.pos.x as int,
                        lane_min(e.col as int),
                        lane_max(extent.width as int, e.col as int),
                    )
                    &&& f.pos.y == e.pos.y
                    &&& f == Enemy { pos: f.pos, ..e }
                },
            extent.roomy() ==> in_lanes(final(self).enemies@, extent.width as int),
            lockstep(old(self).enemies@) ==> lockstep(final(self).enemies@),
    {
        let n = self.enemies.len();
        let mut out: Vec<Enemy> = Vec::new();
        for i in 0..n
            invariant
                n == self.enemies@.len(),
                extent.wf(),
                self.enemies_within(DRIFT_LIMIT as int),
                out@.len() == i,
                forall|k: int|
                    0 <= k < i ==> {
                        let e = #[trigger] self.enemies@[k];
                        let f = out@[k];
                        &&& f.pos.x == clamp_spec(
                            e.pos.x as int,
                            lane_min(e.col as int),
                            lane_max(extent.width as int, e.col as int),
                        )
                        &&& f.pos.y == e.pos.y
                        &&& f == Enemy { pos: f.pos, ..e }
                    },
                forall|k: int| 0 <= k < i ==> enemy_ok(#[trigger] out@[k], COORD_LIMIT as int),
        {
            let e = self.enemies[i];
            let (lo, hi) = lane_bounds(extent.width, e.col);
            let x = clamp_axis(e.pos.x, lo, hi);
            out.push(Enemy { pos: Point { x, y: e.pos.y }, ..e });
        }
        proof {
            let es = self.enemies@;
            let w = extent.width as int;
            if lockstep(es) {
                lemma_uniform_change(
                    es,
                    out@,
                    |o: int, d: Heading| clamp_spec(o, 0, lane_span(w)),
                    |o: int, d: Heading| d,
                );
            }
            if extent.roomy() {
                assert forall|i: int| 0 <= i < out@.len() implies lane_min(
                    (#[trigger] out@[i]).col as int,
                ) <= out@[i].pos.x <= lane_max(w, out@[i].col as int) by {
                    assert(es[i].col == out@[i].col);
                }
            }
        }
        self.enemies = out;
    }

    /// Reverses every enemy that stands at an end of its lane.
    pub fn enemy_direction(&mut self, extent: Extent)
        requires
            extent.wf(),
            old(self).enemies_within(COORD_LIMIT as int),
        ensures
            final(self).enemies_within(COORD_LIMIT as int),
            in_lanes(old(self).enemies@, extent.width as int) ==> in_lanes(
                final(self).enemies@,
                extent.width as int,
            ),
            lockstep(old(self).enemies@) ==> lockstep(final(self).enemies@),
            final(self).player == old(self).player,
            final(self).bullets == old(self).bullets,
            final(self).score == old(self).score,
            final(self).next_id == old(self).next_id,
            final(self).enemies@.len() == old(self).enemies@.len(),
            forall|i: int|
                0 <= i < old(self).enemies@.len() ==> {
                    let e = #[trigger] old(self).enemies@[i];
                    let at_wall = e.pos.x == lane_min(e.col as int) || e.pos.x == lane_max(
                        extent.width as int,
                        e.col as int,
                    );
                    final(self).enemies@[i] == Enemy {
                        direction: if at_wall {
                            e.direction.flip_spec()
                        } else {
                            e.direction
                        },
                        ..e
                    }
                },
    {
        let n = self.enemies.len();
        let mut out: Vec<Enemy> = Vec::new();
        for i in 0..n
            invariant
                n == self.enemies@.len(),
                extent.wf(),
                self.enemies_within(COORD_LIMIT as int),
                out@.len() == i,
                forall|k: int|
                    0 <= k < i ==> {
                        let e = #[trigger] self.enemies@[k];
                        let at_wall = e.pos.x == lane_min(e.col as int) || e.pos.x == lane_max(
                            extent.width as int,
                            e.col as int,
                        );
                        out@[k] == Enemy {
                            direction: if at_wall {
                                e.direction.flip_spec()
                            } else {
                                e.direction
                            },
                            ..e
                        }
                    },
        {
            let e = self.enemies[i];
            let (lo, hi) = lane_bounds(extent.width, e.col);
            let direction = if e.pos.x == lo || e.pos.x == hi {
                e.direction.flipped()
            } else {
                e.direction
            };
            out.push(Enemy { direction, ..e });
        }
        proof {
            let es = self.enemies@;
            let w = extent.width as int;
            assert forall|i: int| 0 <= i < out@.len() implies enemy_ok(
                #[trigger] out@[i],
                COORD_LIMIT as int,
            ) by {
                assert(enemy_ok(es[i], COORD_LIMIT as int));
            }
            if in_lanes(es, w) {
                assert forall|i: int| 0 <= i < out@.len() implies lane_min(
                    (#[trigger] out@[i]).col as int,
                ) <= out@[i].pos.x <= lane_max(w, out@[i].col as int) by {
                    assert(lane_min(es[i].col as int) <= es[i].pos.x);
                }
            }
            if lockstep(es) {
                lemma_uniform_change(
                    es,
                    out@,
                    |o: int, d: Heading| o,
                    |o: int, d: Heading|
                        if o == 0 || o == lane_span(w) {
                            d.flip_spec()
                        } else {
                            d
                        },
                );
            }
        }
        self.enemies = out;
    }

    /// Moves every bullet straight up.
    pub fn bullet_movement(&mut self, dt_us: u32)
        requires
            old(self).bullets_within(COORD_LIMIT as int),
        ensures
            final(self).player == old(self).player,
            final(self).enemies == old(self).enemies,
            final(self).score == old(self).score,
            final(self).next_id == old(self).next_id,
            final(self).bullets_within(DRIFT_LIMIT as int),
            final(self).bullets@.len() == old(self).bullets@.len(),
            forall|i: int|
                0 <= i < old(self).bullets@.len() ==> {
                    let b = #[trigger] old(self).bullets@[i];
                    let c = final(self).bullets@[i];
                    &&& c.id == b.id
                    &&& c.pos.x == b.pos.x
                    &&& c.pos.y == b.pos.y + BULLET_SPEED * dt_us
                },
    {
        let step: i64 = BULLET_SPEED * dt_us as i64;
        let n = self.bullets.len();
        let mut out: Vec<Bullet> = Vec::new();
        for i in 0..n
            invariant
                n == self.bullets@.len(),
                self.bullets_within(COORD_LIMIT as int),
                step == BULLET_SPEED * dt_us,
                out@.len() == i,
                forall|k: int|
                    0 <= k < i ==> {
                        let b = #[trigger] self.bullets@[k];
                        let c = out@[k];
                        &&& c.id == b.id
                        &&& c.pos.x == b.pos.x
                        &&& c.pos.y == b.pos.y + step
                    },
                forall|k: int| 0 <= k < i ==> bullet_ok(#[trigger] out@[k], DRIFT_LIMIT as int),
        {
            let b = self.bullets[i];
            out.push(Bullet { pos: Point { x: b.pos.x, y: b.pos.y + step }, ..b });
        }
        self.bullets = out;
    }
}

/// Moves `v` by `d` against the first key and along the second.
fn nudge(v: i64, neg: bool, pos: bool, d: i64) -> (r: i64)
    requires
        -COORD_LIMIT <= v <= COORD_LIMIT,
        0 <= d <= 0x4_0000_0000,
    ensures
        r == v + axis(neg, pos) * d,
        -DRIFT_LIMIT <= r <= DRIFT_LIMIT,
{
    if pos && !neg {
        assert(axis(neg, pos) == 1);
        v + d
    } else if neg && !pos {
        assert(axis(neg, pos) == -1);
        v - d
    } else {
        assert(axis(neg, pos) == 0);
        v
    }
}

/// `diag_of` names the one non-negative diagonal component.
pub proof fn lemma_diag_of(c: int, step: int)
    requires
        c >= 0,
        step >= 0,
        is_diagonal_component(c, step),
    ensures
        diag_of(step) == c,
{
    let d = diag_of(step);
    assert(d >= 0 && is_diagonal_component(d, step));
    if d < c {
        assert(2 * (d + 1) * (d + 1) <= 2 * c * c) by (nonlinear_arith)
            requires
                0 <= d < c,
        ;
    } else if d > c {
        assert(2 * (c + 1) * (c + 1) <= 2 * d * d) by (nonlinear_arith)
            requires
                0 <= c < d,
        ;
    }
}

} // verus!
