//! Laws of the simulation that relate several steps or several calls.
use vstd::prelude::*;
use crate::game::{bullets_rose, flip_sim, Controls, FrameReport, Game, SimulationState};
use crate::geometry::{bullet_y_max, clamp_spec, lane_min, Extent, BULLET_SPEED};
use crate::world::{lane_offset, lockstep, Enemy, Heading, World};

verus! {

/// Of two enemies of a row that moves as one, the one in the lower column
/// stands further left: the lanes never cross. A new game, a fresh row and
/// every frame keep the row moving as one, so this holds at all times.
pub proof fn lanes_keep_order(es: Seq<Enemy>)
    requires
        lockstep(es),
    ensures
        forall|i: int, j: int|
            0 <= i < es.len() && 0 <= j < es.len() && es[i].col < es[j].col ==> (#[trigger] es[i]).pos.x
                < (#[trigger] es[j]).pos.x,
{
    assert forall|i: int, j: int|
        0 <= i < es.len() && 0 <= j < es.len() && es[i].col < es[j].col implies (#[trigger] es[i]).pos.x
        < (#[trigger] es[j]).pos.x by {
        assert(lane_offset(es[i]) == lane_offset(es[j]));
        assert(lane_min(es[i].col as int) < lane_min(es[j].col as int));
    }
}

/// An enemy's heading is a unit vector.
pub proof fn heading_is_unit(h: Heading)
    ensures
        h.dx() * h.dx() + h.dy() * h.dy() == 1,
{
}

/// The number of players alive in a world.
pub open spec fn player_count(w: World) -> nat {
    if w.player.is_some() {
        1
    } else {
        0
    }
}

/// A world holds at most one player.
pub proof fn at_most_one_player(w: World)
    ensures
        player_count(w) <= 1,
{
}

/// A bullet that rises by `step >= 1` each frame and stays below `top`
/// lives for at most `top - y + 1` frames, where `y` is where it started:
/// `heights` lists its height in each frame it was alive.
pub proof fn bullet_lifetime_bounded(heights: Seq<int>, step: int, top: int)
    requires
        step >= 1,
        heights.len() >= 1,
        forall|k: int| 0 <= k < heights.len() - 1 ==> heights[k + 1] == #[trigger] heights[k] + step,
        forall|k: int| 0 <= k < heights.len() ==> #[trigger] heights[k] <= top,
    ensures
        heights.len() <= top - heights[0] + 1,
    decreases heights.len(),
{
    if heights.len() > 1 {
        let rest = heights.drop_last();
        assert forall|k: int| 0 <= k < rest.len() - 1 implies rest[k + 1] == #[trigger] rest[k] + step by {
            assert(heights[k + 1] == heights[k] + step);
        }
        assert forall|k: int| 0 <= k < rest.len() implies #[trigger] rest[k] <= top by {
            assert(heights[k] <= top);
        }
        bullet_lifetime_bounded(rest, step, top);
        let n = heights.len() - 1;
        assert(heights[n] == heights[n - 1] + step);
        assert(heights[n - 1] >= heights[0] + (n - 1)) by {
            rising_from_start(heights, step, n - 1);
        }
    }
}

proof fn rising_from_start(heights: Seq<int>, step: int, n: int)
    requires
        step >= 1,
        0 <= n < heights.len(),
        forall|k: int| 0 <= k < heights.len() - 1 ==> heights[k + 1] == #[trigger] heights[k] + step,
    ensures
        heights[n] >= heights[0] + n,
    decreases n,
{
    if n > 0 {
        rising_from_start(heights, step, n - 1);
        assert(heights[n] == heights[n - 1] + step);
    }
}

/// Every bullet with id `id` in `g` stands at height `y` or above.
pub open spec fn bullet_at_least(g: Game, id: u64, y: int) -> bool {
    forall|i: int|
        0 <= i < g.world.bullets@.len() && (#[trigger] g.world.bullets@[i]).id == id ==> g.world.bullets@[i].pos.y >= y
}

/// The `k`-th of a series of frames ran the simulation, lasted at least a
/// microsecond, and used no id below those used before.
#[verifier::opaque]
pub open spec fn running_step(
    games: Seq<Game>,
    controls: Seq<Controls>,
    reports: Seq<FrameReport>,
    dts: Seq<u32>,
    extent: Extent,
    k: int,
) -> bool {
    &&& games[k].running()
    &&& dts[k] >= 1
    &&& Game::running_frame(games[k], games[k + 1], controls[k], reports[k], extent, dts[k])
    &&& games[k + 1].world.next_id >= games[k].world.next_id
}

/// A bullet alive in the field before a series of running frames, each at
/// least a microsecond long and in a window large enough for every lane, is
/// gone after more than `top - y` of them, where `y` was its height and
/// `top` the highest a bullet may stand: it rises every frame and never
/// above the top.
pub proof fn bullet_leaves_field(
    games: Seq<Game>,
    controls: Seq<Controls>,
    reports: Seq<FrameReport>,
    dts: Seq<u32>,
    extent: Extent,
    id: u64,
    y: int,
)
    requires
        games.len() == dts.len() + 1,
        controls.len() == dts.len(),
        reports.len() == dts.len(),
        extent.roomy(),
        forall|k: int|
            0 <= k < dts.len() ==> #[trigger] running_step(games, controls, reports, dts, extent, k),
        id < games[0].world.next_id,
        bullet_at_least(games[0], id, y),
        y <= bullet_y_max(extent.height as int),
    ensures
        (exists|i: int|
            0 <= i < games.last().world.bullets@.len() && (#[trigger] games.last().world.bullets@[i]).id
                == id) ==> dts.len() <= bullet_y_max(extent.height as int) - y,
{
    rising_bullet(games, controls, reports, dts, extent, id, y, dts.len() as int);
    if exists|i: int|
        0 <= i < games.last().world.bullets@.len() && (#[trigger] games.last().world.bullets@[i]).id
            == id {
        let i = choose|i: int|
            0 <= i < games.last().world.bullets@.len() && (#[trigger] games.last().world.bullets@[i]).id
                == id;
        let n = dts.len() as int;
        if n > 0 {
            assert(running_step(games, controls, reports, dts, extent, n - 1));
            reveal(running_step);
            assert(games[n] == games.last());
            assert(games.last().world.bullets@[i].pos.y <= bullet_y_max(extent.height as int));
        }
    }
}

proof fn rising_bullet(
    games: Seq<Game>,
    controls: Seq<Controls>,
    reports: Seq<FrameReport>,
    dts: Seq<u32>,
    extent: Extent,
    id: u64,
    y: int,
    n: int,
)
    requires
        games.len() == dts.len() + 1,
        controls.len() == dts.len(),
        reports.len() == dts.len(),
        0 <= n <= dts.len(),
        forall|k: int|
            0 <= k < dts.len() ==> #[trigger] running_step(games, controls, reports, dts, extent, k),
        id < games[0].world.next_id,
        bullet_at_least(games[0], id, y),
    ensures
        bullet_at_least(games[n], id, y + n),
        games[n].world.next_id >= games[0].world.next_id,
    decreases n,
{
    if n > 0 {
        rising_bullet(games, controls, reports, dts, extent, id, y, n - 1);
        let k = n - 1;
        assert(running_step(games, controls, reports, dts, extent, k));
        reveal(running_step);
        let pre = games[k];
        let post = games[n];
        assert(bullets_rose(
            post.world.bullets@,
            pre.world.bullets@,
            BULLET_SPEED * dts[k],
            pre.world.next_id as int,
        ));
        assert forall|i: int|
            0 <= i < post.world.bullets@.len() && (#[trigger] post.world.bullets@[i]).id == id implies post.world.bullets@[i].pos.y
            >= y + n by {
            let b = post.world.bullets@[i];
            assert(b.id != pre.world.next_id);
            let j = choose|j: int|
                0 <= j < pre.world.bullets@.len() && b.id == (#[trigger] pre.world.bullets@[j]).id
                    && b.pos.x == pre.world.bullets@[j].pos.x && b.pos.y == pre.world.bullets@[j].pos.y
                    + BULLET_SPEED * dts[k];
            assert(pre.world.bullets@[j].pos.y >= y + k);
        }
    }
}

/// Clamping a clamped value changes nothing.
pub proof fn clamp_is_idempotent(v: int, lo: int, hi: int)
    requires
        lo <= hi,
    ensures
        clamp_spec(clamp_spec(v, lo, hi), lo, hi) == clamp_spec(v, lo, hi),
{
}

/// Pausing twice, or resuming twice, restores the simulation state.
pub proof fn pause_twice_restores(s: SimulationState)
    ensures
        flip_sim(flip_sim(s)) == s,
{
}

} // verus!
