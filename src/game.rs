//! The two state machines and the ordered per-frame pipeline.
use vstd::prelude::*;
use crate::combat::{enemy_reaches, pair_hits, surviving_bullets, surviving_enemies};
use crate::geometry::{
    bullet_y_max, clamp_spec, lane_max, lane_min, player_x_max, player_x_min, player_y_max,
    player_y_min, Extent, Point, BULLET_SPEED, ENEMY_PER_ROW, ENEMY_RADIUS, ENEMY_SPEED,
    PLAYER_SPEED,
};
use crate::lifecycle::{bullets_in_field, row_enemy};
use crate::world::{
    bullets_drawn_from, in_lanes, lane_offset, lockstep, player_reach, Bullet, Enemy, Held,
    Player, World,
};

verus! {

#[derive(Clone, Copy, Debug, PartialEq, Eq, Structural)]
pub enum AppState {
    MainMenu,
    Game,
    /// Kept for a future end screen; a game over returns to the menu.
    GameOver,
}

#[derive(Clone, Copy, Debug, PartialEq, Eq, Structural)]
pub enum SimulationState {
    Running,
    Paused,
}

/// One-shot sounds that a frame asks the host to play.
#[derive(Clone, Copy, Debug, PartialEq, Eq, Structural)]
pub enum Cue {
    BulletSpawn,
    BulletHit,
    Lose,
}

/// What the host read from the keyboard for one frame: the arrow keys held,
/// and whether fire, pause and the menu key were just pressed.
#[derive(Clone, Copy, Debug, PartialEq, Eq, Structural)]
pub struct Controls {
    pub held: Held,
    pub fire: bool,
    pub pause: bool,
    pub toggle_app: bool,
}

/// What a frame surfaces to the host.
#[derive(Clone, Copy, Debug, PartialEq, Eq, Structural)]
pub struct FrameReport {
    /// Bullet-enemy pairs resolved this frame.
    pub hits: u64,
    /// Whether an enemy reached the player.
    pub lost: bool,
    /// Whether a bullet was fired.
    pub fired: bool,
    /// The new score, when it changed.
    pub score: Option<u64>,
    /// The final score, when the run ended.
    pub game_over: Option<u64>,
}

impl FrameReport {
    /// The sounds to play, in the order of the stages that raised them.
    pub fn cues(&self) -> (r: Vec<Cue>)
        ensures
            r@.len() == self.hits + (if self.lost { 1int } else { 0int }) + (if self.fired {
                1int
            } else {
                0int
            }),
            forall|k: int| 0 <= k < self.hits ==> r@[k] == Cue::BulletHit,
            self.lost ==> r@[self.hits as int] == Cue::Lose,
            self.fired ==> r@[r@.len() - 1] == Cue::BulletSpawn,
    {
        let mut r: Vec<Cue> = Vec::new();
        let mut k: u64 = 0;
        while k < self.hits
            invariant
                k <= self.hits,
                r@.len() == k,
                forall|i: int| 0 <= i < k ==> r@[i] == Cue::BulletHit,
            decreases self.hits - k,
        {
            r.push(Cue::BulletHit);
            k = k + 1;
        }
        if self.lost {
            r.push(Cue::Lose);
        }
        if self.fired {
            r.push(Cue::BulletSpawn);
        }
        r
    }
}

pub open spec fn flip_sim(s: SimulationState) -> SimulationState {
    match s {
        SimulationState::Running => SimulationState::Paused,
        SimulationState::Paused => SimulationState::Running,
    }
}

/// The pause key flips the simulation, but only during a game.
pub fn toggle_simulation(app: AppState, sim: SimulationState, pressed: bool) -> (r:
    SimulationState)
    ensures
        r == if pressed && app == AppState::Game {
            flip_sim(sim)
        } else {
            sim
        },
{
    if pressed && app == AppState::Game {
        match sim {
            SimulationState::Running => SimulationState::Paused,
            SimulationState::Paused => SimulationState::Running,
        }
    } else {
        sim
    }
}

/// What the menu key asks for: the application state to go to (the menu
/// starts a game and a game returns to the menu), and the simulation state,
/// which any press forces to paused.
pub fn toggle_appstate(app: AppState, sim: SimulationState, pressed: bool) -> (r: (
    Option<AppState>,
    SimulationState,
))
    ensures
        r.0 == if pressed && app == AppState::MainMenu {
            Some(AppState::Game)
        } else if pressed && app == AppState::Game {
            Some(AppState::MainMenu)
        } else {
            None
        },
        r.1 == if pressed {
            SimulationState::Paused
        } else {
            sim
        },
{
    if !pressed {
        (None, sim)
    } else if app == AppState::MainMenu {
        (Some(AppState::Game), SimulationState::Paused)
    } else if app == AppState::Game {
        (Some(AppState::MainMenu), SimulationState::Paused)
    } else {
        (None, SimulationState::Paused)
    }
}

/// The state a `GameOver` event sends the application to: back to the menu.
pub fn handle_game_over(over: Option<u64>) -> (r: Option<AppState>)
    ensures
        r == if over.is_some() {
            Some(AppState::MainMenu)
        } else {
            None
        },
{
    match over {
        Some(_) => Some(AppState::MainMenu),
        None => None,
    }
}

/// The score to surface, when it differs from the one before the frame.
pub fn update_score(before: u64, after: u64) -> (r: Option<u64>)
    ensures
        r == if before != after {
            Some(after)
        } else {
            None
        },
{
    if before != after {
        Some(after)
    } else {
        None
    }
}

/// Every entity lies within its bounds: the player's sprite inside the
/// window, each enemy in its lane, each bullet below the top.
pub open spec fn contained(w: World, extent: Extent) -> bool {
    &&& match w.player {
        Some(p) => {
            &&& player_x_min() <= p.pos.x <= player_x_max(extent.width as int)
            &&& player_y_min() <= p.pos.y <= player_y_max(extent.height as int)
        },
        None => true,
    }
    &&& in_lanes(w.enemies@, extent.width as int)
    &&& forall|i: int|
        0 <= i < w.bullets@.len() ==> (#[trigger] w.bullets@[i]).pos.y <= bullet_y_max(
            extent.height as int,
        )
}

/// Each bullet of `post` is either the one fired with id `fired_id`, or a
/// bullet of `pre` with the same id, raised by `rise`.
pub open spec fn bullets_rose(post: Seq<Bullet>, pre: Seq<Bullet>, rise: int, fired_id: int) -> bool {
    forall|k: int|
        #![trigger post[k]]
        0 <= k < post.len() ==> post[k].id == fired_id || exists|i: int|
            0 <= i < pre.len() && post[k].id == (#[trigger] pre[i]).id && post[k].pos.x
                == pre[i].pos.x && post[k].pos.y == pre[i].pos.y + rise
}

proof fn lemma_bullets_rose(
    pre: Seq<Bullet>,
    moved: Seq<Bullet>,
    kept: Seq<Bullet>,
    spawned: Seq<Bullet>,
    post: Seq<Bullet>,
    rise: int,
    fired_id: int,
)
    requires
        moved.len() == pre.len(),
        forall|i: int|
            0 <= i < pre.len() ==> {
                let b = #[trigger] pre[i];
                &&& moved[i].id == b.id
                &&& moved[i].pos.x == b.pos.x
                &&& moved[i].pos.y == b.pos.y + rise
            },
        bullets_drawn_from(kept, moved),
        spawned == kept || (spawned.len() == kept.len() + 1 && spawned.drop_last() == kept
            && spawned.last().id == fired_id),
        bullets_drawn_from(post, spawned),
    ensures
        bullets_rose(post, pre, rise, fired_id),
{
    assert forall|k: int| #![trigger post[k]] 0 <= k < post.len() implies post[k].id == fired_id
        || exists|i: int|
        0 <= i < pre.len() && post[k].id == (#[trigger] pre[i]).id && post[k].pos.x
            == pre[i].pos.x && post[k].pos.y == pre[i].pos.y + rise by {
        let j = choose|j: int| 0 <= j < spawned.len() && post[k] == #[trigger] spawned[j];
        if j < kept.len() {
            if spawned != kept {
                assert(spawned[j] == spawned.drop_last()[j]);
            }
            assert(spawned[j] == kept[j]);
            let i = choose|i: int| 0 <= i < moved.len() && kept[j] == #[trigger] moved[i];
            assert(pre[i].id == moved[i].id);
        }
    }
}

/// An enemy after one frame's movement by `step`, clamping into its lane of
/// a window `width` wide, and steering.
pub open spec fn settle_enemy(e: Enemy, step: int, width: int) -> Enemy {
    let lo = lane_min(e.col as int);
    let hi = lane_max(width, e.col as int);
    let x = clamp_spec(e.pos.x + e.direction.dx() * step, lo, hi);
    Enemy {
        pos: Point { x: x as i64, y: e.pos.y },
        direction: if x == lo || x == hi {
            e.direction.flip_spec()
        } else {
            e.direction
        },
        ..e
    }
}

pub open spec fn settled(es: Seq<Enemy>, step: int, width: int) -> Seq<Enemy> {
    Seq::new(es.len(), |i: int| settle_enemy(es[i], step, width))
}

/// The bullets moved up by `rise`.
pub open spec fn raised(bs: Seq<Bullet>, rise: int) -> Seq<Bullet> {
    Seq::new(
        bs.len(),
        |i: int| Bullet { id: bs[i].id, pos: Point { x: bs[i].pos.x, y: (bs[i].pos.y + rise) as i64 } },
    )
}

/// The player after one frame's movement by `step` and clamping.
pub open spec fn stepped_player(p: Player, keys: Held, step: int, extent: Extent) -> Player {
    let d = player_reach(keys, step);
    Player {
        id: p.id,
        pos: Point {
            x: clamp_spec(p.pos.x + keys.ax() * d, player_x_min(), player_x_max(extent.width as int))
                as i64,
            y: clamp_spec(p.pos.y + keys.ay() * d, player_y_min(), player_y_max(extent.height as int))
                as i64,
        },
    }
}

/// A frame that reported nothing.
pub open spec fn quiet(r: FrameReport) -> bool {
    r.hits == 0 && !r.lost && !r.fired && r.score.is_none() && r.game_over.is_none()
}

/// The simulation: both state machines and the world they gate.
pub struct Game {
    pub app: AppState,
    pub sim: SimulationState,
    pub world: World,
}

impl Game {
    pub open spec fn running(&self) -> bool {
        self.app == AppState::Game && self.sim == SimulationState::Running
    }

    /// What entering a game leaves behind: a new run with a zero score, the
    /// player at the centre and a fresh row of enemies.
    pub open spec fn fresh_run(w: World, extent: Extent, first_id: int) -> bool {
        &&& w.score == 0
        &&& w.bullets@.len() == 0
        &&& w.player == Some(
            Player {
                id: first_id as u64,
                pos: Point { x: (extent.width / 2) as i64, y: (extent.height / 2) as i64 },
            },
        )
        &&& w.enemies@.len() == ENEMY_PER_ROW
        &&& forall|c: int|
            0 <= c < ENEMY_PER_ROW ==> #[trigger] w.enemies@[c] == row_enemy(
                extent.height as int,
                first_id + 1,
                c,
            )
        &&& w.next_id == first_id + 1 + ENEMY_PER_ROW
    }

    /// While a game is paused nothing moves and the score stays: the pause
    /// key resumes, and the menu key leaves the game, paused, with the world
    /// cleared and the score kept.
    pub open spec fn paused_frame(pre: Game, post: Game, controls: Controls) -> bool {
        pre.app == AppState::Game && pre.sim == SimulationState::Paused ==> if controls.toggle_app {
            &&& post.app == AppState::MainMenu
            &&& post.sim == SimulationState::Paused
            &&& post.world.player.is_none()
            &&& post.world.enemies@.len() == 0
            &&& post.world.bullets@.len() == 0
            &&& post.world.score == pre.world.score
        } else {
            &&& post.world == pre.world
            &&& post.app == AppState::Game
            &&& post.sim == if controls.pause {
                SimulationState::Running
            } else {
                SimulationState::Paused
            }
        }
    }

    /// In the menu, the menu key starts a fresh run, paused; nothing else
    /// changes anything.
    pub open spec fn menu_frame(pre: Game, post: Game, controls: Controls, extent: Extent) -> bool {
        pre.app == AppState::MainMenu ==> if controls.toggle_app {
            &&& post.app == AppState::Game
            &&& post.sim == SimulationState::Paused
            &&& Game::fresh_run(post.world, extent, pre.world.next_id as int)
        } else {
            post == pre
        }
    }

    /// The end state, never entered by the game itself, only pauses on the
    /// menu key.
    pub open spec fn idle_frame(pre: Game, post: Game, controls: Controls) -> bool {
        pre.app == AppState::GameOver ==> {
            &&& post.app == AppState::GameOver
            &&& post.world == pre.world
            &&& post.sim == if controls.toggle_app {
                SimulationState::Paused
            } else {
                pre.sim
            }
        }
    }

    /// A frame of a running game: the score grows by the hits reported, a
    /// lost player or the menu key ends the run, the pause key pauses, every
    /// entity ends within its bounds, the row still moves as one, and every
    /// bullet left is the one just fired or an older one risen by a step.
    pub open spec fn running_frame(
        pre: Game,
        post: Game,
        controls: Controls,
        report: FrameReport,
        extent: Extent,
        dt_us: u32,
    ) -> bool {
        pre.running() ==> {
            &&& post.world.score == pre.world.score + report.hits
            &&& report.score == if report.hits > 0 {
                Some(post.world.score)
            } else {
                None
            }
            &&& report.lost == report.game_over.is_some()
            &&& report.game_over.is_some() ==> report.game_over == Some(post.world.score)
            &&& if report.game_over.is_some() || controls.toggle_app {
                &&& post.app == AppState::MainMenu
                &&& post.sim == SimulationState::Paused
                &&& post.world.player.is_none()
                &&& post.world.enemies@.len() == 0
                &&& post.world.bullets@.len() == 0
            } else {
                &&& post.app == AppState::Game
                &&& post.sim == if controls.pause {
                    SimulationState::Paused
                } else {
                    SimulationState::Running
                }
            }
            &&& extent.roomy() ==> contained(post.world, extent)
            &&& lockstep(pre.world.enemies@) ==> lockstep(post.world.enemies@)
            &&& Game::stages_of(pre, post, controls, report, extent, dt_us)
            &&& bullets_rose(
                post.world.bullets@,
                pre.world.bullets@,
                BULLET_SPEED * dt_us,
                pre.world.next_id as int,
            )
        }
    }

    /// What the stages of a running frame leave: every (bullet, enemy) pair
    /// that overlaps once all have moved is a hit; the run is lost exactly
    /// when an enemy that survived the bullets reaches the moved player; a bullet is fired when
    /// the fire key was pressed and the player is still alive; and, unless
    /// the run ends, the survivors are exactly the stepped player, the
    /// settled enemies that no bullet struck, and the risen bullets that
    /// struck nothing, with the new one, still inside the field.
    pub open spec fn stages_of(
        pre: Game,
        post: Game,
        controls: Controls,
        report: FrameReport,
        extent: Extent,
        dt_us: u32,
    ) -> bool {
        let es = settled(pre.world.enemies@, ENEMY_SPEED * dt_us, extent.width as int);
        let bs = raised(pre.world.bullets@, BULLET_SPEED * dt_us);
        let left = surviving_bullets(bs, es);
        let standing = surviving_enemies(es, bs);
        &&& report.hits == pair_hits(bs, es)
        &&& report.game_over.is_some() <==> (pre.world.player.is_some() && exists|j: int|
            0 <= j < standing.len() && enemy_reaches(
                stepped_player(pre.world.player.unwrap(), controls.held, PLAYER_SPEED * dt_us, extent),
                #[trigger] standing[j],
            ))
        &&& report.fired == (controls.fire && pre.world.player.is_some()
            && report.game_over.is_none())
        &&& report.game_over.is_none() && !controls.toggle_app ==> {
            &&& post.world.enemies@ == surviving_enemies(es, bs)
            &&& post.world.player == match pre.world.player {
                Some(p) => Some(stepped_player(p, controls.held, PLAYER_SPEED * dt_us, extent)),
                None => None,
            }
            &&& post.world.bullets@ == bullets_in_field(
                if report.fired {
                    left.push(
                        Bullet { id: pre.world.next_id, pos: post.world.player.unwrap().pos },
                    )
                } else {
                    left
                },
                extent.height as int,
            )
        }
    }

    /// The menu, paused, with an empty world.
    pub fn new() -> (r: Game)
        ensures
            r.app == AppState::MainMenu,
            r.sim == SimulationState::Paused,
            r.world.wf(),
            r.world.player.is_none(),
            r.world.enemies@.len() == 0,
            r.world.bullets@.len() == 0,
            r.world.score == 0,
            r.world.next_id == 0,
            lockstep(r.world.enemies@),
    {
        Game { app: AppState::MainMenu, sim: SimulationState::Paused, world: World::new() }
    }

    /// Starts a run: the score goes back to zero (one run's score is not
    /// carried into the next), then the player and the row are spawned.
    pub fn enter_game(&mut self, extent: Extent)
        requires
            extent.wf(),
            old(self).world.next_id <= u64::MAX - ENEMY_PER_ROW - 1,
        ensures
            Game::fresh_run(final(self).world, extent, old(self).world.next_id as int),
            final(self).world.wf(),
            lockstep(final(self).world.enemies@),
            final(self).app == old(self).app,
            final(self).sim == old(self).sim,
    {
        self.world.despawn_entities();
        self.world.score = 0;
        self.world.spawn_player(extent);
        self.world.spawn_enemies(extent);
        proof {
            let es = self.world.enemies@;
            assert forall|i: int, j: int|
                0 <= i < es.len() && 0 <= j < es.len() implies lane_offset(#[trigger] es[i])
                == lane_offset(#[trigger] es[j]) && es[i].direction == es[j].direction by {
                assert(lane_offset(es[i]) == -ENEMY_RADIUS);
                assert(lane_offset(es[j]) == -ENEMY_RADIUS);
            }
        }
    }

    /// Runs one frame. The menu and pause keys are read first; the stages
    /// then run, in order, only during a game that is not paused: movement
    /// and clamping of the player, movement, clamping and steering of the
    /// enemies, bullet movement, bullets against enemies, enemies against the
    /// player, firing, and removal of bullets past the top. A state change
    /// decided in the frame takes effect as it ends: leaving a game clears
    /// the world, entering one starts a fresh run, and either pauses.
    pub fn frame(&mut self, controls: Controls, dt_us: u32, extent: Extent) -> (report:
        FrameReport)
        requires
            extent.wf(),
            old(self).world.wf(),
            old(self).world.next_id <= u64::MAX - ENEMY_PER_ROW - 1,
            old(self).world.score + ENEMY_PER_ROW * old(self).world.bullets@.len() <= u64::MAX,
        ensures
            final(self).world.wf(),
            !old(self).running() ==> quiet(report),
            old(self).app == AppState::Game ==> final(self).world.score >= old(self).world.score,
            lockstep(old(self).world.enemies@) ==> lockstep(final(self).world.enemies@),
            final(self).world.next_id >= old(self).world.next_id,
            Game::paused_frame(*old(self), *final(self), controls),
            Game::menu_frame(*old(self), *final(self), controls, extent),
            Game::idle_frame(*old(self), *final(self), controls),
            Game::running_frame(*old(self), *final(self), controls, report, extent, dt_us),
    {
        let before = self.world.score;
        let running = self.app == AppState::Game && self.sim == SimulationState::Running;
        let (requested, forced) = toggle_appstate(self.app, self.sim, controls.toggle_app);
        let mut next_app = requested;
        let mut next_sim = if controls.toggle_app {
            forced
        } else {
            toggle_simulation(self.app, self.sim, controls.pause)
        };
        let mut report = FrameReport {
            hits: 0,
            lost: false,
            fired: false,
            score: None,
            game_over: None,
        };
        if running {
            let ghost lock0 = lockstep(self.world.enemies@);
            self.world.player_movement(controls.held, dt_us);
            self.world.player_bounds(extent);
            let ghost placed = self.world.player;
            let ghost pre_enemies = self.world.enemies@;
            self.world.enemy_movement(dt_us);
            self.world.enemy_bounds(extent);
            self.world.enemy_direction(extent);
            let ghost shot_id = self.world.next_id as int;
            let ghost pre_bullets = self.world.bullets@;
            self.world.bullet_movement(dt_us);
            let ghost moved = self.world.bullets@;
            assert(self.world.bullets@ =~= raised(pre_bullets, BULLET_SPEED * dt_us));
            assert(self.world.enemies@ =~= settled(
                pre_enemies,
                ENEMY_SPEED * dt_us,
                extent.width as int,
            ));
            let hits = self.world.bullet_hit_enemy();
            let ghost kept = self.world.bullets@;
            let over = self.world.enemy_hit_player();
            let fired = self.world.bullet_spawn(controls.fire);
            let ghost spawned = self.world.bullets@;
            self.world.bullet_bounds(extent);
            proof {
                if fired {
                    assert(spawned.drop_last() =~= kept);
                }
                lemma_bullets_rose(
                    pre_bullets,
                    moved,
                    kept,
                    spawned,
                    self.world.bullets@,
                    BULLET_SPEED * dt_us,
                    shot_id,
                );
            }
            report = FrameReport {
                hits,
                lost: over.is_some(),
                fired,
                score: update_score(before, self.world.score),
                game_over: over,
            };
            let ended = handle_game_over(over);
            if ended.is_some() {
                next_app = ended;
                next_sim = SimulationState::Paused;
            }
            assert(lock0 ==> lockstep(self.world.enemies@));
            assert(self.world.score == before + hits);
            assert(self.world.player.is_some() ==> self.world.player == placed);
            assert(extent.roomy() ==> in_lanes(self.world.enemies@, extent.width as int));
            assert(extent.roomy() ==> contained(self.world, extent));
        }
        match next_app {
            Some(AppState::Game) => {
                self.enter_game(extent);
                self.app = AppState::Game;
            },
            Some(next) => {
                if self.app == AppState::Game {
                    self.world.despawn_entities();
                }
                self.app = next;
            },
            None => {},
        }
        self.sim = next_sim;
        report
    }
}

} // verus!
