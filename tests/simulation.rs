use invaders::game::{
    toggle_appstate, toggle_simulation, update_score, AppState, Controls, Cue, FrameReport, Game,
    SimulationState,
};
use invaders::geometry::{clamp_axis, diagonal_component, disks_touch, lane_bounds, Extent, Point};
use invaders::world::{Bullet, Enemy, Heading, Held, Player, World};

const W: i64 = 1_280_000;
const H: i64 = 720_000;
const FRAME_US: u32 = 16_000;

fn extent() -> Extent {
    Extent { width: W, height: H }
}

fn no_keys() -> Held {
    Held { left: false, right: false, up: false, down: false }
}

fn controls() -> Controls {
    Controls { held: no_keys(), fire: false, pause: false, toggle_app: false }
}

fn pt(x: i64, y: i64) -> Point {
    Point { x, y }
}

fn enemy(id: u64, col: usize, x: i64, y: i64, direction: Heading) -> Enemy {
    Enemy { id, pos: pt(x, y), direction, row: 0, col }
}

fn running_game(world: World) -> Game {
    Game { app: AppState::Game, sim: SimulationState::Running, world }
}

fn started_game() -> Game {
    let mut g = Game::new();
    g.frame(Controls { toggle_app: true, ..controls() }, FRAME_US, extent());
    g
}

#[test]
fn row_layout_on_entering_game() {
    let g = started_game();
    assert_eq!(g.app, AppState::Game);
    assert_eq!(g.sim, SimulationState::Paused);
    let xs: Vec<i64> = g.world.enemies.iter().map(|e| e.pos.x).collect();
    assert_eq!(xs, vec![80_000, 200_000, 320_000, 440_000]);
    for (c, e) in g.world.enemies.iter().enumerate() {
        assert_eq!(e.pos.y, 640_000);
        assert_eq!(e.direction, Heading::Right);
        assert_eq!(e.col, c);
        assert_eq!(e.row, 0);
    }
    assert_eq!(g.world.player.unwrap().pos, pt(640_000, 360_000));
    assert_eq!(g.world.score, 0);
    assert!(g.world.bullets.is_empty());
}

#[test]
fn wall_bounce_at_lane_ends() {
    assert_eq!(lane_bounds(W, 0), (131_000, 789_000));
    let mut w = World::new();
    w.enemies.push(enemy(0, 0, 80_000, 640_000, Heading::Right));
    w.enemy_movement(FRAME_US);
    assert_eq!(w.enemies[0].pos.x, 96_000);
    w.enemy_bounds(extent());
    assert_eq!(w.enemies[0].pos.x, 131_000);
    w.enemy_direction(extent());
    assert_eq!(w.enemies[0].direction, Heading::Left);
    w.enemy_movement(FRAME_US);
    w.enemy_bounds(extent());
    w.enemy_direction(extent());
    assert_eq!(w.enemies[0].pos.x, 131_000);
    assert_eq!(w.enemies[0].direction, Heading::Right);

    let mut v = World::new();
    v.enemies.push(enemy(0, 0, 780_000, 640_000, Heading::Right));
    v.enemy_movement(FRAME_US);
    v.enemy_bounds(extent());
    v.enemy_direction(extent());
    assert_eq!(v.enemies[0].pos.x, 789_000);
    assert_eq!(v.enemies[0].direction, Heading::Left);
}

#[test]
fn enemy_inside_lane_keeps_heading() {
    let mut w = World::new();
    w.enemies.push(enemy(0, 2, 500_000, 640_000, Heading::Left));
    w.enemy_movement(FRAME_US);
    w.enemy_bounds(extent());
    w.enemy_direction(extent());
    assert_eq!(w.enemies[0].pos.x, 484_000);
    assert_eq!(w.enemies[0].direction, Heading::Left);
}

#[test]
fn fire_spawns_bullet_at_player_then_it_rises() {
    let mut w = World::new();
    w.player = Some(Player { id: 0, pos: pt(640_000, 360_000) });
    w.next_id = 1;
    let mut g = running_game(w);
    let r = g.frame(Controls { fire: true, ..controls() }, 0, extent());
    assert!(r.fired);
    assert_eq!(r.cues(), vec![Cue::BulletSpawn]);
    assert_eq!(g.world.bullets.len(), 1);
    assert_eq!(g.world.bullets[0].pos, pt(640_000, 360_000));
    assert_eq!(g.world.bullets[0].id, 1);
    let r2 = g.frame(controls(), FRAME_US, extent());
    assert!(!r2.fired);
    assert_eq!(r2.cues(), vec![]);
    assert_eq!(g.world.bullets.len(), 1);
    assert_eq!(g.world.bullets[0].pos, pt(640_000, 376_000));
}

#[test]
fn fire_without_player_does_nothing() {
    let mut w = World::new();
    assert!(!w.bullet_spawn(true));
    assert!(w.bullets.is_empty());
    w.player = Some(Player { id: 0, pos: pt(1, 2) });
    assert!(!w.bullet_spawn(false));
    assert!(w.bullets.is_empty());
}

#[test]
fn bullet_hits_enemy() {
    let mut w = World::new();
    w.bullets.push(Bullet { id: 7, pos: pt(200_000, 635_000) });
    w.enemies.push(enemy(1, 1, 200_000, 640_000, Heading::Right));
    assert_eq!(w.bullet_hit_enemy(), 1);
    assert_eq!(w.score, 1);
    assert!(w.bullets.is_empty());
    assert!(w.enemies.is_empty());
}

#[test]
fn bullet_hit_reported_by_frame() {
    let mut w = World::new();
    w.bullets.push(Bullet { id: 7, pos: pt(200_000, 635_000) });
    w.enemies.push(enemy(1, 1, 251_000, 640_000, Heading::Right));
    let mut g = running_game(w);
    let r = g.frame(controls(), 0, extent());
    assert_eq!(r.hits, 1);
    assert_eq!(r.score, Some(1));
    assert_eq!(r.cues(), vec![Cue::BulletHit]);
    assert_eq!(g.world.score, 1);
    assert!(g.world.enemies.is_empty());
}

#[test]
fn every_overlapping_pair_scores() {
    let mut w = World::new();
    w.bullets.push(Bullet { id: 1, pos: pt(300_000, 600_000) });
    w.bullets.push(Bullet { id: 2, pos: pt(300_000, 610_000) });
    w.bullets.push(Bullet { id: 3, pos: pt(900_000, 100_000) });
    w.enemies.push(enemy(4, 1, 300_000, 640_000, Heading::Right));
    w.enemies.push(enemy(5, 3, 700_000, 640_000, Heading::Right));
    assert_eq!(w.bullet_hit_enemy(), 2);
    assert_eq!(w.score, 2);
    assert_eq!(w.bullets.len(), 1);
    assert_eq!(w.bullets[0].id, 3);
    assert_eq!(w.enemies.len(), 1);
    assert_eq!(w.enemies[0].id, 5);
}

#[test]
fn touching_edges_do_not_collide() {
    assert!(!disks_touch(pt(0, 0), pt(55_500, 0), 55_500));
    assert!(disks_touch(pt(0, 0), pt(55_499, 0), 55_500));
    assert!(disks_touch(pt(0, 0), pt(30_000, 40_000), 50_001));
    assert!(!disks_touch(pt(0, 0), pt(30_000, 40_000), 50_000));
}

#[test]
fn enemy_reaching_player_ends_game() {
    let mut w = World::new();
    w.player = Some(Player { id: 0, pos: pt(440_000, 635_000) });
    w.enemies.push(enemy(1, 3, 440_000, 640_000, Heading::Right));
    w.score = 3;
    assert_eq!(w.enemy_hit_player(), Some(3));
    assert!(w.player.is_none());
    assert!(w.enemies.is_empty());
}

#[test]
fn game_over_returns_to_menu() {
    let mut w = World::new();
    w.player = Some(Player { id: 0, pos: pt(440_000, 635_000) });
    w.enemies.push(enemy(1, 3, 440_000, 640_000, Heading::Right));
    w.score = 2;
    let mut g = running_game(w);
    let r = g.frame(controls(), 0, extent());
    assert_eq!(r.game_over, Some(2));
    assert!(r.lost);
    assert_eq!(r.cues(), vec![Cue::Lose]);
    assert_eq!(g.app, AppState::MainMenu);
    assert_eq!(g.sim, SimulationState::Paused);
    assert!(g.world.player.is_none());
    assert!(g.world.enemies.is_empty());
    assert_eq!(g.world.score, 2);
}

#[test]
fn bullet_kill_saves_player() {
    let mut w = World::new();
    w.player = Some(Player { id: 0, pos: pt(440_000, 635_000) });
    w.enemies.push(enemy(1, 3, 491_000, 640_000, Heading::Right));
    w.bullets.push(Bullet { id: 2, pos: pt(491_000, 630_000) });
    let mut g = running_game(w);
    let r = g.frame(controls(), 0, extent());
    assert_eq!(r.hits, 1);
    assert_eq!(r.game_over, None);
    assert_eq!(g.app, AppState::Game);
    assert!(g.world.player.is_some());
}

#[test]
fn pause_freezes_world() {
    let mut g = started_game();
    g.frame(Controls { pause: true, ..controls() }, FRAME_US, extent());
    assert_eq!(g.sim, SimulationState::Running);
    g.frame(controls(), FRAME_US, extent());
    g.frame(Controls { pause: true, ..controls() }, FRAME_US, extent());
    assert_eq!(g.sim, SimulationState::Paused);
    let player = g.world.player;
    let enemies = g.world.enemies.clone();
    let score = g.world.score;
    let busy = Controls {
        held: Held { left: true, right: false, up: true, down: false },
        fire: true,
        pause: false,
        toggle_app: false,
    };
    for _ in 0..5 {
        let r = g.frame(busy, FRAME_US, extent());
        assert_eq!(r.cues(), vec![]);
        assert_eq!(g.world.player, player);
        assert_eq!(g.world.enemies, enemies);
        assert!(g.world.bullets.is_empty());
        assert_eq!(g.world.score, score);
    }
    g.frame(Controls { pause: true, ..controls() }, FRAME_US, extent());
    assert_eq!(g.sim, SimulationState::Running);
    assert_eq!(g.world.player, player);
    assert_eq!(g.world.enemies, enemies);
}

#[test]
fn menu_key_leaves_game_and_clears_world() {
    let mut g = started_game();
    g.frame(Controls { toggle_app: true, ..controls() }, FRAME_US, extent());
    assert_eq!(g.app, AppState::MainMenu);
    assert_eq!(g.sim, SimulationState::Paused);
    assert!(g.world.player.is_none());
    assert!(g.world.enemies.is_empty());
}

#[test]
fn menu_ignores_pause_and_keys() {
    let mut g = Game::new();
    let r = g.frame(Controls { pause: true, fire: true, ..controls() }, FRAME_US, extent());
    assert_eq!(r, FrameReport { hits: 0, lost: false, fired: false, score: None, game_over: None });
    assert_eq!(g.app, AppState::MainMenu);
    assert_eq!(g.sim, SimulationState::Paused);
}

#[test]
fn score_resets_on_new_run() {
    let mut g = Game::new();
    g.world.score = 9;
    g.frame(Controls { toggle_app: true, ..controls() }, FRAME_US, extent());
    assert_eq!(g.world.score, 0);
}

#[test]
fn player_moves_and_is_clamped() {
    let mut w = World::new();
    w.player = Some(Player { id: 0, pos: pt(640_000, 360_000) });
    let right = Held { left: false, right: true, up: false, down: false };
    w.player_movement(right, FRAME_US);
    assert_eq!(w.player.unwrap().pos, pt(672_000, 360_000));
    let diag = Held { left: false, right: true, up: true, down: false };
    w.player_movement(diag, FRAME_US);
    assert_eq!(w.player.unwrap().pos, pt(694_627, 382_627));
    let opposite = Held { left: true, right: true, up: false, down: false };
    w.player_movement(opposite, FRAME_US);
    assert_eq!(w.player.unwrap().pos, pt(694_627, 382_627));
    w.player = Some(Player { id: 0, pos: pt(-5_000, 900_000) });
    w.player_bounds(extent());
    assert_eq!(w.player.unwrap().pos, pt(45_000, 675_000));
}

#[test]
fn diagonal_component_rounds_down() {
    assert_eq!(diagonal_component(32_000), 22_627);
    assert_eq!(diagonal_component(0), 0);
    assert_eq!(diagonal_component(1), 0);
    assert_eq!(diagonal_component(2), 1);
    assert_eq!(diagonal_component(10), 7);
}

#[test]
fn bullet_leaves_through_top() {
    let mut w = World::new();
    w.bullets.push(Bullet { id: 0, pos: pt(10, 715_500) });
    w.bullets.push(Bullet { id: 1, pos: pt(10, 715_501) });
    w.bullet_bounds(extent());
    assert_eq!(w.bullets.len(), 1);
    assert_eq!(w.bullets[0].id, 0);
}

#[test]
fn bullet_eventually_despawns() {
    let mut w = World::new();
    w.bullets.push(Bullet { id: 0, pos: pt(1_000_000, 360_000) });
    let mut g = running_game(w);
    let mut frames = 0;
    while !g.world.bullets.is_empty() {
        g.frame(controls(), FRAME_US, extent());
        frames += 1;
        assert!(frames < 100);
    }
    assert_eq!(frames, 23);
}

#[test]
fn clamping_twice_is_clamping_once() {
    for v in [-10i64, 0, 5, 131_000, 500_000, 789_000, 800_000] {
        let once = clamp_axis(v, 131_000, 789_000);
        assert_eq!(clamp_axis(once, 131_000, 789_000), once);
    }
    assert_eq!(clamp_axis(5, 10, 20), 10);
    assert_eq!(clamp_axis(25, 10, 20), 20);
    assert_eq!(clamp_axis(15, 10, 20), 15);
}

#[test]
fn two_pause_toggles_restore_state() {
    for s in [SimulationState::Running, SimulationState::Paused] {
        let once = toggle_simulation(AppState::Game, s, true);
        assert_ne!(once, s);
        assert_eq!(toggle_simulation(AppState::Game, once, true), s);
    }
    assert_eq!(
        toggle_simulation(AppState::MainMenu, SimulationState::Paused, true),
        SimulationState::Paused
    );
    assert_eq!(
        toggle_simulation(AppState::Game, SimulationState::Running, false),
        SimulationState::Running
    );
}

#[test]
fn app_toggle_transitions() {
    let running = SimulationState::Running;
    let paused = SimulationState::Paused;
    assert_eq!(toggle_appstate(AppState::MainMenu, paused, true), (Some(AppState::Game), paused));
    assert_eq!(toggle_appstate(AppState::Game, running, true), (Some(AppState::MainMenu), paused));
    assert_eq!(toggle_appstate(AppState::Game, paused, true), (Some(AppState::MainMenu), paused));
    assert_eq!(toggle_appstate(AppState::GameOver, running, true), (None, paused));
    assert_eq!(toggle_appstate(AppState::Game, running, false), (None, running));
}

#[test]
fn score_reported_only_on_change() {
    assert_eq!(update_score(3, 3), None);
    assert_eq!(update_score(3, 5), Some(5));
}

#[test]
fn cues_in_stage_order() {
    let r = FrameReport { hits: 2, lost: true, fired: true, score: Some(2), game_over: Some(2) };
    assert_eq!(r.cues(), vec![Cue::BulletHit, Cue::BulletHit, Cue::Lose, Cue::BulletSpawn]);
}

#[test]
fn running_frames_keep_entities_contained_and_ordered() {
    let mut g = started_game();
    g.frame(Controls { pause: true, ..controls() }, FRAME_US, extent());
    let keys = [
        Held { left: true, right: false, up: false, down: true },
        Held { left: false, right: true, up: true, down: false },
        Held { left: false, right: false, up: false, down: false },
    ];
    for i in 0..200u32 {
        let c = Controls { held: keys[(i % 3) as usize], fire: i % 7 == 0, pause: false, toggle_app: false };
        g.frame(c, 10_000 + (i * 3_517) % 40_000, extent());
        if g.app != AppState::Game {
            break;
        }
        if let Some(p) = g.world.player {
            assert!(45_000 <= p.pos.x && p.pos.x <= W - 45_000);
            assert!(45_000 <= p.pos.y && p.pos.y <= H - 45_000);
        }
        for e in &g.world.enemies {
            let (lo, hi) = lane_bounds(W, e.col);
            assert!(lo <= e.pos.x && e.pos.x <= hi);
        }
        for a in &g.world.enemies {
            for b in &g.world.enemies {
                if a.col < b.col {
                    assert!(a.pos.x < b.pos.x);
                }
            }
        }
        for b in &g.world.bullets {
            assert!(b.pos.y <= H - 4_500);
        }
    }
}

#[test]
fn despawn_clears_everything_but_score() {
    let mut w = World::new();
    w.player = Some(Player { id: 0, pos: pt(1, 1) });
    w.enemies.push(enemy(1, 0, 1, 1, Heading::Left));
    w.bullets.push(Bullet { id: 2, pos: pt(1, 1) });
    w.score = 4;
    w.despawn_entities();
    assert!(w.player.is_none());
    assert!(w.enemies.is_empty());
    assert!(w.bullets.is_empty());
    assert_eq!(w.score, 4);
}

#[test]
fn game_over_event_leads_to_menu() {
    assert_eq!(invaders::game::handle_game_over(Some(4)), Some(AppState::MainMenu));
    assert_eq!(invaders::game::handle_game_over(None), None);
}

#[test]
fn menu_key_while_paused_leaves_game() {
    let mut g = started_game();
    assert_eq!(g.sim, SimulationState::Paused);
    g.world.score = 3;
    let r = g.frame(Controls { toggle_app: true, fire: true, ..controls() }, FRAME_US, extent());
    assert_eq!(r, FrameReport { hits: 0, lost: false, fired: false, score: None, game_over: None });
    assert_eq!(g.app, AppState::MainMenu);
    assert_eq!(g.sim, SimulationState::Paused);
    assert!(g.world.player.is_none());
    assert!(g.world.enemies.is_empty());
    assert!(g.world.bullets.is_empty());
    assert_eq!(g.world.score, 3);
}
