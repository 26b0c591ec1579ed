use rustland::collision::{simulate_entity_entity_collisions, CollisionEvent};
use rustland::command::{apply_command, Command};
use rustland::entity::{Entity, EntityForce, EntityType};
use rustland::game::Game;
use rustland::geometry::{Rect, Vec2};
use rustland::grid::{Grid, Tile};
use rustland::melee_damage::handle_melee_damage;
use rustland::projectiles::{handle_bullet_impacts, shoot_gun, Gun};
use rustland::screen_transform::ScreenTransform;
use rustland::side_effect::{EffectError, SideEffect};
use rustland::simulation_state::SimulationState;

const U: i32 = 1_000_000;
const TICK: u32 = 16_667;

fn open_grid() -> Grid {
    let mut g = Grid::new(10, 10, U, U);
    for i in 0..10 {
        for j in 0..10 {
            g.set_2d(i, j, Tile::Ground);
        }
    }
    g
}

fn world(entities: Vec<Entity>) -> SimulationState {
    let mut s = SimulationState { time: 0, dt: TICK, terrain: open_grid(), entities: Vec::new(), next_id: 1 };
    for e in entities {
        s.add_entity(e);
    }
    s
}

fn game(state: SimulationState, player_id: u64) -> Game {
    Game {
        pause: false,
        frame_commands: Vec::new(),
        frame_collisions: Vec::new(),
        frame_movements: Vec::new(),
        frame_side_effects: Vec::new(),
        player_id,
        transform: ScreenTransform::new(1280, 720),
        state,
    }
}

#[test]
fn entity_walking_into_adjacent_wall_stops_at_it() {
    let mut s = world(vec![Entity::new_player(4_970_000, 5_500_000)]);
    s.terrain.set_2d(5, 5, Tile::Wall);
    let before = s.entities[0].1.aabb;
    let gap = 5_000_000 - (before.x as i64 + before.w as i64);
    assert_eq!(gap, 5_000);
    let mut g = game(s, 1);
    g.push_command(Command::Walk(1, Vec2::new(U, 0)));
    assert_eq!(g.update(TICK), Ok(()));
    let after = g.state.entities[0].1.aabb;
    let dx = after.x as i64 - before.x as i64;
    assert!(dx.abs() <= gap);
    assert_eq!(dx, gap);
    assert_eq!(after.y, before.y);
    assert!(after.x as i64 + after.w as i64 <= 5_000_000);
}

#[test]
fn bullet_hitting_retaliator_gives_exact_effects() {
    let ret = Entity::new_retalliator(2_500_000, 2_500_000);
    // the bullet's right edge is 5_000 short of the retaliator's left edge, and
    // it covers 11_666 in the tick
    let bullet = Entity::new_bullet(Vec2::new(2_410_000, 2_500_000), Vec2::new(U, 0), EntityForce::Player, 0);
    let s = world(vec![ret, bullet]);
    let mut events: Vec<CollisionEvent> = Vec::new();
    simulate_entity_entity_collisions(&s.entities, &mut events, TICK);
    assert_eq!(events.len(), 1);
    assert_eq!(events[0].dir, rustland::collision::CollisionDirection::Left);
    let mut effects = Vec::new();
    handle_bullet_impacts(&s, &events, &mut effects);
    assert_eq!(effects.len(), 3);
    match effects[0] {
        SideEffect::Damage(amount, target) => assert_eq!((amount, target), (1_000, 1)),
        _ => panic!("expected damage to the retaliator"),
    }
    match effects[1] {
        SideEffect::Damage(amount, target) => {
            assert_eq!(target, 2);
            assert!(amount as i64 >= s.entities[1].1.health);
        },
        _ => panic!("expected the bullet's own damage"),
    }
    match effects[2] {
        SideEffect::SpawnCircBullets(count, _damage, force, origin, source) => {
            assert_eq!(count, 8);
            assert_eq!(force, EntityForce::Neutral);
            assert_eq!(origin, s.entities[0].1.aabb.center());
            assert_eq!(origin, Vec2::new(2_500_000, 2_500_000));
            assert_eq!(source, 2);
        },
        _ => panic!("expected a ring of bullets"),
    }
}

#[test]
fn bullet_hitting_terrain_destroys_itself() {
    let mut s = world(vec![Entity::new_bullet(Vec2::new(4_980_000, 2_500_000), Vec2::new(U, 0), EntityForce::Enemy, 0)]);
    s.terrain.set_2d(5, 2, Tile::Wall);
    let mut g = game(s, 99);
    assert_eq!(g.update(TICK), Ok(()));
    assert_eq!(g.frame_collisions.len(), 1);
    assert!(g.state.entities.is_empty());
}

#[test]
fn two_damages_in_one_tick_both_apply_before_sweep() {
    let mut s = world(vec![Entity::new_enemy(1_000_000, 1_000_000)]);
    assert_eq!(s.resolve_side_effect(SideEffect::Damage(2_000, 1)), Ok(()));
    assert_eq!(s.resolve_side_effect(SideEffect::Damage(2_500, 1)), Ok(()));
    s.sweep_dead();
    assert_eq!(s.entities.len(), 1);
    assert_eq!(s.entities[0].1.health, 500);

    let mut t = world(vec![Entity::new_enemy(1_000_000, 1_000_000)]);
    assert_eq!(t.resolve_side_effect(SideEffect::Damage(2_500, 1)), Ok(()));
    assert_eq!(t.resolve_side_effect(SideEffect::Damage(2_500, 1)), Ok(()));
    assert_eq!(t.entities[0].1.health, 0);
    t.sweep_dead();
    assert!(t.entities.is_empty());
}

#[test]
fn damage_to_missing_entity_is_an_error() {
    let mut s = world(vec![Entity::new_enemy(1_000_000, 1_000_000)]);
    assert_eq!(s.resolve_side_effect(SideEffect::Damage(1, 42)), Err(EffectError::MissingTarget(42)));
    assert_eq!(s.entities[0].1.health, 5_000);
}

#[test]
fn ring_spawn_when_ids_run_out_is_an_error() {
    let mut s = world(vec![]);
    s.next_id = u64::MAX - 3;
    let e = SideEffect::SpawnCircBullets(8, 1_000, EntityForce::Neutral, Vec2::new(0, 0), 5);
    assert_eq!(s.resolve_side_effect(e), Err(EffectError::IdsExhausted));
    assert!(s.entities.is_empty());
}

#[test]
fn ring_of_eight_is_evenly_spread() {
    let mut s = world(vec![]);
    let origin = Vec2::new(3_000_000, 3_000_000);
    let e = SideEffect::SpawnCircBullets(8, 1_000, EntityForce::Neutral, origin, 5);
    assert_eq!(s.resolve_side_effect(e), Ok(()));
    assert_eq!(s.entities.len(), 8);
    let ids: Vec<u64> = s.entities.iter().map(|p| p.0).collect();
    assert_eq!(ids, (1..=8).collect::<Vec<u64>>());
    let speeds: Vec<f64> = s
        .entities
        .iter()
        .map(|p| ((p.1.velocity.x as f64).powi(2) + (p.1.velocity.y as f64).powi(2)).sqrt())
        .collect();
    for sp in &speeds {
        assert!((sp - 700_000.0).abs() < 700_000.0 * 0.005, "speed {}", sp);
    }
    let angles: Vec<f64> = s
        .entities
        .iter()
        .map(|p| (p.1.velocity.x as f64).atan2(p.1.velocity.y as f64))
        .collect();
    for i in 0..8 {
        let a = angles[i];
        let b = angles[(i + 1) % 8];
        let mut d = b - a;
        while d < 0.0 {
            d += 2.0 * std::f64::consts::PI;
        }
        assert!((d - std::f64::consts::PI / 4.0).abs() < 0.01, "gap {}", d);
    }
    for p in &s.entities {
        assert_eq!(p.1.variety, EntityType::Bullet);
        assert_eq!(p.1.source, 5);
        assert_eq!(p.1.melee_damage, 1_000);
        assert_eq!(p.1.aabb.center(), origin);
    }
    assert_eq!(s.entities[0].1.velocity, Vec2::new(0, 700_000));
    assert_eq!(s.entities[2].1.velocity, Vec2::new(700_000, 0));
}

#[test]
fn empty_gun_never_fires() {
    let mut shooter = Entity::new_enemy(1_000_000, 1_000_000);
    shooter.gun.ammo = 0;
    for t in [0i64, 1_000_000, 10_000_000, 1_000_000_000] {
        let bullets = shoot_gun(&mut shooter, 1, t);
        assert!(bullets.is_empty());
    }
    assert_eq!(shooter.gun.ammo, 0);
}

#[test]
fn cooldown_blocks_second_shot() {
    let mut shooter = Entity::new_enemy(1_000_000, 1_000_000);
    let first = shoot_gun(&mut shooter, 1, 1_000_000);
    assert_eq!(first.len(), 1);
    assert_eq!(shooter.gun.ammo, 23);
    assert_eq!(shooter.gun.last_fired, 1_000_000);
    let second = shoot_gun(&mut shooter, 1, 1_000_000 + 499_999);
    assert!(second.is_empty());
    let third = shoot_gun(&mut shooter, 1, 1_000_000 + 500_001);
    assert_eq!(third.len(), 1);
}

#[test]
fn burst_recharges_before_next_burst() {
    let mut g = Gun::new_burst_rifle();
    assert!(g.fire(1_000_000));
    assert_eq!(g.burst_count, 2);
    assert!(g.keep_shooting);
    assert!(g.fire(1_040_000));
    assert!(g.fire(1_080_000));
    assert_eq!(g.burst_count, 0);
    assert!(!g.keep_shooting);
    assert!(!g.fire(1_200_000));
    assert!(!g.keep_shooting);
    assert!(g.fire(1_500_000));
    assert_eq!(g.ammo, 96);
}

#[test]
fn pellets_leave_within_spread() {
    let mut shooter = Entity::new_player(1_000_000, 1_000_000);
    shooter.gun = Gun::new_shotgun();
    shooter.look_direction = Vec2::new(0, U);
    let bullets = shoot_gun(&mut shooter, 9, 2_000_000);
    assert_eq!(bullets.len(), 6);
    let max_angle = 3_129.0 / 65_536.0 * 2.0 * std::f64::consts::PI + 0.01;
    for b in &bullets {
        assert_eq!(b.source, 9);
        assert_eq!(b.force, EntityForce::Player);
        assert_eq!(b.melee_damage, 1_000);
        let a = (b.velocity.x as f64).atan2(b.velocity.y as f64);
        assert!(a.abs() <= max_angle, "angle {}", a);
        let sp = ((b.velocity.x as f64).powi(2) + (b.velocity.y as f64).powi(2)).sqrt();
        assert!((sp - 2_000_000.0).abs() < 2_000_000.0 * 0.01);
    }
}

#[test]
fn melee_contact_damage_scales_with_dt() {
    let mut sw = Entity::new_swarmer(1_000_000, 1_000_000);
    sw.velocity = Vec2::new(600_000, 0);
    let target = Entity::new_player(1_055_000, 1_000_000);
    let s = world(vec![sw, target]);
    let mut events = Vec::new();
    simulate_entity_entity_collisions(&s.entities, &mut events, TICK);
    let mut effects = Vec::new();
    handle_melee_damage(&s, &events, &mut effects);
    assert_eq!(effects.len(), 1);
    match effects[0] {
        SideEffect::Damage(amount, target) => assert_eq!((amount, target), (33, 2)),
        _ => panic!("expected contact damage"),
    }
}

#[test]
fn walk_and_look_commands() {
    let mut s = world(vec![Entity::new_player(1_000_000, 1_000_000)]);
    apply_command(&mut s, Command::Walk(1, Vec2::new(0, -U)));
    assert_eq!(s.entities[0].1.velocity, Vec2::new(0, -600_000));
    apply_command(&mut s, Command::Look(1, Vec2::new(0, 0)));
    assert_eq!(s.entities[0].1.look_direction, Vec2::new(U, 0));
    apply_command(&mut s, Command::Look(1, Vec2::new(0, U)));
    assert_eq!(s.entities[0].1.look_direction, Vec2::new(0, U));
    apply_command(&mut s, Command::Walk(7, Vec2::new(U, 0)));
    assert_eq!(s.entities.len(), 1);
}

#[test]
fn shoot_command_adds_bullets_with_fresh_ids() {
    let mut s = world(vec![Entity::new_player(1_000_000, 1_000_000)]);
    s.time = 1_000_000;
    apply_command(&mut s, Command::Shoot(1));
    assert_eq!(s.entities.len(), 2);
    assert_eq!(s.entities[1].0, 2);
    assert_eq!(s.entities[1].1.variety, EntityType::Bullet);
    assert_eq!(s.next_id, 3);
}

#[test]
fn enemy_in_sight_looks_and_shoots() {
    let s = world(vec![Entity::new_enemy(1_500_000, 1_500_000), Entity::new_player(1_800_000, 1_500_000)]);
    let mut cmds = Vec::new();
    rustland::ai::compute_ai_commands(&s, &mut cmds);
    assert_eq!(cmds, vec![Command::Look(1, Vec2::new(U, 0)), Command::Shoot(1)]);
}

#[test]
fn enemy_behind_wall_holds_fire() {
    let mut s = world(vec![Entity::new_enemy(1_800_000, 1_500_000), Entity::new_player(2_200_000, 1_500_000)]);
    s.terrain.set_2d(2, 1, Tile::Wall);
    let mut cmds = Vec::new();
    rustland::ai::compute_ai_commands(&s, &mut cmds);
    assert!(cmds.is_empty());
}

#[test]
fn swarmer_chases_player() {
    let s = world(vec![Entity::new_swarmer(1_500_000, 1_500_000), Entity::new_player(1_500_000, 2_300_000)]);
    let mut cmds = Vec::new();
    rustland::ai::compute_ai_commands(&s, &mut cmds);
    assert_eq!(cmds, vec![Command::Walk(1, Vec2::new(0, U))]);
}

#[test]
fn paused_game_does_not_tick() {
    let s = world(vec![Entity::new_player(1_000_000, 1_000_000)]);
    let mut g = game(s, 1);
    g.toggle_pause();
    g.walk_input(false, true, false, false);
    assert_eq!(g.update(TICK), Ok(()));
    assert_eq!(g.state.time, 0);
    assert_eq!(g.state.entities[0].1.aabb.center(), Vec2::new(1_000_000, 1_000_000));
}

#[test]
fn walk_input_diagonal_is_normalised() {
    let s = world(vec![Entity::new_player(1_000_000, 1_000_000)]);
    let mut g = game(s, 1);
    g.walk_input(true, false, false, true);
    assert_eq!(g.frame_commands, vec![Command::Walk(1, Vec2::new(-707_108, 707_107))]);
}

#[test]
fn generated_level_is_walled_and_populated() {
    let s = rustland::simulation_state::generate_level_drunk();
    assert_eq!(s.entities.len(), 40);
    assert_eq!(s.entities[0].1.variety, EntityType::Player);
    for i in 0..20 {
        assert_eq!(s.terrain.get_2d(i, 0), Some(Tile::Wall));
        assert_eq!(s.terrain.get_2d(0, i), Some(Tile::Wall));
        assert_eq!(s.terrain.get_2d(i, 19), Some(Tile::Wall));
        assert_eq!(s.terrain.get_2d(19, i), Some(Tile::Wall));
    }
    for (_, e) in &s.entities {
        assert_eq!(s.terrain.get_position(e.aabb.center()), Some(Tile::Ground));
    }
    let g = Game::new(ScreenTransform::new(1280, 720));
    assert_eq!(g.player_id, 1);
}

#[test]
fn fixed_level_layout() {
    let s = SimulationState::new();
    assert_eq!(s.entities.len(), 15);
    assert_eq!(s.entities[0].1.aabb, Rect::new(375_000, 375_000, 50_000, 50_000));
    assert_eq!(s.next_id, 16);
}

#[test]
fn fresh_bullets_wait_for_next_tick() {
    let s = world(vec![Entity::new_player(3_000_000, 3_000_000)]);
    let mut g = game(s, 1);
    g.state.time = 1_000_000;
    g.push_command(Command::Shoot(1));
    assert_eq!(g.update(TICK), Ok(()));
    assert_eq!(g.state.entities.len(), 2);
    let muzzle = Vec2::new(3_000_000, 3_000_000);
    assert_eq!(g.state.entities[1].1.aabb.center(), muzzle);
    assert!(g.frame_movements.iter().all(|m| m.0 != 2));
    g.clear_arenas();
    assert_eq!(g.update(TICK), Ok(()));
    assert_ne!(g.state.entities[1].1.aabb.center(), muzzle);
}

#[test]
fn pellets_spread_apart() {
    let mut shooter = Entity::new_player(1_000_000, 1_000_000);
    shooter.gun = Gun::new_shotgun();
    let bullets = shoot_gun(&mut shooter, 3, 2_000_000);
    assert_eq!(bullets.len(), 6);
    let first = bullets[0].velocity;
    assert!(bullets.iter().any(|b| b.velocity != first));
}

#[test]
fn entities_already_overlapping_give_no_contact() {
    let mut a = Entity::new_player(1_000_000, 1_000_000);
    a.velocity = Vec2::new(0, 0);
    let b = Entity::new_player(1_010_000, 1_000_000);
    let es = vec![(1, a), (2, b)];
    let mut out = Vec::new();
    simulate_entity_entity_collisions(&es, &mut out, TICK);
    assert!(out.is_empty());
}
