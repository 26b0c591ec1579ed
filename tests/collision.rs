use rustland::collision::{
    compute_movement, rect_collision_direction, should_collide, simulate_entity_entity_collisions,
    simulate_entity_terrain_collisions, CollisionDirection, CollisionObject,
};
use rustland::entity::{CollisionGroup, Entity, EntityForce};
use rustland::geometry::{Rect, Vec2};
use rustland::grid::{Grid, Tile};

#[test]
fn test_rcd() {
    {
        let sold = Rect::new(0, 0, 1_000_000, 1_000_000);
        let snew = Rect::new(200_000, 0, 1_000_000, 1_000_000);
        let obj = Rect::new(1_100_000, 0, 1_000_000, 1_000_000);
        assert_eq!(rect_collision_direction(sold, snew, obj), CollisionDirection::Left);
    }
    {
        let sold = Rect::new(0, 0, 1_000_000, 1_000_000);
        let snew = Rect::new(0, 200_000, 1_000_000, 1_000_000);
        let obj = Rect::new(0, 1_100_000, 1_000_000, 1_000_000);
        assert_eq!(rect_collision_direction(sold, snew, obj), CollisionDirection::Above);
    }
    {
        let sold = Rect::new(1_100_000, 0, 1_000_000, 1_000_000);
        let snew = Rect::new(900_000, 0, 1_000_000, 1_000_000);
        let obj = Rect::new(0, 0, 1_000_000, 1_000_000);
        assert_eq!(rect_collision_direction(sold, snew, obj), CollisionDirection::Right);
    }
    {
        let sold = Rect::new(0, 1_100_000, 1_000_000, 1_000_000);
        let snew = Rect::new(900_000, 900_000, 1_000_000, 1_000_000);
        let obj = Rect::new(0, 0, 1_000_000, 1_000_000);
        assert_eq!(rect_collision_direction(sold, snew, obj), CollisionDirection::Below);
    }
}

#[test]
fn overlapping_start_is_bad() {
    let r = Rect::new(0, 0, 10, 10);
    assert_eq!(rect_collision_direction(r, r, Rect::new(5, 5, 10, 10)), CollisionDirection::Bad);
}

#[test]
fn should_collide_rules() {
    let (pl, en) = (EntityForce::Player, EntityForce::Enemy);
    let (bu, ot) = (CollisionGroup::Bullet, CollisionGroup::Other);
    assert!(!should_collide(pl, bu, en, bu));
    assert!(!should_collide(pl, bu, pl, ot));
    assert!(should_collide(pl, bu, en, ot));
    assert!(should_collide(pl, ot, pl, ot));
}

#[test]
fn entity_scan_skips_static_self_and_source() {
    let mut a = Entity::new_player(1_000_000, 1_000_000);
    a.velocity = Vec2::new(600_000, 0);
    let c = Entity::new_crate(1_080_000, 1_000_000);
    let mut b = Entity::new_bullet(Vec2::new(1_000_000, 1_000_000), Vec2::new(1_000_000, 0), EntityForce::Player, 1);
    b.velocity = Vec2::new(0, 0);
    let es = vec![(1, a), (2, c), (3, b)];
    let mut out = Vec::new();
    simulate_entity_entity_collisions(&es, &mut out, 16_667);
    let pairs: Vec<(u64, CollisionObject)> = out.iter().map(|e| (e.subject, e.object)).collect();
    // the player meets the crate; it already overlaps the bullet, a contact
    // with no side, which is dropped; the crate is static; the bullet ignores
    // its shooter
    assert_eq!(pairs, vec![(1, CollisionObject::Entity(2))]);
    assert_eq!(out[0].dir, CollisionDirection::Left);
}

#[test]
fn terrain_scan_finds_adjacent_wall() {
    let mut g = Grid::new(10, 10, 1_000_000, 1_000_000);
    for i in 0..10 {
        for j in 0..10 {
            g.set_2d(i, j, Tile::Ground);
        }
    }
    g.set_2d(5, 5, Tile::Wall);
    let mut a = Entity::new_player(4_970_000, 5_500_000);
    a.velocity = Vec2::new(600_000, 0);
    let es = vec![(7, a)];
    let mut out = Vec::new();
    simulate_entity_terrain_collisions(&es, &g, &mut out, 16_667);
    assert_eq!(out.len(), 1);
    assert_eq!(out[0].object, CollisionObject::Terrain(5, 5));
    assert_eq!(out[0].dir, CollisionDirection::Left);
    let mut moves = Vec::new();
    compute_movement(&es, &out, &mut moves, 16_667);
    assert_eq!(moves, vec![(7, 5_000, 0)]);
}

#[test]
fn movement_without_contacts_is_velocity_times_dt() {
    let mut a = Entity::new_player(0, 0);
    a.velocity = Vec2::new(600_000, -300_000);
    let still = Entity::new_player(5_000_000, 5_000_000);
    let es = vec![(1, a), (2, still)];
    let mut moves = Vec::new();
    compute_movement(&es, &Vec::new(), &mut moves, 16_667);
    assert_eq!(moves, vec![(1, 10_000, -5_001)]);
}
