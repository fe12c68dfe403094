use chronodrive::entity::{Bullet, BulletKind, Enemy, Keys, Platform};
use chronodrive::num::SCALE;
use chronodrive::timeloop::Draws;
use chronodrive::vehicle::VehicleKind;
use chronodrive::world::World;
use rand::rngs::StdRng;
use rand::SeedableRng;

fn calm_draws() -> Draws {
    Draws { platform_image: 0, platform_y: 800, platform_width: 200, enemy_lead: 50, enemy_y: 800 }
}

fn keys(left: bool, right: bool, up: bool) -> Keys {
    Keys { left, down: false, right, up, special: false, ability: false }
}

#[test]
fn four_tick_golden_path() {
    let mut w = World::new();
    let d = calm_draws();
    let frames = [keys(false, true, false), keys(false, true, false), keys(false, false, true), keys(false, false, false)];
    for k in frames.iter() {
        w.pressed_keys = *k;
        w.tick(&d);
    }
    assert!(w.in_run);
    assert_eq!(w.camera_distance, 4);
    assert_eq!(w.player.moves.len(), 4);
    assert_eq!(w.player.rig.body.x, 1839);
    assert_eq!(w.player.rig.body.y, 133920);
    assert_eq!(w.player.rig.body.vx, 1661);
    assert_eq!(w.player.rig.body.vy, 46320);
}

#[test]
fn death_at_camera_500_leaves_a_clone() {
    let mut w = World::new();
    let d = calm_draws();
    for _ in 0..499 {
        w.tick(&d);
        assert!(w.in_run);
    }
    assert_eq!(w.camera_distance, 499);
    w.player.rig.health = 0;
    w.tick(&d);
    assert!(!w.in_run);
    assert_eq!(w.camera_distance, 500);
    assert_eq!(w.storage.max_camera, 500);
    assert_eq!(w.clones.items.len(), 1);
    let c = &w.clones.items[0];
    assert_eq!(c.id, w.player.id);
    assert_eq!(c.moves.len(), 500);
    assert_eq!(c.step, 0);
    assert_eq!(c.rig.body.x, 0);
    assert_eq!(c.rig.health, 100 * SCALE);
}

#[test]
fn same_seed_same_record_whatever_the_keys() {
    let mut a = World::new();
    let mut b = World::new();
    let mut ra = StdRng::seed_from_u64(42);
    let mut rb = StdRng::seed_from_u64(42);
    for i in 0..300 {
        a.pressed_keys = keys(i % 3 == 0, i % 5 == 0, i % 7 == 0);
        b.pressed_keys = keys(false, true, false);
        a.player.rig.health = 100 * SCALE;
        b.player.rig.health = 100 * SCALE;
        a.tick_with(&mut ra);
        b.tick_with(&mut rb);
    }
    assert_eq!(a.storage.enemies, b.storage.enemies);
    assert_eq!(a.storage.platforms, b.storage.platforms);
    assert!(a.storage.platforms.len() >= 2);
    assert_eq!(a.camera_distance, b.camera_distance);
}

#[test]
fn draws_come_from_the_generator() {
    let mut rng = StdRng::seed_from_u64(5);
    let mut widths = Vec::new();
    for _ in 0..50 {
        let d = chronodrive::rng::roll(&mut rng);
        assert!(d.platform_image < 3);
        assert!(d.platform_y < 900);
        assert!(d.platform_width >= 200 && d.platform_width < 400);
        assert!(d.enemy_lead >= 50 && d.enemy_lead < 200);
        assert!(d.enemy_y < 900);
        widths.push(d.platform_width);
    }
    assert!(widths.iter().any(|w| *w != widths[0]));
}

#[test]
fn second_run_replays_the_recorded_platforms() {
    let mut w = World::new();
    let d = calm_draws();
    for _ in 0..200 {
        w.tick(&d);
    }
    w.end_run();
    let recorded = w.storage.platforms.clone();
    assert!(recorded.len() >= 2);
    let mut m = chronodrive::menu::Menu::new();
    m.go = true;
    m.keep_old = true;
    chronodrive::menu::update_menu(&mut m, &mut w);
    assert!(w.in_run);
    assert_eq!(w.reading.platforms, recorded);
    assert_eq!(w.reading.max_camera, 200);
    let other = Draws { platform_image: 2, platform_y: 100, platform_width: 399, enemy_lead: 199, enemy_y: 100 };
    w.tick(&other);
    assert_eq!(w.platforms.items.len(), 1);
    assert_eq!(w.platforms.items[0].width, recorded[0].width);
    assert_eq!(w.platforms.items[0].y, recorded[0].y);
    assert_eq!(w.reading.platforms.len(), recorded.len() - 1);
    assert_eq!(w.storage.platforms, recorded);
}

#[test]
fn clone_replays_the_players_path() {
    let mut w = World::new();
    w.platforms.add(Platform { id: 0, x: 300 * SCALE, y: 120 * SCALE, width: 200 * SCALE, height: 50 * SCALE, image: 0 });
    w.player.rig.firing = false;
    let mut v = World::new();
    v.platforms.add(Platform { id: 0, x: 300 * SCALE, y: 120 * SCALE, width: 200 * SCALE, height: 50 * SCALE, image: 0 });
    for i in 0..60 {
        w.pressed_keys = keys(false, i < 40, i % 9 == 0);
        w.update_player();
    }
    let mut c = w.player.make_clone();
    c.rig.firing = false;
    c.id = 9;
    v.clones.add(c);
    for _ in 0..60 {
        v.update_clone(0);
    }
    assert_eq!(v.clones.items[0].rig.body, w.player.rig.body);
    assert_eq!(v.clones.items[0].step, 59);
}

#[test]
fn bullet_touching_the_right_edge_is_culled() {
    let b = |x: i64| Bullet {
        id: 0,
        kind: BulletKind::Straight,
        x: x * SCALE,
        y: 0,
        width: 20 * SCALE,
        height: 20 * SCALE,
        speed: 10 * SCALE,
        damage: SCALE,
        vx: 0,
        vy: 0,
        splash: 0,
        image: 0,
    };
    let mut bs = vec![b(1450), b(1449), b(-10), b(-9), b(700)];
    chronodrive::combat::cull_bullets(&mut bs);
    let xs: Vec<i64> = bs.iter().map(|b| b.x / SCALE).collect();
    assert_eq!(xs, vec![1449, -9, 700]);
}

fn enemy(id: u32, x: i64, y: i64, health: i64) -> Enemy {
    Enemy { id, x, y, width: 150 * SCALE, height: 150 * SCALE, health, speed: SCALE, shoot_cooldown: 0, image: 0 }
}

#[test]
fn enough_hits_remove_an_enemy_once() {
    let mut w = World::new();
    w.enemies.add(enemy(0, 500 * SCALE, 500 * SCALE, 5 * SCALE));
    w.enemies.add(enemy(1, 900 * SCALE, 500 * SCALE, 5 * SCALE));
    let shot = Bullet {
        id: 0,
        kind: BulletKind::Straight,
        x: 500 * SCALE,
        y: 500 * SCALE,
        width: 10 * SCALE,
        height: 10 * SCALE,
        speed: 10 * SCALE,
        damage: 2 * SCALE,
        vx: 0,
        vy: 0,
        splash: 0,
        image: 0,
    };
    for _ in 0..3 {
        assert!(w.strike_enemies(&shot));
    }
    assert_eq!(w.enemies.items[0].health, -SCALE);
    w.check_deaths();
    assert_eq!(w.enemies.items.len(), 1);
    assert_eq!(w.enemies.items[0].id, 1);
    w.check_deaths();
    assert_eq!(w.enemies.items.len(), 1);
}

#[test]
fn shell_burst_reaches_nearby_enemies() {
    let mut w = World::new();
    w.enemies.add(enemy(0, 600 * SCALE, 500 * SCALE, 500 * SCALE));
    w.enemies.add(enemy(1, 850 * SCALE, 500 * SCALE, 500 * SCALE));
    w.enemies.add(enemy(2, 1000 * SCALE, 500 * SCALE, 500 * SCALE));
    w.player_bullets.add(Bullet {
        id: 0,
        kind: BulletKind::Shell,
        x: 597 * SCALE,
        y: 494 * SCALE,
        width: 10 * SCALE,
        height: 10 * SCALE,
        speed: 10 * SCALE,
        damage: 100 * SCALE,
        vx: 3 * SCALE,
        vy: 6 * SCALE,
        splash: 300 * SCALE,
        image: 0,
    });
    assert!(w.update_player_bullet(0));
    assert!(w.player_bullets.items.is_empty());
    assert_eq!(w.enemies.items[0].health, 300 * SCALE);
    assert_eq!(w.enemies.items[1].health, 400 * SCALE);
    assert_eq!(w.enemies.items[2].health, 500 * SCALE);
}

#[test]
fn enemy_contact_costs_a_smasher_less() {
    let mut w = World::new();
    w.player.rig.kind = VehicleKind::Smasher;
    let h = w.player.rig.health;
    w.enemies.add(enemy(0, 10 * SCALE, 10 * SCALE, 5 * SCALE));
    assert!(w.update_enemy(0));
    assert_eq!(w.player.rig.health, h - 5 * SCALE);
    assert!(w.enemies.items.is_empty());
    assert_eq!(w.enemy_bullets.items.len(), 1);
}

#[test]
fn enemy_spawn_delay_shrinks_with_distance() {
    let mut w = World::new();
    let d = calm_draws();
    w.spawn_enemy(&d);
    assert_eq!(w.enemy_cooldown, 4 * SCALE - 12);
    assert_eq!(w.enemies.items.len(), 1);
    assert_eq!(w.enemies.items[0].x, 1490 * SCALE);
    assert_eq!(w.storage.enemies.len(), 1);
    let mut far = World::new();
    far.camera_distance = 3000;
    far.reading.max_camera = 10;
    far.spawn_enemy(&d);
    assert_eq!(far.enemy_cooldown, SCALE - 12);
}

fn hostile(x: i64, y: i64, width: i64) -> Bullet {
    Bullet {
        id: 0,
        kind: BulletKind::Hostile,
        x,
        y,
        width,
        height: 10 * SCALE,
        speed: 10 * SCALE,
        damage: SCALE,
        vx: 0,
        vy: 0,
        splash: 0,
        image: 0,
    }
}

#[test]
fn direct_hits_cost_health() {
    let mut w = World::new();
    let h = w.player.rig.health;
    w.enemy_bullets.add(hostile(0, 0, 10 * SCALE));
    w.enemies.add(enemy(0, 700 * SCALE, 500 * SCALE, 5 * SCALE));
    let mut shot = hostile(700 * SCALE, 500 * SCALE, 10 * SCALE);
    shot.kind = BulletKind::Straight;
    shot.damage = 2 * SCALE;
    w.player_bullets.add(shot);
    w.check_hits();
    assert_eq!(w.player.rig.health, h - SCALE);
    assert!(w.enemy_bullets.items.is_empty());
    assert!(w.player_bullets.items.is_empty());
    assert_eq!(w.enemies.items[0].health, 3 * SCALE);
}

#[test]
fn bullet_leaving_at_the_left_edge_hurts_nobody() {
    let mut w = World::new();
    let h = w.player.rig.health;
    w.enemy_bullets.add(hostile(0, 850 * SCALE, 20 * SCALE));
    w.update_bullets();
    assert!(w.enemy_bullets.items.is_empty());
    assert_eq!(w.player.rig.health, h);
}
