use chronodrive::entity::{Keys, Platform};
use chronodrive::geometry::{collide_exec, land_exec, least_side_exec, overlaps_exec, Aabb, Body, Side};
use chronodrive::num::{add_c, damp_exec, sub_c, LIMIT, SCALE};
use chronodrive::vehicle::{collide_all_exec, drive, fresh_rig_exec, reset_rig_exec, VehicleKind};

fn body(x: i64, y: i64) -> Body {
    Body { x, y, width: 50 * SCALE, height: 60 * SCALE, vx: 7, vy: -9, grounded: false }
}

fn slab(x: i64, y: i64) -> Platform {
    Platform { id: 0, x, y, width: 200 * SCALE, height: 50 * SCALE, image: 0 }
}

#[test]
fn resolving_a_clear_body_changes_nothing() {
    let b = body(0, 500 * SCALE);
    let ps = vec![slab(400 * SCALE, 500 * SCALE), slab(0, 100 * SCALE), slab(125 * SCALE, 500 * SCALE)];
    assert_eq!(collide_all_exec(b, &ps), b);
}

#[test]
fn landing_on_a_platform_grounds_the_body() {
    let p = slab(0, 100 * SCALE).bounds_exec();
    let b = body(0, 150 * SCALE);
    assert_eq!(least_side_exec(&b.bounds_exec(), &p), Side::Top);
    let r = collide_exec(b, &p);
    assert!(r.grounded);
    assert_eq!(r.vy, 0);
    assert_eq!(r.y, 100 * SCALE + 25 * SCALE + 30 * SCALE - SCALE);
    assert_eq!(r.x, b.x);
}

#[test]
fn equal_penetration_resolves_left_first() {
    let m = Aabb { x: 0, y: 0, width: 10, height: 10 };
    let p = Aabb { x: 0, y: 0, width: 10, height: 10 };
    assert_eq!(least_side_exec(&m, &p), Side::Left);
    let touching = Aabb { x: 10, y: 0, width: 10, height: 10 };
    assert!(!overlaps_exec(&m, &touching));
    let inside = Aabb { x: 9, y: 0, width: 10, height: 10 };
    assert!(overlaps_exec(&m, &inside));
}

#[test]
fn ground_lifts_a_sinking_body() {
    let r = land_exec(body(0, 10 * SCALE));
    assert!(r.grounded);
    assert_eq!(r.y, 29 * SCALE);
    assert_eq!(r.vy, 0);
    let high = body(0, 31 * SCALE);
    assert_eq!(land_exec(high), high);
}

#[test]
fn fixed_point_arithmetic_is_exact() {
    assert_eq!(damp_exec(1200), 1080);
    assert_eq!(damp_exec(-1846), -1661);
    assert_eq!(add_c(LIMIT, 5), LIMIT);
    assert_eq!(sub_c(-LIMIT, 5), -LIMIT);
    assert_eq!(sub_c(10, 4), 6);
}

#[test]
fn special_key_toggles_fire_once_per_press() {
    let mut r = fresh_rig_exec(VehicleKind::Base);
    let none: Vec<Platform> = Vec::new();
    let q = Keys { left: false, down: false, right: false, up: false, special: true, ability: false };
    let (r1, shot) = drive(r, q, &none);
    assert!(!r1.firing && r1.held);
    assert!(shot.is_none());
    let (r2, _) = drive(r1, q, &none);
    assert!(!r2.firing);
    r = r2;
    let (r3, _) = drive(r, Keys::idle(), &none);
    assert!(!r3.held);
    let (r4, shot) = drive(r3, q, &none);
    assert!(r4.firing);
    assert!(shot.is_some());
}

#[test]
fn cannoneer_fires_a_shell_on_a_long_timer() {
    let r = fresh_rig_exec(VehicleKind::Cannoneer);
    let none: Vec<Platform> = Vec::new();
    let q = Keys { left: false, down: false, right: false, up: false, special: true, ability: false };
    let (r1, shot) = drive(r, q, &none);
    let s = shot.expect("a shell");
    assert_eq!(s.splash, 300 * SCALE);
    assert_eq!(s.damage, 100 * SCALE);
    assert_eq!(r1.cooldown, 5 * SCALE - 60);
    let (_, again) = drive(r1, Keys::idle(), &none);
    assert!(again.is_none());
}

#[test]
fn smasher_halts_and_heals() {
    let mut r = fresh_rig_exec(VehicleKind::Smasher);
    r.health = 10 * SCALE;
    let none: Vec<Platform> = Vec::new();
    let q = Keys { left: false, down: false, right: true, up: false, special: true, ability: false };
    let (r1, shot) = drive(r, q, &none);
    assert!(shot.is_none());
    assert_eq!(r1.speed, 0);
    assert_eq!(r1.health, 10 * SCALE + 12);
    let reset = reset_rig_exec(r1);
    assert_eq!(reset.speed, SCALE / 2);
    assert_eq!(reset.health, 100 * SCALE);
}
