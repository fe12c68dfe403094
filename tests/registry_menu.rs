use chronodrive::entity::{Enemy, Platform};
use chronodrive::menu::{check_buttons, do_button, update_menu, Menu, MenuAction, SWARM_IDS};
use chronodrive::num::SCALE;
use chronodrive::registry::Registry;
use chronodrive::timeloop::Draws;
use chronodrive::vehicle::{Vehicle, VehicleKind};
use chronodrive::world::World;

fn platform(id: u32, x: i64) -> Platform {
    Platform { id, x, y: 0, width: 10, height: 10, image: 0 }
}

#[test]
fn ids_are_unique_and_smallest_free_is_reused() {
    let mut r: Registry<Platform> = Registry::new();
    assert_eq!(r.next_id(), 0);
    for i in 0..4 {
        let k = r.next_id();
        r.add(platform(k, i));
    }
    assert_eq!(r.ids(), vec![0, 1, 2, 3]);
    r.remove(1);
    r.remove(2);
    assert_eq!(r.ids(), vec![0, 3]);
    assert_eq!(r.next_id(), 1);
    r.add(platform(1, 77));
    assert_eq!(r.next_id(), 2);
    r.add(platform(3, 99));
    assert_eq!(r.ids(), vec![0, 3, 1]);
    assert_eq!(r.get(3).map(|p| p.x), Some(99));
}

#[test]
fn lookups_of_absent_ids_say_so() {
    let mut r: Registry<Platform> = Registry::new();
    r.add(platform(5, 1));
    assert!(r.get(4).is_none());
    assert_eq!(r.position(4), None);
    assert_eq!(r.position(5), Some(0));
    let mut w = World::new();
    assert!(!w.kill(3));
    w.clones.add(Vehicle::new(3, VehicleKind::Smasher));
    assert!(w.kill(3));
    assert!(!w.clones.items[0].rig.active);
}

#[test]
fn replay_signal_marks_the_recorded_distance() {
    let mut w = World::new();
    w.reading.max_camera = 7;
    w.camera_distance = 7;
    w.update_time_loop();
    assert!(w.reading.playing);
    w.camera_distance = 8;
    w.update_time_loop();
    assert!(!w.reading.playing);
}

#[test]
fn vehicle_choice_wraps_around() {
    let mut m = Menu::new();
    do_button(MenuAction::PreviousVehicle, &mut m);
    assert_eq!(m.selected_vehicle, 5);
    do_button(MenuAction::NextVehicle, &mut m);
    assert_eq!(m.selected_vehicle, 0);
    do_button(MenuAction::Artifact2, &mut m);
    assert_eq!(m.artifacts, vec![2]);
    assert_eq!(m.screen, 1);
    do_button(MenuAction::NewPlay, &mut m);
    assert!(m.go && !m.keep_old);
}

#[test]
fn space_presses_the_buttons_under_the_mouse() {
    let mut m = Menu::new();
    m.screen = 3;
    assert!(check_buttons(&mut m, 720, 650).is_empty());
    m.pressed_space = true;
    assert_eq!(check_buttons(&mut m, 720, 650), vec![MenuAction::NewPlay]);
    assert!(!m.pressed_space);
    m.pressed_space = true;
    assert!(check_buttons(&mut m, 10, 10).is_empty());
}

#[test]
fn a_new_run_clears_the_world_and_rewinds_clones() {
    let mut w = World::new();
    let d = Draws { platform_image: 1, platform_y: 800, platform_width: 300, enemy_lead: 60, enemy_y: 800 };
    for _ in 0..50 {
        w.tick(&d);
    }
    w.end_run();
    assert_eq!(w.clones.items.len(), 1);
    let mut m = Menu::new();
    m.selected_vehicle = 3;
    m.go = true;
    update_menu(&mut m, &mut w);
    assert!(w.in_run);
    assert_eq!(w.player.id, SWARM_IDS + 1);
    assert_eq!(w.player.rig.kind, VehicleKind::Swarm);
    assert_eq!(m.swarm_serial, 2);
    assert!(w.player.moves.is_empty());
    assert_eq!(w.camera_distance, 0);
    assert!(w.enemies.items.is_empty() && w.platforms.items.is_empty());
    assert!(w.player_bullets.items.is_empty() && w.enemy_bullets.items.is_empty());
    assert_eq!(w.clones.items.len(), 1);
    assert_eq!(w.clones.items[0].step, 0);
    assert_eq!(w.clones.items[0].moves.len(), 50);
    assert_eq!(w.clones.items[0].rig.body.x, 0);
    assert_eq!(w.reading.max_camera, 50);
    m.go = true;
    m.selected_vehicle = 0;
    update_menu(&mut m, &mut w);
    assert!(w.clones.items.is_empty());
}

#[test]
fn quitting_ends_the_run() {
    let mut w = World::new();
    let mut m = Menu::new();
    do_button(MenuAction::Quit, &mut m);
    update_menu(&mut m, &mut w);
    assert!(!w.in_run);
    assert!(!m.quit);
}

#[test]
fn enemy_template_is_replayed_within_the_recorded_distance() {
    let mut w = World::new();
    w.reading.max_camera = 100;
    w.camera_distance = 20;
    let recorded = Enemy { id: 0, x: 1500 * SCALE, y: 42 * SCALE, width: 150 * SCALE, height: 150 * SCALE, health: 5 * SCALE, speed: SCALE, shoot_cooldown: 0, image: 0 };
    w.reading.enemies.push(recorded);
    let d = Draws { platform_image: 0, platform_y: 10, platform_width: 250, enemy_lead: 120, enemy_y: 700 };
    w.spawn_enemy(&d);
    assert_eq!(w.enemies.items[0].y, 42 * SCALE);
    assert!(w.reading.enemies.is_empty());
    assert!(w.storage.enemies.is_empty());
    w.enemy_cooldown = 0;
    w.spawn_enemy(&d);
    assert_eq!(w.enemies.items[1].y, 700 * SCALE);
    assert_eq!(w.enemies.items[1].id, 1);
    assert_eq!(w.storage.enemies.len(), 1);
}
