use vstd::prelude::*;
use crate::num::{SCALE, LIMIT, clamp, in_limit, add_c};
use crate::registry::{Registry, Keyed, without, lemma_without_members};
use crate::vehicle::{Vehicle, VehicleKind, Rig, reset_rig, fresh_rig};
use crate::timeloop::TimeLoopRecord;
use crate::world::{World, all_wf_vehicles};

verus! {

/// Ids of Swarm runs start above this, so that every Swarm run leaves its
/// own clone.
pub const SWARM_IDS: u32 = 100;

/// Height of the window in pixels; the mouse's y axis runs downward.
pub const WINDOW_HEIGHT: i64 = 900;

/// How many vehicles the menu offers.
pub const VEHICLE_COUNT: u8 = 6;

/// What a menu button does.
#[derive(Clone, Copy, Debug, PartialEq, Eq, Structural)]
pub enum MenuAction {
    Play,
    /// Start a run with the same vehicle, upgrading every vehicle on offer.
    Replay,
    /// Start a run with the selected vehicle.
    NewPlay,
    Quit,
    UpdateVehicle,
    NewVehicle,
    Back,
    Artifact1,
    Artifact2,
    Artifact3,
    Health,
    Damage,
    NextVehicle,
    PreviousVehicle,
}

/// A button centred at `(x, y)` in window pixels, y upward.
#[derive(Clone, Copy, Debug, PartialEq, Eq, Structural)]
pub struct Button {
    pub x: i64,
    pub y: i64,
    pub width: i64,
    pub height: i64,
    pub action: MenuAction,
    pub image: u32,
    pub text_image: u32,
}

pub open spec fn button_ok(b: Button) -> bool {
    &&& in_limit(b.x)
    &&& in_limit(b.y)
    &&& 0 <= b.width <= LIMIT
    &&& 0 <= b.height <= LIMIT
}

/// The mouse at `(mx, my)` (window pixels, y downward) lies strictly inside the button.
pub open spec fn pressed(b: Button, mx: i64, my: i64) -> bool {
    let fy = WINDOW_HEIGHT - my;
    &&& mx > b.x - b.width / 2
    &&& mx < b.x + b.width / 2
    &&& fy > b.y - b.height / 2
    &&& fy < b.y + b.height / 2
}

/// The menu between runs.
pub struct Menu {
    pub pressed_space: bool,
    pub go: bool,
    pub quit: bool,
    pub screen: u8,
    pub selected_vehicle: u8,
    /// The artifacts chosen so far, by number.
    pub artifacts: Vec<u32>,
    pub health_modifier: u32,
    pub damage_modifier: u32,
    pub health_boost: u32,
    pub damage_boost: u32,
    /// The vehicles on offer, one per kind.
    pub vehicles: Vec<Vehicle>,
    /// The number the next Swarm run takes.
    pub swarm_serial: u32,
    pub keep_old: bool,
    /// The buttons of each screen.
    pub screens: Vec<Vec<Button>>,
}

pub open spec fn saturating_add(a: u32, b: u32) -> u32 {
    if a + b > u32::MAX { u32::MAX } else { (a + b) as u32 }
}

/// The two menus agree on everything a run start or a button press leaves
/// alone: the space key, the selection, the artifacts, upgrades and buttons.
pub open spec fn same_settings(a: &Menu, b: &Menu) -> bool {
    &&& a.pressed_space == b.pressed_space
    &&& a.selected_vehicle == b.selected_vehicle
    &&& a.artifacts@ == b.artifacts@
    &&& a.health_modifier == b.health_modifier
    &&& a.damage_modifier == b.damage_modifier
    &&& a.health_boost == b.health_boost
    &&& a.damage_boost == b.damage_boost
    &&& a.keep_old == b.keep_old
    &&& a.screens@ == b.screens@
}

impl Menu {
    pub open spec fn wf(&self) -> bool {
        &&& self.selected_vehicle < VEHICLE_COUNT
        &&& self.vehicles@.len() == VEHICLE_COUNT
        &&& all_wf_vehicles(self.vehicles@)
        &&& forall|s: int, i: int| 0 <= s < self.screens@.len() && 0 <= i < self.screens@[s]@.len()
            ==> button_ok(#[trigger] self.screens@[s]@[i])
    }
}

/// The buttons of the four menu screens: artifact choice, upgrade or
/// change, upgrades, and vehicle choice.
pub fn menu_screens() -> (r: Vec<Vec<Button>>)
    ensures
        r@.len() == 4,
        forall|s: int, i: int| 0 <= s < r@.len() && 0 <= i < r@[s]@.len() ==> button_ok(#[trigger] r@[s]@[i]),
{
    let mut s0: Vec<Button> = Vec::new();
    s0.push(Button { x: 220, y: 150, width: 200, height: 200, action: MenuAction::Artifact1, image: 12, text_image: 100 });
    s0.push(Button { x: 720, y: 150, width: 200, height: 200, action: MenuAction::Artifact2, image: 12, text_image: 100 });
    s0.push(Button { x: 1220, y: 150, width: 200, height: 200, action: MenuAction::Artifact3, image: 12, text_image: 100 });
    let mut s1: Vec<Button> = Vec::new();
    s1.push(Button { x: 520, y: 450, width: 200, height: 200, action: MenuAction::UpdateVehicle, image: 13, text_image: 11 });
    s1.push(Button { x: 920, y: 450, width: 200, height: 200, action: MenuAction::NewVehicle, image: 12, text_image: 6 });
    let mut s2: Vec<Button> = Vec::new();
    s2.push(Button { x: 520, y: 450, width: 200, height: 200, action: MenuAction::Health, image: 12, text_image: 9 });
    s2.push(Button { x: 920, y: 450, width: 200, height: 200, action: MenuAction::Damage, image: 12, text_image: 8 });
    s2.push(Button { x: 720, y: 300, width: 200, height: 200, action: MenuAction::Replay, image: 2, text_image: 100 });
    let mut s3: Vec<Button> = Vec::new();
    s3.push(Button { x: 1120, y: 450, width: 200, height: 200, action: MenuAction::NextVehicle, image: 11, text_image: 5 });
    s3.push(Button { x: 320, y: 450, width: 200, height: 200, action: MenuAction::PreviousVehicle, image: 11, text_image: 5 });
    s3.push(Button { x: 720, y: 250, width: 200, height: 200, action: MenuAction::NewPlay, image: 2, text_image: 100 });
    let mut screens: Vec<Vec<Button>> = Vec::new();
    screens.push(s0);
    screens.push(s1);
    screens.push(s2);
    screens.push(s3);
    screens
}

impl Menu {
    /// The menu at start-up: every vehicle on offer, the first selected.
    pub fn new() -> (m: Menu)
        ensures
            m.wf(),
            m.selected_vehicle == 0,
            !m.go && !m.quit && !m.pressed_space && !m.keep_old,
            m.screen == 0,
            m.swarm_serial == 1,
            forall|i: int| 0 <= i < VEHICLE_COUNT ==> (#[trigger] m.vehicles@[i]).id == i && m.vehicles@[i].moves@.len() == 0,
            m.vehicles@[0].rig == fresh_rig(VehicleKind::Base),
            m.vehicles@[1].rig == fresh_rig(VehicleKind::Smasher),
            m.vehicles@[2].rig == fresh_rig(VehicleKind::Cannoneer),
            m.vehicles@[3].rig == fresh_rig(VehicleKind::Swarm),
            m.vehicles@[4].rig == fresh_rig(VehicleKind::McQueen),
            m.vehicles@[5].rig == fresh_rig(VehicleKind::Generator),
    {
        let mut vehicles: Vec<Vehicle> = Vec::new();
        vehicles.push(Vehicle::new(0, VehicleKind::Base));
        vehicles.push(Vehicle::new(1, VehicleKind::Smasher));
        vehicles.push(Vehicle::new(2, VehicleKind::Cannoneer));
        vehicles.push(Vehicle::new(3, VehicleKind::Swarm));
        vehicles.push(Vehicle::new(4, VehicleKind::McQueen));
        vehicles.push(Vehicle::new(5, VehicleKind::Generator));
        Menu {
            pressed_space: false,
            go: false,
            quit: false,
            screen: 0,
            selected_vehicle: 0,
            artifacts: Vec::new(),
            health_modifier: 0,
            damage_modifier: 0,
            health_boost: 0,
            damage_boost: 0,
            vehicles: vehicles,
            swarm_serial: 1,
            keep_old: false,
            screens: menu_screens(),
        }
    }
}

/// Carries out one button's action on the menu.
pub fn do_button(action: MenuAction, menu: &mut Menu)
    requires
        old(menu).wf(),
    ensures
        final(menu).wf(),
        final(menu).vehicles@ == old(menu).vehicles@,
        final(menu).screens@ == old(menu).screens@,
        final(menu).pressed_space == old(menu).pressed_space,
        final(menu).swarm_serial == old(menu).swarm_serial,
        final(menu).go == (old(menu).go || action == MenuAction::Replay || action == MenuAction::NewPlay),
        final(menu).keep_old == (if action == MenuAction::Replay {
            true
        } else if action == MenuAction::NewPlay {
            false
        } else {
            old(menu).keep_old
        }),
        final(menu).quit == (old(menu).quit || action == MenuAction::Quit),
        final(menu).screen == match action {
            MenuAction::UpdateVehicle => 2,
            MenuAction::NewVehicle => 3,
            MenuAction::Back => 0,
            MenuAction::Artifact1 | MenuAction::Artifact2 | MenuAction::Artifact3 => 1,
            _ => old(menu).screen,
        },
        final(menu).artifacts@ == match action {
            MenuAction::Artifact1 => old(menu).artifacts@.push(1),
            MenuAction::Artifact2 => old(menu).artifacts@.push(2),
            MenuAction::Artifact3 => old(menu).artifacts@.push(3),
            _ => old(menu).artifacts@,
        },
        final(menu).health_modifier == if action == MenuAction::Health {
            saturating_add(old(menu).health_modifier, old(menu).health_boost)
        } else {
            old(menu).health_modifier
        },
        final(menu).damage_modifier == if action == MenuAction::Damage {
            saturating_add(old(menu).damage_modifier, old(menu).damage_boost)
        } else {
            old(menu).damage_modifier
        },
        final(menu).health_boost == old(menu).health_boost,
        final(menu).damage_boost == old(menu).damage_boost,
        final(menu).selected_vehicle == match action {
            MenuAction::NextVehicle => if old(menu).selected_vehicle == VEHICLE_COUNT - 1 {
                0
            } else {
                (old(menu).selected_vehicle + 1) as u8
            },
            MenuAction::PreviousVehicle => if old(menu).selected_vehicle == 0 {
                (VEHICLE_COUNT - 1) as u8
            } else {
                (old(menu).selected_vehicle - 1) as u8
            },
            _ => old(menu).selected_vehicle,
        },
{
    match action {
        MenuAction::Replay => {
            menu.go = true;
            menu.keep_old = true;
        },
        MenuAction::NewPlay => {
            menu.go = true;
            menu.keep_old = false;
        },
        MenuAction::Quit => {
            menu.quit = true;
        },
        MenuAction::UpdateVehicle => {
            menu.screen = 2;
        },
        MenuAction::NewVehicle => {
            menu.screen = 3;
        },
        MenuAction::Back => {
            menu.screen = 0;
        },
        MenuAction::Artifact1 => {
            menu.artifacts.push(1);
            menu.screen = 1;
        },
        MenuAction::Artifact2 => {
            menu.artifacts.push(2);
            menu.screen = 1;
        },
        MenuAction::Artifact3 => {
            menu.artifacts.push(3);
            menu.screen = 1;
        },
        MenuAction::Health => {
            menu.health_modifier = menu.health_modifier.saturating_add(menu.health_boost);
        },
        MenuAction::Damage => {
            menu.damage_modifier = menu.damage_modifier.saturating_add(menu.damage_boost);
        },
        MenuAction::NextVehicle => {
            if menu.selected_vehicle == VEHICLE_COUNT - 1 {
                menu.selected_vehicle = 0;
            } else {
                menu.selected_vehicle = menu.selected_vehicle + 1;
            }
        },
        MenuAction::PreviousVehicle => {
            if menu.selected_vehicle == 0 {
                menu.selected_vehicle = VEHICLE_COUNT - 1;
            } else {
                menu.selected_vehicle = menu.selected_vehicle - 1;
            }
        },
        MenuAction::Play => {},
    }
}

/// While space is down, the actions of the current screen's buttons under
/// the mouse, in order; space is then released. Otherwise none.
pub fn check_buttons(menu: &mut Menu, mouse_x: i64, mouse_y: i64) -> (r: Vec<MenuAction>)
    requires
        old(menu).wf(),
        in_limit(mouse_x),
        in_limit(mouse_y),
    ensures
        final(menu).wf(),
        !final(menu).pressed_space,
        final(menu).screen == old(menu).screen,
        final(menu).vehicles@ == old(menu).vehicles@,
        final(menu).screens@ == old(menu).screens@,
        final(menu).go == old(menu).go,
        final(menu).quit == old(menu).quit,
        final(menu).selected_vehicle == old(menu).selected_vehicle,
        final(menu).keep_old == old(menu).keep_old,
        final(menu).health_modifier == old(menu).health_modifier,
        final(menu).damage_modifier == old(menu).damage_modifier,
        final(menu).health_boost == old(menu).health_boost,
        final(menu).damage_boost == old(menu).damage_boost,
        final(menu).artifacts@ == old(menu).artifacts@,
        final(menu).swarm_serial == old(menu).swarm_serial,
        !old(menu).pressed_space || old(menu).screen >= old(menu).screens@.len() ==> r@.len() == 0,
        old(menu).pressed_space && old(menu).screen < old(menu).screens@.len() ==> r@ == old(menu).screens@[old(menu).screen as int]@.filter(
            |b: Button| pressed(b, mouse_x, mouse_y),
        ).map_values(|b: Button| b.action),
{
    let mut actions: Vec<MenuAction> = Vec::new();
    if !menu.pressed_space {
        return actions;
    }
    menu.pressed_space = false;
    if (menu.screen as usize) >= menu.screens.len() {
        return actions;
    }
    let screen = menu.screen as usize;
    let ghost bs = menu.screens@[screen as int]@;
    let ghost pred = |b: Button| pressed(b, mouse_x, mouse_y);
    let ghost f = |b: Button| b.action;
    let mut i: usize = 0;
    assert(bs.subrange(0, 0).filter(pred) =~= Seq::<Button>::empty()) by {
        reveal(Seq::filter);
    }
    assert(Seq::<Button>::empty().map_values(f) =~= Seq::<MenuAction>::empty());
    while i < menu.screens[screen].len()
        invariant
            menu.wf(),
            screen < menu.screens@.len(),
            menu.screens@ == old(menu).screens@,
            bs == menu.screens@[screen as int]@,
            in_limit(mouse_x),
            in_limit(mouse_y),
            i <= bs.len(),
            pred == (|b: Button| pressed(b, mouse_x, mouse_y)),
            f == (|b: Button| b.action),
            actions@ == bs.subrange(0, i as int).filter(pred).map_values(f),
        decreases bs.len() - i,
    {
        let b = menu.screens[screen][i];
        assert(button_ok(bs[i as int]));
        let fy: i64 = WINDOW_HEIGHT - mouse_y;
        let hit = mouse_x > b.x - b.width / 2 && mouse_x < b.x + b.width / 2 && fy > b.y - b.height / 2
            && fy < b.y + b.height / 2;
        assert(hit == pred(b));
        proof {
            reveal(Seq::filter);
            assert(bs.subrange(0, i + 1).drop_last() =~= bs.subrange(0, i as int));
            assert(bs.subrange(0, i + 1).last() == b);
        }
        if hit {
            actions.push(b.action);
            assert(bs.subrange(0, i + 1).filter(pred) == bs.subrange(0, i as int).filter(pred).push(b));
            assert(bs.subrange(0, i + 1).filter(pred).map_values(f) =~= bs.subrange(0, i as int).filter(pred).map_values(
                f,
            ).push(b.action));
        } else {
            assert(bs.subrange(0, i + 1).filter(pred) == bs.subrange(0, i as int).filter(pred));
        }
        i += 1;
    }
    assert(bs.subrange(0, bs.len() as int) =~= bs);
    actions
}

/// A clone at the start of a run: reset, replaying from its first frame.
pub open spec fn reset_vehicle(v: Vehicle) -> Vehicle {
    Vehicle { rig: reset_rig(v.rig), step: 0, ..v }
}

/// The id the next run's player takes: a Swarm run takes a new one.
pub open spec fn run_id(menu: &Menu) -> u32 {
    let v = menu.vehicles@[menu.selected_vehicle as int];
    if v.rig.kind == VehicleKind::Swarm {
        if menu.swarm_serial <= u32::MAX - SWARM_IDS {
            (SWARM_IDS + menu.swarm_serial) as u32
        } else {
            u32::MAX
        }
    } else {
        v.id
    }
}

fn reset_all(cs: &mut Vec<Vehicle>)
    requires
        all_wf_vehicles(old(cs)@),
    ensures
        final(cs)@ == old(cs)@.map_values(|v: Vehicle| reset_vehicle(v)),
        all_wf_vehicles(final(cs)@),
{
    let ghost start = cs@;
    let mut i: usize = 0;
    while i < cs.len()
        invariant
            cs@.len() == start.len(),
            i <= start.len(),
            all_wf_vehicles(start),
            all_wf_vehicles(cs@),
            forall|j: int| 0 <= j < i ==> #[trigger] cs@[j] == reset_vehicle(start[j]),
            forall|j: int| i <= j < start.len() ==> #[trigger] cs@[j] == start[j],
        decreases start.len() - i,
    {
        assert(start[i as int].wf());
        let ghost before = cs@;
        let mut c = cs.remove(i);
        c.reset();
        cs.insert(i, c);
        assert(cs@ =~= before.update(i as int, c));
        assert forall|j: int| 0 <= j < cs@.len() implies #[trigger] cs@[j].wf() by {
            if j != i {
            }
        }
        i += 1;
    }
    assert(cs@ =~= start.map_values(|v: Vehicle| reset_vehicle(v)));
}

fn upgrade_all(vs: &mut Vec<Vehicle>, health: u32, damage: u32)
    requires
        all_wf_vehicles(old(vs)@),
    ensures
        final(vs)@.len() == old(vs)@.len(),
        forall|j: int| 0 <= j < old(vs)@.len() ==> {
            let o = #[trigger] old(vs)@[j];
            let n = final(vs)@[j];
            &&& n.id == o.id
            &&& n.moves@ == o.moves@
            &&& n.step == o.step
            &&& n.rig == Rig {
                health: clamp(o.rig.health + health * SCALE) as i64,
                damage: clamp(o.rig.damage + damage * SCALE) as i64,
                ..o.rig
            }
        },
        all_wf_vehicles(final(vs)@),
{
    let ghost start = vs@;
    let mut i: usize = 0;
    let h: i64 = health as i64 * SCALE;
    let d: i64 = damage as i64 * SCALE;
    while i < vs.len()
        invariant
            vs@.len() == start.len(),
            i <= start.len(),
            h == health * SCALE,
            d == damage * SCALE,
            all_wf_vehicles(start),
            all_wf_vehicles(vs@),
            forall|j: int| 0 <= j < i ==> {
                let o = #[trigger] start[j];
                let n = vs@[j];
                &&& n.id == o.id
                &&& n.moves@ == o.moves@
                &&& n.step == o.step
                &&& n.rig == Rig {
                    health: clamp(o.rig.health + health * SCALE) as i64,
                    damage: clamp(o.rig.damage + damage * SCALE) as i64,
                    ..o.rig
                }
            },
            forall|j: int| i <= j < start.len() ==> #[trigger] vs@[j] == start[j],
        decreases start.len() - i,
    {
        assert(start[i as int].wf());
        let ghost before = vs@;
        let mut c = vs.remove(i);
        c.rig.health = add_c(c.rig.health, h);
        c.rig.damage = add_c(c.rig.damage, d);
        vs.insert(i, c);
        assert(vs@ =~= before.update(i as int, c));
        assert forall|j: int| 0 <= j < vs@.len() implies #[trigger] vs@[j].wf() by {
            if j != i {
            }
        }
        i += 1;
    }
}

/// Between runs: on a start request the chosen vehicle (or, on a replay,
/// the same one) begins a fresh run in a cleared world, every clone is reset
/// to replay from its start, the clone under the player's id is dropped, and
/// the record of all earlier runs becomes the one to replay. On a quit
/// request the run flag is cleared.
#[verifier::rlimit(60)]
pub fn update_menu(menu: &mut Menu, w: &mut World)
    requires
        old(menu).wf(),
        old(w).wf(),
    ensures
        final(menu).wf(),
        final(w).wf(),
        !final(menu).quit,
        old(menu).quit ==> !final(w).in_run,
        !old(menu).go ==> *final(w) == (World { in_run: old(w).in_run && !old(menu).quit, ..*old(w) }),
        !old(menu).go ==> {
            &&& same_settings(final(menu), old(menu))
            &&& final(menu).vehicles@ == old(menu).vehicles@
            &&& final(menu).swarm_serial == old(menu).swarm_serial
            &&& final(menu).screen == old(menu).screen
            &&& final(menu).go == old(menu).go
        },
        old(menu).go ==> {
            let sel = old(menu).vehicles@[old(menu).selected_vehicle as int];
            &&& same_settings(final(menu), old(menu))
            &&& final(menu).swarm_serial == if !old(menu).keep_old && sel.rig.kind == VehicleKind::Swarm
                && old(menu).swarm_serial <= u32::MAX - SWARM_IDS && old(menu).swarm_serial < u32::MAX {
                (old(menu).swarm_serial + 1) as u32
            } else {
                old(menu).swarm_serial
            }
            &&& !old(menu).keep_old ==> final(menu).vehicles@ == old(menu).vehicles@
            &&& old(menu).keep_old ==> final(menu).vehicles@.len() == old(menu).vehicles@.len()
            &&& old(menu).keep_old ==> forall|j: int| 0 <= j < old(menu).vehicles@.len() ==> {
                let o = #[trigger] old(menu).vehicles@[j];
                let n = final(menu).vehicles@[j];
                &&& n.id == o.id
                &&& n.moves@ == o.moves@
                &&& n.step == o.step
                &&& n.rig == Rig {
                    health: clamp(o.rig.health + old(menu).health_modifier * SCALE) as i64,
                    damage: clamp(o.rig.damage + old(menu).damage_modifier * SCALE) as i64,
                    ..o.rig
                }
            }
        },
        old(menu).go ==> ({
            let pid = if old(menu).keep_old { old(w).player.id } else { run_id(old(menu)) };
            let prig = if old(menu).keep_old {
                old(w).player.rig
            } else {
                old(menu).vehicles@[old(menu).selected_vehicle as int].rig
            };
            &&& !final(menu).go
            &&& final(menu).screen == 0
            &&& final(w).in_run == !old(menu).quit
            &&& final(w).player.id == pid
            &&& final(w).player.rig == reset_rig(prig)
            &&& final(w).player.moves@.len() == 0
            &&& final(w).player.step == 0
            &&& final(w).clones.items@ == without(old(w).clones.items@.map_values(|v: Vehicle| reset_vehicle(v)), pid)
            &&& final(w).player_bullets.items@.len() == 0
            &&& final(w).enemy_bullets.items@.len() == 0
            &&& final(w).enemies.items@.len() == 0
            &&& final(w).platforms.items@.len() == 0
            &&& final(w).camera_distance == 0
            &&& final(w).enemy_cooldown == 0
            &&& final(w).platform_cooldown == 0
            &&& final(w).storage == old(w).storage
            &&& final(w).reading.max_camera == old(w).storage.max_camera
            &&& final(w).reading.enemies@ == old(w).storage.enemies@
            &&& final(w).reading.platforms@ == old(w).storage.platforms@
        }),
{
    if menu.go {
        menu.go = false;
        menu.screen = 0;
        w.in_run = true;
        if !menu.keep_old {
            let sel = menu.selected_vehicle as usize;
            assert(menu.vehicles@[sel as int].wf());
            let mut p = menu.vehicles[sel].duplicate();
            if p.rig.kind == VehicleKind::Swarm {
                if menu.swarm_serial <= u32::MAX - SWARM_IDS {
                    p.id = SWARM_IDS + menu.swarm_serial;
                    if menu.swarm_serial < u32::MAX {
                        menu.swarm_serial = menu.swarm_serial + 1;
                    }
                } else {
                    p.id = u32::MAX;
                }
            }
            w.player = p;
        } else {
            upgrade_all(&mut menu.vehicles, menu.health_modifier, menu.damage_modifier);
        }
        w.player.begin_run();
        let ghost cs = w.clones.items@;
        reset_all(&mut w.clones.items);
        proof {
            crate::combat::lemma_same_keys_unique(cs, w.clones.items@);
        }
        w.player_bullets = Registry::new();
        w.enemy_bullets = Registry::new();
        w.enemies = Registry::new();
        w.platforms = Registry::new();
        w.camera_distance = 0;
        w.enemy_cooldown = 0;
        w.platform_cooldown = 0;
        w.reading = w.storage.duplicate();
        let pid = w.player.id;
        let ghost rs = w.clones.items@;
        w.clones.remove(pid);
        proof {
            assert forall|j: int| 0 <= j < w.clones.items@.len() implies #[trigger] w.clones.items@[j].wf() by {
                lemma_without_members(rs, pid);
                let k = choose|k: int| 0 <= k < rs.len() && #[trigger] rs[k] == w.clones.items@[j];
            }
        }
    }
    if menu.quit {
        menu.quit = false;
        w.in_run = false;
    }
}

} // verus!
