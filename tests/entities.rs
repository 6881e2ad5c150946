use bunny_patch::tilemap::{Choice, Tilemap};
use bunny_patch::types::carrot::{HARVEST_TIME, MAX_HP};
use bunny_patch::types::goat::{MAX_CHARGE, SLEEP_DURATION};
use bunny_patch::types::root::{ROOT_GROWTH, ROOT_MAX_AGE};
use bunny_patch::types::{Bush, Carrot, Empty, Goat, Grass, Ice, Root, Water};
use bunny_patch::Tiles;

fn grid(w: usize, h: usize, ids: &[u32]) -> Tilemap {
    let mut map = Tilemap::new();
    map.set_map(w, h, Some(&ids.to_vec())).unwrap();
    map
}

#[test]
fn plain_constructors_keep_position() {
    assert_eq!(Empty::new(3, 4).pos, (3, 4));
    let g = Grass::new(5, 6);
    assert_eq!((g.x, g.y), (5, 6));
}

#[test]
fn root_grows_a_stage_every_growth_period() {
    let mut map = grid(3, 3, &[0; 9]);
    let mut r = Root::new(1, 1);
    for tick in 1..=ROOT_GROWTH * ROOT_MAX_AGE {
        r.update(&mut map);
        assert_eq!(r.age, tick / ROOT_GROWTH);
    }
    assert_eq!(r.age, r.max_age);
    assert!(map.map_updates.is_empty());
}

#[test]
fn mature_root_spreads_on_every_boundary() {
    let mut map = grid(3, 3, &[0; 9]);
    let mut r = Root::new(1, 1);
    r.age = r.max_age;
    for round in 1..=3 {
        r.update(&mut map);
        assert_eq!(map.map_updates.len(), 4 * (round - 1));
        r.update(&mut map);
        assert_eq!(map.map_updates.len(), 4 * round);
    }
    let targets: Vec<(usize, usize)> = map.map_updates[..4].iter().map(|c| (c.x, c.y)).collect();
    assert_eq!(targets, vec![(2, 1), (1, 2), (1, 0), (0, 1)]);
    assert!(map.map_updates.iter().all(|c| c.src == Tiles::Root && c.dst == Tiles::Root));
}

#[test]
fn root_in_corner_drops_requests_off_board() {
    let mut map = grid(2, 2, &[0; 4]);
    let mut r = Root::new(0, 0);
    r.age = r.max_age;
    r.growth = ROOT_GROWTH - 1;
    r.update(&mut map);
    let targets: Vec<(usize, usize)> = map.map_updates.iter().map(|c| (c.x, c.y)).collect();
    assert_eq!(targets, vec![(1, 0), (0, 1)]);
}

#[test]
fn frozen_root_neither_grows_nor_spreads() {
    let mut map = grid(3, 3, &[0; 9]);
    let mut r = Root::new(1, 1);
    r.interact(Tiles::Ice);
    assert!(r.frozen);
    for _ in 0..10 {
        r.update(&mut map);
    }
    assert_eq!(r.age, 0);
    assert!(map.map_updates.is_empty());
    r.interact(Tiles::Bush);
    assert!(r.removed);
}

#[test]
fn bitten_carrot_heals_back_on_next_tick() {
    let mut map = grid(1, 1, &[2]);
    let mut c = Carrot::new(0, 0);
    c.interact(Tiles::Root);
    assert_eq!(c.hp, MAX_HP - 1);
    assert!(!c.no_dmg);
    c.update(&mut map);
    assert_eq!(c.hp, MAX_HP);
    assert!(c.no_dmg);
    c.update(&mut map);
    assert_eq!(c.hp, MAX_HP);
}

#[test]
fn carrot_heals_one_point_per_tick() {
    let mut map = grid(1, 1, &[2]);
    let mut c = Carrot::new(0, 0);
    c.hp = 1;
    c.update(&mut map);
    assert_eq!(c.hp, 2);
    c.update(&mut map);
    assert_eq!(c.hp, 3);
    c.update(&mut map);
    assert_eq!(c.hp, MAX_HP);
}

#[test]
fn full_carrot_pulses_every_harvest_time() {
    let mut map = grid(1, 1, &[2]);
    let mut c = Carrot::new(0, 0);
    c.no_dmg_turns = 0;
    for tick in 1..=3 * HARVEST_TIME {
        c.update(&mut map);
        assert_eq!(map.harvestable.len(), tick / HARVEST_TIME);
        assert_eq!(c.frame == 0, tick % HARVEST_TIME == 0);
    }
    assert_eq!(map.harvestable, vec![(0, 0); 3]);
}

#[test]
fn damage_restarts_the_harvest_streak() {
    let mut map = grid(1, 1, &[2]);
    let mut c = Carrot::new(0, 0);
    c.no_dmg_turns = HARVEST_TIME - 1;
    c.interact(Tiles::Root);
    c.update(&mut map);
    assert_eq!(c.hp, MAX_HP);
    assert_eq!(c.no_dmg_turns, 0);
    for _ in 0..HARVEST_TIME - 1 {
        c.update(&mut map);
    }
    assert!(map.harvestable.is_empty());
    c.update(&mut map);
    assert_eq!(map.harvestable.len(), 1);
}

#[test]
fn new_carrot_pulses_after_harvest_time() {
    let mut map = grid(1, 1, &[2]);
    let mut c = Carrot::new(0, 0);
    assert_eq!(c.no_dmg_turns, 0);
    for _ in 0..HARVEST_TIME - 1 {
        c.update(&mut map);
    }
    assert!(map.harvestable.is_empty());
    c.update(&mut map);
    assert_eq!(map.harvestable, vec![(0, 0)]);
}

#[test]
fn dry_tick_breaks_the_watering_run() {
    let mut map = grid(3, 1, &[0, 2, 0]);
    let mut c = Carrot::new(1, 0);
    for _ in 0..5 {
        c.interact(Tiles::Water);
        c.update(&mut map);
    }
    assert_eq!(c.turns_watered, 5);
    c.update(&mut map);
    assert_eq!(c.turns_watered, 0);
    c.interact(Tiles::Water);
    c.update(&mut map);
    assert_eq!(c.turns_watered, 1);
    assert!(map.map_updates.is_empty());
}

#[test]
fn damage_breaks_the_watering_run() {
    let mut map = grid(3, 1, &[0, 2, 0]);
    let mut c = Carrot::new(1, 0);
    for _ in 0..6 {
        c.interact(Tiles::Water);
    }
    c.interact(Tiles::Root);
    c.update(&mut map);
    assert_eq!(c.turns_watered, 0);
    assert!(map.map_updates.is_empty());
}

#[test]
fn carrot_dies_to_grass_and_bush() {
    let mut c = Carrot::new(0, 0);
    c.interact(Tiles::Grass);
    assert_eq!(c.hp, 0);
    let mut d = Carrot::new(0, 0);
    d.interact(Tiles::Bush);
    assert_eq!(d.hp, 0);
}

#[test]
fn watered_carrot_spreads() {
    let mut map = grid(3, 1, &[0, 2, 0]);
    let mut c = Carrot::new(1, 0);
    for _ in 0..6 {
        c.interact(Tiles::Water);
    }
    assert_eq!(c.turns_watered, 6);
    c.update(&mut map);
    assert_eq!(c.turns_watered, 0);
    let targets: Vec<(usize, usize)> = map.map_updates.iter().map(|q| (q.x, q.y)).collect();
    assert_eq!(targets, vec![(2, 0), (0, 0)]);
}

#[test]
fn goat_last_charge_then_sleep() {
    let mut map = grid(3, 1, &[0, 1, 0]);
    let mut g = Goat { x: 0, y: 0, charges: 1, sleep: 0, frozen: false };
    g.update(&mut map);
    assert_eq!(
        map.map_updates,
        vec![Choice { i: 1, x: 1, y: 0, src: Tiles::Goat, dst: Tiles::Grass }]
    );
    assert_eq!(g.charges, 0);
    assert_eq!(g.sleep, MAX_CHARGE * SLEEP_DURATION);
    for k in 1..=MAX_CHARGE * SLEEP_DURATION {
        g.update(&mut map);
        assert_eq!(g.charges, k / SLEEP_DURATION);
        assert_eq!(g.sleep, MAX_CHARGE * SLEEP_DURATION - k);
    }
    assert_eq!(map.map_updates.len(), 1);
    assert_eq!(g.charges, MAX_CHARGE);
    g.update(&mut map);
    assert_eq!(map.map_updates.len(), 2);
    assert_eq!(g.charges, MAX_CHARGE - 1);
}

#[test]
fn goat_spends_one_charge_for_several_bites() {
    let mut map = grid(3, 1, &[1, 0, 2]);
    let mut g = Goat::new(1, 0);
    g.update(&mut map);
    assert_eq!(map.map_updates.len(), 2);
    assert_eq!(g.charges, MAX_CHARGE - 1);
    let mut empty = grid(1, 1, &[0]);
    let mut h = Goat::new(0, 0);
    h.update(&mut empty);
    assert_eq!(h.charges, MAX_CHARGE);
}

#[test]
fn water_targets_only_carrots() {
    let mut map = grid(3, 2, &[2, 0, 1, 0, 2, 3]);
    let mut w = Water::new(1, 0);
    w.update(&mut map);
    let targets: Vec<(usize, usize)> = map.map_updates.iter().map(|q| (q.x, q.y)).collect();
    assert_eq!(targets, vec![(1, 1), (0, 0)]);
    assert!(map.map_updates.iter().all(|q| q.src == Tiles::Water && q.dst == Tiles::Water));
    w.interact(Tiles::Ice);
    w.update(&mut map);
    assert_eq!(map.map_updates.len(), 2);
}

#[test]
fn ice_asks_every_neighbour_on_board() {
    let mut map = grid(3, 3, &[0, 0, 0, 0, 0, 3, 0, 0, 0]);
    let mut ice = Ice::new(1, 1);
    ice.update(&mut map);
    assert_eq!(map.map_updates.len(), 7);
    let mut corner = grid(2, 2, &[0; 4]);
    let mut ice2 = Ice::new(0, 0);
    ice2.update(&mut corner);
    assert_eq!(corner.map_updates.len(), 3);
}

#[test]
fn bush_spreads_diagonally_every_eight_ticks() {
    let mut map = grid(3, 3, &[0; 9]);
    let mut b = Bush::new(1, 1);
    for _ in 0..7 {
        b.update(&mut map);
    }
    assert!(map.map_updates.is_empty());
    b.update(&mut map);
    let targets: Vec<(usize, usize)> = map.map_updates.iter().map(|q| (q.x, q.y)).collect();
    assert_eq!(targets, vec![(0, 0), (2, 2)]);
    b.interact(Tiles::Grass);
    assert!(b.removed);
}
