use bunny_patch::board::{STEPS_PER_TURN, TURN_MS};
use bunny_patch::{Board, Entity, Tiles, TurnInput, Ui};

fn board_from(w: usize, h: usize, ids: &[u32]) -> Board {
    let mut b = Board::new();
    b.load_map(w, h, Some(&ids.to_vec())).unwrap();
    b
}

fn place(b: &mut Board, ui: &mut Ui, x: i64, y: i64, t: Tiles) {
    b.set_cursor(x, y);
    ui.set_tile(t);
    b.place_tile(ui);
}

fn idle() -> TurnInput {
    TurnInput { elapsed_ms: 0, skip: false, ui_clicked: false, cursor: (-1, -1), place: false }
}

#[test]
fn load_map_gives_each_cell_its_entity() {
    let b = board_from(2, 2, &[0, 1, 2, 3]);
    let kinds: Vec<Tiles> = b.obj_map.iter().map(|e| e.tile()).collect();
    assert_eq!(kinds, vec![Tiles::Grass, Tiles::Root, Tiles::Carrot, Tiles::Void]);
    assert_eq!(b.board.map, kinds);
}

#[test]
fn root_spreads_to_orthogonal_grass_when_mature() {
    let mut b = board_from(3, 3, &[0, 0, 0, 0, 1, 0, 0, 0, 0]);
    let mut ui = Ui::new();
    for _ in 0..7 {
        b.step(&mut ui);
    }
    assert_eq!(b.board.map.iter().filter(|t| **t == Tiles::Root).count(), 1);
    b.step(&mut ui);
    assert_eq!(
        b.board.map,
        vec![
            Tiles::Grass, Tiles::Root, Tiles::Grass,
            Tiles::Root, Tiles::Root, Tiles::Root,
            Tiles::Grass, Tiles::Root, Tiles::Grass,
        ]
    );
}

#[test]
fn root_at_edge_spreads_without_error() {
    let mut b = board_from(2, 2, &[1, 0, 0, 3]);
    let mut ui = Ui::new();
    for _ in 0..8 {
        b.step(&mut ui);
    }
    assert_eq!(b.board.map, vec![Tiles::Root, Tiles::Root, Tiles::Root, Tiles::Void]);
}

#[test]
fn harvest_credits_one_unit_per_pulse() {
    let mut b = board_from(1, 1, &[2]);
    let mut ui = Ui::new();
    for _ in 0..3 {
        b.step(&mut ui);
    }
    assert_eq!(ui.get_money(), 10);
    b.step(&mut ui);
    assert_eq!(ui.get_money(), 11);
    for _ in 0..3 {
        b.step(&mut ui);
    }
    assert_eq!(ui.get_money(), 11);
    b.step(&mut ui);
    assert_eq!(ui.get_money(), 12);
    assert!(b.board.harvestable.is_empty());
}

#[test]
fn goat_eats_adjacent_root_in_one_tick() {
    let mut b = board_from(3, 1, &[0, 1, 0]);
    let mut ui = Ui::new();
    place(&mut b, &mut ui, 0, 0, Tiles::Goat);
    assert_eq!(b.board.map[0], Tiles::Goat);
    assert_eq!(ui.get_tile(), Tiles::Void);
    b.step(&mut ui);
    assert_eq!(b.board.map, vec![Tiles::Goat, Tiles::Grass, Tiles::Grass]);
}

#[test]
fn freeze_then_eat_leaves_grass() {
    let mut b = board_from(3, 1, &[0, 1, 0]);
    let mut ui = Ui::new();
    place(&mut b, &mut ui, 0, 0, Tiles::Ice);
    place(&mut b, &mut ui, 2, 0, Tiles::Goat);
    b.step(&mut ui);
    assert_eq!(b.board.map[1], Tiles::Grass);
}

#[test]
fn eat_then_freeze_leaves_ice() {
    let mut b = board_from(3, 1, &[0, 1, 0]);
    let mut ui = Ui::new();
    place(&mut b, &mut ui, 0, 0, Tiles::Goat);
    place(&mut b, &mut ui, 2, 0, Tiles::Ice);
    b.step(&mut ui);
    assert_eq!(b.board.map[1], Tiles::Ice);
}

#[test]
fn watering_never_plants_water_on_grass() {
    let mut b = board_from(3, 1, &[0, 2, 0]);
    let mut ui = Ui::new();
    place(&mut b, &mut ui, 0, 0, Tiles::Goat);
    place(&mut b, &mut ui, 2, 0, Tiles::Water);
    b.step(&mut ui);
    assert_eq!(b.board.map, vec![Tiles::Goat, Tiles::Grass, Tiles::Water]);
}

#[test]
fn watered_carrot_clones_itself() {
    let mut b = board_from(2, 2, &[2, 0, 0, 0]);
    let mut ui = Ui::new();
    place(&mut b, &mut ui, 1, 0, Tiles::Water);
    for _ in 0..6 {
        b.step(&mut ui);
    }
    assert_eq!(b.board.map[2], Tiles::Grass);
    b.step(&mut ui);
    assert_eq!(b.board.map[2], Tiles::Carrot);
}

#[test]
fn one_root_cannot_outbite_a_healing_carrot() {
    let mut b = board_from(2, 1, &[1, 2]);
    let mut ui = Ui::new();
    for _ in 0..16 {
        b.step(&mut ui);
        assert_eq!(b.board.map[1], Tiles::Carrot);
    }
}

#[test]
fn two_roots_cannot_outbite_a_healing_carrot() {
    let mut b = board_from(3, 1, &[1, 2, 1]);
    let mut ui = Ui::new();
    for _ in 0..16 {
        b.step(&mut ui);
        assert_eq!(b.board.map[1], Tiles::Carrot);
    }
}

#[test]
fn three_roots_bite_a_carrot_to_death() {
    let mut b = board_from(3, 3, &[0, 1, 0, 1, 2, 1, 0, 0, 0]);
    let mut ui = Ui::new();
    for _ in 0..7 {
        b.step(&mut ui);
    }
    assert_eq!(b.board.map[4], Tiles::Carrot);
    b.step(&mut ui);
    assert_eq!(b.board.map[4], Tiles::Root);
}

#[test]
fn bush_uproots_a_root() {
    let mut b = board_from(2, 2, &[0, 0, 0, 1]);
    let mut ui = Ui::new();
    place(&mut b, &mut ui, 0, 0, Tiles::Bush);
    for _ in 0..8 {
        b.step(&mut ui);
    }
    assert_eq!(b.board.map[3], Tiles::Bush);
}

#[test]
fn lose_when_backlog_drains_without_carrots() {
    let mut b = board_from(2, 1, &[0, 1]);
    let mut ui = Ui::new();
    let end_turn = TurnInput { skip: true, ..idle() };
    b.update(&end_turn, &mut ui);
    assert_eq!(b.turns_to_change, STEPS_PER_TURN);
    assert!(!b.lose);
    b.update(&end_turn, &mut ui);
    assert_eq!(b.turns_to_change, 0);
    assert!(b.lose);
}

#[test]
fn never_lose_while_a_carrot_stands() {
    let mut b = board_from(2, 1, &[0, 2]);
    let mut ui = Ui::new();
    let end_turn = TurnInput { skip: true, ..idle() };
    for _ in 0..4 {
        b.update(&end_turn, &mut ui);
        assert!(!b.lose);
    }
}

#[test]
fn timer_runs_one_tick_per_turn_length() {
    let mut b = board_from(1, 1, &[0]);
    let mut ui = Ui::new();
    b.update(&TurnInput { skip: true, ..idle() }, &mut ui);
    let half = TurnInput { elapsed_ms: TURN_MS / 2 + 50, ..idle() };
    b.update(&half, &mut ui);
    assert_eq!(b.turns_to_change, STEPS_PER_TURN);
    assert_eq!(b.turn_timer, TURN_MS / 2 + 50);
    b.update(&half, &mut ui);
    assert_eq!(b.turns_to_change, STEPS_PER_TURN - 1);
    assert_eq!(b.turn_timer, 0);
    b.update(&TurnInput { elapsed_ms: u64::MAX, ..idle() }, &mut ui);
    assert_eq!(b.turns_to_change, STEPS_PER_TURN - 2);
}

#[test]
fn skip_drains_the_backlog_at_once() {
    let mut b = board_from(1, 1, &[2]);
    let mut ui = Ui::new();
    b.update(&TurnInput { skip: true, ..idle() }, &mut ui);
    b.update(&TurnInput { skip: true, ..idle() }, &mut ui);
    assert_eq!(b.turns_to_change, 0);
    assert_eq!(ui.get_money(), 11);
}

#[test]
fn click_places_held_tile() {
    let mut b = board_from(2, 1, &[0, 3]);
    let mut ui = Ui::new();
    ui.set_tile(Tiles::Goat);
    let click = TurnInput { cursor: (0, 0), place: true, ..idle() };
    b.update(&TurnInput { ui_clicked: true, ..click }, &mut ui);
    assert_eq!(b.board.map[0], Tiles::Grass);
    b.update(&click, &mut ui);
    assert!(b.is_selected);
    assert_eq!(b.selected, (0, 0));
    assert_eq!(b.board.map[0], Tiles::Goat);
    assert_eq!(ui.get_tile(), Tiles::Void);
}

#[test]
fn placement_skips_void() {
    let mut b = board_from(3, 1, &[3, 0, 0]);
    let mut ui = Ui::new();
    place(&mut b, &mut ui, 0, 0, Tiles::Goat);
    assert_eq!(b.board.map[0], Tiles::Void);
    assert_eq!(ui.get_tile(), Tiles::Goat);
}

#[test]
fn placement_on_door_spends_the_tile() {
    let mut b = board_from(2, 1, &[0, 0]);
    let mut ui = Ui::new();
    place(&mut b, &mut ui, 1, 0, Tiles::Door);
    assert_eq!(b.board.map[1], Tiles::Door);
    place(&mut b, &mut ui, 1, 0, Tiles::Ice);
    assert_eq!(b.board.map[1], Tiles::Door);
    assert_eq!(ui.get_tile(), Tiles::Void);
}

#[test]
fn placement_acts_on_live_entities() {
    let mut b = board_from(2, 1, &[1, 2]);
    let mut ui = Ui::new();
    place(&mut b, &mut ui, 0, 0, Tiles::Ice);
    assert_eq!(b.board.map[0], Tiles::Root);
    assert!(matches!(b.obj_map[0], Entity::Root(r) if r.frozen));
    assert_eq!(ui.get_tile(), Tiles::Void);
    place(&mut b, &mut ui, 1, 0, Tiles::Goat);
    assert_eq!(b.board.map[1], Tiles::Carrot);
    assert_eq!(ui.get_tile(), Tiles::Void);
    place(&mut b, &mut ui, 1, 0, Tiles::Bush);
    assert_eq!(b.board.map[1], Tiles::Bush);
    place(&mut b, &mut ui, 0, 0, Tiles::Bush);
    assert_eq!(b.board.map[0], Tiles::Bush);
}

#[test]
fn key_on_door_completes_level() {
    let mut b = board_from(2, 1, &[0, 0]);
    let mut ui = Ui::new();
    place(&mut b, &mut ui, 0, 0, Tiles::Door);
    place(&mut b, &mut ui, 1, 0, Tiles::Key);
    assert!(!b.complete);
    assert_eq!(b.board.map[1], Tiles::Grass);
    place(&mut b, &mut ui, 0, 0, Tiles::Key);
    assert!(b.complete);
    assert_eq!(b.board.map[0], Tiles::Door);
    assert_eq!(ui.get_tile(), Tiles::Key);
}

#[test]
fn cursor_off_board_deselects() {
    let mut b = board_from(2, 2, &[0; 4]);
    b.set_cursor(1, 1);
    assert!(b.is_selected);
    assert_eq!(b.selected, (1, 1));
    b.set_cursor(2, 0);
    assert!(!b.is_selected);
    b.set_cursor(-1, 0);
    assert!(!b.is_selected);
    b.set_cursor(0, 0);
    b.unselect();
    assert!(!b.is_selected);
}

#[test]
fn failed_load_keeps_board() {
    let mut b = board_from(1, 1, &[2]);
    assert!(b.load_map(1, 1, Some(&vec![5])).is_err());
    assert_eq!(b.board.map, vec![Tiles::Carrot]);
    assert_eq!(b.obj_map.len(), 1);
}
