use bunny_patch::shop::{buy, price, refund};
use bunny_patch::ui::START_MONEY;
use bunny_patch::{Tiles, Ui};

#[test]
fn ledger_starts_with_ten_and_empty_hand() {
    let ui = Ui::new();
    assert_eq!(ui.get_money(), START_MONEY);
    assert_eq!(START_MONEY, 10);
    assert_eq!(ui.get_tile(), Tiles::Void);
}

#[test]
fn ledger_money_saturates() {
    let mut ui = Ui::new();
    ui.inc_money();
    assert_eq!(ui.get_money(), 11);
    ui.set_money(usize::MAX - 1);
    ui.credit(5);
    assert_eq!(ui.get_money(), usize::MAX);
    ui.inc_money();
    assert_eq!(ui.get_money(), usize::MAX);
}

#[test]
fn pop_tile_empties_hand() {
    let mut ui = Ui::new();
    ui.set_tile(Tiles::Bush);
    assert_eq!(ui.pop_tile(), Tiles::Bush);
    assert_eq!(ui.get_tile(), Tiles::Void);
    assert_eq!(ui.pop_tile(), Tiles::Void);
}

#[test]
fn digits_most_significant_first() {
    assert_eq!(Ui::get_nums(0), vec![0]);
    assert_eq!(Ui::get_nums(7), vec![7]);
    assert_eq!(Ui::get_nums(10), vec![1, 0]);
    assert_eq!(Ui::get_nums(1234), vec![1, 2, 3, 4]);
    assert_eq!(
        Ui::get_nums(usize::MAX),
        usize::MAX.to_string().bytes().map(|b| (b - b'0') as usize).collect::<Vec<usize>>()
    );
}

#[test]
fn shop_prices() {
    assert_eq!(price(Tiles::Goat), Some(20));
    assert_eq!(price(Tiles::Bush), Some(40));
    assert_eq!(price(Tiles::Water), Some(120));
    assert_eq!(price(Tiles::Ice), Some(70));
    assert_eq!(price(Tiles::Key), Some(1000));
    assert_eq!(price(Tiles::Grass), None);
}

#[test]
fn buying_pays_and_hands_over_the_tile() {
    let mut ui = Ui::new();
    ui.set_money(25);
    assert!(buy(&mut ui, Tiles::Goat));
    assert_eq!(ui.get_money(), 5);
    assert_eq!(ui.get_tile(), Tiles::Goat);
    assert!(!buy(&mut ui, Tiles::Goat));
    assert_eq!(ui.get_money(), 5);
    assert!(!buy(&mut ui, Tiles::Carrot));
    assert_eq!(ui.get_tile(), Tiles::Goat);
}

#[test]
fn refund_returns_held_tile_price() {
    let mut ui = Ui::new();
    ui.set_tile(Tiles::Ice);
    refund(&mut ui);
    assert_eq!(ui.get_money(), 80);
    assert_eq!(ui.get_tile(), Tiles::Void);
    refund(&mut ui);
    assert_eq!(ui.get_money(), 80);
}

