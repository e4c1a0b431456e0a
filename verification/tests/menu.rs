use metgen::menu::{menu_step, MenuKey, MenuStep};
use metgen::record::Units;

#[test]
fn arrows_move_the_mark_by_one() {
    assert_eq!(menu_step(1, 3, MenuKey::Up), MenuStep::Marked(0));
    assert_eq!(menu_step(1, 3, MenuKey::Down), MenuStep::Marked(2));
}

#[test]
fn arrows_stop_at_the_ends_of_the_list() {
    assert_eq!(menu_step(0, 3, MenuKey::Up), MenuStep::Marked(0));
    assert_eq!(menu_step(2, 3, MenuKey::Down), MenuStep::Marked(2));
    assert_eq!(menu_step(0, 1, MenuKey::Up), MenuStep::Marked(0));
    assert_eq!(menu_step(0, 1, MenuKey::Down), MenuStep::Marked(0));
    assert_eq!(
        menu_step(usize::MAX - 1, usize::MAX, MenuKey::Down),
        MenuStep::Marked(usize::MAX - 1)
    );
}

#[test]
fn enter_takes_the_marked_choice() {
    assert_eq!(menu_step(0, 3, MenuKey::Enter), MenuStep::Chosen(0));
    assert_eq!(menu_step(2, 3, MenuKey::Enter), MenuStep::Chosen(2));
}

#[test]
fn escape_leaves_the_list() {
    assert_eq!(menu_step(1, 3, MenuKey::Escape), MenuStep::Cancelled);
}

#[test]
fn other_keys_change_nothing() {
    assert_eq!(menu_step(1, 3, MenuKey::Other), MenuStep::Marked(1));
}

#[test]
fn units_are_read_from_their_names() {
    assert_eq!(Units::from_name("imperial"), Units::Imperial);
    assert_eq!(Units::from_name("metric"), Units::Metric);
    assert_eq!(Units::from_name(""), Units::Metric);
    assert_eq!(Units::from_name("Imperial"), Units::Metric);
    assert_eq!(Units::from_name("imperial "), Units::Metric);
    assert_eq!(Units::from_name("imperia"), Units::Metric);
    assert_eq!(Units::from_name("kelvin"), Units::Metric);
}

#[test]
fn units_names_are_read_back() {
    assert_eq!(Units::Metric.name(), "metric");
    assert_eq!(Units::Imperial.name(), "imperial");
    for units in [Units::Metric, Units::Imperial] {
        assert_eq!(Units::from_name(units.name()), units);
    }
}
