//! Tests for the menu types and the menu item line parser.

use gtypist_rs::menu::parse_menu_item_line;
use gtypist_rs::Menu;

#[test]
fn test_parse_menu_item() {
    let line = " :DEMO_0  \"B:         (banner)\"";
    let item = parse_menu_item_line(line).unwrap();
    assert_eq!(item.label, "DEMO_0");
    assert_eq!(item.title, "B:         (banner)");
}

#[test]
fn test_parse_menu_item_invalid() {
    assert!(parse_menu_item_line("").is_none());
    assert!(parse_menu_item_line("not a menu item").is_none());
    assert!(parse_menu_item_line(":LABEL_NO_DESCRIPTION").is_none());
}

#[test]
fn test_menu_creation() {
    let mut menu = Menu::new("Test Menu".to_string());
    menu.add_item("ITEM1".to_string(), "First Item".to_string());
    menu.add_item("ITEM2".to_string(), "Second Item".to_string());

    assert_eq!(menu.title, "Test Menu");
    assert_eq!(menu.items.len(), 2);
    assert_eq!(menu.items[0].label, "ITEM1");
    assert_eq!(menu.items[1].title, "Second Item");
}

#[test]
fn test_parse_menu_item_trailing_quotes() {
    // Everything after the first quote belongs to the title, with all
    // trailing quotes shed.
    let item = parse_menu_item_line(" :L \"a \"b\"\"").unwrap();
    assert_eq!(item.label, "L");
    assert_eq!(item.title, "a \"b");

    // An empty label is rejected.
    assert!(parse_menu_item_line(" : \"desc\"").is_none());
}
