use scribe::menus::{select_from, Key, Menu, Step};

#[test]
fn down_down_up_enter_selects_second() {
    let items = vec!["a", "b", "c"];
    let keys = vec![Key::Down, Key::Down, Key::Up, Key::Char('\n')];
    assert_eq!(select_from(&items, &keys), Some(1));
}

#[test]
fn escape_cancels() {
    for n in 1..5 {
        let items: Vec<u32> = (0..n).collect();
        assert_eq!(select_from(&items, &vec![Key::Esc]), None);
        assert_eq!(select_from(&items, &vec![Key::Esc, Key::Char('\n')]), None);
    }
}

#[test]
fn other_cancel_keys() {
    let items = vec![1, 2];
    for k in [Key::Char('q'), Key::Char('n'), Key::Ctrl('c')] {
        assert_eq!(select_from(&items, &vec![Key::Down, k, Key::Char('\n')]), None);
    }
}

#[test]
fn empty_list_selects_nothing() {
    let items: Vec<String> = Vec::new();
    assert_eq!(select_from(&items, &vec![Key::Char('\n')]), None);
    assert!(Menu::new(0).is_none());
}

#[test]
fn highlight_stays_within_list() {
    let items = vec![1, 2, 3];
    let keys = vec![Key::Up, Key::Up, Key::Char('\n')];
    assert_eq!(select_from(&items, &keys), Some(0));
    let keys = vec![Key::Down, Key::Down, Key::Down, Key::Down, Key::Char('\n')];
    assert_eq!(select_from(&items, &keys), Some(2));
    let keys = vec![Key::Down, Key::Other, Key::Char('x'), Key::Char('\n')];
    assert_eq!(select_from(&items, &keys), Some(1));
}

#[test]
fn keys_running_out_select_nothing() {
    let items = vec![1, 2, 3];
    assert_eq!(select_from(&items, &vec![Key::Down]), None);
    assert_eq!(select_from(&items, &Vec::new()), None);
}

#[test]
fn single_steps() {
    let mut menu = Menu::new(2).unwrap();
    assert_eq!(menu.len(), 2);
    assert_eq!(menu.step(Key::Down), Step::Continue);
    assert_eq!(menu.current(), 1);
    assert_eq!(menu.step(Key::Down), Step::Continue);
    assert_eq!(menu.current(), 1);
    assert_eq!(menu.step(Key::Char('\n')), Step::Selected(1));
    assert_eq!(menu.step(Key::Esc), Step::Cancelled);
}

#[test]
fn drawn_lines_mark_highlight() {
    let mut menu = Menu::new(3).unwrap();
    menu.step(Key::Down);
    let items = vec!["sda".to_string(), "sdb".to_string(), "sdc".to_string()];
    assert_eq!(menu.lines(&items), vec!["  sda", "> sdb", "  sdc"]);
}
