use oled_ui::input_tree::get_group;
use oled_ui::menu::PAGE_SIZE;
use oled_ui::text::{split_words, wrap_words};
use oled_ui::{
    AnyView, ButtonSet, DirItem, Direction, DrawCmd, DynamicView, EmptyView, FileView, FuncView, Group,
    InputTree, MenuView, ReturnStateEnum, TextInputMode, TextInputView, TextView,
};

fn press(f: fn(&mut ButtonSet)) -> ButtonSet {
    let mut b = ButtonSet::idle();
    f(&mut b);
    b
}

fn down() -> ButtonSet {
    press(|b| b.down.pressed = true)
}

fn up() -> ButtonSet {
    press(|b| b.up.pressed = true)
}

fn left() -> ButtonSet {
    press(|b| b.left.pressed = true)
}

fn right() -> ButtonSet {
    press(|b| b.right.pressed = true)
}

fn a() -> ButtonSet {
    press(|b| b.a.pressed = true)
}

fn b() -> ButtonSet {
    press(|b| b.b.pressed = true)
}

fn c() -> ButtonSet {
    press(|b| b.c.pressed = true)
}

fn menu_of(n: usize) -> MenuView {
    let mut m = MenuView::new();
    for i in 0..n {
        m.add_entry((format!("entry {}", i), AnyView::Empty(EmptyView::new())));
    }
    m
}

fn text(v: &[char]) -> String {
    v.iter().collect()
}

#[test]
fn menu_window_slides_by_overshoot() {
    let mut m = menu_of(6);
    for _ in 0..4 {
        m.handle_buttons(&down());
    }
    assert_eq!(m.selected, 4);
    assert_eq!(m.first_visible_item, 1);
    m.handle_buttons(&down());
    assert_eq!(m.selected, 5);
    assert_eq!(m.first_visible_item, 2);
    m.handle_buttons(&down());
    assert_eq!(m.selected, 0);
    assert_eq!(m.first_visible_item, 0);
}

#[test]
fn menu_prev_wraps_to_last_page() {
    let mut m = menu_of(6);
    m.prev_entry();
    assert_eq!(m.selected, 5);
    assert_eq!(m.first_visible_item, 2);
    m.next_entry();
    assert_eq!(m.selected, 0);
    assert_eq!(m.first_visible_item, 0);
}

#[test]
fn menu_prev_wraps_on_short_menu() {
    let mut m = menu_of(2);
    m.prev_entry();
    assert_eq!(m.selected, 1);
    assert_eq!(m.first_visible_item, 0);
}

#[test]
fn menu_next_prev_inverse() {
    let mut m = menu_of(7);
    for start in 0..7 {
        m.first_entry();
        for _ in 0..start {
            m.next_entry();
        }
        m.next_entry();
        m.prev_entry();
        assert_eq!(m.selected, start);
        m.prev_entry();
        m.next_entry();
        assert_eq!(m.selected, start);
    }
}

#[test]
fn menu_first_last_jump() {
    let mut m = menu_of(9);
    m.handle_buttons(&right());
    assert_eq!(m.selected, 8);
    assert_eq!(m.first_visible_item, 5);
    m.handle_buttons(&left());
    assert_eq!(m.selected, 0);
    assert_eq!(m.first_visible_item, 0);
}

#[test]
fn menu_window_invariant_over_many_steps() {
    let mut m = menu_of(10);
    let steps = [down(), down(), up(), right(), up(), up(), up(), up(), up(), left(), up(), down()];
    for s in steps.iter().cycle().take(60) {
        m.handle_buttons(s);
        assert!(m.first_visible_item <= m.selected);
        assert!(m.selected < m.first_visible_item + PAGE_SIZE);
        assert!(m.selected < 10);
    }
}

#[test]
fn empty_menu_is_no_op() {
    let mut m = MenuView::new();
    for s in [down(), up(), left(), right(), a()].iter() {
        assert!(m.handle_buttons(s).is_none());
    }
    assert_eq!(m.selected, 0);
    assert!(!m.active);
    assert!(matches!(m.handle_buttons(&b()), Some(ReturnStateEnum::Pop)));
}

#[test]
fn menu_opens_child_and_child_pop_closes_it() {
    let mut m = MenuView::new();
    m.add_entry((String::from("Text"), AnyView::Text(TextView::new("hello"))));
    assert!(m.handle_buttons(&a()).is_none());
    assert!(m.active);
    assert!(m.handle_buttons(&b()).is_none());
    assert!(!m.active);
}

#[test]
fn menu_render_rows_and_arrow() {
    let mut m = menu_of(6);
    m.set_name("Main");
    m.next_entry();
    let cmds = m.render();
    assert_eq!(cmds.len(), 3 * 4 + 2);
    assert_eq!(cmds[3], DrawCmd::Rect { x0: 0, y0: 13, x1: 127, y1: 26, fill: Some(true) });
    assert_eq!(cmds[0], DrawCmd::Rect { x0: 0, y0: 0, x1: 127, y1: 13, fill: Some(false) });
    match &cmds[4] {
        DrawCmd::Text { text: t, x, y, stroke, fill } => {
            assert_eq!(text(t), "entry 1");
            assert_eq!((*x, *y, *stroke, *fill), (3, 16, Some(false), Some(true)));
        }
        _ => panic!("expected text"),
    }
    match &cmds[12] {
        DrawCmd::Text { text: t, .. } => assert_eq!(text(t), "Main"),
        _ => panic!("expected name"),
    }
    assert_eq!(cmds[13], DrawCmd::ArrowDown { x: 120, y: 55 });
}

#[test]
fn menu_render_clips_long_label() {
    let mut m = MenuView::new();
    m.add_entry((String::from("abcdefghijklmnopqrstuvwxyz"), AnyView::Empty(EmptyView::new())));
    let cmds = m.render();
    assert_eq!(cmds.len(), 3);
    match &cmds[1] {
        DrawCmd::Text { text: t, .. } => assert_eq!(text(t), "abcdefghijklmnopqrst"),
        _ => panic!("expected text"),
    }
    assert_eq!(m.entries[0].0, "abcdefghijklmnopqrstuvwxyz");
}

#[test]
fn input_tree_transitions() {
    assert_eq!(get_group(Group::Root, Direction::Up), Group::Letters);
    assert_eq!(get_group(Group::Root, Direction::Right), Group::Digits);
    assert_eq!(get_group(Group::Letters, Direction::Up), Group::LettersAM);
    assert_eq!(get_group(Group::LettersAM, Direction::Left), Group::Leaf('A'));
    assert_eq!(get_group(Group::LettersAM, Direction::Down), Group::Jklm);
    assert_eq!(get_group(Group::Bcde, Direction::Left), Group::Leaf('B'));
    assert_eq!(get_group(Group::Jklm, Direction::Right), Group::Leaf('M'));
    assert_eq!(get_group(Group::LettersNZ, Direction::Left), Group::Leaf('N'));
    assert_eq!(get_group(Group::Wxyz, Direction::Right), Group::Leaf('Z'));
    assert_eq!(get_group(Group::Letters, Direction::Left), Group::Root);
    assert_eq!(get_group(Group::Leaf('A'), Direction::Up), Group::Root);
    assert_eq!(get_group(Group::Slashes, Direction::Down), Group::Leaf('\\'));
    assert_eq!(get_group(Group::Digits, Direction::Down), Group::Leaf('8'));
}

#[test]
fn input_tree_is_deterministic() {
    for g in [Group::Root, Group::Letters, Group::Punct, Group::Quotes, Group::Leaf('x')] {
        for d in [Direction::Up, Direction::Down, Direction::Left, Direction::Right] {
            assert_eq!(get_group(g, d), get_group(g, d));
        }
    }
}

#[test]
fn input_tree_emits_leaf_and_blank() {
    let mut t = InputTree::new();
    assert!(t.handle_buttons(&up()).is_none());
    match t.handle_buttons(&left()) {
        Some(ReturnStateEnum::Text(s)) => assert_eq!(s, " "),
        _ => panic!("expected a blank"),
    }
    t.reset();
    t.handle_buttons(&right());
    match t.handle_buttons(&down()) {
        Some(ReturnStateEnum::Text(s)) => assert_eq!(s, "8"),
        _ => panic!("expected a digit"),
    }
    assert!(matches!(t.handle_buttons(&b()), Some(ReturnStateEnum::Pop)));
}

#[test]
fn input_tree_render_candidates() {
    let t = InputTree::new();
    let cmds = t.render();
    assert_eq!(cmds.len(), 8);
    match &cmds[0] {
        DrawCmd::Text { text: s, x, y, .. } => {
            assert_eq!(text(s), "A..Z");
            assert_eq!((*x, *y), (52, 8));
        }
        _ => panic!("expected text"),
    }
    assert_eq!(cmds[1], DrawCmd::Line { x0: 63, y0: 23, x1: 63, y1: 19 });
}

#[test]
fn text_input_enters_letter() {
    let mut v = TextInputView::new();
    assert_eq!(text(&v.text), " ");
    v.handle_buttons(&a());
    assert_eq!(v.mode, TextInputMode::Entering);
    v.handle_buttons(&up());
    assert_eq!(v.input_tree.group, Group::Letters);
    v.handle_buttons(&up());
    assert_eq!(v.input_tree.group, Group::LettersAM);
    assert!(v.handle_buttons(&left()).is_none());
    assert_eq!(text(&v.text), "A ");
    assert_eq!(v.mode, TextInputMode::Viewing);
    assert_eq!(v.selected_char, 0);
}

#[test]
fn text_input_caps_toggle_gives_lower_case() {
    let mut v = TextInputView::new();
    v.handle_buttons(&a());
    v.handle_buttons(&c());
    v.handle_buttons(&up());
    v.handle_buttons(&up());
    v.handle_buttons(&up());
    assert_eq!(v.input_tree.group, Group::Bcde);
    assert_eq!(v.mode, TextInputMode::Entering);
    v.handle_buttons(&left());
    assert_eq!(text(&v.text), "b ");
    assert_eq!(v.mode, TextInputMode::Viewing);
}

#[test]
fn text_input_cursor_grows_buffer() {
    let mut v = TextInputView::new();
    v.handle_buttons(&right());
    assert_eq!(v.selected_char, 1);
    assert_eq!(text(&v.text), "  ");
    v.handle_buttons(&left());
    v.handle_buttons(&left());
    assert_eq!(v.selected_char, 0);
    assert!(matches!(v.handle_buttons(&b()), Some(ReturnStateEnum::Pop)));
}

#[test]
fn text_input_pop_keeps_buffer() {
    let mut v = TextInputView::new();
    v.handle_buttons(&a());
    v.handle_buttons(&up());
    assert!(v.handle_buttons(&b()).is_none());
    assert_eq!(v.mode, TextInputMode::Viewing);
    assert_eq!(text(&v.text), " ");
}

#[test]
fn text_input_replaces_under_cursor() {
    let mut v = TextInputView::new();
    v.handle_buttons(&right());
    v.handle_buttons(&a());
    v.handle_buttons(&right());
    v.handle_buttons(&up());
    v.handle_buttons(&down());
    assert_eq!(text(&v.text), " 1 ");
    assert_eq!(v.mode, TextInputMode::Viewing);
    assert_eq!(v.selected_char, 1);
    v.handle_buttons(&right());
    assert_eq!(text(&v.text), " 1 ");
    v.handle_buttons(&right());
    assert_eq!(text(&v.text), " 1  ");
    assert_eq!(v.selected_char, 3);
}

#[test]
fn text_input_render_cursor() {
    let v = TextInputView::new();
    let cmds = v.render();
    assert_eq!(cmds.len(), 3);
    assert_eq!(cmds[0], DrawCmd::Rect { x0: 0, y0: 50, x1: 127, y1: 63, fill: None });
    assert_eq!(cmds[2], DrawCmd::Line { x0: 2, y0: 61, x1: 8, y1: 61 });
}

#[test]
fn text_input_render_every_cell() {
    let mut v = TextInputView::new();
    for _ in 0..29 {
        v.handle_buttons(&right());
    }
    assert_eq!(v.text.len(), 30);
    assert_eq!(v.selected_char, 29);
    let cmds = v.render_text();
    assert_eq!(cmds.len(), 32);
    match &cmds[30] {
        DrawCmd::Text { text: t, x, y, .. } => {
            assert_eq!(text(t), " ");
            assert_eq!((*x, *y), (3 + 6 * 29, 53));
        }
        _ => panic!("expected the last cell"),
    }
    assert_eq!(cmds[31], DrawCmd::Line { x0: 2 + 6 * 29, y0: 61, x1: 8 + 6 * 29, y1: 61 });
}

#[test]
fn text_wraps_greedily() {
    let v = TextView::new("the quick brown fox jumps over the lazy dog");
    assert_eq!(v.get_lines(), vec!["the quick brown fox", "jumps over the lazy", "dog"]);
    assert_eq!(v.get_lines(), v.get_lines());
}

#[test]
fn text_long_word_unsplit() {
    let v = TextView::new("abcdefghijklmnopqrstuvwxyz tail");
    assert_eq!(v.get_lines(), vec!["abcdefghijklmnopqrstuvwxyz", "tail"]);
}

#[test]
fn text_line_width_bound() {
    let v = TextView::new("aaaaaaaaaa bbbbbbbbb cc dd\tee\nff");
    assert_eq!(v.get_lines(), vec!["aaaaaaaaaa bbbbbbbbb", "cc dd ee ff"]);
    let w = TextView::new("xxxxxxxxxxxxxxxxxxxxxxxxx aaaaaaaaaa bbbbbbbbb c");
    let lines = w.get_lines();
    assert_eq!(lines, vec!["xxxxxxxxxxxxxxxxxxxxxxxxx", "aaaaaaaaaa bbbbbbbbb", "c"]);
    for l in lines.iter().skip(1) {
        assert!(l.chars().count() <= 20);
    }
}

#[test]
fn text_empty_has_one_empty_line() {
    let v = TextView::new("");
    assert_eq!(v.get_lines(), vec![""]);
    assert_eq!(v.get_max_offset(), 0);
}

#[test]
fn text_max_offset_formula() {
    let words: Vec<String> = (0..10).map(|i| format!("line{:016}", i)).collect();
    let v = TextView::new(&words.join(" "));
    assert_eq!(v.get_lines().len(), 10);
    assert_eq!(v.get_max_offset(), 10 * 9 + 1 - 60);
}

#[test]
fn text_scroll_stays_in_range() {
    let words: Vec<String> = (0..10).map(|i| format!("line{:016}", i)).collect();
    let mut v = TextView::new(&words.join(" "));
    let max = v.get_max_offset();
    v.handle_buttons(&down());
    assert_eq!(v.offset, 7);
    let mut held = down();
    held.down.hold = true;
    v.handle_buttons(&held);
    assert_eq!(v.offset, 11);
    for _ in 0..20 {
        v.handle_buttons(&down());
        assert!(v.offset <= max);
    }
    assert_eq!(v.offset, max);
    v.handle_buttons(&up());
    assert_eq!(v.offset, max - 7);
    v.handle_buttons(&left());
    assert_eq!(v.offset, 0);
    v.handle_buttons(&up());
    assert_eq!(v.offset, 0);
    v.handle_buttons(&right());
    assert_eq!(v.offset, max);
    assert!(matches!(v.handle_buttons(&b()), Some(ReturnStateEnum::Pop)));
}

#[test]
fn text_scroll_short_text_stays_zero() {
    let mut v = TextView::new("short");
    v.handle_buttons(&down());
    assert_eq!(v.offset, 0);
    v.handle_buttons(&right());
    assert_eq!(v.offset, 0);
}

#[test]
fn text_render_visible_lines() {
    let v = TextView::new("one two");
    let cmds = v.render();
    assert_eq!(cmds.len(), 2);
    match &cmds[0] {
        DrawCmd::Text { text: t, x, y, .. } => {
            assert_eq!(text(t), "one two");
            assert_eq!((*x, *y), (3, 3));
        }
        _ => panic!("expected text"),
    }
    assert_eq!(cmds[1], DrawCmd::Rect { x0: 0, y0: 0, x1: 127, y1: 63, fill: None });
}

#[test]
fn split_and_wrap_words() {
    let chars: Vec<char> = "  a  bb\n ccc ".chars().collect();
    let ws = split_words(&chars);
    assert_eq!(ws, vec![vec!['a'], vec!['b', 'b'], vec!['c', 'c', 'c']]);
    let ls = wrap_words(&ws);
    assert_eq!(ls, vec!["a bb ccc".chars().collect::<Vec<char>>()]);
}

#[test]
fn file_view_activation_lists_directory() {
    let mut root = MenuView::new();
    root.add_entry((String::from("Files"), AnyView::File(FileView::new("/home/pi"))));
    match root.handle_buttons(&a()) {
        Some(ReturnStateEnum::ListDir(p)) => assert_eq!(p, "/home/pi"),
        _ => panic!("expected a listing request"),
    }
    let listing = vec![
        DirItem { name: String::from("docs"), is_dir: true },
        DirItem { name: String::from("readme.txt"), is_dir: false },
    ];
    let mut view = AnyView::Menu(root);
    assert!(view.supply_listing(Ok(listing)));
    let root = match view {
        AnyView::Menu(m) => m,
        _ => panic!("expected the menu"),
    };
    let fv = match &root.entries[0].1 {
        AnyView::File(f) => f,
        _ => panic!("expected the file view"),
    };
    assert_eq!(fv.menu.name.as_deref(), Some("pi"));
    assert_eq!(fv.menu.entries.len(), 2);
    assert_eq!(fv.menu.entries[0].0, "docs");
    match &fv.menu.entries[0].1 {
        AnyView::File(d) => assert_eq!(text(&d.path), "/home/pi/docs"),
        _ => panic!("expected a directory"),
    }
    assert_eq!(fv.menu.entries[1].0, "readme.txt");
    match &fv.menu.entries[1].1 {
        AnyView::Text(t) => assert_eq!(text(&t.text), "readme.txt"),
        _ => panic!("expected a text view"),
    }
}

#[test]
fn file_view_unreadable_directory() {
    let mut f = FileView::new("/root/");
    f.fill(Err(String::from("permission denied")));
    assert_eq!(f.menu.entries.len(), 1);
    assert_eq!(f.menu.entries[0].0, "permission denied");
    assert_eq!(f.get_name(), "root");
}

#[test]
fn file_view_names() {
    assert_eq!(FileView::new("/home/pi").get_name(), "pi");
    assert_eq!(FileView::new("music").get_name(), "music");
    assert_eq!(FileView::new("/").get_name(), "");
}

#[test]
fn func_view_runs_action_then_pops() {
    let mut m = MenuView::new();
    m.add_entry((String::from("Reboot"), AnyView::Func(FuncView::new(7))));
    assert!(matches!(m.handle_buttons(&a()), Some(ReturnStateEnum::Run(7))));
    assert!(m.active);
    assert!(m.handle_buttons(&ButtonSet::idle()).is_none());
    assert!(!m.active);
}

#[test]
fn empty_and_dynamic_views_do_nothing() {
    let mut e = AnyView::Empty(EmptyView::new());
    assert!(e.handle_buttons(&a()).is_none());
    assert!(e.render().is_empty());
    let mut d = AnyView::Dynamic(DynamicView {});
    assert!(d.handle_buttons(&b()).is_none());
    assert!(d.render().is_empty());
}

#[test]
fn nested_menu_text_signal_stops() {
    let mut inner = MenuView::new();
    inner.add_entry((String::from("Input"), AnyView::TextInput(TextInputView::new())));
    let mut m = MenuView::new();
    m.add_entry((String::from("Sub"), AnyView::Menu(inner)));
    m.handle_buttons(&a());
    m.handle_buttons(&a());
    m.handle_buttons(&a());
    m.handle_buttons(&right());
    assert!(m.handle_buttons(&down()).is_none());
    m.handle_buttons(&b());
    assert!(m.active);
    m.handle_buttons(&b());
    assert!(!m.active);
}

#[test]
fn wrapped_lines_keep_words() {
    let src = "Did you ever hear the tragedy of Darth Plagueis The Wise? I thought\n not.";
    let v = TextView::new(src);
    let rejoined: Vec<String> = v
        .get_lines()
        .iter()
        .flat_map(|l| l.split_ascii_whitespace().map(|w| w.to_string()).collect::<Vec<_>>())
        .collect();
    let expected: Vec<String> = src.split_ascii_whitespace().map(|w| w.to_string()).collect();
    assert_eq!(rejoined, expected);
    for l in v.get_lines() {
        assert!(l.chars().count() <= 20);
    }
}
