use wandex::coordinates::Coordinates;
use wandex::fail::WError;
use wandex::hbox::HBox;
use wandex::tabview::TabView;
use wandex::term;
use wandex::token::CancelToken;

#[test]
fn cancel_token_flag_transitions() {
    let mut t = CancelToken::new();
    assert!(!t.is_stale());
    t.set_stale();
    assert!(t.is_stale());
    t.set_stale();
    assert!(t.is_stale());
    t.set_fresh();
    assert!(!t.is_stale());
}

#[test]
fn hbox_container_operations() {
    let c = Coordinates::new(100, 20, 1, 1);
    let mut h: HBox<u32> = HBox::new(&c);
    h.push_widget(1);
    h.push_widget(2);
    h.push_widget(3);
    h.prepend_widget(0);
    assert_eq!(h.widgets, vec![0, 1, 2, 3]);
    h.insert_widget(2, 9);
    assert_eq!(h.widgets, vec![0, 1, 9, 2, 3]);
    let removed = h.remove_widget(2);
    assert_eq!(removed, 9);
    let replaced = h.replace_widget(0, 7);
    assert_eq!(replaced, 0);
    assert_eq!(h.widgets, vec![7, 1, 2, 3]);
    let popped = h.pop_widget();
    assert_eq!(popped, Some(3));

    assert!(h.active_widget().is_none());
    h.set_active(1).expect("index in range");
    assert_eq!(h.active_widget(), Some(&1));
    assert!(matches!(h.set_active(9), Err(WError::NoWidgetError)));

    assert!(!h.zoom_active);
    h.toggle_zoom();
    assert!(h.zoom_active);
}

#[test]
fn hbox_equal_ratios() {
    let c = Coordinates::new(100, 20, 1, 1);
    let mut h: HBox<u32> = HBox::new(&c);
    assert!(matches!(h.calculate_equal_ratios(), Err(WError::NoWidgetError)));
    h.push_widget(1);
    h.push_widget(2);
    h.push_widget(3);
    assert_eq!(h.calculate_equal_ratios().unwrap(), vec![33, 33, 33]);
}

#[test]
fn hbox_coordinates_share_the_box() {
    let c = Coordinates::new(100, 20, 1, 1);
    let mut h: HBox<u32> = HBox::new(&c);
    h.push_widget(1);
    h.push_widget(2);
    h.set_ratios(vec![50, 50]);
    let coords = h.calculate_coordinates().expect("two widgets");
    assert_eq!(coords.len(), 2);
    // Each half scales to 50 cells; one cell is given back so the row
    // fits the box with its gap.
    assert_eq!(coords[0].xsize(), 49);
    assert_eq!(coords[1].xsize(), 50);
    assert_eq!(coords[0].position().x(), 1);
    assert_eq!(coords[1].position().x(), 51);
    assert_eq!(coords[0].ysize(), 20);
    assert_eq!(coords[1].position().y(), 1);
}

#[test]
fn hbox_narrow_widgets_stay_ten_wide() {
    let c = Coordinates::new(80, 10, 0, 0);
    let mut h: HBox<u32> = HBox::new(&c);
    h.push_widget(1);
    h.push_widget(2);
    h.set_ratios(vec![1, 99]);
    let coords = h.calculate_coordinates().expect("two widgets");
    // One percent of eighty cells rounds below the minimum width.
    assert_eq!(coords[0].xsize(), 10);
    assert_eq!(coords[1].xsize(), 69);
}

#[test]
fn tabview_navigation() {
    let mut t: TabView<String> = TabView::new();
    t.push_widget("one".to_string()).unwrap();
    t.push_widget("two".to_string()).unwrap();
    t.push_widget("three".to_string()).unwrap();
    assert_eq!(t.active_tab_(), "one");
    t.next_tab_();
    assert_eq!(t.active_tab_(), "two");
    t.next_tab_();
    t.next_tab_();
    assert_eq!(t.active_tab_(), "one");
    t.prev_tab_();
    assert_eq!(t.active_tab_(), "three");
    t.goto_tab_(1).unwrap();
    assert_eq!(t.active_tab_(), "two");
    t.goto_tab_(9).unwrap();
    assert_eq!(t.active_tab_(), "two");
    t.close_tab_().unwrap();
    assert_eq!(t.widgets.len(), 2);
    *t.active_tab_mut_() = "patched".to_string();
    assert_eq!(t.active_tab_(), "patched");
}

#[test]
fn tabview_pop_steps_active_back() {
    let mut t: TabView<u32> = TabView::new();
    t.push_widget(1).unwrap();
    t.push_widget(2).unwrap();
    t.goto_tab_(1).unwrap();
    let popped = t.pop_widget().unwrap();
    assert_eq!(popped, 2);
    assert_eq!(t.active, 0);
}

#[test]
fn decimal_rendering() {
    assert_eq!(term::u64_to_string(0), "0");
    assert_eq!(term::u64_to_string(7), "7");
    assert_eq!(term::u64_to_string(4095), "4095");
    assert_eq!(term::u64_to_string(18446744073709551615), "18446744073709551615");
}

#[test]
fn cursor_escape_sequence() {
    assert_eq!(term::goto_xy(3, 7), "\u{1b}[7;3H");
    assert_eq!(term::goto_xy_u(2, 6), "\u{1b}[7;3H");
}

#[test]
fn padding_and_sizing() {
    assert_eq!(term::pad_right("ab", 5), "ab   ");
    assert_eq!(term::pad_right("abcdef", 3), "abcdef");
    assert_eq!(term::sized_string_u("abcdef", 3), "abc");
    assert_eq!(term::sized_string_u("ab", 4), "ab  ");
    let mut s = String::new();
    term::push_pad_decimal(&mut s, 7, 4);
    assert_eq!(s, "0007");
    let mut w = String::new();
    term::push_pad_decimal(&mut w, 12345, 2);
    assert_eq!(w, "12345");
}

#[test]
fn line_counting() {
    assert_eq!(term::first_line_len("abc\ndef"), 3);
    assert_eq!(term::first_line_len("abc"), 3);
    assert_eq!(term::first_line_len("\nabc"), 0);
    assert_eq!(term::nl_count("a\nb\nc"), 2);
    assert_eq!(term::nl_count(""), 0);
}

#[test]
fn tab_header_lists_the_tabs() {
    let mut t: TabView<u32> = TabView::new();
    t.push_widget(1).unwrap();
    t.push_widget(2).unwrap();
    let names = vec!["home".to_string(), "etc".to_string()];
    let h = t.render_header(&names, 40, "HDR");
    assert_eq!(h, "HDR\u{1b}[37m\u{1b}[1;27H \u{1b}[7m0:home\u{1b}[m\u{1b}[37m 1:etc");
}

#[test]
fn hbox_shrink_takes_from_the_first_widest() {
    let c = Coordinates::new(40, 10, 0, 0);
    let mut h: HBox<u32> = HBox::new(&c);
    h.push_widget(1);
    h.push_widget(2);
    h.set_ratios(vec![50, 50]);
    let coords = h.calculate_coordinates().expect("two widgets");
    // Both halves scale to twenty cells; on a tie, the earlier widget
    // gives up the overflow cell.
    assert_eq!(coords[0].xsize(), 19);
    assert_eq!(coords[1].xsize(), 20);
}
