use cnx::bar::{Bar, Offset, Position, StrutPartial, Update, WindowUpdate};
use cnx::diff::Redraw;
use cnx::layout::LayoutError;
use cnx::text::{Attributes, Color, ComputedText, Font, Padding, Text};

fn attr() -> Attributes {
    Attributes {
        font: Font::new("SourceCodePro 21"),
        fg_color: Color::white(),
        bg_color: None,
        padding: Padding::new(0, 0, 0, 0),
    }
}

fn text(s: &str, stretch: bool) -> Text {
    Text {
        attr: attr(),
        text: s.to_owned(),
        stretch,
        markup: false,
    }
}

fn measured(s: &str, stretch: bool, width: i32, height: i32) -> ComputedText {
    text(s, stretch).compute(width, height)
}

fn geometry(bar: &Bar) -> Vec<Vec<(u64, u64, u64, u64)>> {
    bar.contents()
        .iter()
        .map(|slot| slot.iter().map(|t| (t.x, t.y, t.width, t.height)).collect())
        .collect()
}

fn top_strut(height: u32) -> StrutPartial {
    StrutPartial {
        left: 0,
        right: 0,
        top: height,
        bottom: 0,
        left_start_y: 0,
        left_end_y: 0,
        right_start_y: 0,
        right_end_y: 0,
        top_start_x: 0,
        top_end_x: 0,
        bottom_start_x: 0,
        bottom_end_x: 0,
    }
}

fn two_slot_bar() -> Bar {
    let mut bar = Bar::new(Position::Top, Some(300), Offset::default(), 1920, 1080);
    bar.add_content(vec![measured("AB", false, 40, 20)]).unwrap();
    bar.add_content(vec![measured("title", true, 60, 20)]).unwrap();
    bar
}

#[test]
fn new_bar_is_a_hidden_line() {
    let bar = Bar::new(Position::Bottom, None, Offset { x: 3, y: -4 }, 1920, 1080);
    assert_eq!(bar.width(), 1920);
    assert_eq!(bar.height(), 1);
    assert_eq!(bar.position(), Position::Bottom);
    assert_eq!(bar.offset(), Offset { x: 3, y: -4 });
    assert!(!bar.is_mapped());
    assert!(bar.contents().is_empty());
    assert_eq!(bar.strut_partial().bottom, 1);
    assert_eq!(bar.strut_partial().top, 0);
    assert_eq!(bar.window_y(), 1075);
}

#[test]
fn initial_layout_places_fixed_then_stretch() {
    let mut bar = Bar::new(Position::Top, Some(300), Offset::default(), 1920, 1080);
    let (first, update) = bar.add_content(vec![measured("AB", false, 40, 20)]).unwrap();
    assert_eq!(first, 0);
    assert_eq!(
        update,
        Update {
            redraw: Redraw::EntireBar,
            window: Some(WindowUpdate {
                y: 0,
                width: 300,
                height: 20,
                strut: top_strut(20),
            }),
        }
    );
    let (second, update) = bar.add_content(vec![measured("title", true, 60, 20)]).unwrap();
    assert_eq!(second, 1);
    assert_eq!(
        update,
        Update {
            redraw: Redraw::EntireBar,
            window: None,
        }
    );
    assert_eq!(
        geometry(&bar),
        vec![vec![(0, 0, 40, 20)], vec![(40, 0, 260, 20)]]
    );
    assert_eq!(bar.height(), 20);
    assert!(bar.is_mapped());
    assert_eq!(bar.strut_partial(), top_strut(20));
}

#[test]
fn stretch_text_of_other_natural_width_redraws_its_slot_only() {
    let mut bar = two_slot_bar();
    let update = bar
        .update_content(1, vec![measured("a much longer title", true, 180, 20)])
        .unwrap();
    assert_eq!(
        update,
        Update {
            redraw: Redraw::Slot,
            window: None,
        }
    );
    assert_eq!(
        geometry(&bar),
        vec![vec![(0, 0, 40, 20)], vec![(40, 0, 260, 20)]]
    );
    assert_eq!(bar.contents()[1][0].text, "a much longer title");
}

#[test]
fn equal_update_changes_nothing() {
    let mut bar = two_slot_bar();
    assert!(bar.is_unchanged(0, &vec![text("AB", false)]));
    assert!(!bar.is_unchanged(0, &vec![text("AC", false)]));
    assert!(!bar.is_unchanged(0, &vec![]));
    let update = bar
        .update_content(0, vec![measured("AB", false, 99, 77)])
        .unwrap();
    assert_eq!(
        update,
        Update {
            redraw: Redraw::Nothing,
            window: None,
        }
    );
    assert_eq!(
        geometry(&bar),
        vec![vec![(0, 0, 40, 20)], vec![(40, 0, 260, 20)]]
    );
}

#[test]
fn wider_fixed_text_redraws_the_bar() {
    let mut bar = two_slot_bar();
    let update = bar
        .update_content(0, vec![measured("ABC", false, 55, 20)])
        .unwrap();
    assert_eq!(
        update,
        Update {
            redraw: Redraw::EntireBar,
            window: None,
        }
    );
    assert_eq!(
        geometry(&bar),
        vec![vec![(0, 0, 55, 20)], vec![(55, 0, 245, 20)]]
    );
}

#[test]
fn taller_text_resizes_the_window() {
    let mut bar = two_slot_bar();
    let update = bar
        .update_content(1, vec![measured("Title", true, 60, 31)])
        .unwrap();
    assert_eq!(
        update,
        Update {
            redraw: Redraw::EntireBar,
            window: Some(WindowUpdate {
                y: 0,
                width: 300,
                height: 31,
                strut: top_strut(31),
            }),
        }
    );
    assert_eq!(
        geometry(&bar),
        vec![vec![(0, 0, 40, 31)], vec![(40, 0, 260, 31)]]
    );
    assert_eq!(bar.height(), 31);
}

#[test]
fn another_number_of_texts_redraws_the_bar() {
    let mut bar = two_slot_bar();
    let update = bar
        .update_content(
            0,
            vec![measured("A", false, 20, 20), measured("B", false, 30, 20)],
        )
        .unwrap();
    assert_eq!(update.redraw, Redraw::EntireBar);
    assert_eq!(
        geometry(&bar),
        vec![
            vec![(0, 0, 20, 20), (20, 0, 30, 20)],
            vec![(50, 0, 250, 20)]
        ]
    );
}

#[test]
fn left_over_pixels_go_to_the_first_stretching_texts() {
    let mut bar = Bar::new(Position::Top, Some(100), Offset::default(), 1920, 1080);
    bar.add_content(vec![
        measured("a", true, 1, 10),
        measured("b", false, 30, 12),
        measured("c", true, 1, 10),
        measured("d", true, 1, 10),
    ])
    .unwrap();
    assert_eq!(
        geometry(&bar),
        vec![vec![
            (0, 0, 24, 12),
            (24, 0, 30, 12),
            (54, 0, 23, 12),
            (77, 0, 23, 12)
        ]]
    );
}

#[test]
fn stretching_texts_of_several_slots_fill_the_bar() {
    let mut bar = Bar::new(Position::Top, Some(5), Offset::default(), 1920, 1080);
    bar.add_content(vec![measured("a", true, 9, 10)]).unwrap();
    bar.add_content(vec![measured("b", true, 9, 10)]).unwrap();
    bar.add_content(vec![measured("c", true, 9, 10)]).unwrap();
    assert_eq!(
        geometry(&bar),
        vec![
            vec![(0, 0, 2, 10)],
            vec![(2, 0, 2, 10)],
            vec![(4, 0, 1, 10)]
        ]
    );
    let last = &bar.contents()[2][0];
    assert_eq!(last.x + last.width, u64::from(bar.width()));
}

#[test]
fn fixed_texts_wider_than_the_bar_leave_nothing_to_share() {
    let mut bar = Bar::new(Position::Top, Some(50), Offset::default(), 1920, 1080);
    bar.add_content(vec![
        measured("a", false, 40, 10),
        measured("b", true, 7, 10),
        measured("c", false, 40, 10),
    ])
    .unwrap();
    assert_eq!(
        geometry(&bar),
        vec![vec![(0, 0, 40, 10), (40, 0, 0, 10), (40, 0, 40, 10)]]
    );
}

#[test]
fn room_is_left_unused_where_nothing_stretches() {
    let mut bar = Bar::new(Position::Top, Some(300), Offset::default(), 1920, 1080);
    bar.add_content(vec![measured("a", false, 40, 10)]).unwrap();
    assert_eq!(geometry(&bar), vec![vec![(0, 0, 40, 10)]]);
}

#[test]
fn empty_bar_stays_one_pixel_high() {
    let mut bar = Bar::new(Position::Top, Some(300), Offset::default(), 1920, 1080);
    let (idx, update) = bar.add_content(Vec::new()).unwrap();
    assert_eq!(idx, 0);
    assert_eq!(
        update,
        Update {
            redraw: Redraw::Nothing,
            window: None,
        }
    );
    let update = bar.redraw_entire_bar().unwrap();
    assert_eq!(
        update,
        Update {
            redraw: Redraw::EntireBar,
            window: None,
        }
    );
    assert_eq!(bar.height(), 1);
    assert!(!bar.is_mapped());
}

#[test]
fn layout_twice_gives_the_same() {
    let mut bar = two_slot_bar();
    let before = geometry(&bar);
    let update = bar.redraw_entire_bar().unwrap();
    assert_eq!(update.window, None);
    assert_eq!(geometry(&bar), before);
    bar.redraw_entire_bar().unwrap();
    assert_eq!(geometry(&bar), before);
}

#[test]
fn expose_event_redraws_the_bar() {
    let mut bar = two_slot_bar();
    let update = bar.process_event(12).unwrap();
    assert_eq!(update.redraw, Redraw::EntireBar);
    let update = bar.process_event(12 | 0x80).unwrap();
    assert_eq!(update.redraw, Redraw::EntireBar);
    let update = bar.process_event(28).unwrap();
    assert_eq!(
        update,
        Update {
            redraw: Redraw::Nothing,
            window: None,
        }
    );
}

#[test]
fn bottom_bar_moves_up_as_it_grows() {
    let mut bar = Bar::new(Position::Bottom, Some(300), Offset { x: 0, y: -5 }, 1920, 1080);
    let (_, update) = bar.add_content(vec![measured("AB", false, 40, 20)]).unwrap();
    let window = update.window.unwrap();
    assert_eq!(window.y, 1080 - 20 - 5);
    assert_eq!(window.height, 20);
    assert_eq!(window.strut.bottom, 20);
    assert_eq!(window.strut.top, 0);
    assert_eq!(window.strut.left, 0);
    assert_eq!(window.strut.right, 0);
    assert_eq!(bar.window_y(), 1055);
}

#[test]
fn window_never_stands_above_the_screen() {
    let mut bar = Bar::new(Position::Top, Some(300), Offset { x: 0, y: -5 }, 1920, 1080);
    let (_, update) = bar.add_content(vec![measured("AB", false, 40, 20)]).unwrap();
    assert_eq!(update.window.unwrap().y, 0);
    let mut bar = Bar::new(Position::Bottom, Some(300), Offset { x: 0, y: -50 }, 1920, 30);
    let (_, update) = bar.add_content(vec![measured("AB", false, 40, 20)]).unwrap();
    assert_eq!(update.window.unwrap().y, 0);
}

#[test]
fn texts_too_wide_to_place_are_refused() {
    let mut bar = two_slot_bar();
    let before = geometry(&bar);
    let huge = ComputedText {
        attr: attr(),
        text: "huge".to_owned(),
        stretch: false,
        x: 0,
        y: 0,
        width: u64::MAX,
        height: 20,
        markup: false,
    };
    assert_eq!(bar.add_content(vec![huge.clone()]), Err(LayoutError::TooWide));
    assert_eq!(geometry(&bar), before);
    assert_eq!(bar.update_content(1, vec![huge]), Err(LayoutError::TooWide));
    assert_eq!(geometry(&bar), before);
    assert_eq!(bar.contents()[1][0].text, "title");
}

#[test]
fn window_height_is_capped() {
    let mut bar = Bar::new(Position::Top, Some(300), Offset::default(), 1920, 1080);
    let tall = ComputedText {
        attr: attr(),
        text: "tall".to_owned(),
        stretch: false,
        x: 5,
        y: 9,
        width: 10,
        height: 70000,
        markup: false,
    };
    bar.add_content(vec![tall]).unwrap();
    assert_eq!(bar.height(), 65535);
    assert_eq!(geometry(&bar), vec![vec![(0, 0, 10, 70000)]]);
}

#[test]
fn bottom_bar_follows_the_screen() {
    let mut bar = Bar::new(Position::Bottom, Some(300), Offset::default(), 1920, 1080);
    assert_eq!(bar.screen_height(), 1080);
    bar.set_screen_height(768);
    assert_eq!(bar.screen_height(), 768);
    let (_, update) = bar.add_content(vec![measured("AB", false, 40, 20)]).unwrap();
    assert_eq!(update.window.unwrap().y, 748);
    assert_eq!(bar.window_y(), 748);
}
