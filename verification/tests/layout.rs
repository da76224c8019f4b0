use cnx::layout::{resolve, LayoutError};
use cnx::text::{Attributes, Color, ComputedText, Font, Padding};
use cnx::window::Window;

fn placed(stretch: bool, x: u64, y: u64, width: u64, height: u64) -> ComputedText {
    ComputedText {
        attr: Attributes {
            font: Font::new("Sans 10"),
            fg_color: Color::white(),
            bg_color: None,
            padding: Padding::new(0, 0, 0, 0),
        },
        text: "text".to_owned(),
        stretch,
        x,
        y,
        width,
        height,
        markup: false,
    }
}

fn geometry(slots: &Vec<Vec<ComputedText>>) -> Vec<Vec<(u64, u64, u64, u64)>> {
    slots
        .iter()
        .map(|slot| slot.iter().map(|t| (t.x, t.y, t.width, t.height)).collect())
        .collect()
}

#[test]
fn resolve_places_slots_in_their_order() {
    let mut slots = vec![
        vec![placed(false, 9, 9, 10, 5), placed(true, 9, 9, 99, 7)],
        vec![],
        vec![placed(false, 9, 9, 30, 6)],
        vec![placed(true, 9, 9, 1, 1), placed(false, 9, 9, 20, 2)],
    ];
    assert_eq!(resolve(&mut slots, 100), Ok(7));
    assert_eq!(
        geometry(&slots),
        vec![
            vec![(0, 0, 10, 7), (10, 0, 20, 7)],
            vec![],
            vec![(30, 0, 30, 7)],
            vec![(60, 0, 20, 7), (80, 0, 20, 7)],
        ]
    );
}

#[test]
fn resolve_is_idempotent() {
    let mut slots = vec![
        vec![placed(false, 9, 9, 10, 5), placed(true, 9, 9, 99, 7)],
        vec![placed(true, 0, 0, 0, 0), placed(false, 1, 2, 33, 4)],
    ];
    resolve(&mut slots, 101).unwrap();
    let once = geometry(&slots);
    assert_eq!(resolve(&mut slots, 101), Ok(7));
    assert_eq!(geometry(&slots), once);
}

#[test]
fn widths_fill_the_bar() {
    let mut slots = vec![vec![
        placed(true, 0, 0, 0, 1),
        placed(false, 0, 0, 31, 1),
        placed(true, 0, 0, 0, 1),
        placed(true, 0, 0, 0, 1),
    ]];
    resolve(&mut slots, 300).unwrap();
    let widths: Vec<u64> = slots[0].iter().map(|t| t.width).collect();
    assert_eq!(widths, vec![90, 31, 90, 89]);
    assert_eq!(widths.iter().sum::<u64>(), 300);
    resolve(&mut slots, 301).unwrap();
    let widths: Vec<u64> = slots[0].iter().map(|t| t.width).collect();
    assert_eq!(widths, vec![90, 31, 90, 90]);
    assert_eq!(widths.iter().sum::<u64>(), 301);
    resolve(&mut slots, 299).unwrap();
    let widths: Vec<u64> = slots[0].iter().map(|t| t.width).collect();
    assert_eq!(widths, vec![90, 31, 89, 89]);
    assert_eq!(widths.iter().sum::<u64>(), 299);
}

#[test]
fn three_stretching_texts_on_five_pixels() {
    let mut slots = vec![
        vec![placed(true, 0, 0, 7, 1)],
        vec![placed(true, 0, 0, 7, 1), placed(true, 0, 0, 7, 1)],
    ];
    resolve(&mut slots, 5).unwrap();
    assert_eq!(
        geometry(&slots),
        vec![vec![(0, 0, 2, 1)], vec![(2, 0, 2, 1), (4, 0, 1, 1)]]
    );
}

#[test]
fn more_stretching_texts_than_pixels() {
    let mut slots = vec![vec![
        placed(true, 0, 0, 7, 1),
        placed(true, 0, 0, 7, 1),
        placed(false, 0, 0, 1, 1),
        placed(true, 0, 0, 7, 1),
        placed(true, 0, 0, 7, 1),
    ]];
    resolve(&mut slots, 3).unwrap();
    assert_eq!(
        geometry(&slots),
        vec![vec![
            (0, 0, 1, 1),
            (1, 0, 1, 1),
            (2, 0, 1, 1),
            (3, 0, 0, 1),
            (3, 0, 0, 1)
        ]]
    );
}

#[test]
fn resolve_of_nothing() {
    let mut slots: Vec<Vec<ComputedText>> = Vec::new();
    assert_eq!(resolve(&mut slots, 100), Ok(0));
    let mut slots: Vec<Vec<ComputedText>> = vec![vec![], vec![]];
    assert_eq!(resolve(&mut slots, 100), Ok(0));
    assert_eq!(slots.len(), 2);
}

#[test]
fn resolve_with_a_bar_of_no_width() {
    let mut slots = vec![vec![placed(true, 5, 5, 5, 5), placed(false, 5, 5, 5, 5)]];
    assert_eq!(resolve(&mut slots, 0), Ok(5));
    assert_eq!(geometry(&slots), vec![vec![(0, 0, 0, 5), (0, 0, 5, 5)]]);
}

#[test]
fn resolve_refuses_what_cannot_be_placed() {
    let mut slots = vec![
        vec![placed(false, 1, 2, u64::MAX, 5)],
        vec![placed(true, 3, 4, 7, 9), placed(false, 5, 6, 1, 8)],
    ];
    let before = geometry(&slots);
    assert_eq!(resolve(&mut slots, 100), Err(LayoutError::TooWide));
    assert_eq!(geometry(&slots), before);
}

#[test]
fn resolve_places_up_to_the_last_position() {
    let mut slots = vec![vec![
        placed(false, 1, 2, u64::MAX - 1, 5),
        placed(true, 1, 2, 3, 4),
        placed(false, 5, 6, 1, 8),
    ]];
    assert_eq!(resolve(&mut slots, 100), Ok(8));
    assert_eq!(
        geometry(&slots),
        vec![vec![
            (0, 0, u64::MAX - 1, 8),
            (u64::MAX - 1, 0, 0, 8),
            (u64::MAX - 1, 0, 1, 8)
        ]]
    );
}

#[test]
fn window_lays_out_one_row() {
    let window = Window::new(200);
    assert_eq!(window.width, 200);
    let row = window
        .expose(vec![
            placed(false, 0, 0, 50, 10),
            placed(true, 0, 0, 1, 12),
            placed(true, 0, 0, 1, 11),
        ])
        .unwrap();
    let got: Vec<_> = row.iter().map(|t| (t.x, t.y, t.width, t.height)).collect();
    assert_eq!(got, vec![(0, 0, 50, 12), (50, 0, 75, 12), (125, 0, 75, 12)]);
    assert_eq!(window.expose(Vec::new()).unwrap().len(), 0);
    assert_eq!(
        window
            .expose(vec![placed(false, 0, 0, u64::MAX, 1), placed(false, 0, 0, 1, 1)])
            .unwrap_err(),
        LayoutError::TooWide
    );
}
