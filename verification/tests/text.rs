use cnx::text::{Attributes, Color, Font, Padding, Rendering, Text, Threshold};

fn padded(left: u32, right: u32, top: u32, bottom: u32) -> Text {
    Text {
        attr: Attributes {
            font: Font::new("Sans 10"),
            fg_color: Color::white(),
            bg_color: None,
            padding: Padding::new(left, right, top, bottom),
        },
        text: "text".to_owned(),
        stretch: false,
        markup: true,
    }
}

#[test]
fn hex_color_is_parsed() {
    assert_eq!(Color::from_hex("#1e1e2e"), Color::from_rgb(30, 30, 46));
    assert_eq!(Color::from_hex("not hex"), Color::from_rgb(0, 0, 0));
    assert_eq!(Color::from_hex("#0C7"), Color::from_rgb(0, 204, 119));
}

#[test]
fn color_from_parsed_channels() {
    assert_eq!(Color::from_parsed(Some((1, 2, 3))), Color::from_rgb(1, 2, 3));
    assert_eq!(Color::from_parsed(None), Color::black());
}

#[test]
fn color_is_written_in_upper_case_hex() {
    assert_eq!(Color::from_rgb(30, 30, 46).to_hex(), "#1E1E2E");
    assert_eq!(Color::red().to_hex(), "#FF0000");
    assert_eq!(Color::green().to_hex(), "#00FF00");
    assert_eq!(Color::blue().to_hex(), "#0000FF");
    assert_eq!(Color::yellow().to_hex(), "#FFFF00");
    assert_eq!(Color::white().to_hex(), "#FFFFFF");
    assert_eq!(Color::black().to_hex(), "#000000");
    assert_eq!(Color::from_rgb(0, 9, 171).to_hex(), "#0009AB");
}

#[test]
fn compute_adds_the_padding() {
    let computed = padded(8, 7, 1, 2).compute(100, 20);
    assert_eq!(computed.width, 115);
    assert_eq!(computed.height, 23);
    assert_eq!(computed.x, 0);
    assert_eq!(computed.y, 0);
    assert_eq!(computed.text, "text");
    assert!(computed.markup);
    assert!(!computed.stretch);
}

#[test]
fn compute_takes_a_negative_measure_as_nothing() {
    let computed = padded(8, 7, 1, 2).compute(-5, -1);
    assert_eq!(computed.width, 15);
    assert_eq!(computed.height, 3);
}

#[test]
fn text_equals_its_computed_self() {
    let text = padded(1, 1, 1, 1);
    let computed = text.clone().compute(10, 10);
    assert!(text == computed);
    let mut other = text.clone();
    other.text = "other".to_owned();
    assert!(!(other == computed));
    let mut stretching = text.clone();
    stretching.stretch = true;
    assert!(!(stretching == computed));
    let mut plain = text.clone();
    plain.markup = false;
    assert!(plain == computed);
    assert!(plain != text);
}

#[test]
fn render_leaves_the_padding_free() {
    let mut computed = padded(8, 7, 1, 2).compute(100, 20);
    computed.x = 40;
    assert_eq!(
        computed.render(),
        Rendering {
            x: 40,
            y: 0,
            width: 115,
            height: 23,
            background: Color::black(),
            foreground: Color::white(),
            text_left: 8,
            text_top: 1,
            text_width: 100,
            text_height: 20,
        }
    );
    computed.width = 10;
    computed.attr.bg_color = Some(Color::blue());
    let rendering = computed.render();
    assert_eq!(rendering.text_width, 0);
    assert_eq!(rendering.background, Color::blue());
}

#[test]
fn default_threshold() {
    let threshold = Threshold::default();
    assert_eq!(threshold.low.threshold, 40);
    assert_eq!(threshold.low.color, Color::red());
    assert_eq!(threshold.normal.threshold, 60);
    assert_eq!(threshold.normal.color, Color::yellow());
    assert_eq!(threshold.high.threshold, 100);
    assert_eq!(threshold.high.color, Color::green());
    assert_eq!(threshold.color_for(40), Color::red());
    assert_eq!(threshold.color_for(41), Color::yellow());
    assert_eq!(threshold.color_for(60), Color::yellow());
    assert_eq!(threshold.color_for(61), Color::green());
    assert_eq!(threshold.color_for(255), Color::green());
}
