use sgs::board::Board;
use sgs::board::Layout;
use sgs::button::Button;

fn btn(label: &str) -> Button {
    Button::new(label.to_string(), None, None)
}

fn example_board() -> Board {
    Board {
        format: "sgs-board".to_string(),
        format_version: 0,
        name: "Example Board".to_string(),
        description: "This is an example board.".to_string(),
        images: vec![("what-img".to_string(), "what.png".to_string())],
        layouts: vec![
            Layout {
                name: "Home".to_string(),
                default: false,
                immediate: false,
                rows: 1,
                cols: 2,
                buttons: vec![Some(btn("hello")), None],
            },
            Layout {
                name: "Quick Response".to_string(),
                default: true,
                immediate: true,
                rows: 1,
                cols: 1,
                buttons: vec![Some(btn("Hey!"))],
            },
        ],
    }
}

#[test]
fn default_layout_is_the_first_flagged_one() {
    let board = example_board();
    assert_eq!(1, board.default_layout());
    assert_eq!("Quick Response", board.layouts[board.default_layout()].name);
}

#[test]
fn image_locations_come_from_the_table() {
    let board = example_board();
    assert_eq!(Some(&"what.png".to_string()), board.get_image_location("what-img"));
    assert_eq!(None, board.get_image_location("missing"));
}

#[test]
fn layout_addresses_slots_row_major() {
    let board = example_board();
    let layout = &board.layouts[0];
    assert_eq!("hello", layout.get_button(0, 0).unwrap().label);
    assert!(layout.get_button(1, 0).is_none());
}
