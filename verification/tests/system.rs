use sgs::button::Button;
use sgs::panel::Panel;
use sgs::system::Folder;
use sgs::system::Hotbar;
use sgs::system::System;

fn btn(label: &str) -> Button {
    Button::new(label.to_string(), None, None)
}

fn folder_of(name: &str, rows: usize, cols: usize, labels: Vec<Option<&str>>) -> Folder {
    Folder {
        name: name.to_string(),
        id: name.to_string(),
        toplevel: true,
        immediate: false,
        rows,
        cols,
        buttons: labels.into_iter().map(|l| l.map(btn)).collect(),
    }
}

fn bare_system() -> System {
    System {
        name: "s".to_string(),
        description: "d".to_string(),
        folders: Vec::new(),
        hotbar: Hotbar { rows: 1, cols: 1, buttons: Vec::new() },
        variants: Vec::new(),
        related: Vec::new(),
    }
}

#[test]
fn folder_get_button_addresses_pages_row_major() {
    let folder = folder_of(
        "Home",
        2,
        3,
        vec![
            Some("a"), None, Some("c"),
            Some("d"), Some("e"), None,
            Some("g"), None, None,
        ],
    );
    // Page 0: index row*cols + col.
    assert_eq!("a", folder.get_button(0, 0, 0).unwrap().label);
    assert!(folder.get_button(0, 1, 0).is_none());
    assert_eq!("c", folder.get_button(0, 2, 0).unwrap().label);
    assert_eq!("e", folder.get_button(0, 1, 1).unwrap().label);
    // Page 1 starts at index 6.
    assert_eq!("g", folder.get_button(1, 0, 0).unwrap().label);
    assert!(folder.get_button(1, 1, 0).is_none());
    // Beyond the stored length: None, not an error.
    assert!(folder.get_button(1, 0, 1).is_none());
    assert!(folder.get_button(2, 0, 0).is_none());
    assert!(folder.get_button(100, 2, 1).is_none());
}

#[test]
fn folder_pagination_wraps() {
    let folder = folder_of(
        "Home",
        2,
        3,
        vec![
            Some("0"), Some("1"), Some("2"),
            Some("3"), Some("4"), Some("5"),
            Some("6"), Some("7"), Some("8"),
        ],
    );
    assert!(folder.needs_pagination());
    assert_eq!(1, folder.next_page(0));
    assert_eq!(0, folder.next_page(1));
    // Nine buttons on six-slot pages: the three leftovers fill a second page.
    assert_eq!(2, folder.page_count());

    let single = folder_of("One", 2, 3, vec![Some("0"), None, None, None, None, None]);
    assert!(!single.needs_pagination());
    assert_eq!(0, single.next_page(0));
    assert_eq!(0, single.next_page(5));
    assert_eq!(1, single.page_count());

    let uneven = folder_of("Seven", 2, 3, vec![
        Some("0"), Some("1"), Some("2"),
        Some("3"), Some("4"), Some("5"),
        Some("6"),
    ]);
    // A last page with a single button still counts as a full page.
    assert_eq!(2, uneven.page_count());
}

#[test]
fn hotbar_pages_by_the_folder_column_count() {
    let hotbar = Hotbar {
        rows: 1,
        cols: 5,
        buttons: vec![Some(btn("a")), Some(btn("b")), Some(btn("c")), Some(btn("d")), Some(
            btn("e"),
        )],
    };
    // Stride 3 over 5 buttons: page 1 still has stored positions, page 2 not.
    assert_eq!(1, hotbar.next_page(3, 0));
    assert_eq!(0, hotbar.next_page(3, 1));
    assert_eq!("a", hotbar.get_button(3, 0, 0).unwrap().label);
    assert_eq!("c", hotbar.get_button(3, 0, 2).unwrap().label);
    assert_eq!("d", hotbar.get_button(3, 1, 0).unwrap().label);
    assert_eq!("e", hotbar.get_button(3, 1, 1).unwrap().label);
    assert!(hotbar.get_button(3, 1, 2).is_none());
    assert!(hotbar.get_button(3, 2, 0).is_none());
    // A wider folder shifts the page boundaries.
    assert_eq!("e", hotbar.get_button(4, 1, 0).unwrap().label);
}

#[test]
fn related_index_out_of_range_falls_back_to_the_button() {
    let mut system = bare_system();
    system.related = vec![(
        "label".to_string(),
        vec![btn("first"), btn("second")],
    )];
    let mut b = btn("label");
    b.set_related(5);
    assert_eq!("label", b.get_label(&system));
    assert_eq!("label", b.get_related_word_label(&system));
    // A missing table entry falls back too.
    let mut other = btn("unlisted");
    other.set_related(0);
    assert_eq!("unlisted", other.get_label(&system));
}

#[test]
fn variant_is_keyed_by_the_post_related_label() {
    let mut system = bare_system();
    system.related = vec![(
        "hello".to_string(),
        vec![btn("hello"), btn("hi"), btn("hey")],
    )];
    system.variants = vec![
        ("hello".to_string(), vec![btn("hello"), btn("Hello!")]),
        ("hey".to_string(), vec![btn("hey"), btn("Hey!")]),
    ];

    let mut panel = Panel::default();
    panel.add_entry(&btn("hello"));
    // Choose related word 2: the label becomes "hey".
    panel.set_last_entry_related(2);
    assert_eq!(
        "hey",
        panel.last_entry_related_label(&system).unwrap()
    );
    // Variant 1 must be looked up under "hey", not under "hello".
    panel.set_last_entry_variant(1);
    let last = panel.last_entry().unwrap().clone();
    assert_eq!("Hey!", last.get_label(&system));
    assert_eq!("Hey!", last.get_pronouncible_text(&system));
}

#[test]
fn choosing_a_related_word_discards_the_stale_variant() {
    let mut system = bare_system();
    system.related = vec![(
        "hello".to_string(),
        vec![btn("hello"), btn("hey")],
    )];
    system.variants = vec![("hello".to_string(), vec![btn("hello"), btn("Hello!")])];

    let mut panel = Panel::default();
    panel.add_entry(&btn("hello"));
    panel.set_last_entry_variant(1);
    assert_eq!("Hello!", panel.last_entry().unwrap().clone().get_label(&system));
    // Re-keying to "hey" clears the variant: no variants of "hey" exist.
    panel.set_last_entry_related(1);
    assert_eq!("hey", panel.last_entry().unwrap().clone().get_label(&system));
}

#[test]
fn toplevel_folders_keep_configured_order() {
    let mut system = bare_system();
    let mut hidden = folder_of("Hidden", 1, 1, vec![Some("x")]);
    hidden.toplevel = false;
    system.folders = vec![
        folder_of("Home", 1, 1, vec![Some("a")]),
        hidden,
        folder_of("Quick Response", 1, 1, vec![Some("b")]),
    ];
    let tops = system.toplevel_folders();
    assert_eq!(2, tops.len());
    assert_eq!("Home", tops[0].name);
    assert_eq!("Quick Response", tops[1].name);
}

#[test]
fn hierarchical_ids_resolve_to_their_toplevel_ancestor() {
    let mut system = bare_system();
    let mut sub = folder_of("Sub", 1, 1, vec![Some("x")]);
    sub.id = "Home::Sub".to_string();
    sub.toplevel = false;
    system.folders = vec![
        folder_of("Home", 1, 1, vec![Some("a")]),
        folder_of("Other", 1, 1, vec![Some("b")]),
        sub,
    ];
    assert_eq!(0, system.toplevel_folder_for(0));
    assert_eq!(1, system.toplevel_folder_for(1));
    assert_eq!(0, system.toplevel_folder_for(2));
}

#[test]
fn selecting_and_speaking_a_two_button_folder() {
    let mut system = bare_system();
    system.folders = vec![folder_of("Home", 1, 2, vec![Some("hi"), Some("there")])];
    let folder = &system.folders[0];
    assert!(!folder.immediate);

    let mut panel = Panel::default();
    let first = folder.get_button(0, 0, 0).unwrap().clone();
    panel.add_entry(&first);
    let second = folder.get_button(0, 1, 0).unwrap().clone();
    panel.add_entry(&second);

    assert_eq!("hi there", panel.get_text());
    let spoken = panel.get_pronouncible_text(&system);
    assert_eq!("hi there", spoken);
    // The sink succeeds: the phrase is flushed.
    panel.finish_speak(true);
    assert_eq!(0, panel.entries.len());
}
