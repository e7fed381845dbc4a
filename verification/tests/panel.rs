use sgs::button::Button;
use sgs::panel::Panel;
use sgs::system::Hotbar;
use sgs::system::System;

fn empty_system() -> System {
    System {
        name: "s".to_string(),
        description: "d".to_string(),
        folders: Vec::new(),
        hotbar: Hotbar { rows: 1, cols: 1, buttons: Vec::new() },
        variants: Vec::new(),
        related: Vec::new(),
    }
}

#[test]
fn test_panel() {
    let foo = Button::new("foo".to_string(), None, None);
    let bar = Button::new("bar".to_string(), None, None);
    let baz = Button::new("baz".to_string(), None, None);
    let exc = Button::new("!".to_string(), None, None);

    let mut panel = Panel::default();

    panel.add_entry(&foo);
    panel.add_entry(&bar);
    panel.add_entry(&baz);
    panel.add_entry(&exc);
    panel.add_entry(&exc);
    assert_eq!("foo bar baz ! !", panel.get_text());

    panel.remove_last_entry();
    panel.remove_last_entry();
    assert_eq!("foo bar baz", panel.get_text());

    panel.remove_last_entry();
    assert_eq!("foo bar", panel.get_text());
}

#[test]
fn edits_on_empty_panel_are_noops() {
    let mut panel = Panel::default();
    panel.set_last_entry_related(7);
    panel.set_last_entry_variant(3);
    panel.clear_last_entry_variant();
    panel.remove_last_entry();
    assert_eq!(0, panel.entries.len());
    assert_eq!("", panel.get_text());
    assert!(panel.last_entry().is_none());
    assert!(panel.last_entry_label().is_none());
}

#[test]
fn add_then_remove_round_trip() {
    let foo = Button::new("foo".to_string(), None, None);
    let bar = Button::new("bar".to_string(), None, None);
    let mut panel = Panel::default();
    panel.add_entry(&foo);
    panel.add_entry(&bar);
    assert_eq!("foo bar", panel.get_text());
    panel.remove_last_entry();
    assert_eq!("foo", panel.get_text());
}

#[test]
fn failed_speech_keeps_the_phrase() {
    let hi = Button::new("hi".to_string(), None, None);
    let there = Button::new("there".to_string(), None, None);
    let mut panel = Panel::default();
    panel.add_entry(&hi);
    panel.add_entry(&there);

    let before: Vec<String> = panel.entries.iter().map(|b| b.label.clone()).collect();
    panel.finish_speak(false);
    assert_eq!(2, panel.entries.len());
    let after: Vec<String> = panel.entries.iter().map(|b| b.label.clone()).collect();
    assert_eq!(before, after);
    assert_eq!("hi there", panel.get_text());

    panel.finish_speak(true);
    assert_eq!(0, panel.entries.len());
    assert_eq!("", panel.get_text());
}

#[test]
fn replace_last_entry_swaps_the_tail() {
    let foo = Button::new("foo".to_string(), None, None);
    let bar = Button::new("bar".to_string(), None, None);
    let qux = Button::new("qux".to_string(), None, None);
    let mut panel = Panel::default();
    panel.add_entry(&foo);
    panel.add_entry(&bar);
    panel.replace_last_entry(&qux);
    assert_eq!("foo qux", panel.get_text());
}

#[test]
fn pronunciation_overrides_label_in_speech() {
    let lead = Button::new("Mx.".to_string(), Some("mix".to_string()), None);
    let word = Button::new("Smith".to_string(), None, None);
    let mut panel = Panel::default();
    panel.add_entry(&lead);
    panel.add_entry(&word);
    let system = empty_system();
    assert_eq!("Mx. Smith", panel.get_text());
    assert_eq!("mix Smith", panel.get_pronouncible_text(&system));
}

#[test]
fn clear_empties_the_panel() {
    let foo = Button::new("foo".to_string(), None, None);
    let mut panel = Panel::default();
    panel.add_entry(&foo);
    panel.clear();
    assert_eq!(0, panel.entries.len());
    assert_eq!("", panel.get_text());
}
