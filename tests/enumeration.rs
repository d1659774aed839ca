use wavy_devices::device::{AudioDevice, Descriptor, SoundDevice};
use wavy_devices::direction::{serves, Direction};
use wavy_devices::enumerate::{label_of, list_devices, needs_description, traverse, HintEntry};
use wavy_devices::label::{description_text, fold_lines};

fn entry(name: &str, handle: usize, desc: Option<&str>, ioid: Option<&str>) -> HintEntry {
    HintEntry {
        name: name.as_bytes().to_vec(),
        handle,
        desc: desc.map(|d| d.as_bytes().to_vec()),
        ioid: ioid.map(|s| s.as_bytes().first().copied().unwrap_or(0)),
    }
}

fn sample() -> Vec<HintEntry> {
    vec![
        entry("default", 100, None, None),
        entry("hw:0,0", 200, Some("Analog: Out"), Some("O")),
        entry("hw:1,0", 300, Some("USB Mic"), Some("I")),
    ]
}

fn names(hints: Vec<HintEntry>, dir: Direction) -> Vec<String> {
    list_devices(&Some(hints), dir, |d: SoundDevice| d.to_string()).items
}

#[test]
fn output_listing_keeps_order() {
    assert_eq!(names(sample(), Direction::Output), vec!["Default", "Analog: Out"]);
}

#[test]
fn input_listing_keeps_order() {
    assert_eq!(names(sample(), Direction::Input), vec!["Default", "USB Mic"]);
}

#[test]
fn skipped_entries_are_freed() {
    let out = list_devices(&Some(sample()), Direction::Output, |d: SoundDevice| d.desc());
    assert_eq!(out.items, vec![Descriptor::Native(100), Descriptor::Native(200)]);
    assert_eq!(out.freed, vec![300]);
    let inp = list_devices(&Some(sample()), Direction::Input, |d: SoundDevice| d.desc());
    assert_eq!(inp.items, vec![Descriptor::Native(100), Descriptor::Native(300)]);
    assert_eq!(inp.freed, vec![200]);
}

#[test]
fn unavailable_library_lists_nothing() {
    for dir in [Direction::Input, Direction::Output] {
        let r = list_devices(&None, dir, |d: SoundDevice| d.to_string());
        assert!(r.items.is_empty());
        assert!(r.freed.is_empty());
    }
}

#[test]
fn empty_hint_list_lists_nothing() {
    let r = list_devices(&Some(Vec::new()), Direction::Output, |d: SoundDevice| d.to_string());
    assert!(r.items.is_empty());
    assert!(r.freed.is_empty());
}

#[test]
fn no_device_of_direction_lists_nothing() {
    let hints = vec![entry("hw:1,0", 1, Some("USB Mic"), Some("I"))];
    let r = list_devices(&Some(hints), Direction::Output, |d: SoundDevice| d.to_string());
    assert!(r.items.is_empty());
    assert_eq!(r.freed, vec![1]);
}

#[test]
fn undirected_entry_listed_both_ways() {
    let hints = || vec![entry("hw:2,0", 7, Some("Both"), None)];
    assert_eq!(names(hints(), Direction::Input), vec!["Both"]);
    assert_eq!(names(hints(), Direction::Output), vec!["Both"]);
}

#[test]
fn unknown_direction_listed_neither_way() {
    let hints = || vec![entry("hw:3,0", 8, Some("Odd"), Some("X")), entry("hw:4,0", 9, Some("Empty"), Some(""))];
    assert!(names(hints(), Direction::Input).is_empty());
    assert!(names(hints(), Direction::Output).is_empty());
}

#[test]
fn views_carry_direction() {
    let out = list_devices(&Some(sample()), Direction::Output, |d: SoundDevice| (d.is_input(), d.direction()));
    assert_eq!(out.items, vec![(false, Direction::Output), (false, Direction::Output)]);
    let inp = list_devices(&Some(sample()), Direction::Input, |d: SoundDevice| d.is_input());
    assert_eq!(inp.items, vec![true, true]);
}

#[test]
fn default_label_ignores_description() {
    assert_eq!(label_of(&entry("default", 1, None, None)), "Default");
    assert_eq!(label_of(&entry("default", 1, Some("Something\nelse"), None)), "Default");
}

#[test]
fn null_label() {
    assert_eq!(label_of(&entry("null", 1, None, None)), "Null");
}

#[test]
fn multiline_description_folds() {
    assert_eq!(label_of(&entry("hw:0,0", 1, Some("Line1\nLine2"), None)), "Line1: Line2");
    assert_eq!(description_text(b"a\n\nb\n"), "a: : b: ");
}

#[test]
fn name_that_only_starts_like_default_shows_description() {
    assert_eq!(label_of(&entry("defaults", 1, Some("Mixer"), None)), "Mixer");
    assert_eq!(label_of(&entry("nul", 1, Some("Short"), None)), "Short");
}

#[test]
fn invalid_utf8_is_replaced() {
    assert_eq!(description_text(&[0x41, 0xff, 0x42]), "A\u{FFFD}B");
    assert_eq!(description_text(&[0xc3, 0xa9]), "\u{e9}");
}

#[test]
fn fold_lines_on_chars() {
    assert_eq!(fold_lines(&"x\ny".chars().collect()), "x: y");
    assert_eq!(fold_lines(&Vec::new()), "");
}

#[test]
fn description_needed_for_real_devices_only() {
    assert!(!needs_description(&b"null".to_vec()));
    assert!(!needs_description(&b"default".to_vec()));
    assert!(needs_description(&b"hw:0,0".to_vec()));
    assert!(needs_description(&Vec::new()));
}

#[test]
fn ioid_marks() {
    assert!(serves(None, Direction::Input));
    assert!(serves(None, Direction::Output));
    assert!(serves(Some(b'I'), Direction::Input));
    assert!(!serves(Some(b'I'), Direction::Output));
    assert!(serves(Some(b'O'), Direction::Output));
    assert!(!serves(Some(b'O'), Direction::Input));
    assert!(!serves(Some(b'i'), Direction::Input));
    assert!(!serves(Some(0), Direction::Output));
}

#[test]
fn each_name_released_once() {
    let hints = vec![
        entry("default", 1, None, None),
        entry("hw:0,0", 2, Some("Out"), Some("O")),
        entry("hw:1,0", 3, Some("In"), Some("I")),
        entry("null", 4, None, None),
    ];
    let t = traverse(&hints, Direction::Input);
    let mut released: Vec<usize> = t.freed.clone();
    for d in t.devices {
        if let Some(h) = d.into_device().release_on_drop() {
            released.push(h);
        }
    }
    released.sort();
    assert_eq!(released, vec![1, 2, 3, 4]);
}

#[test]
fn default_record_releases_nothing() {
    let d = AudioDevice::default();
    assert_eq!(d.name(), "");
    assert_eq!(d.desc(), Descriptor::Default);
    assert_eq!(d.release_on_drop(), None);
}

#[test]
fn record_shows_label_and_descriptor() {
    let t = traverse(&sample(), Direction::Output);
    let d = &t.devices[1];
    assert_eq!(d.to_string(), "Analog: Out");
    assert_eq!(d.desc(), Descriptor::Native(200));
}
