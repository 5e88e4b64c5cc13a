use daklak::wayland::keymap::{char_to_evdev, inventory_len, inventory_text, keymap_text, BASE_EVDEV};

#[test]
fn char_to_evdev_known() {
    assert_eq!(char_to_evdev('à'), Some(BASE_EVDEV));
    assert!(char_to_evdev('Đ').is_some());
    let kc = char_to_evdev('Đ').unwrap();
    assert!(kc >= BASE_EVDEV && kc < BASE_EVDEV + inventory_len() as u32);
}

#[test]
fn char_to_evdev_ascii_covered() {
    assert!(char_to_evdev('a').is_some());
    assert!(char_to_evdev('n').is_some());
    assert!(char_to_evdev('t').is_some());
    assert!(char_to_evdev('A').is_some());
    assert!(char_to_evdev(' ').is_some());
    assert!(char_to_evdev('0').is_some());
}

#[test]
fn char_to_evdev_truly_unknown() {
    assert_eq!(char_to_evdev('☃'), None);
    assert_eq!(char_to_evdev('€'), None);
}

#[test]
fn inventory_has_full_telex_coverage() {
    for c in ['ầ', 'ế', 'ờ', 'ữ', 'ặ', 'đ', 'Ầ', 'Ế', 'Đ'] {
        assert!(char_to_evdev(c).is_some(), "missing: {c}");
    }
}

#[test]
fn every_character_has_a_key_of_its_own() {
    let chars: Vec<char> = inventory_text().chars().collect();
    assert_eq!(chars.len(), inventory_len());
    assert_eq!(inventory_len(), 213);
    for (i, c) in chars.iter().enumerate() {
        assert_eq!(char_to_evdev(*c), Some(BASE_EVDEV + i as u32));
    }
}

#[test]
fn the_keymap_names_every_key() {
    let text = keymap_text();
    assert!(text.starts_with("xkb_keymap {"));
    assert!(text.contains("U00E0"), "à");
    assert!(text.contains("U1EA7"), "ầ");
}
