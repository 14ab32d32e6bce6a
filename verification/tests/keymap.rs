use palmtop::keymap::{
    key_event_flags, sc, sc_ext, scancode_for, KEYEVENTF_EXTENDEDKEY, KEYEVENTF_KEYUP,
    KEYEVENTF_SCANCODE,
};

const ANDROID_EMITTABLE_CODES: &[u32] = &[
    1, 14, 15, 28, 57, // Esc, Backspace, Tab, Enter, Space
    2, 3, 4, 5, 6, 7, 8, 9, 10, 11, // digits 1-0
    30, 48, 46, 32, 18, 33, 34, 35, 23, 36, 37, 38, 50, 49, 24, 25, 16, 19, 31, 20, 22, 47,
    17, 45, 21, 44, // a..z
    12, 13, 26, 27, 39, 40, 41, 43, 51, 52, 53, // punctuation
    29, 42, 56, 125, // modifiers
    113, 114, 115, // media
];

#[test]
fn every_keycode_the_android_app_can_send_has_a_scancode() {
    for &code in ANDROID_EMITTABLE_CODES {
        assert!(scancode_for(code).is_some(), "evdev code {code} has no Windows scancode mapping");
    }
    assert_eq!(
        ANDROID_EMITTABLE_CODES.len(),
        59,
        "the android-emittable list itself drifted from Keycodes.java -- update both together"
    );
}

#[test]
fn an_unknown_evdev_code_is_dropped_not_guessed_at() {
    assert_eq!(scancode_for(999), None);
}

#[test]
fn key_event_flags_always_set_scancode_and_add_the_other_two_independently() {
    let plain_press = key_event_flags(sc(0x1E), true);
    assert_eq!(plain_press, KEYEVENTF_SCANCODE);

    let plain_release = key_event_flags(sc(0x1E), false);
    assert_eq!(plain_release, KEYEVENTF_SCANCODE | KEYEVENTF_KEYUP);

    let ext_press = key_event_flags(sc_ext(0x5B), true);
    assert_eq!(ext_press, KEYEVENTF_SCANCODE | KEYEVENTF_EXTENDEDKEY);

    let ext_release = key_event_flags(sc_ext(0x5B), false);
    assert_eq!(ext_release, KEYEVENTF_SCANCODE | KEYEVENTF_EXTENDEDKEY | KEYEVENTF_KEYUP);
}

#[test]
fn volume_keys_are_extended_and_in_evdev_order() {
    let mute = scancode_for(113).unwrap();
    let down = scancode_for(114).unwrap();
    let up = scancode_for(115).unwrap();
    assert!(mute.extended && down.extended && up.extended);
    assert_eq!((mute.code, down.code, up.code), (0x20, 0x2E, 0x30));
}

#[test]
fn left_meta_is_extended_but_the_other_three_modifiers_are_not() {
    assert!(!scancode_for(29).unwrap().extended);
    assert!(!scancode_for(42).unwrap().extended);
    assert!(!scancode_for(56).unwrap().extended);
    assert!(scancode_for(125).unwrap().extended);
}

#[test]
fn no_two_distinct_evdev_codes_collide_on_the_same_non_extended_scancode() {
    let mut plain = Vec::new();
    let mut extended = Vec::new();
    for &code in ANDROID_EMITTABLE_CODES {
        let s = scancode_for(code).unwrap();
        if s.extended {
            extended.push(s.code);
        } else {
            plain.push(s.code);
        }
    }
    let mut plain_sorted = plain.clone();
    plain_sorted.sort();
    plain_sorted.dedup();
    assert_eq!(plain.len(), plain_sorted.len(), "two non-extended keys collide");

    let mut ext_sorted = extended.clone();
    ext_sorted.sort();
    ext_sorted.dedup();
    assert_eq!(extended.len(), ext_sorted.len(), "two extended keys collide");
}

#[test]
fn no_other_key_is_known() {
    let known = (0..1000u32).filter(|&c| scancode_for(c).is_some()).count();
    assert_eq!(known, 59);
    assert_eq!(scancode_for(30), Some(sc(0x1E)));
    assert_eq!(scancode_for(54), None);
    assert_eq!(scancode_for(0), None);
}
