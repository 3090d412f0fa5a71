use jam::config::{DispatchError, Fired, JamConfig, KeyCallback};
use jam::keycode::KeyCode;
use jam::keyspec::{
    fmt_keyspec, parse_keyspec, parse_keyspec_code, parse_keyspec_mods, KeyChord, KeyModifiers,
    KeyspecParseError, ALT_BIT, CTRL_BIT, SHIFT_BIT, SUPER_BIT,
};

fn chord(text: &str) -> KeyChord {
    match parse_keyspec(text) {
        Ok(c) => c,
        Err(e) => panic!("{} refused: {}", text, e.message()),
    }
}

fn mods(bits: u8) -> KeyModifiers {
    KeyModifiers { bits }
}

#[test]
fn parse_plain_keys() {
    assert_eq!(chord("a"), KeyChord(KeyCode::KeyA, mods(0)));
    assert_eq!(chord("7"), KeyChord(KeyCode::Digit7, mods(0)));
    assert_eq!(chord("<ESC>"), KeyChord(KeyCode::Escape, mods(0)));
    assert_eq!(chord("<DASH>"), KeyChord(KeyCode::Minus, mods(0)));
    assert_eq!(chord("\\"), KeyChord(KeyCode::Backslash, mods(0)));
}

#[test]
fn parse_modifiers_in_any_order() {
    assert_eq!(chord("C-a"), KeyChord(KeyCode::KeyA, mods(CTRL_BIT)));
    assert_eq!(chord("C-S-a"), KeyChord(KeyCode::KeyA, mods(CTRL_BIT | SHIFT_BIT)));
    assert_eq!(chord("S-C-a"), KeyChord(KeyCode::KeyA, mods(CTRL_BIT | SHIFT_BIT)));
    assert_eq!(chord("W-A-<ESC>"), KeyChord(KeyCode::Escape, mods(ALT_BIT | SUPER_BIT)));
    assert_eq!(chord("C-C-x"), KeyChord(KeyCode::KeyX, mods(CTRL_BIT)));
}

#[test]
fn parse_errors() {
    assert!(matches!(parse_keyspec(""), Err(KeyspecParseError::Empty)));
    assert!(matches!(parse_keyspec("-"), Err(KeyspecParseError::BadKey(k)) if k == "-"));
    assert!(matches!(parse_keyspec("Q"), Err(KeyspecParseError::BadKey(k)) if k == "Q"));
    assert!(matches!(parse_keyspec("C-"), Err(KeyspecParseError::BadKey(k)) if k.is_empty()));
    assert!(matches!(parse_keyspec("C-ab"), Err(KeyspecParseError::BadKey(k)) if k == "ab"));
    assert!(matches!(parse_keyspec("X-a"), Err(KeyspecParseError::BadModifier(m)) if m == "X"));
    assert!(matches!(parse_keyspec("Q-C-Z-a"), Err(KeyspecParseError::BadModifier(m)) if m == "Z"));
    assert!(matches!(parse_keyspec("Ctrl-a"), Err(KeyspecParseError::BadModifier(m)) if m == "Ctrl"));
    assert!(matches!(parse_keyspec("-a"), Err(KeyspecParseError::BadModifier(m)) if m.is_empty()));
}

#[test]
fn parse_pieces() {
    assert!(matches!(parse_keyspec_code("z"), Ok(KeyChord(KeyCode::KeyZ, KeyModifiers { bits: 0 }))));
    assert!(matches!(parse_keyspec_code("<ESC"), Err(KeyspecParseError::BadKey(_))));
    assert!(matches!(parse_keyspec_mods("W"), Ok(KeyModifiers { bits: 8 })));
    assert!(matches!(parse_keyspec_mods("w"), Err(KeyspecParseError::BadModifier(_))));
}

#[test]
fn error_messages() {
    assert_eq!(KeyspecParseError::Empty.message(), "Empty keyspec");
    assert_eq!(KeyspecParseError::BadKey("q".to_string()).message(), "Bad key: q");
    assert_eq!(KeyspecParseError::BadModifier("Z".to_string()).message(), "Bad modifier: Z");
}

#[test]
fn format_orders_modifiers() {
    assert_eq!(fmt_keyspec(KeyChord(KeyCode::KeyA, mods(15))), "C-S-A-W-a");
    assert_eq!(fmt_keyspec(KeyChord(KeyCode::Minus, mods(SHIFT_BIT))), "S-<DASH>");
    assert_eq!(fmt_keyspec(KeyChord(KeyCode::Digit0, mods(0))), "0");
    assert_eq!(fmt_keyspec(KeyChord(KeyCode::Other(3), mods(CTRL_BIT))), "C-<UNK>");
}

#[test]
fn format_then_parse_is_identity() {
    for text in ["a", "C-a", "S-C-a", "W-A-S-C-<ESC>", "A-<DASH>", "C-`", "S-{", "W-}", "=", "9"] {
        let c = chord(text);
        assert_eq!(chord(&fmt_keyspec(c)), c);
    }
}

const ACTION1: KeyCallback = KeyCallback(1);
const ACTION2: KeyCallback = KeyCallback(2);
const ACTION3: KeyCallback = KeyCallback(3);

fn press(cfg: &mut JamConfig, text: &str) -> Fired {
    cfg.keymap_action(chord(text))
}

#[test]
fn modifier_precedence_scenario() {
    let mut cfg = JamConfig::new(ACTION3);
    assert_eq!(cfg.native_bind(0, chord("C-a"), ACTION1, None), Ok(None));
    assert_eq!(cfg.native_bind(0, chord("C-S-a"), ACTION2, None), Ok(None));
    assert_eq!(press(&mut cfg, "C-S-a").effect, ACTION2);
    assert_eq!(press(&mut cfg, "C-a").effect, ACTION1);
    let f = press(&mut cfg, "S-a");
    assert_eq!(f.effect, ACTION3);
    assert_eq!(f.chord, chord("S-a"));
}

#[test]
fn removing_bindings_falls_back() {
    let mut cfg = JamConfig::new(ACTION3);
    cfg.native_bind(0, chord("C-a"), ACTION1, None).unwrap();
    cfg.native_bind(0, chord("C-S-a"), ACTION2, None).unwrap();
    let f = press(&mut cfg, "C-S-a");
    assert_eq!((f.effect, f.chord), (ACTION2, chord("C-S-a")));
    assert_eq!(cfg.native_unbind(0, chord("C-S-a")), Ok(Some(ACTION2)));
    let f = press(&mut cfg, "C-S-a");
    assert_eq!((f.effect, f.chord), (ACTION1, chord("C-a")));
    assert_eq!(cfg.native_unbind(0, chord("C-a")), Ok(Some(ACTION1)));
    let f = press(&mut cfg, "C-S-a");
    assert_eq!((f.effect, f.chord), (ACTION3, chord("C-S-a")));
    assert_eq!(cfg.native_unbind(0, chord("C-a")), Ok(None));
}

#[test]
fn held_extra_modifier_still_matches_narrower_binding() {
    let mut cfg = JamConfig::new(ACTION3);
    cfg.native_bind(0, chord("C-a"), ACTION1, None).unwrap();
    let f = press(&mut cfg, "C-S-A-W-a");
    assert_eq!((f.effect, f.chord), (ACTION1, chord("C-a")));
}

#[test]
fn release_routes_to_the_mode_of_the_press() {
    let mut cfg = JamConfig::new(ACTION3);
    let insert = cfg.native_make_mode("Insert".to_string(), 1, KeyCallback(9)).unwrap();
    assert_eq!(insert, 1);
    assert_eq!(cfg.mode_count(), 2);
    cfg.native_bind(0, chord("C-i"), ACTION1, Some(insert)).unwrap();
    assert_eq!(cfg.native_bind_up(0, chord("C-i"), KeyCallback(11)), Ok(None));
    cfg.native_bind(insert, chord("C-i"), ACTION2, None).unwrap();
    cfg.native_bind_up(insert, chord("C-i"), KeyCallback(22)).unwrap();
    let f = press(&mut cfg, "C-S-i");
    assert_eq!((f.effect, f.chord), (ACTION1, chord("C-i")));
    assert_eq!(cfg.current_state(), insert);
    let up = cfg.keymap_release_action(KeyCode::KeyI);
    assert_eq!(up, Some(Fired { effect: KeyCallback(11), chord: chord("C-i") }));
    assert_eq!(cfg.keymap_release_action(KeyCode::KeyI), None);
}

#[test]
fn default_action_enters_its_mode_and_release_without_handler() {
    let mut cfg = JamConfig::new(ACTION3);
    let m = cfg.native_make_mode("Other".to_string(), 0, KeyCallback(5)).unwrap();
    cfg.native_bind(0, chord("o"), ACTION1, Some(m)).unwrap();
    press(&mut cfg, "o");
    assert_eq!(cfg.current_state(), m);
    let f = press(&mut cfg, "q");
    assert_eq!(f.effect, KeyCallback(5));
    assert_eq!(cfg.current_state(), 0);
    assert_eq!(cfg.keymap_release_action(KeyCode::KeyQ), None);
    assert_eq!(cfg.keymap_release_action(KeyCode::KeyZ), None);
}

#[test]
fn bind_errors() {
    let mut cfg = JamConfig::new(ACTION3);
    assert_eq!(cfg.native_bind(1, chord("a"), ACTION1, None), Err(DispatchError::BadMode(1)));
    assert_eq!(cfg.native_bind_up(0, chord("a"), ACTION1), Err(DispatchError::NotBound));
    assert_eq!(cfg.native_bind_up(2, chord("a"), ACTION1), Err(DispatchError::BadMode(2)));
    assert_eq!(cfg.native_unbind(3, chord("a")), Err(DispatchError::BadMode(3)));
}

#[test]
fn targets_may_name_modes_made_later() {
    let mut cfg = JamConfig::new(ACTION3);
    assert_eq!(cfg.native_bind(0, chord("a"), ACTION1, Some(2)), Ok(None));
    assert_eq!(cfg.native_make_mode("one".to_string(), 2, KeyCallback(5)), Ok(1));
    assert_eq!(cfg.native_make_mode("two".to_string(), 1, KeyCallback(6)), Ok(2));
    press(&mut cfg, "a");
    assert_eq!(cfg.current_state(), 2);
    assert_eq!(press(&mut cfg, "q").effect, KeyCallback(6));
    assert_eq!(cfg.current_state(), 1);
    assert_eq!(press(&mut cfg, "q").effect, KeyCallback(5));
    assert_eq!(cfg.current_state(), 2);
}

#[test]
fn missing_target_keeps_the_current_mode() {
    let mut cfg = JamConfig::new(ACTION3);
    cfg.native_bind(0, chord("a"), ACTION1, Some(7)).unwrap();
    assert_eq!(press(&mut cfg, "a").effect, ACTION1);
    assert_eq!(cfg.current_state(), 0);
    let m = cfg.native_make_mode("later".to_string(), 9, KeyCallback(5)).unwrap();
    cfg.native_bind(0, chord("b"), ACTION2, Some(m)).unwrap();
    press(&mut cfg, "b");
    assert_eq!(cfg.current_state(), m);
    assert_eq!(press(&mut cfg, "z").effect, KeyCallback(5));
    assert_eq!(cfg.current_state(), m);
}

#[test]
fn modes_cannot_change_inside_a_callback() {
    let mut cfg = JamConfig::new(ACTION3);
    cfg.native_bind(0, chord("a"), ACTION1, None).unwrap();
    assert!(!cfg.in_effect());
    cfg.set_in_effect(true);
    assert_eq!(cfg.native_bind(0, chord("b"), ACTION1, None), Err(DispatchError::InsideEffect));
    assert_eq!(cfg.native_bind_up(0, chord("a"), ACTION2), Err(DispatchError::InsideEffect));
    assert_eq!(cfg.native_unbind(0, chord("a")), Err(DispatchError::InsideEffect));
    assert_eq!(cfg.native_make_mode("x".to_string(), 0, ACTION1), Err(DispatchError::InsideEffect));
    assert_eq!(cfg.mode_count(), 1);
    assert_eq!(press(&mut cfg, "a").effect, ACTION1);
    cfg.set_in_effect(false);
    assert_eq!(cfg.native_unbind(0, chord("a")), Ok(Some(ACTION1)));
}

#[test]
fn rebinding_returns_previous_effect() {
    let mut cfg = JamConfig::new(ACTION3);
    cfg.native_bind(0, chord("b"), ACTION1, None).unwrap();
    assert_eq!(cfg.native_bind(0, chord("b"), ACTION2, None), Ok(Some(ACTION1)));
    assert_eq!(press(&mut cfg, "b").effect, ACTION2);
}
