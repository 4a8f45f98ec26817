use std::collections::BTreeSet;
use std::str::FromStr;
use synly::hotkey::{key_name, parse_named_key, Hotkey, HotkeyError, HotkeyKey, ModifierMask};

#[test]
fn parses_and_normalizes_hotkey() {
    let hotkey = Hotkey::from_str("Shift+CTRL+Alt+Escape").unwrap();
    assert_eq!(hotkey.key, HotkeyKey::Hid(0x29));
    assert_eq!(hotkey.to_string(), "ctrl+alt+shift+esc");
    assert!(hotkey.matches(0x29, ModifierMask::from_bits(0x07)));
}

#[test]
fn rejects_ambiguous_hotkeys() {
    assert!(Hotkey::from_str("esc").is_err());
    assert!(Hotkey::from_str("ctrl+alt").is_err());
    assert!(Hotkey::from_str("ctrl+a+b").is_err());
    assert!(Hotkey::from_str("ctrl+ctrl+a").is_err());
}

#[test]
fn each_hotkey_error_has_its_cause() {
    assert_eq!(Hotkey::from_str("esc").unwrap_err(), HotkeyError::NoModifier);
    assert_eq!(Hotkey::from_str("ctrl+alt").unwrap_err(), HotkeyError::NoKey);
    assert_eq!(Hotkey::from_str("ctrl+a+b").unwrap_err(), HotkeyError::SecondKey);
    assert_eq!(Hotkey::from_str("ctrl+ctrl+a").unwrap_err(), HotkeyError::DuplicateModifier);
    assert_eq!(Hotkey::from_str("ctrl+ +a").unwrap_err(), HotkeyError::BlankPart);
    assert_eq!(Hotkey::from_str("ctrl+nothing").unwrap_err(), HotkeyError::UnsupportedKey);
    assert_eq!(Hotkey::from_str("ctrl+f99").unwrap_err(), HotkeyError::FunctionKeyRange);
}

#[test]
fn built_in_hotkey_can_be_parsed() {
    let hotkey: Hotkey = Hotkey::DEFAULT.parse().unwrap();
    assert_eq!(hotkey.to_string(), Hotkey::DEFAULT);
    assert!(hotkey.matches(0x29, ModifierMask::from_bits(7)));
    assert!(!hotkey.matches(0x29, ModifierMask::from_bits(15)));
    assert!(!hotkey.matches(0x28, ModifierMask::from_bits(7)));
}

#[test]
fn hotkey_texts_are_read_back() {
    for usage in [0x04u16, 0x1d, 0x1e, 0x27, 0x28, 0x2c, 0x3a, 0x45, 0x4f, 0x52] {
        let name = key_name(usage);
        assert_eq!(parse_named_key(&name).unwrap(), usage, "{}", name);
        let hotkey = Hotkey {
            modifiers: ModifierMask::from_bits(9),
            key: HotkeyKey::Hid(usage),
        };
        assert_eq!(Hotkey::from_str(&hotkey.to_string()).unwrap(), hotkey);
    }
}

#[test]
fn masks_keep_only_known_bits() {
    assert_eq!(ModifierMask::from_bits(0xff).bits(), 0x0f);
    assert!(ModifierMask::from_bits(7).contains(ModifierMask::alt()));
    assert!(!ModifierMask::from_bits(5).contains(ModifierMask::alt()));
    assert_eq!(ModifierMask::ctrl().with(ModifierMask::meta()).bits(), 9);
    assert_eq!(ModifierMask::shift().bits(), 4);
}

#[test]
fn key_names_are_distinct() {
    let names: BTreeSet<String> = (0..=u16::MAX).map(key_name).collect();
    assert_eq!(names.len(), 0x1_0000);
}

#[test]
fn text_is_parsed_as_it_is_read() {
    assert_eq!("ctrl+q".parse::<Hotkey>(), Hotkey::from_str("ctrl+q"));
    assert_eq!("q".parse::<Hotkey>(), Hotkey::from_str("q"));
    assert!("ctrl+q".parse::<Hotkey>().is_ok());
    assert!("q".parse::<Hotkey>().is_err());
}
