use std::collections::BTreeSet;
use synly::hotkey::ModifierMask;
use synly::mapping::{
    ascending_keys, modifiers_from_usages, parse_common_key_name, parse_key_name,
    parse_modifier_name, platform_supports_usage, validate_key_mapping, InputPlatform, KeyMapper,
    KeyMappingConfig, MappingError,
};
use synly::protocol::KeySnapshot;

#[test]
fn default_mapping_swaps_option_win_and_command_alt() {
    let config = KeyMappingConfig::default();
    let mut mac =
        KeyMapper::new(&config, InputPlatform::Macos, InputPlatform::Windows).unwrap();
    let mapped = mac.map_snapshot(&KeySnapshot {
        usages: vec![0xe2, 0xe3],
        modifiers: ModifierMask::from_bits(
            ModifierMask::alt().bits() | ModifierMask::meta().bits(),
        ),
        buttons: Vec::new(),
    });
    assert_eq!(mapped.usages, vec![0xe2, 0xe3]);
    assert_eq!(
        mapped.modifiers,
        ModifierMask::from_bits(ModifierMask::alt().bits() | ModifierMask::meta().bits())
    );

    let mut windows =
        KeyMapper::new(&config, InputPlatform::Windows, InputPlatform::Macos).unwrap();
    assert_eq!(windows.map_key(0xe3, true, false).unwrap().usage, 0xe2);
    assert_eq!(windows.map_key(0xe3, false, false).unwrap().usage, 0xe2);
    assert_eq!(windows.map_key(0xe2, true, false).unwrap().usage, 0xe3);
}

#[test]
fn same_platform_keeps_native_usages() {
    let config = KeyMappingConfig::default();
    let mut mapper =
        KeyMapper::new(&config, InputPlatform::Macos, InputPlatform::Macos).unwrap();
    assert_eq!(mapper.map_key(0xe3, true, false).unwrap().usage, 0xe3);
}

#[test]
fn custom_ordinary_key_mapping_is_applied_once() {
    let mut config = KeyMappingConfig::default();
    config.macos_to_windows.clear();
    config.macos_to_windows.insert("a".to_string(), "b".to_string());
    let mut mapper =
        KeyMapper::new(&config, InputPlatform::Macos, InputPlatform::Windows).unwrap();
    assert_eq!(mapper.map_key(0x04, true, false).unwrap().usage, 0x05);
    assert!(mapper.map_key(0x05, true, false).is_none());
    assert!(mapper.map_key(0x04, false, false).is_none());
    assert_eq!(mapper.map_key(0x05, false, false).unwrap().usage, 0x05);
}

#[test]
fn invalid_names_are_rejected() {
    let mut config = KeyMappingConfig::default();
    config.macos_to_windows.insert("unknown".to_string(), "a".to_string());
    assert!(validate_key_mapping(&config).is_err());
}

#[test]
fn duplicate_targets_are_allowed_and_collapsed() {
    let mut config = KeyMappingConfig::default();
    config.macos_to_windows.clear();
    config.macos_to_windows.insert("a".to_string(), "b".to_string());
    config.macos_to_windows.insert("c".to_string(), "b".to_string());
    assert!(validate_key_mapping(&config).is_ok());

    let mut mapper =
        KeyMapper::new(&config, InputPlatform::Macos, InputPlatform::Windows).unwrap();
    assert_eq!(mapper.map_key(0x04, true, false).unwrap().usage, 0x05);
    assert!(mapper.map_key(0x06, true, false).is_none());
    assert!(mapper.map_key(0x04, false, false).is_none());
    assert_eq!(mapper.map_key(0x06, false, false).unwrap().usage, 0x05);
    let snapshot = mapper.map_snapshot(&KeySnapshot {
        usages: vec![0x04, 0x06],
        modifiers: ModifierMask::default(),
        buttons: Vec::new(),
    });
    assert_eq!(snapshot.usages, vec![0x05]);
}

#[test]
fn mapped_modifiers_follow_press_and_release_state() {
    let config = KeyMappingConfig::default();
    let mut mapper =
        KeyMapper::new(&config, InputPlatform::Macos, InputPlatform::Windows).unwrap();
    let down = mapper.map_key(0xe3, true, false).unwrap();
    assert_eq!(down.usage, 0xe2);
    assert_eq!(down.modifiers, ModifierMask::alt());
    let key = mapper.map_key(0x06, true, false).unwrap();
    assert_eq!(key.modifiers, ModifierMask::alt());
    let up = mapper.map_key(0xe3, false, false).unwrap();
    assert_eq!(up.modifiers, ModifierMask::default());
}

#[test]
fn errors_name_the_entry() {
    let mut config = KeyMappingConfig::default();
    config.macos_to_windows.clear();
    config.macos_to_windows.insert("a".to_string(), "nothing".to_string());
    assert_eq!(
        validate_key_mapping(&config).unwrap_err(),
        MappingError::UnsupportedTarget { entry: 0 }
    );
    config.macos_to_windows.clear();
    config.macos_to_windows.insert("nothing".to_string(), "a".to_string());
    assert_eq!(
        validate_key_mapping(&config).unwrap_err(),
        MappingError::UnsupportedSource { entry: 0 }
    );
}

#[test]
fn press_and_release_leave_nothing_down() {
    let config = KeyMappingConfig::default();
    let mut mapper =
        KeyMapper::new(&config, InputPlatform::Macos, InputPlatform::Windows).unwrap();
    mapper.map_key(0xe0, true, false);
    assert_eq!(mapper.modifiers(), ModifierMask::ctrl());
    assert!(mapper.map_key(0xe0, true, true).unwrap().repeat);
    mapper.map_key(0xe0, false, false);
    assert_eq!(mapper.modifiers(), ModifierMask::default());
    mapper.map_key(0xe1, true, false);
    mapper.clear();
    assert_eq!(mapper.modifiers(), ModifierMask::default());
}

#[test]
fn keys_are_known_by_platform() {
    assert_eq!(parse_key_name(InputPlatform::Macos, "a"), Some(0x04));
    assert_eq!(parse_key_name(InputPlatform::Macos, "f12"), Some(0x45));
    assert_eq!(parse_key_name(InputPlatform::Windows, "nothing"), None);
    assert!(platform_supports_usage(InputPlatform::Macos, 0x48));
    assert!(!platform_supports_usage(InputPlatform::Windows, 0x48));
    assert!(platform_supports_usage(InputPlatform::Windows, 0x35));
    assert!(!platform_supports_usage(InputPlatform::Macos, 0x35));
}

#[test]
fn platforms_follow_the_system_name() {
    assert_eq!(InputPlatform::current("macos"), InputPlatform::Macos);
    assert_eq!(InputPlatform::current("windows"), InputPlatform::Windows);
}

#[test]
fn keys_are_listed_in_order() {
    let keys: BTreeSet<u16> = [0xe0u16, 4, 9].into_iter().collect();
    assert_eq!(ascending_keys(&keys), vec![4, 9, 0xe0]);
}

#[test]
fn keys_are_named_by_platform() {
    assert_eq!(parse_common_key_name("z"), Some(0x1d));
    assert_eq!(parse_common_key_name("0"), Some(0x27));
    assert_eq!(parse_common_key_name("f15"), Some(0x48));
    assert_eq!(parse_common_key_name("f16"), None);
    assert_eq!(parse_common_key_name("left_ctrl"), None);
    assert_eq!(parse_modifier_name(InputPlatform::Macos, "left_option"), Some(0xe2));
    assert_eq!(parse_modifier_name(InputPlatform::Windows, "left_option"), None);
    assert_eq!(parse_modifier_name(InputPlatform::Windows, "right_win"), Some(0xe7));
    assert_eq!(modifiers_from_usages(&vec![0x04, 0xe5, 0xe1]), ModifierMask::shift());
    assert_eq!(modifiers_from_usages(&Vec::new()), ModifierMask::default());
}

#[test]
fn tables_keep_one_entry_for_a_name_whatever_the_order() {
    let mut first = KeyMappingConfig::default();
    first.macos_to_windows.clear();
    let mut second = first.clone();
    for (name, value) in [("b", "c"), ("a", "b"), ("ab", "d"), ("b", "a")] {
        first.macos_to_windows.insert(name.to_string(), value.to_string());
    }
    for (name, value) in [("ab", "d"), ("b", "a"), ("a", "b")] {
        second.macos_to_windows.insert(name.to_string(), value.to_string());
    }
    assert_eq!(first, second);
    assert_eq!(first.clone(), second);
    second.macos_to_windows.insert("b".to_string(), "c".to_string());
    assert_ne!(first, second);
}
