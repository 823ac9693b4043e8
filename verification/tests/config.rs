use ubat::config_bridge::{finish_bulk_apply, save_needed, ConfigBridge, SettingValue};
use ubat::core_config::ConfigurationManager;

fn bridge() -> ConfigBridge<u32> {
    let mut b: ConfigBridge<u32> = ConfigBridge::new();
    b.set_config_manager(ConfigurationManager::default(5, 0));
    b
}

fn s(t: &str) -> SettingValue {
    SettingValue::Str(t.to_string())
}

#[test]
fn custom_value_reads_back() {
    let mut b = bridge();
    assert!(b.set_custom_value("volume".to_string(), SettingValue::Int(7)));
    assert!(matches!(b.get_custom_value(&"volume".to_string()), SettingValue::Int(7)));
    assert!(b.set_custom_value("name".to_string(), s("kelp")));
    assert!(matches!(b.get_custom_value(&"name".to_string()), SettingValue::Str(ref t) if t == "kelp"));
    assert!(!b.set_custom_value("bad".to_string(), SettingValue::Nil));
    assert!(matches!(b.get_custom_value(&"bad".to_string()), SettingValue::Nil));
    let mut unattached: ConfigBridge<u32> = ConfigBridge::new();
    assert!(!unattached.set_custom_value("volume".to_string(), SettingValue::Int(7)));
}

#[test]
fn dictionary_lists_properties_and_custom_values() {
    let mut b = bridge();
    assert!(b.set_custom_value("server_port".to_string(), SettingValue::Bool(true)));
    assert!(b.set_custom_value("fog".to_string(), SettingValue::Float(0.5f64.to_bits())));
    let d = b.get_configuration_dictionary();
    assert_eq!(d.len(), 8);
    assert!(matches!(d.get(&"world_seed".to_string()), Some(SettingValue::Int(_))));
    assert!(matches!(d.get(&"server_port".to_string()), Some(SettingValue::Bool(true))));
    assert!(matches!(d.get(&"fog".to_string()), Some(SettingValue::Float(bits)) if *bits == 0.5f64.to_bits()));
    let plain: ConfigBridge<u32> = ConfigBridge::new();
    assert_eq!(plain.get_configuration_dictionary().len(), 7);
}

#[test]
fn settings_applied_in_bulk() {
    let mut b = bridge();
    let entries = vec![
        (s("world_seed"), SettingValue::Int(42)),
        (s("max_players"), SettingValue::Int(8)),
        (s("fog_level"), SettingValue::Int(1)),
        (SettingValue::Int(5), SettingValue::Int(1)),
    ];
    let r = b.apply_multiple_settings(&entries, true);
    assert!(!r.all_applied);
    assert!(r.save_due);
    assert_eq!(r.applied, vec!["world_seed".to_string(), "max_players".to_string(), "fog_level".to_string()]);
    assert!(matches!(b.get_custom_value(&"fog_level".to_string()), SettingValue::Int(1)));
    assert_eq!(b.world_seed, 42);
    assert_eq!(b.max_players, 8);
    let read = b.get_multiple_settings(&vec![s("world_seed"), SettingValue::Int(3), s("missing")]);
    assert_eq!(read.len(), 1);
    assert!(matches!(read.get(&"world_seed".to_string()), Some(SettingValue::Int(42))));
}

#[test]
fn validation_per_mode() {
    let mut b = bridge();
    assert!(b.validate_for_mode(0));
    b.server_port = 0;
    assert!(!b.validate_for_mode(1));
    assert!(b.set_game_mode(2));
    assert!(!b.set_game_mode(7));
}

#[test]
fn property_written_then_read_back() {
    let mut b = bridge();
    b.world_width = 640;
    assert!(b.sync_property_to_config("world_width"));
    b.world_width = 1;
    b.update_editor_properties_from_config();
    assert_eq!(b.world_width, 640);
    b.max_players = 300;
    assert!(b.sync_property_to_config("max_players"));
    b.update_editor_properties_from_config();
    assert_eq!(b.max_players, 44);
    assert!(!b.sync_property_to_config("no_such_property"));
    assert!(!b.sync_property_to_config("server_address"));
}

#[test]
fn bulk_apply_saves_only_when_asked_and_something_changed() {
    assert!(save_needed(true, &vec!["world_seed".to_string()]));
    assert!(!save_needed(true, &vec![]));
    assert!(!save_needed(false, &vec!["world_seed".to_string()]));
    assert!(finish_bulk_apply(true, true, true));
    assert!(!finish_bulk_apply(true, true, false));
    assert!(finish_bulk_apply(true, false, false));
    assert!(!finish_bulk_apply(false, false, true));
}
