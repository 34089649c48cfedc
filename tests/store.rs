use lighting_midi::models::{ButtonActionType, MidiTrigger, Preset};
use lighting_midi::persistence::AppConfig;
use lighting_midi::versioned_data::{load_config, load_presets, VersionedAppConfig, VersionedPresets};
use lighting_midi::versioning::{
    choose_payload, declared_version, Payload, load_and_migrate_with_fallback, migrate_to_current, Migration,
    MigrationResult, SchemaError, VersionedData, CURRENT_VERSION,
};
use lighting_midi::versioned_data::PresetMigrationV0ToV1;

fn sample() -> Vec<Preset> {
    let mut p = Preset::new("Intro".to_string(), "d".to_string());
    p.triggers.push(MidiTrigger::NoteOn { channel: 0, note: 60 });
    vec![p]
}

#[test]
fn saved_presets_load_unmigrated() {
    let presets = sample();
    let doc = VersionedPresets::new(presets.clone());
    assert_eq!(doc.version, CURRENT_VERSION);
    assert_eq!(declared_version(Some(doc.version as u64)).unwrap(), CURRENT_VERSION);
    let (loaded, from) = load_presets(Some(doc.version as u64), doc.presets).unwrap();
    assert_eq!(from, None);
    assert_eq!(loaded.len(), 1);
    assert_eq!(loaded[0].id, presets[0].id);
    assert_eq!(loaded[0].triggers, presets[0].triggers);
}

#[test]
fn legacy_presets_migrate_from_zero() {
    let presets = sample();
    assert_eq!(declared_version(None).unwrap(), 0);
    let (loaded, from) = load_presets(None, presets.clone()).unwrap();
    assert_eq!(from, Some(0));
    assert_eq!(loaded[0].name, "Intro");
    let resaved = VersionedPresets::new(loaded);
    let (_, again) = load_presets(Some(resaved.version as u64), resaved.presets).unwrap();
    assert_eq!(again, None);
}

#[test]
fn newer_documents_are_refused() {
    assert!(matches!(
        declared_version(Some(2)),
        Err(SchemaError::NewerVersion { found: 2, current: 1 })
    ));
    assert!(matches!(
        declared_version(Some(u64::MAX)),
        Err(SchemaError::NewerVersion { .. })
    ));
    assert!(matches!(
        load_presets(Some(5), sample()),
        Err(SchemaError::NewerVersion { found: 5, current: 1 })
    ));
}

#[test]
fn missing_step_is_an_error() {
    let none: [PresetMigrationV0ToV1; 0] = [];
    let r = migrate_to_current(VersionedData::new(0, sample()), &none);
    assert!(matches!(r, Err(SchemaError::MissingMigration { from: 0, to: 1 })));
    let current = migrate_to_current(VersionedData::current(sample()), &none);
    assert!(matches!(current, Ok(MigrationResult::Current(_))));
}

#[test]
fn migration_step_checks_its_source() {
    let m = PresetMigrationV0ToV1;
    assert_eq!(m.target_version(), 1);
    assert!(m.migrate(0, sample()).is_ok());
    assert!(matches!(m.migrate(3, sample()), Err(SchemaError::StepRejected { from: 3 })));
}

#[test]
fn config_defaults_and_round_trip() {
    let c = AppConfig::default();
    assert_eq!(c.last_controller_address.as_deref(), Some("127.0.0.1:7348"));
    assert_eq!(c.last_action_type, Some(ButtonActionType::Toggle));
    assert!(c.last_midi_port.is_none() && c.last_controller_password.is_none());
    let doc = VersionedAppConfig::new(c.clone());
    let (loaded, from) = load_config(Some(doc.version as u64), doc.config).unwrap();
    assert_eq!(from, None);
    assert_eq!(loaded.last_controller_address, c.last_controller_address);
    let (legacy, from) = load_config(None, c).unwrap();
    assert_eq!(from, Some(0));
    assert_eq!(legacy.last_action_type, Some(ButtonActionType::Toggle));
}

#[test]
fn migration_result_reports_write_back() {
    let m: MigrationResult<u8> = MigrationResult::Migrated(4, 0);
    assert!(m.needs_write_back());
    assert_eq!(m.into_loaded(), (4, Some(0)));
    let c: MigrationResult<u8> = MigrationResult::Current(4);
    assert!(!c.needs_write_back());
    assert_eq!(c.into_loaded(), (4, None));
}

#[test]
fn fallback_takes_untagged_as_legacy() {
    let steps = [PresetMigrationV0ToV1];
    assert!(matches!(
        load_and_migrate_with_fallback(None, sample(), &steps),
        Ok(MigrationResult::Migrated(_, 0))
    ));
    assert!(matches!(
        load_and_migrate_with_fallback(Some(1), sample(), &steps),
        Ok(MigrationResult::Current(_))
    ));
    assert!(matches!(
        load_and_migrate_with_fallback(Some(9), sample(), &steps),
        Err(SchemaError::NewerVersion { found: 9, current: 1 })
    ));
    assert!(matches!(
        load_and_migrate_with_fallback(Some(0), sample(), &steps),
        Ok(MigrationResult::Migrated(_, 0))
    ));
}

#[test]
fn settings_fall_back_to_defaults() {
    let empty = AppConfig {
        last_midi_port: None,
        last_controller_address: None,
        last_controller_password: None,
        last_action_type: None,
    };
    assert_eq!(empty.controller_address(), "127.0.0.1:7348");
    assert_eq!(empty.controller_password(), "");
    assert_eq!(empty.action_type(), ButtonActionType::Toggle);
    let ports = vec!["In A".to_string(), "In B".to_string()];
    assert_eq!(empty.preferred_port(&ports), Some(0));
    assert_eq!(empty.preferred_port(&[]), None);

    let used = AppConfig {
        last_midi_port: Some("In B".to_string()),
        last_controller_address: Some("10.0.0.2:7348".to_string()),
        last_controller_password: Some("pw".to_string()),
        last_action_type: Some(ButtonActionType::Press),
    };
    assert_eq!(used.controller_address(), "10.0.0.2:7348");
    assert_eq!(used.controller_password(), "pw");
    assert_eq!(used.action_type(), ButtonActionType::Press);
    assert_eq!(used.preferred_port(&ports), Some(1));
    assert_eq!(used.preferred_port(&["Other".to_string()]), None);
}

#[test]
fn payload_choice_prefers_versioned_then_legacy() {
    let v: Result<u8, String> = Ok(1);
    let l: Result<u16, String> = Ok(2);
    assert!(matches!(choose_payload(Some(1), v, l), Ok((Some(1), Payload::Versioned(1)))));
    let v: Result<u8, String> = Err("missing field version".to_string());
    let l: Result<u16, String> = Ok(2);
    assert!(matches!(choose_payload(None, v, l), Ok((None, Payload::Legacy(2)))));
    let v: Result<u8, String> = Err("a".to_string());
    let l: Result<u16, String> = Err("b".to_string());
    match choose_payload(Some(1), v, l) {
        Err(SchemaError::Unreadable { versioned, legacy }) => {
            assert_eq!(versioned, "a");
            assert_eq!(legacy, "b");
        }
        _ => panic!("expected both reasons"),
    }
    let v: Result<u8, String> = Ok(1);
    let l: Result<u16, String> = Ok(2);
    assert!(matches!(
        choose_payload(Some(3), v, l),
        Err(SchemaError::NewerVersion { found: 3, current: 1 })
    ));
}
