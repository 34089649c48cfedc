//! The two stored documents, presets and settings, and their migrations.
//!
//! A presets document is `{"version": n, "presets": [...]}`; before versions
//! existed it was a bare array. A settings document holds `version` beside the
//! settings' own fields; before versions it was the bare object. Both legacy
//! shapes carry the same content as version 1, so each first step keeps the
//! payload as it is.
use vstd::prelude::*;

use crate::models::Preset;
use crate::persistence::AppConfig;
use crate::versioning::{
    load_and_migrate_with_fallback, loaded, loaded_with_fallback, run_chain, step_from, Migration,
    SchemaError, CURRENT_VERSION,
};

verus! {

/// The presets document at the current version.
pub struct VersionedPresets {
    pub version: u32,
    pub presets: Vec<Preset>,
}

impl VersionedPresets {
    pub fn new(presets: Vec<Preset>) -> (r: VersionedPresets)
        ensures
            r.version == CURRENT_VERSION,
            r.presets == presets,
    {
        VersionedPresets { version: CURRENT_VERSION, presets }
    }
}

/// The settings document at the current version.
pub struct VersionedAppConfig {
    pub version: u32,
    pub config: AppConfig,
}

impl VersionedAppConfig {
    pub fn new(config: AppConfig) -> (r: VersionedAppConfig)
        ensures
            r.version == CURRENT_VERSION,
            r.config == config,
    {
        VersionedAppConfig { version: CURRENT_VERSION, config }
    }
}

/// From the bare presets array to version 1.
pub struct PresetMigrationV0ToV1;

impl Migration<Vec<Preset>> for PresetMigrationV0ToV1 {
    open spec fn target(&self) -> u32 {
        1
    }

    open spec fn step(&self, from: u32, data: Vec<Preset>) -> Option<Vec<Preset>> {
        if from == 0 {
            Some(data)
        } else {
            None
        }
    }

    fn target_version(&self) -> (r: u32) {
        1
    }

    fn migrate(&self, from_version: u32, data: Vec<Preset>) -> (r: Result<Vec<Preset>, SchemaError>) {
        if from_version == 0 {
            Ok(data)
        } else {
            Err(SchemaError::StepRejected { from: from_version })
        }
    }
}

/// From the bare settings object to version 1.
pub struct ConfigMigrationV0ToV1;

impl Migration<AppConfig> for ConfigMigrationV0ToV1 {
    open spec fn target(&self) -> u32 {
        1
    }

    open spec fn step(&self, from: u32, data: AppConfig) -> Option<AppConfig> {
        if from == 0 {
            Some(data)
        } else {
            None
        }
    }

    fn target_version(&self) -> (r: u32) {
        1
    }

    fn migrate(&self, from_version: u32, data: AppConfig) -> (r: Result<AppConfig, SchemaError>) {
        if from_version == 0 {
            Ok(data)
        } else {
            Err(SchemaError::StepRejected { from: from_version })
        }
    }
}

pub open spec fn preset_steps() -> Seq<PresetMigrationV0ToV1> {
    seq![PresetMigrationV0ToV1]
}

pub open spec fn config_steps() -> Seq<ConfigMigrationV0ToV1> {
    seq![ConfigMigrationV0ToV1]
}

fn get_preset_migrations() -> (r: Vec<PresetMigrationV0ToV1>)
    ensures
        r@ == preset_steps(),
{
    let mut v = Vec::new();
    v.push(PresetMigrationV0ToV1);
    assert(v@ =~= preset_steps());
    v
}

fn get_config_migrations() -> (r: Vec<ConfigMigrationV0ToV1>)
    ensures
        r@ == config_steps(),
{
    let mut v = Vec::new();
    v.push(ConfigMigrationV0ToV1);
    assert(v@ =~= config_steps());
    v
}

pub open spec fn presets_loaded(tag: Option<u64>, presets: Vec<Preset>) -> Result<
    (Vec<Preset>, Option<u32>),
    SchemaError,
> {
    match loaded_with_fallback::<Vec<Preset>, PresetMigrationV0ToV1>(tag, presets, preset_steps()) {
        Ok(m) => Ok(loaded(m)),
        Err(e) => Err(e),
    }
}

pub open spec fn config_loaded(tag: Option<u64>, config: AppConfig) -> Result<
    (AppConfig, Option<u32>),
    SchemaError,
> {
    match loaded_with_fallback::<AppConfig, ConfigMigrationV0ToV1>(tag, config, config_steps()) {
        Ok(m) => Ok(loaded(m)),
        Err(e) => Err(e),
    }
}

/// Brings presets read with version tag `tag` (none for a legacy bare array)
/// to the current version; also gives the version they were migrated from, if
/// they were.
pub fn load_presets(tag: Option<u64>, presets: Vec<Preset>) -> (r: Result<
    (Vec<Preset>, Option<u32>),
    SchemaError,
>)
    ensures
        r == presets_loaded(tag, presets),
{
    let migrations = get_preset_migrations();
    match load_and_migrate_with_fallback(tag, presets, migrations.as_slice()) {
        Ok(m) => Ok(m.into_loaded()),
        Err(e) => Err(e),
    }
}

/// Brings settings read with version tag `tag` (none for a legacy bare object)
/// to the current version; also gives the version they were migrated from, if
/// they were.
pub fn load_config(tag: Option<u64>, config: AppConfig) -> (r: Result<
    (AppConfig, Option<u32>),
    SchemaError,
>)
    ensures
        r == config_loaded(tag, config),
{
    let migrations = get_config_migrations();
    match load_and_migrate_with_fallback(tag, config, migrations.as_slice()) {
        Ok(m) => Ok(m.into_loaded()),
        Err(e) => Err(e),
    }
}

/// A legacy presets document, which has no version, loads with its presets
/// unchanged as migrated from version 0; saved again at the current version,
/// it loads unmigrated.
pub proof fn lemma_legacy_presets_migrate(presets: Vec<Preset>)
    ensures
        presets_loaded(None, presets) == Ok::<(Vec<Preset>, Option<u32>), SchemaError>(
            (presets, Some(0u32)),
        ),
        presets_loaded(Some(CURRENT_VERSION as u64), presets) == Ok::<(Vec<Preset>, Option<u32>), SchemaError>(
            (presets, None),
        ),
{
    assert(step_from::<Vec<Preset>, PresetMigrationV0ToV1>(preset_steps(), 1, 0) == Some(0int));
    assert(run_chain::<Vec<Preset>, PresetMigrationV0ToV1>(preset_steps(), 1, presets) == Ok::<
        Vec<Preset>,
        SchemaError,
    >(presets));
}

/// A legacy settings document loads unchanged as migrated from version 0;
/// saved again at the current version, it loads unmigrated.
pub proof fn lemma_legacy_config_migrates(config: AppConfig)
    ensures
        config_loaded(None, config) == Ok::<(AppConfig, Option<u32>), SchemaError>(
            (config, Some(0u32)),
        ),
        config_loaded(Some(CURRENT_VERSION as u64), config) == Ok::<(AppConfig, Option<u32>), SchemaError>(
            (config, None),
        ),
{
    assert(step_from::<AppConfig, ConfigMigrationV0ToV1>(config_steps(), 1, 0) == Some(0int));
    assert(run_chain::<AppConfig, ConfigMigrationV0ToV1>(config_steps(), 1, config) == Ok::<
        AppConfig,
        SchemaError,
    >(config));
}

} // verus!
