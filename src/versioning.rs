//! Schema versions of stored documents: tagging, the migration chain, and the
//! decision of how a document that was read is brought to the current version.
use vstd::prelude::*;

verus! {

/// The schema version that this library writes.
pub const CURRENT_VERSION: u32 = 1;

/// A payload with the schema version it is written in.
pub struct VersionedData<T> {
    pub version: u32,
    pub data: T,
}

impl<T> VersionedData<T> {
    pub fn new(version: u32, data: T) -> (r: VersionedData<T>)
        ensures
            r.version == version,
            r.data == data,
    {
        VersionedData { version, data }
    }

    /// Tags a payload with the current version, as every save does.
    pub fn current(data: T) -> (r: VersionedData<T>)
        ensures
            r.version == CURRENT_VERSION,
            r.data == data,
    {
        VersionedData { version: CURRENT_VERSION, data }
    }
}

/// A payload brought to the current version.
pub enum MigrationResult<T> {
    /// It was at the current version already.
    Current(T),
    /// It was migrated from this older version.
    Migrated(T, u32),
}

/// Why a stored document could not be loaded.
#[derive(Debug)]
pub enum SchemaError {
    /// The document is newer than this library: nothing of it is dropped silently.
    NewerVersion { found: u64, current: u32 },
    /// No migration leads from one version to the next.
    MissingMigration { from: u32, to: u32 },
    /// A migration does not take documents of this version.
    StepRejected { from: u32 },
    /// The document reads neither as a versioned document nor in the legacy
    /// shape; both reasons are kept.
    Unreadable { versioned: String, legacy: String },
}

/// One step of the migration chain: it turns a document into the next version.
pub trait Migration<T> {
    /// The version that this step produces.
    spec fn target(&self) -> u32;

    /// What this step makes of a payload of version `from`, if it takes it.
    spec fn step(&self, from: u32, data: T) -> Option<T>;

    fn target_version(&self) -> (r: u32)
        ensures
            r == self.target(),
    ;

    fn migrate(&self, from_version: u32, data: T) -> (r: Result<T, SchemaError>)
        ensures
            match self.step(from_version, data) {
                Some(d) => r == Ok::<T, SchemaError>(d),
                None => r matches Err(SchemaError::StepRejected { from }) && from == from_version,
            },
    ;
}

/// The position of the first step that produces `target`, from `i` on.
pub open spec fn step_from<T, M: Migration<T>>(ms: Seq<M>, target: u32, i: int) -> Option<int>
    decreases ms.len() - i,
{
    if i < 0 || i >= ms.len() {
        None
    } else if ms[i].target() == target {
        Some(i)
    } else {
        step_from::<T, M>(ms, target, i + 1)
    }
}

/// Applies, from `version` on, the step that produces each next version until
/// the current one.
pub open spec fn run_chain<T, M: Migration<T>>(ms: Seq<M>, version: u32, data: T) -> Result<
    T,
    SchemaError,
>
    decreases CURRENT_VERSION - version,
{
    if version >= CURRENT_VERSION {
        Ok(data)
    } else {
        match step_from::<T, M>(ms, (version + 1) as u32, 0) {
            None => Err(SchemaError::MissingMigration { from: version, to: (version + 1) as u32 }),
            Some(i) => match ms[i].step(version, data) {
                None => Err(SchemaError::StepRejected { from: version }),
                Some(d) => run_chain::<T, M>(ms, (version + 1) as u32, d),
            },
        }
    }
}

/// What loading a versioned payload gives.
pub open spec fn migrated<T, M: Migration<T>>(v: VersionedData<T>, ms: Seq<M>) -> Result<
    MigrationResult<T>,
    SchemaError,
> {
    if v.version == CURRENT_VERSION {
        Ok(MigrationResult::Current(v.data))
    } else if v.version > CURRENT_VERSION {
        Err(SchemaError::NewerVersion { found: v.version as u64, current: CURRENT_VERSION })
    } else {
        match run_chain::<T, M>(ms, v.version, v.data) {
            Ok(d) => Ok(MigrationResult::Migrated(d, v.version)),
            Err(e) => Err(e),
        }
    }
}

fn find_step<T, M: Migration<T>>(migrations: &[M], target: u32) -> (r: Option<usize>)
    ensures
        match r {
            Some(i) => step_from::<T, M>(migrations@, target, 0) == Some(i as int) && i
                < migrations@.len(),
            None => step_from::<T, M>(migrations@, target, 0) is None,
        },
{
    let mut i: usize = 0;
    while i < migrations.len()
        invariant
            i <= migrations@.len(),
            step_from::<T, M>(migrations@, target, 0) == step_from::<T, M>(migrations@, target, i as int),
        decreases migrations@.len() - i,
    {
        if migrations[i].target_version() == target {
            return Some(i);
        }
        i = i + 1;
    }
    None
}

/// Brings a payload to the current version with the steps of `migrations`:
/// a newer payload is refused, and a gap in the chain is an error.
pub fn migrate_to_current<T, M: Migration<T>>(versioned: VersionedData<T>, migrations: &[M]) -> (r: Result<
    MigrationResult<T>,
    SchemaError,
>)
    ensures
        r == migrated::<T, M>(versioned, migrations@),
{
    let from = versioned.version;
    if from == CURRENT_VERSION {
        return Ok(MigrationResult::Current(versioned.data));
    }
    if from > CURRENT_VERSION {
        return Err(SchemaError::NewerVersion { found: from as u64, current: CURRENT_VERSION });
    }
    let ghost start = versioned.data;
    let mut data = versioned.data;
    let mut version = from;
    while version < CURRENT_VERSION
        invariant
            from <= version <= CURRENT_VERSION,
            from < CURRENT_VERSION,
            versioned.version == from,
            versioned.data == start,
            run_chain::<T, M>(migrations@, from, start) == run_chain::<T, M>(
                migrations@,
                version,
                data,
            ),
        decreases CURRENT_VERSION - version,
    {
        let next = version + 1;
        let i = match find_step(migrations, next) {
            Some(i) => i,
            None => {
                return Err(SchemaError::MissingMigration { from: version, to: next });
            },
        };
        data = match migrations[i].migrate(version, data) {
            Ok(d) => d,
            Err(e) => {
                return Err(e);
            },
        };
        version = next;
    }
    Ok(MigrationResult::Migrated(data, from))
}

/// The version that a stored document declares: none is the legacy shape, which
/// is version 0.
pub open spec fn declared(tag: Option<u64>) -> Result<u32, SchemaError> {
    match tag {
        None => Ok(0),
        Some(v) => if v <= CURRENT_VERSION {
            Ok(v as u32)
        } else {
            Err(SchemaError::NewerVersion { found: v, current: CURRENT_VERSION })
        },
    }
}

/// Reads the version tag of a stored document, before its payload is read in the
/// shape of that version.
pub fn declared_version(tag: Option<u64>) -> (r: Result<u32, SchemaError>)
    ensures
        r == declared(tag),
{
    match tag {
        None => Ok(0),
        Some(v) => if v <= CURRENT_VERSION as u64 {
            Ok(v as u32)
        } else {
            Err(SchemaError::NewerVersion { found: v, current: CURRENT_VERSION })
        },
    }
}

/// What loading a payload read with version tag `tag` gives: a missing tag is
/// the legacy shape, which is version 0.
pub open spec fn loaded_with_fallback<T, M: Migration<T>>(tag: Option<u64>, data: T, ms: Seq<M>) -> Result<
    MigrationResult<T>,
    SchemaError,
> {
    match declared(tag) {
        Ok(v) => migrated::<T, M>(VersionedData { version: v, data }, ms),
        Err(e) => Err(e),
    }
}

/// Brings a payload read with version tag `tag` to the current version; a
/// payload without a tag is taken as version 0 and migrated from there.
pub fn load_and_migrate_with_fallback<T, M: Migration<T>>(
    tag: Option<u64>,
    data: T,
    migrations: &[M],
) -> (r: Result<MigrationResult<T>, SchemaError>)
    ensures
        r == loaded_with_fallback::<T, M>(tag, data, migrations@),
{
    match declared_version(tag) {
        Ok(version) => migrate_to_current(VersionedData::new(version, data), migrations),
        Err(e) => Err(e),
    }
}

/// The payload of a stored document, in the shape it was read in.
pub enum Payload<V, L> {
    /// Read as a versioned document.
    Versioned(V),
    /// Read in the legacy shape, which has no version.
    Legacy(L),
}

/// Which reading of a stored document to keep, given its version tag and the
/// outcome of reading it in each shape: a newer version is refused; the
/// versioned reading wins; else the legacy one; where neither read, both
/// reasons are kept.
pub open spec fn chosen<V, L>(
    tag: Option<u64>,
    versioned: Result<V, String>,
    legacy: Result<L, String>,
) -> Result<(Option<u64>, Payload<V, L>), SchemaError> {
    match declared(tag) {
        Err(e) => Err(e),
        Ok(_) => match (versioned, legacy) {
            (Ok(v), _) => Ok((tag, Payload::Versioned(v))),
            (Err(_), Ok(l)) => Ok((None, Payload::Legacy(l))),
            (Err(ve), Err(le)) => Err(SchemaError::Unreadable { versioned: ve, legacy: le }),
        },
    }
}

/// Picks the reading of a stored document to load, and the version tag that
/// goes with it.
pub fn choose_payload<V, L>(
    tag: Option<u64>,
    versioned: Result<V, String>,
    legacy: Result<L, String>,
) -> (r: Result<(Option<u64>, Payload<V, L>), SchemaError>)
    ensures
        r == chosen(tag, versioned, legacy),
{
    match declared_version(tag) {
        Err(e) => Err(e),
        Ok(_) => match (versioned, legacy) {
            (Ok(v), _) => Ok((tag, Payload::Versioned(v))),
            (Err(_), Ok(l)) => Ok((None, Payload::Legacy(l))),
            (Err(ve), Err(le)) => Err(SchemaError::Unreadable { versioned: ve, legacy: le }),
        },
    }
}

pub open spec fn loaded<T>(r: MigrationResult<T>) -> (T, Option<u32>) {
    match r {
        MigrationResult::Current(d) => (d, None),
        MigrationResult::Migrated(d, v) => (d, Some(v)),
    }
}

impl<T> MigrationResult<T> {
    /// The payload, and the version it was migrated from, if it was.
    pub fn into_loaded(self) -> (r: (T, Option<u32>))
        ensures
            r == loaded(self),
    {
        match self {
            MigrationResult::Current(d) => (d, None),
            MigrationResult::Migrated(d, v) => (d, Some(v)),
        }
    }

    /// A migrated document is written back at once in the current format.
    pub fn needs_write_back(&self) -> (r: bool)
        ensures
            r == self is Migrated,
    {
        match self {
            MigrationResult::Current(_) => false,
            MigrationResult::Migrated(..) => true,
        }
    }
}

/// A payload saved at the current version loads back unchanged and unmigrated.
pub proof fn lemma_save_then_load<T, M: Migration<T>>(data: T, ms: Seq<M>)
    ensures
        declared(Some(CURRENT_VERSION as u64)) == Ok::<u32, SchemaError>(CURRENT_VERSION),
        migrated::<T, M>(VersionedData { version: CURRENT_VERSION, data }, ms) == Ok::<
            MigrationResult<T>,
            SchemaError,
        >(MigrationResult::Current(data)),
        loaded(MigrationResult::Current(data)) == (data, None::<u32>),
{
}

/// A document that declares a version newer than this library's is refused with
/// a schema error naming that version.
pub proof fn lemma_newer_version_refused<T, M: Migration<T>>(v: u64, data: T, ms: Seq<M>)
    requires
        v > CURRENT_VERSION,
    ensures
        declared(Some(v)) == Err::<u32, SchemaError>(
            SchemaError::NewerVersion { found: v, current: CURRENT_VERSION },
        ),
        v <= u32::MAX ==> migrated::<T, M>(VersionedData { version: v as u32, data }, ms) == Err::<
            MigrationResult<T>,
            SchemaError,
        >(SchemaError::NewerVersion { found: v, current: CURRENT_VERSION }),
{
}

} // verus!
