//! The layout of the file-backed store: its configuration, and the file
//! names under which records and idempotency keys are kept (each name is
//! the hexadecimal form of the UTF-8 bytes of what it stands for, so any
//! record id or key gives a safe file name).

use vstd::prelude::*;
use crate::config::EngineConfig;
use crate::keys::{hex_key, lemma_unhex_hex_key, scoped_key, spec_hex, spec_scoped_key};
use crate::model::MemoryScope;
use vstd::utf8::encode_utf8;

verus! {

/// Where a file store keeps its data, and the engine configuration it runs.
#[derive(Debug, Clone, PartialEq, Eq)]
pub struct FileStoreConfig {
    pub data_dir: String,
    pub engine_config: EngineConfig,
}

impl FileStoreConfig {
    /// A store in `data_dir` with the default engine configuration.
    pub fn new(data_dir: &str) -> (r: Self)
        ensures
            r.data_dir@ == data_dir@,
            r.engine_config.spec_is_default(),
    {
        FileStoreConfig { data_dir: String::from_str(data_dir), engine_config: EngineConfig::default() }
    }

    /// The same store with another engine configuration.
    pub fn with_engine_config(self, engine_config: EngineConfig) -> (r: Self)
        ensures
            r.data_dir == self.data_dir,
            r.engine_config == engine_config,
    {
        FileStoreConfig { data_dir: self.data_dir, engine_config }
    }
}

/// The directory, under the data directory, that holds the records.
pub const RECORDS_DIR: &'static str = "records";

/// The directory, under the data directory, that holds the idempotency keys.
pub const IDEMPOTENCY_DIR: &'static str = "idempotency";

/// A memory store kept in files under a data directory.
#[derive(Debug, Clone, PartialEq, Eq)]
pub struct FileMemoryStore {
    config: FileStoreConfig,
}

impl FileMemoryStore {
    pub closed spec fn spec_config(&self) -> FileStoreConfig {
        self.config
    }

    /// The store for a configuration whose directories exist.
    pub fn with_config(config: FileStoreConfig) -> (r: Self)
        ensures
            r.spec_config() == config,
    {
        FileMemoryStore { config }
    }

    pub fn config(&self) -> (r: &FileStoreConfig)
        ensures
            *r == self.spec_config(),
    {
        &self.config
    }

    /// The name of the backend.
    pub fn backend_kind(&self) -> (r: &'static str)
        ensures
            r@ == "file"@,
    {
        "file"
    }
}

/// The file, in the records directory, that holds a record.
pub open spec fn spec_record_file_name(record_id: Seq<char>) -> Seq<char> {
    spec_hex(encode_utf8(record_id)) + ".json"@
}

pub fn record_file_name(record_id: &str) -> (r: String)
    ensures
        r@ == spec_record_file_name(record_id@),
{
    let mut name = hex_key(record_id);
    name.append(".json");
    name
}

/// The file, in the idempotency directory, that maps an idempotency key of
/// a scope to its record.
pub open spec fn spec_idempotency_file_name(scope: MemoryScope, key: Seq<char>) -> Seq<char> {
    spec_hex(encode_utf8(spec_scoped_key(scope, key))) + ".txt"@
}

pub fn idempotency_file_name(scope: &MemoryScope, key: &str) -> (r: String)
    ensures
        r@ == spec_idempotency_file_name(*scope, key@),
{
    let scoped = scoped_key(scope, key);
    let mut name = hex_key(scoped.as_str());
    name.append(".txt");
    name
}


proof fn lemma_strip_suffix(a: Seq<char>, b: Seq<char>, suffix: Seq<char>)
    requires
        a + suffix == b + suffix,
    ensures
        a == b,
{
    assert((a + suffix).len() == a.len() + suffix.len());
    assert((b + suffix).len() == b.len() + suffix.len());
    assert(a.len() == b.len());
    assert forall|i: int| 0 <= i < a.len() implies a[i] == b[i] by {
        assert((a + suffix)[i] == a[i]);
        assert((b + suffix)[i] == b[i]);
    }
    assert(a =~= b);
}

/// Distinct records never share a file: the file name of a record gives
/// back its id.
pub proof fn lemma_record_files_are_distinct(a: Seq<char>, b: Seq<char>)
    requires
        a != b,
    ensures
        spec_record_file_name(a) != spec_record_file_name(b),
{
    if spec_record_file_name(a) == spec_record_file_name(b) {
        lemma_strip_suffix(spec_hex(encode_utf8(a)), spec_hex(encode_utf8(b)), ".json"@);
        lemma_unhex_hex_key(a);
        lemma_unhex_hex_key(b);
    }
}

/// Distinct scoped keys never share a mapping file.
pub proof fn lemma_mapping_files_are_distinct(s1: MemoryScope, k1: Seq<char>, s2: MemoryScope, k2: Seq<char>)
    requires
        spec_scoped_key(s1, k1) != spec_scoped_key(s2, k2),
    ensures
        spec_idempotency_file_name(s1, k1) != spec_idempotency_file_name(s2, k2),
{
    if spec_idempotency_file_name(s1, k1) == spec_idempotency_file_name(s2, k2) {
        lemma_strip_suffix(
            spec_hex(encode_utf8(spec_scoped_key(s1, k1))),
            spec_hex(encode_utf8(spec_scoped_key(s2, k2))),
            ".txt"@,
        );
        lemma_unhex_hex_key(spec_scoped_key(s1, k1));
        lemma_unhex_hex_key(spec_scoped_key(s2, k2));
    }
}

} // verus!
