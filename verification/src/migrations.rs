//! The schema-migration pipeline over the kitty store's record encoding.
//!
//! A stored record is a byte string: an optional fixed-size label followed by
//! the 16-byte genome. The genome is schema-stable; only the label's size and
//! content change between schema versions:
//!
//! - version 0: no label, 16 bytes in all;
//! - version 1: a 13-byte label `"v0_ketty_id_0"`, 29 bytes in all;
//! - version 2: a 13-byte label `"v1_ketty_id_1"`, 29 bytes in all;
//! - version 3: an 8-byte label `[0, 0, 0, 1, 0, 0, 0, low byte of the id]`,
//!   24 bytes in all.
//!
//! Each upgrade step rewrites every record from one version's encoding to the
//! next and fills the label with that version's deterministic default. The
//! dispatcher in [`conn`] walks every version between the recorded one and
//! the compiled-in target [`VERSION`] in order.

use vstd::prelude::*;

pub mod conn;
pub mod kittyv2;
pub mod v0;
pub mod v1;

verus! {

/// The schema version the code is compiled for: the pipeline's target.
pub const VERSION: u32 = 3;

/// The byte length of a stored record at a schema version.
pub open spec fn record_len(version: int) -> int {
    16 + label_width(version)
}

/// The byte length of the label a schema version carries.
pub open spec fn label_width(version: int) -> int {
    if version <= 0 {
        0
    } else if version <= 2 {
        13
    } else {
        8
    }
}

/// The deterministic default label a schema version gives a record, keyed by
/// the entity id for versions whose label embeds it.
pub open spec fn label(version: int, id: u32) -> Seq<u8> {
    if version <= 0 {
        Seq::empty()
    } else if version == 1 {
        seq![
            0x76u8, 0x30u8, 0x5fu8, 0x6bu8, 0x65u8, 0x74u8, 0x74u8, 0x79u8, 0x5fu8, 0x69u8,
            0x64u8, 0x5fu8, 0x30u8,
        ]
    } else if version == 2 {
        seq![
            0x76u8, 0x31u8, 0x5fu8, 0x6bu8, 0x65u8, 0x74u8, 0x74u8, 0x79u8, 0x5fu8, 0x69u8,
            0x64u8, 0x5fu8, 0x31u8,
        ]
    } else {
        seq![0u8, 0u8, 0u8, 1u8, 0u8, 0u8, 0u8, (id % 256) as u8]
    }
}

/// The default label of a schema version has that version's label width.
pub proof fn lemma_label_len(version: int, id: u32)
    ensures
        label(version, id).len() == label_width(version),
{
}

/// A record at a schema version: that version's default label, then the genome.
pub open spec fn make_record(version: int, id: u32, dna: Seq<u8>) -> Seq<u8> {
    label(version, id) + dna
}

/// The genome bytes of a record: its last 16 bytes.
pub open spec fn dna_of(rec: Seq<u8>) -> Seq<u8> {
    rec.subrange(rec.len() - 16, rec.len() as int)
}

/// What one upgrade step makes of a record stored at `version`: the next
/// version's default label over the record's genome.
pub open spec fn step_rec(version: int, id: u32, rec: Seq<u8>) -> Seq<u8> {
    make_record(version + 1, id, dna_of(rec))
}

/// What one upgrade step makes of the whole store at `version`.
pub open spec fn step_store(version: int, store: Map<u32, Seq<u8>>) -> Map<u32, Seq<u8>> {
    Map::new(
        |k: u32| store.dom().contains(k),
        |k: u32| step_rec(version, k, store[k]),
    )
}

/// The store after the pipeline has walked every step from `version` up to
/// the target [`VERSION`]. At or past the target, nothing is rewritten.
pub open spec fn migrate_store(version: int, store: Map<u32, Seq<u8>>) -> Map<u32, Seq<u8>>
    decreases VERSION - version,
{
    if version < 0 || version >= VERSION {
        store
    } else {
        migrate_store(version + 1, step_store(version, store))
    }
}

/// Running the pipeline is idempotent: a store the pipeline has brought to
/// the target version is returned unchanged by a second run.
pub proof fn lemma_migrate_idempotent(version: int, store: Map<u32, Seq<u8>>)
    ensures
        migrate_store(VERSION as int, migrate_store(version, store)) == migrate_store(
            version,
            store,
        ),
{
}

/// The pipeline never drops or duplicates an entity: the ids stored after it
/// runs are exactly the ids stored before.
pub proof fn lemma_migrate_preserves_ids(version: int, store: Map<u32, Seq<u8>>)
    ensures
        migrate_store(version, store).dom() == store.dom(),
    decreases VERSION - version,
{
    if 0 <= version < VERSION {
        lemma_migrate_preserves_ids(version + 1, step_store(version, store));
        assert(step_store(version, store).dom() =~= store.dom());
        assert(migrate_store(version, store).dom() =~= store.dom());
    }
}

/// Copies `rec[start..end]` into a fresh vector.
pub(crate) fn copy_range(rec: &Vec<u8>, start: usize, end: usize) -> (r: Vec<u8>)
    requires
        start <= end <= rec@.len(),
    ensures
        r@ == rec@.subrange(start as int, end as int),
{
    let mut r: Vec<u8> = Vec::new();
    let mut i: usize = start;
    #[verifier::loop_isolation(false)]
    while i < end
        invariant
            start <= i <= end,
            r@.len() == i - start,
            forall|j: int| 0 <= j < r@.len() ==> r@[j] == rec@[start + j],
        decreases end - i,
    {
        r.push(rec[i]);
        i = i + 1;
    }
    proof {
        assert(r@ =~= rec@.subrange(start as int, end as int));
    }
    r
}

/// Concatenates two byte vectors into a fresh one.
pub(crate) fn join(a: &Vec<u8>, b: &Vec<u8>) -> (r: Vec<u8>)
    ensures
        r@ == a@ + b@,
{
    let mut r: Vec<u8> = Vec::new();
    let mut i: usize = 0;
    #[verifier::loop_isolation(false)]
    while i < a.len()
        invariant
            0 <= i <= a@.len(),
            r@ =~= a@.subrange(0, i as int),
        decreases a@.len() - i,
    {
        r.push(a[i]);
        i = i + 1;
    }
    let mut j: usize = 0;
    #[verifier::loop_isolation(false)]
    while j < b.len()
        invariant
            0 <= j <= b@.len(),
            r@ =~= a@ + b@.subrange(0, j as int),
        decreases b@.len() - j,
    {
        r.push(b[j]);
        j = j + 1;
    }
    proof {
        assert(r@ =~= a@ + b@);
    }
    r
}

/// Builds the default label of a schema version for an entity id.
pub(crate) fn make_label(version: u32, id: u32) -> (r: Vec<u8>)
    ensures
        r@ == label(version as int, id),
{
    let mut r: Vec<u8> = Vec::new();
    if version == 0 {
        proof {
            assert(r@ =~= label(0, id));
        }
    } else if version == 1 {
        r.push(0x76);
        r.push(0x30);
        r.push(0x5f);
        r.push(0x6b);
        r.push(0x65);
        r.push(0x74);
        r.push(0x74);
        r.push(0x79);
        r.push(0x5f);
        r.push(0x69);
        r.push(0x64);
        r.push(0x5f);
        r.push(0x30);
        proof {
            assert(r@ =~= label(1, id));
        }
    } else if version == 2 {
        r.push(0x76);
        r.push(0x31);
        r.push(0x5f);
        r.push(0x6b);
        r.push(0x65);
        r.push(0x74);
        r.push(0x74);
        r.push(0x79);
        r.push(0x5f);
        r.push(0x69);
        r.push(0x64);
        r.push(0x5f);
        r.push(0x31);
        proof {
            assert(r@ =~= label(2, id));
        }
    } else {
        r.push(0);
        r.push(0);
        r.push(0);
        r.push(1);
        r.push(0);
        r.push(0);
        r.push(0);
        r.push((id % 256) as u8);
        proof {
            assert(r@ =~= label(version as int, id));
        }
    }
    r
}

} // verus!
