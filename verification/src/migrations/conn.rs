//! The migration dispatcher: walks every upgrade step between the recorded
//! schema version and the compiled-in target [`VERSION`], in order, and
//! advances the recorded version one step at a time. A step that cannot
//! decode a record performs no rewrite and the recorded version is not
//! advanced past it, so the pipeline stays safely re-runnable.

use vstd::prelude::*;

use crate::kvmap::KvMap;
use crate::migrations::copy_range;
use crate::migrations::migrate_store;
use crate::migrations::record_len;
use crate::migrations::step_store;
use crate::migrations::VERSION;
use crate::pallet::Pallet;

verus! {

/// An unlabelled record decoded, as schema version 0 stored it: the 16-byte
/// genome alone.
pub struct OldKitty(pub Vec<u8>);

impl OldKitty {
    /// The genome is 16 bytes.
    pub open spec fn wf(&self) -> bool {
        self.0@.len() == 16
    }

    /// Encodes the record: the genome bytes alone.
    pub fn encode(&self) -> (r: Vec<u8>)
        requires
            self.wf(),
        ensures
            r@ == self.0@,
    {
        copy_range(&self.0, 0, self.0.len())
    }

    /// Decodes a 16-byte unlabelled record; any other length is not a record
    /// of this shape.
    pub fn decode(rec: &Vec<u8>) -> (r: Option<OldKitty>)
        ensures
            match r {
                Some(kitty) => rec@.len() == 16 && kitty.wf() && kitty.0@ == rec@,
                None => rec@.len() != 16,
            },
    {
        if rec.len() != 16 {
            return None;
        }
        Some(OldKitty(copy_range(rec, 0, rec.len())))
    }
}

/// Runs the migration pipeline on the registry: every upgrade step from the
/// recorded schema version up to the target [`VERSION`], in order. Re-encodes
/// every stored record and nothing else: ids, ownership, lineage and the id
/// counter are untouched, and no entity is dropped or duplicated. Running the
/// pipeline when the recorded version is already the target rewrites nothing.
/// The returned weight is an accounting metric for the host — the number of
/// record rewrites performed, saturating.
pub fn migrate(p: &mut Pallet) -> (weight: u64)
    requires
        old(p).wf(),
    ensures
        final(p).wf(),
        final(p).version_spec() == VERSION,
        final(p).kitties_map() == migrate_store(
            old(p).version_spec() as int,
            old(p).kitties_map(),
        ),
        final(p).kitties_map().dom() == old(p).kitties_map().dom(),
        final(p).owners_map() == old(p).owners_map(),
        final(p).parents_map() == old(p).parents_map(),
        final(p).next_id_spec() == old(p).next_id_spec(),
        old(p).version_spec() == VERSION ==> final(p).kitties_map() == old(p).kitties_map(),
{
    let mut weight: u64 = 0;
    #[verifier::loop_isolation(false)]
    while p.version < VERSION
        invariant
            p.wf(),
            migrate_store(old(p).version_spec() as int, old(p).kitties_map()) == migrate_store(
                p.version as int,
                p.kitties@,
            ),
            p.kitties@.dom() == old(p).kitties_map().dom(),
            p.kitty_owner@ == old(p).owners_map(),
            p.kitty_parents@ == old(p).parents_map(),
            p.next_kitty_id == old(p).next_id_spec(),
        decreases VERSION - p.version,
    {
        let r = if p.version == 0 {
            crate::migrations::v0::upgrade_v0(&p.kitties)
        } else if p.version == 1 {
            crate::migrations::v1::upgrade_v1(&p.kitties)
        } else {
            crate::migrations::kittyv2::migrate(&p.kitties)
        };
        match r {
            Some((out, w)) => {
                proof {
                    assert(out@ == step_store(p.version as int, p.kitties@));
                    assert(out@.dom() =~= p.kitties@.dom());
                    assert(migrate_store(p.version as int, p.kitties@) == migrate_store(
                        p.version as int + 1,
                        out@,
                    ));
                }
                p.kitties = out;
                p.version = p.version + 1;
                weight = if weight <= u64::MAX - w {
                    weight + w
                } else {
                    u64::MAX
                };
                proof {
                    assert forall|id: u32| #[trigger] p.kitties@.dom().contains(id) implies p.kitties@[id].len()
                        == record_len(p.version as int) by {
                        assert(old(p).kitties_map().dom().contains(id));
                    }
                }
            },
            None => {
                proof {
                    // every stored record is encoded at the recorded version,
                    // so no step can meet a record it cannot decode
                    assert(false);
                }
                return weight;
            },
        }
    }
    weight
}

} // verus!
