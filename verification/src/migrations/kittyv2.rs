//! The upgrade step from schema version 2 to schema version 3: every
//! 29-byte record shrinks to a 24-byte record whose 8-byte label holds fixed
//! marker bytes combined with the low byte of the entity id. Only the genome
//! of the old record is kept; its label is replaced.

use vstd::prelude::*;

use crate::kvmap::KvMap;
use crate::migrations::copy_range;
use crate::migrations::dna_of;
use crate::migrations::join;
use crate::migrations::make_label;
use crate::migrations::step_rec;
use crate::migrations::step_store;

verus! {

/// What this step keeps of a version-2 record: the 16-byte genome alone.
pub struct OldKitty(pub Vec<u8>);

impl OldKitty {
    /// The genome is 16 bytes.
    pub open spec fn wf(&self) -> bool {
        self.0@.len() == 16
    }

    /// Decodes the genome out of a 29-byte version-2 record, dropping its
    /// label; any other length is not a record of that shape.
    pub fn decode(rec: &Vec<u8>) -> (r: Option<OldKitty>)
        ensures
            match r {
                Some(kitty) => rec@.len() == 29 && kitty.wf() && kitty.0@ == dna_of(rec@),
                None => rec@.len() != 29,
            },
    {
        if rec.len() != 29 {
            return None;
        }
        Some(OldKitty(copy_range(rec, 13, 29)))
    }
}

/// A version-3 record decoded: an 8-byte name and the 16-byte genome.
pub struct Kitty {
    pub name: Vec<u8>,
    pub dna: Vec<u8>,
}

impl Kitty {
    /// An 8-byte name and a 16-byte genome.
    pub open spec fn wf(&self) -> bool {
        self.name@.len() == 8 && self.dna@.len() == 16
    }

    /// Encodes the record: the name bytes, then the genome bytes.
    pub fn encode(&self) -> (r: Vec<u8>)
        requires
            self.wf(),
        ensures
            r@ == self.name@ + self.dna@,
    {
        join(&self.name, &self.dna)
    }
}

/// Rewrites every version-2 record to the version-3 encoding: the genome is
/// kept and the new 8-byte label is filled with its deterministic default.
/// Returns the upgraded store and the number of records rewritten as the
/// step's weight, or `None` — rewriting nothing — if some record is not a
/// version-2 record.
pub fn migrate(store: &KvMap<Vec<u8>>) -> (r: Option<(KvMap<Vec<u8>>, u64)>)
    requires
        store.wf(),
    ensures
        match r {
            Some(out) => out.0.wf() && out.0@ == step_store(2, store@) && out.1
                == store@.dom().len(),
            None => !(forall|k: u32| #[trigger]
                store@.dom().contains(k) ==> store@[k].len() == 29),
        },
{
    let ks = store.keys();
    let mut out: KvMap<Vec<u8>> = KvMap::new();
    let mut i: usize = 0;
    #[verifier::loop_isolation(false)]
    while i < ks.len()
        invariant
            0 <= i <= ks@.len(),
            out.wf(),
            forall|k: u32| #[trigger]
                out@.dom().contains(k) <==> exists|j: int| 0 <= j < i && ks@[j] == k,
            forall|j: int|
                0 <= j < i ==> out@[#[trigger] ks@[j]] == step_rec(2, ks@[j], store@[ks@[j]]),
        decreases ks@.len() - i,
    {
        let k = ks[i];
        proof {
            assert(ks@.contains(k));
        }
        let rec = match store.get(k) {
            Some(rec) => rec,
            None => {
                proof {
                    assert(false);
                }
                return None;
            },
        };
        let old_kitty = match OldKitty::decode(rec) {
            Some(old_kitty) => old_kitty,
            None => {
                return None;
            },
        };
        let name = make_label(3, k);
        let new_kitty = Kitty { name, dna: old_kitty.0 };
        let new_rec = new_kitty.encode();
        proof {
            assert(new_rec@ == step_rec(2, k, store@[k]));
            assert(ks@[i as int] == k);
        }
        out.insert(k, new_rec);
        i = i + 1;
    }
    proof {
        assert forall|k: u32| #[trigger] store@.dom().contains(k) implies out@.dom().contains(
            k,
        ) by {
            assert(ks@.contains(k));
            let j = choose|j: int| 0 <= j < ks@.len() && ks@[j] == k;
            assert(exists|j: int| 0 <= j < i && ks@[j] == k);
        }
        assert forall|k: u32| #[trigger] out@.dom().contains(k) implies store@.dom().contains(
            k,
        ) by {
            let j = choose|j: int| 0 <= j < i && ks@[j] == k;
            assert(ks@.contains(k));
        }
        assert forall|k: u32| #[trigger] out@.dom().contains(k) implies out@[k] == step_rec(
            2,
            k,
            store@[k],
        ) by {
            let j = choose|j: int| 0 <= j < i && ks@[j] == k;
        }
        assert(out@ =~= step_store(2, store@));
    }
    let weight = ks.len() as u64;
    Some((out, weight))
}

} // verus!
