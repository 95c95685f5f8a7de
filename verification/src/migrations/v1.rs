//! The upgrade step from schema version 1 to schema version 2: every
//! 29-byte record keeps its genome and has its 13-byte label rewritten to
//! the version-2 default. Every record is re-inserted: the step never drops
//! an entity.

use vstd::prelude::*;

use crate::kvmap::KvMap;
use crate::migrations::copy_range;
use crate::migrations::dna_of;
use crate::migrations::join;
use crate::migrations::make_label;
use crate::migrations::step_rec;
use crate::migrations::step_store;

verus! {

/// A labelled record decoded: a 13-byte name and the 16-byte genome.
pub struct Kitty {
    pub name: Vec<u8>,
    pub dna: Vec<u8>,
}

impl Kitty {
    /// A 13-byte name and a 16-byte genome.
    pub open spec fn wf(&self) -> bool {
        self.name@.len() == 13 && self.dna@.len() == 16
    }

    /// Encodes the record: the name bytes, then the genome bytes.
    pub fn encode(&self) -> (r: Vec<u8>)
        requires
            self.wf(),
        ensures
            r@ == self.name@ + self.dna@,
    {
        join(&self.name, &self.dna)
    }

    /// Decodes a 29-byte labelled record; any other length is not a record
    /// of this shape.
    pub fn decode(rec: &Vec<u8>) -> (r: Option<Kitty>)
        ensures
            match r {
                Some(kitty) => rec@.len() == 29 && kitty.wf() && kitty.name@ == rec@.subrange(
                    0,
                    13,
                ) && kitty.dna@ == rec@.subrange(13, 29),
                None => rec@.len() != 29,
            },
    {
        if rec.len() != 29 {
            return None;
        }
        Some(Kitty { name: copy_range(rec, 0, 13), dna: copy_range(rec, 13, 29) })
    }
}

/// Rewrites every version-1 record to the version-2 encoding: the genome is
/// kept and the label becomes the version-2 default. Returns the upgraded
/// store and the number of records rewritten as the step's weight, or `None`
/// — rewriting nothing — if some record is not a version-1 record.
pub fn upgrade_v1(store: &KvMap<Vec<u8>>) -> (r: Option<(KvMap<Vec<u8>>, u64)>)
    requires
        store.wf(),
    ensures
        match r {
            Some(out) => out.0.wf() && out.0@ == step_store(1, store@) && out.1
                == store@.dom().len(),
            None => !(forall|k: u32| #[trigger]
                store@.dom().contains(k) ==> store@[k].len() == 29),
        },
{
    let ks = store.keys();
    let mut out: KvMap<Vec<u8>> = KvMap::new();
    let mut i: usize = 0;
    #[verifier::loop_isolation(false)]
    while i < ks.len()
        invariant
            0 <= i <= ks@.len(),
            out.wf(),
            forall|k: u32| #[trigger]
                out@.dom().contains(k) <==> exists|j: int| 0 <= j < i && ks@[j] == k,
            forall|j: int|
                0 <= j < i ==> out@[#[trigger] ks@[j]] == step_rec(1, ks@[j], store@[ks@[j]]),
        decreases ks@.len() - i,
    {
        let k = ks[i];
        proof {
            assert(ks@.contains(k));
        }
        let rec = match store.get(k) {
            Some(rec) => rec,
            None => {
                proof {
                    assert(false);
                }
                return None;
            },
        };
        let old_kitty = match Kitty::decode(rec) {
            Some(old_kitty) => old_kitty,
            None => {
                return None;
            },
        };
        let name = make_label(2, k);
        let new_kitty = Kitty { name, dna: old_kitty.dna };
        let new_rec = new_kitty.encode();
        proof {
            assert(dna_of(store@[k]) =~= new_kitty.dna@);
            assert(new_rec@ == step_rec(1, k, store@[k]));
            assert(ks@[i as int] == k);
        }
        out.insert(k, new_rec);
        i = i + 1;
    }
    proof {
        assert forall|k: u32| #[trigger] store@.dom().contains(k) implies out@.dom().contains(
            k,
        ) by {
            assert(ks@.contains(k));
            let j = choose|j: int| 0 <= j < ks@.len() && ks@[j] == k;
            assert(exists|j: int| 0 <= j < i && ks@[j] == k);
        }
        assert forall|k: u32| #[trigger] out@.dom().contains(k) implies store@.dom().contains(
            k,
        ) by {
            let j = choose|j: int| 0 <= j < i && ks@[j] == k;
            assert(ks@.contains(k));
        }
        assert forall|k: u32| #[trigger] out@.dom().contains(k) implies out@[k] == step_rec(
            1,
            k,
            store@[k],
        ) by {
            let j = choose|j: int| 0 <= j < i && ks@[j] == k;
        }
        assert(out@ =~= step_store(1, store@));
    }
    let weight = ks.len() as u64;
    Some((out, weight))
}

} // verus!
