//! The registry manager: entity store, ownership registry, lineage registry
//! and id allocator, with the `create` / `breed` / `transfer` request
//! handlers.
//!
//! All registry state is owned by a single [`Pallet`] value; every mutation
//! goes through its methods. A request either fully commits or returns an
//! error with the state unchanged.

use vstd::prelude::*;

use crate::combiner::combine;
use crate::combiner::combine_spec;
use crate::kvmap::KvMap;
use crate::migrations::dna_of;
use crate::migrations::join;
use crate::migrations::make_label;
use crate::migrations::make_record;
use crate::migrations::record_len;
use crate::migrations::copy_range;
use crate::migrations::VERSION;

verus! {

/// An entity id: dense, allocated from 0 upwards, never reused.
pub type KittyId = u32;

/// An identity owning entities: an opaque comparable value.
pub type AccountId = u64;

/// A kitty as request handlers see it: its 16-byte genome. The stored record
/// may carry a schema-versioned label in addition; the genome is
/// schema-stable.
#[derive(Debug)]
pub struct Kitty(pub Vec<u8>);

/// Why a request was rejected. Every error leaves the registries unchanged.
#[derive(Clone, Copy, Debug, PartialEq, Eq)]
pub enum Error {
    /// A referenced entity id is absent.
    InvalidKittyId,
    /// Two ids that must differ are equal.
    SameKittyId,
    /// The caller is not the recorded owner.
    NotOwner,
    /// The id counter cannot advance without overflowing.
    IdSpaceExhausted,
}

/// The event a successful request reports to the host's sink.
#[derive(Debug)]
pub enum Event {
    KittyCreated { who: AccountId, kitty_id: KittyId, kitty: Kitty },
    KittyBreed { who: AccountId, kitty_id: KittyId, kitty: Kitty },
    KittyTransferred { who: AccountId, kitty_id: KittyId, to: AccountId },
}

/// The registries and the id allocator, with the recorded schema version of
/// the stored records.
pub struct Pallet {
    pub(crate) next_kitty_id: KittyId,
    pub(crate) version: u32,
    pub(crate) kitties: KvMap<Vec<u8>>,
    pub(crate) kitty_owner: KvMap<AccountId>,
    pub(crate) kitty_parents: KvMap<(KittyId, KittyId)>,
}

impl Pallet {
    /// The id the allocator hands out next.
    pub open(crate) spec fn next_id_spec(&self) -> KittyId {
        self.next_kitty_id
    }

    /// The recorded schema version of the stored records.
    pub open(crate) spec fn version_spec(&self) -> u32 {
        self.version
    }

    /// The entity store: id to encoded record.
    pub open(crate) spec fn kitties_map(&self) -> Map<KittyId, Seq<u8>> {
        self.kitties@
    }

    /// The ownership registry: id to owner.
    pub open(crate) spec fn owners_map(&self) -> Map<KittyId, AccountId> {
        self.kitty_owner@
    }

    /// The lineage registry: id to parent pair, present only for bred
    /// entities.
    pub open(crate) spec fn parents_map(&self) -> Map<KittyId, (KittyId, KittyId)> {
        self.kitty_parents@
    }

    /// Well-formedness, established by `new` and preserved by every method:
    /// the registries' keys are unique; the entity store and the ownership
    /// registry hold exactly the same ids; every lineage entry belongs to a
    /// stored entity and points at stored parents; every stored id lies
    /// strictly below the next id; and every stored record is encoded at the
    /// recorded schema version.
    pub open(crate) spec fn wf(&self) -> bool {
        &&& self.kitties.wf()
        &&& self.kitty_owner.wf()
        &&& self.kitty_parents.wf()
        &&& self.version <= VERSION
        &&& self.kitty_owner@.dom() == self.kitties@.dom()
        &&& forall|id: KittyId| #[trigger]
            self.kitty_parents@.dom().contains(id) ==> self.kitties@.dom().contains(id)
        &&& forall|id: KittyId| #[trigger]
            self.kitty_parents@.dom().contains(id) ==> self.kitties@.dom().contains(
                self.kitty_parents@[id].0,
            ) && self.kitties@.dom().contains(self.kitty_parents@[id].1)
        &&& forall|id: KittyId| #[trigger]
            self.kitties@.dom().contains(id) ==> id < self.next_kitty_id
        &&& forall|id: KittyId| #[trigger]
            self.kitties@.dom().contains(id) ==> self.kitties@[id].len() == record_len(
                self.version as int,
            )
    }

    /// A fresh, empty registry at schema version 0 with no id allocated yet.
    pub fn new() -> (p: Pallet)
        ensures
            p.wf(),
            p.next_id_spec() == 0,
            p.version_spec() == 0,
            p.kitties_map() == Map::<KittyId, Seq<u8>>::empty(),
            p.owners_map() == Map::<KittyId, AccountId>::empty(),
            p.parents_map() == Map::<KittyId, (KittyId, KittyId)>::empty(),
    {
        Pallet {
            next_kitty_id: 0,
            version: 0,
            kitties: KvMap::new(),
            kitty_owner: KvMap::new(),
            kitty_parents: KvMap::new(),
        }
    }

    /// Allocates the next entity id: returns the counter's current value and
    /// advances it by one. Fails with `IdSpaceExhausted`, leaving the counter
    /// unchanged, if advancing would overflow the id space.
    pub fn get_next_id(&mut self) -> (r: Result<KittyId, Error>)
        requires
            old(self).wf(),
        ensures
            final(self).wf(),
            old(self).next_id_spec() == KittyId::MAX ==> r == Err::<KittyId, Error>(
                Error::IdSpaceExhausted,
            ) && *final(self) == *old(self),
            old(self).next_id_spec() < KittyId::MAX ==> {
                &&& r == Ok::<KittyId, Error>(old(self).next_id_spec())
                &&& final(self).next_id_spec() == old(self).next_id_spec() + 1
                &&& final(self).kitties_map() == old(self).kitties_map()
                &&& final(self).owners_map() == old(self).owners_map()
                &&& final(self).parents_map() == old(self).parents_map()
                &&& final(self).version_spec() == old(self).version_spec()
            },
    {
        if self.next_kitty_id == KittyId::MAX {
            return Err(Error::IdSpaceExhausted);
        }
        let current_id = self.next_kitty_id;
        self.next_kitty_id = current_id + 1;
        Ok(current_id)
    }

    /// Creates an entity for `who`. The 16-byte `random` value, drawn by the
    /// host's randomness capability, becomes the genome; the record is
    /// encoded at the recorded schema version; ownership goes to `who`; no
    /// lineage entry is made. Fails only with `IdSpaceExhausted`, leaving the
    /// state unchanged.
    pub fn create(&mut self, who: AccountId, random: &Vec<u8>) -> (r: Result<Event, Error>)
        requires
            old(self).wf(),
            random@.len() == 16,
        ensures
            final(self).wf(),
            old(self).next_id_spec() == KittyId::MAX ==> r == Err::<Event, Error>(
                Error::IdSpaceExhausted,
            ) && *final(self) == *old(self),
            old(self).next_id_spec() < KittyId::MAX ==> {
                &&& (r matches Ok(Event::KittyCreated { who: w, kitty_id, kitty })
                    && w == who
                    && kitty_id == old(self).next_id_spec()
                    && kitty.0@ == random@)
                &&& final(self).next_id_spec() == old(self).next_id_spec() + 1
                &&& final(self).kitties_map() == old(self).kitties_map().insert(
                    old(self).next_id_spec(),
                    make_record(old(self).version_spec() as int, old(self).next_id_spec(), random@),
                )
                &&& final(self).owners_map() == old(self).owners_map().insert(
                    old(self).next_id_spec(),
                    who,
                )
                &&& final(self).parents_map() == old(self).parents_map()
                &&& final(self).version_spec() == old(self).version_spec()
            },
    {
        let kitty_id = match self.get_next_id() {
            Ok(id) => id,
            Err(e) => {
                return Err(e);
            },
        };
        let name = make_label(self.version, kitty_id);
        let rec = join(&name, random);
        proof {
            crate::migrations::lemma_label_len(self.version as int, kitty_id);
            assert(rec@ == make_record(self.version as int, kitty_id, random@));
        }
        self.kitties.insert(kitty_id, rec);
        self.kitty_owner.insert(kitty_id, who);
        let kitty = Kitty(copy_range(random, 0, random.len()));
        proof {
            assert(self.kitty_owner@.dom() =~= self.kitties@.dom());
            assert(kitty.0@ =~= random@);
        }
        Ok(Event::KittyCreated { who, kitty_id, kitty })
    }

    /// Breeds an offspring of the two given entities for `who`. Fails with
    /// `SameKittyId` if the parents are the same id, with `InvalidKittyId` if
    /// either parent is not stored, and with `IdSpaceExhausted` if no id is
    /// left; every failure leaves the state unchanged. On success the
    /// offspring's genome combines the parents' genomes under the 16-byte
    /// random mask, and the parent pair is recorded as the offspring's
    /// lineage.
    pub fn breed(
        &mut self,
        who: AccountId,
        kitty_id_1: KittyId,
        kitty_id_2: KittyId,
        random: &Vec<u8>,
    ) -> (r: Result<Event, Error>)
        requires
            old(self).wf(),
            random@.len() == 16,
        ensures
            final(self).wf(),
            kitty_id_1 == kitty_id_2 ==> r == Err::<Event, Error>(Error::SameKittyId)
                && *final(self) == *old(self),
            kitty_id_1 != kitty_id_2 && !(old(self).kitties_map().dom().contains(kitty_id_1)
                && old(self).kitties_map().dom().contains(kitty_id_2)) ==> r == Err::<Event, Error>(
                Error::InvalidKittyId,
            ) && *final(self) == *old(self),
            kitty_id_1 != kitty_id_2 && old(self).kitties_map().dom().contains(kitty_id_1) && old(
                self,
            ).kitties_map().dom().contains(kitty_id_2) && old(self).next_id_spec() == KittyId::MAX
                ==> r == Err::<Event, Error>(Error::IdSpaceExhausted) && *final(self) == *old(self),
            kitty_id_1 != kitty_id_2 && old(self).kitties_map().dom().contains(kitty_id_1) && old(
                self,
            ).kitties_map().dom().contains(kitty_id_2) && old(self).next_id_spec() < KittyId::MAX
                ==> {
                &&& (r matches Ok(Event::KittyBreed { who: w, kitty_id, kitty })
                    && w == who
                    && kitty_id == old(self).next_id_spec()
                    && kitty.0@ == combine_spec(
                        dna_of(old(self).kitties_map()[kitty_id_1]),
                        dna_of(old(self).kitties_map()[kitty_id_2]),
                        random@,
                    ))
                &&& final(self).next_id_spec() == old(self).next_id_spec() + 1
                &&& final(self).kitties_map() == old(self).kitties_map().insert(
                    old(self).next_id_spec(),
                    make_record(
                        old(self).version_spec() as int,
                        old(self).next_id_spec(),
                        combine_spec(
                            dna_of(old(self).kitties_map()[kitty_id_1]),
                            dna_of(old(self).kitties_map()[kitty_id_2]),
                            random@,
                        ),
                    ),
                )
                &&& final(self).owners_map() == old(self).owners_map().insert(
                    old(self).next_id_spec(),
                    who,
                )
                &&& final(self).parents_map() == old(self).parents_map().insert(
                    old(self).next_id_spec(),
                    (kitty_id_1, kitty_id_2),
                )
                &&& final(self).version_spec() == old(self).version_spec()
            },
    {
        if kitty_id_1 == kitty_id_2 {
            return Err(Error::SameKittyId);
        }
        if !self.kitties.contains_key(kitty_id_1) || !self.kitties.contains_key(kitty_id_2) {
            return Err(Error::InvalidKittyId);
        }
        let dna1 = match self.kitties.get(kitty_id_1) {
            Some(rec) => copy_range(rec, rec.len() - 16, rec.len()),
            None => {
                return Err(Error::InvalidKittyId);
            },
        };
        let dna2 = match self.kitties.get(kitty_id_2) {
            Some(rec) => copy_range(rec, rec.len() - 16, rec.len()),
            None => {
                return Err(Error::InvalidKittyId);
            },
        };
        let kitty_id = match self.get_next_id() {
            Ok(id) => id,
            Err(e) => {
                return Err(e);
            },
        };
        let data = combine(&dna1, &dna2, random);
        let name = make_label(self.version, kitty_id);
        let rec = join(&name, &data);
        proof {
            crate::migrations::lemma_label_len(self.version as int, kitty_id);
            assert(rec@ == make_record(
                self.version as int,
                kitty_id,
                combine_spec(
                    dna_of(old(self).kitties_map()[kitty_id_1]),
                    dna_of(old(self).kitties_map()[kitty_id_2]),
                    random@,
                ),
            ));
        }
        let kitty = Kitty(data);
        self.kitties.insert(kitty_id, rec);
        self.kitty_owner.insert(kitty_id, who);
        self.kitty_parents.insert(kitty_id, (kitty_id_1, kitty_id_2));
        proof {
            assert(self.kitty_owner@.dom() =~= self.kitties@.dom());
        }
        Ok(Event::KittyBreed { who, kitty_id, kitty })
    }

    /// Transfers an entity to `to`. Fails with `InvalidKittyId` if no
    /// ownership record exists for the id, and with `NotOwner` whenever the
    /// caller is not the recorded owner; every failure leaves the state
    /// unchanged. On success `to` becomes the recorded owner.
    pub fn transfer(&mut self, who: AccountId, kitty_id: KittyId, to: AccountId) -> (r: Result<
        Event,
        Error,
    >)
        requires
            old(self).wf(),
        ensures
            final(self).wf(),
            !old(self).owners_map().dom().contains(kitty_id) ==> r == Err::<Event, Error>(
                Error::InvalidKittyId,
            ) && *final(self) == *old(self),
            old(self).owners_map().dom().contains(kitty_id) && old(self).owners_map()[kitty_id]
                != who ==> r == Err::<Event, Error>(Error::NotOwner) && *final(self) == *old(self),
            old(self).owners_map().dom().contains(kitty_id) && old(self).owners_map()[kitty_id]
                == who ==> {
                &&& r == Ok::<Event, Error>(
                    (Event::KittyTransferred { who, kitty_id, to }),
                )
                &&& final(self).owners_map() == old(self).owners_map().insert(kitty_id, to)
                &&& final(self).kitties_map() == old(self).kitties_map()
                &&& final(self).parents_map() == old(self).parents_map()
                &&& final(self).next_id_spec() == old(self).next_id_spec()
                &&& final(self).version_spec() == old(self).version_spec()
            },
    {
        let owner = match self.kitty_owner.get(kitty_id) {
            Some(owner) => *owner,
            None => {
                return Err(Error::InvalidKittyId);
            },
        };
        if owner != who {
            return Err(Error::NotOwner);
        }
        self.kitty_owner.insert(kitty_id, to);
        proof {
            assert(self.kitty_owner@.dom() =~= self.kitties@.dom());
        }
        Ok(Event::KittyTransferred { who, kitty_id, to })
    }

    /// The id the allocator hands out next.
    pub fn next_kitty_id(&self) -> (id: KittyId)
        ensures
            id == self.next_id_spec(),
    {
        self.next_kitty_id
    }

    /// The recorded schema version of the stored records.
    pub fn version(&self) -> (v: u32)
        ensures
            v == self.version_spec(),
    {
        self.version
    }

    /// The genome of the entity stored under `kitty_id`, if any.
    pub fn kitties(&self, kitty_id: KittyId) -> (r: Option<Kitty>)
        requires
            self.wf(),
        ensures
            match r {
                Some(kitty) => self.kitties_map().dom().contains(kitty_id) && kitty.0@ == dna_of(
                    self.kitties_map()[kitty_id],
                ),
                None => !self.kitties_map().dom().contains(kitty_id),
            },
    {
        match self.kitties.get(kitty_id) {
            Some(rec) => Some(Kitty(copy_range(rec, rec.len() - 16, rec.len()))),
            None => None,
        }
    }

    /// The encoded record stored under `kitty_id`, if any.
    pub fn kitty_record(&self, kitty_id: KittyId) -> (r: Option<Vec<u8>>)
        requires
            self.wf(),
        ensures
            match r {
                Some(rec) => self.kitties_map().dom().contains(kitty_id) && rec@
                    == self.kitties_map()[kitty_id],
                None => !self.kitties_map().dom().contains(kitty_id),
            },
    {
        match self.kitties.get(kitty_id) {
            Some(rec) => Some(copy_range(rec, 0, rec.len())),
            None => None,
        }
    }

    /// The owner recorded for `kitty_id`, if any.
    pub fn kitty_owner(&self, kitty_id: KittyId) -> (r: Option<AccountId>)
        requires
            self.wf(),
        ensures
            match r {
                Some(owner) => self.owners_map().dom().contains(kitty_id) && owner
                    == self.owners_map()[kitty_id],
                None => !self.owners_map().dom().contains(kitty_id),
            },
    {
        match self.kitty_owner.get(kitty_id) {
            Some(owner) => Some(*owner),
            None => None,
        }
    }

    /// The parent pair recorded for `kitty_id`: present exactly for bred
    /// entities.
    pub fn kitty_parents(&self, kitty_id: KittyId) -> (r: Option<(KittyId, KittyId)>)
        requires
            self.wf(),
        ensures
            match r {
                Some(parents) => self.parents_map().dom().contains(kitty_id) && parents
                    == self.parents_map()[kitty_id],
                None => !self.parents_map().dom().contains(kitty_id),
            },
    {
        match self.kitty_parents.get(kitty_id) {
            Some(parents) => Some(*parents),
            None => None,
        }
    }

    /// The number of entities stored.
    pub fn kitty_count(&self) -> (n: usize)
        requires
            self.wf(),
        ensures
            n == self.kitties_map().dom().len(),
    {
        self.kitties.len()
    }

    /// Overwrites the id counter, as the host's storage interface allows.
    /// The new value must still exceed every stored id.
    pub fn set_next_kitty_id(&mut self, id: KittyId)
        requires
            old(self).wf(),
            forall|k: KittyId| #[trigger]
                old(self).kitties_map().dom().contains(k) ==> k < id,
        ensures
            final(self).wf(),
            final(self).next_id_spec() == id,
            final(self).kitties_map() == old(self).kitties_map(),
            final(self).owners_map() == old(self).owners_map(),
            final(self).parents_map() == old(self).parents_map(),
            final(self).version_spec() == old(self).version_spec(),
    {
        self.next_kitty_id = id;
        proof {
            assert forall|k: KittyId| #[trigger] self.kitties@.dom().contains(k) implies k < id by {
                assert(old(self).kitties_map().dom().contains(k));
            }
        }
    }
}

/// The allocator's counter strictly exceeds every allocated id, so an id
/// handed out once is never handed out again: each successful `create` or
/// `breed` returns the counter's value, which is strictly greater than every
/// id already stored and not yet stored itself.
pub proof fn lemma_ids_below_next(p: &Pallet)
    requires
        p.wf(),
    ensures
        forall|id: KittyId| #[trigger] p.kitties_map().dom().contains(id) ==> id < p.next_id_spec(),
        !p.kitties_map().dom().contains(p.next_id_spec()),
{
}

/// Ownership closure: an ownership record exists exactly for the ids present
/// in the entity store. Every method keeps this, so it holds after any
/// sequence of requests.
pub proof fn lemma_ownership_closure(p: &Pallet)
    requires
        p.wf(),
    ensures
        p.owners_map().dom() == p.kitties_map().dom(),
{
}

/// Lineage closure: every lineage entry belongs to a stored entity and names
/// parents that are stored. Entities are never deleted, so recorded parents
/// remain present.
pub proof fn lemma_lineage_closed(p: &Pallet)
    requires
        p.wf(),
    ensures
        forall|id: KittyId| #[trigger]
            p.parents_map().dom().contains(id) ==> p.kitties_map().dom().contains(id)
                && p.kitties_map().dom().contains(p.parents_map()[id].0)
                && p.kitties_map().dom().contains(p.parents_map()[id].1),
{
}

} // verus!
