//! The kitty registry: a monotonic creation counter, a map from a byte-string
//! key ("dna") to a kitty record, and a per-owner, capacity-bounded secondary
//! index from actor identifier to the ordered list of owned dna values.
//!
//! Three quirks of the semantics are kept deliberately and stated exactly in
//! the contracts rather than smoothed over: a repeated dna silently
//! overwrites the stored record, the creation counter and the record
//! insertion are not rolled back when the capacity check rejects a creation,
//! and a transfer persists the sender's reduced index before the receiver's
//! capacity check runs.

use std::collections::HashMap;
use vstd::prelude::*;
use vstd::pervasive::VecAdditionalExecFns;
use crate::gender::{gen_kitty_gender, kitty_gender_of, Gender};
use crate::types::{bytes_eq, clone_bytes, Error, Event, EventView};

verus! {

broadcast use vstd::std_specs::hash::group_hash_axioms, crate::types::lemma_bytes_deep_view;

/// A kitty record. Every field is set at creation; no operation mutates a
/// stored record afterwards, so after a transfer the index, not this record's
/// `owner` field, is what tracks ownership.
#[derive(Clone, Debug)]
pub struct Kitty {
    /// Primary key.
    pub dna: Vec<u8>,
    /// The creator.
    pub owner: u64,
    /// Caller-supplied, opaque to the registry.
    pub price: u32,
    /// Derived once from the dna's length parity.
    pub gender: Gender,
    /// The clock reading the host supplied at creation.
    pub created_at: u64,
}

/// Mathematical counterpart of `Kitty`.
pub ghost struct KittyView {
    pub dna: Seq<u8>,
    pub owner: u64,
    pub price: u32,
    pub gender: Gender,
    pub created_at: u64,
}

impl View for Kitty {
    type V = KittyView;

    open spec fn view(&self) -> KittyView {
        KittyView {
            dna: self.dna@,
            owner: self.owner,
            price: self.price,
            gender: self.gender,
            created_at: self.created_at,
        }
    }
}

impl DeepView for Kitty {
    type V = KittyView;

    open spec fn deep_view(&self) -> KittyView {
        self.view()
    }
}

/// Mathematical state of the kitty registry.
#[verifier::ext_equal]
pub ghost struct KittyRegistryView {
    /// Number of creation attempts that passed the counter guard.
    pub count: int,
    /// The stored records, one per dna.
    pub kitties: Seq<KittyView>,
    /// The owner index: each actor's ordered list of owned dna values.
    pub owners: Map<u64, Seq<Seq<u8>>>,
    /// The event log, oldest first.
    pub events: Seq<EventView>,
    /// The configured per-owner capacity.
    pub limit: int,
}

/// The dna values of a record sequence, in storage order.
pub open spec fn kitty_dnas(kitties: Seq<KittyView>) -> Seq<Seq<u8>> {
    kitties.map(|i: int, k: KittyView| k.dna)
}

/// The record stored under `dna`, if any.
pub open spec fn kitty_lookup(kitties: Seq<KittyView>, dna: Seq<u8>) -> Option<KittyView> {
    match kitty_dnas(kitties).index_of_first(dna) {
        Some(i) => Some(kitties[i]),
        None => None,
    }
}

/// Inserts a record, overwriting the record with the same dna if one exists.
pub open spec fn store_kitty(kitties: Seq<KittyView>, k: KittyView) -> Seq<KittyView> {
    match kitty_dnas(kitties).index_of_first(k.dna) {
        Some(i) => kitties.update(i, k),
        None => kitties.push(k),
    }
}

impl KittyRegistryView {
    /// The state a registry configured with `limit` is constructed in.
    pub open spec fn initial(limit: int) -> Self {
        KittyRegistryView {
            count: 0,
            kitties: Seq::empty(),
            owners: Map::empty(),
            events: Seq::empty(),
            limit,
        }
    }

    /// The index entry of `a`: its stored list, or the empty sequence if it
    /// has none.
    pub open spec fn owned(self, a: u64) -> Seq<Seq<u8>> {
        if self.owners.contains_key(a) {
            self.owners[a]
        } else {
            Seq::empty()
        }
    }

    /// Well-formedness: the counters fit in 32 bits, each dna keys at most one
    /// record, and no index entry exceeds the capacity.
    pub open spec fn wf(self) -> bool {
        &&& 0 <= self.count <= u32::MAX
        &&& 0 <= self.limit <= u32::MAX
        &&& forall|i: int, j: int|
            #![trigger self.kitties[i], self.kitties[j]]
            0 <= i < j < self.kitties.len() ==> self.kitties[i].dna != self.kitties[j].dna
        &&& forall|a: u64|
            #[trigger] self.owners.contains_key(a) ==> self.owners[a].len() <= self.limit
    }
}

/// The state transition of `create_kitty`: a full counter is rejected before
/// any mutation; otherwise the counter is incremented and the record stored
/// (overwriting any record with the same dna) before the capacity check runs,
/// so a rejected creation keeps those two mutations; on success the dna is
/// appended to the caller's index entry and one event is emitted.
pub open spec fn create_kitty_spec(
    s: KittyRegistryView,
    caller: u64,
    dna: Seq<u8>,
    price: u32,
    now: u64,
) -> (KittyRegistryView, Result<(), Error>) {
    if s.count >= u32::MAX {
        (s, Err(Error::StorageOverflow))
    } else {
        let k = KittyView {
            dna,
            owner: caller,
            price,
            gender: kitty_gender_of(dna),
            created_at: now,
        };
        let s1 = KittyRegistryView {
            count: s.count + 1,
            kitties: store_kitty(s.kitties, k),
            ..s
        };
        if s.owned(caller).len() >= s.limit {
            (s1, Err(Error::ExceedLimit))
        } else {
            (
                KittyRegistryView {
                    owners: s1.owners.insert(caller, s.owned(caller).push(dna)),
                    events: s1.events.push(EventView::KittyCreated(dna)),
                    ..s1
                },
                Ok(()),
            )
        }
    }
}

/// The state transition of `transfer_kitty`: a dna absent from the sender's
/// index is rejected before any mutation; otherwise its first occurrence is
/// removed from the sender's entry, which is persisted before the receiver's
/// capacity check runs, so a rejected transfer keeps that removal; on success
/// the dna is appended to the receiver's entry (for a self-transfer, to the
/// already reduced entry) and one event is emitted. The stored record itself,
/// its `owner` field included, is not touched on any path.
pub open spec fn transfer_kitty_spec(
    s: KittyRegistryView,
    sender: u64,
    dna: Seq<u8>,
    receiver: u64,
) -> (KittyRegistryView, Result<(), Error>) {
    let sl = s.owned(sender);
    match sl.index_of_first(dna) {
        None => (s, Err(Error::NotKittyOwner)),
        Some(i) => {
            let s1 = KittyRegistryView { owners: s.owners.insert(sender, sl.remove(i)), ..s };
            if s1.owned(receiver).len() >= s.limit {
                (s1, Err(Error::ExceedLimit))
            } else {
                (
                    KittyRegistryView {
                        owners: s1.owners.insert(receiver, s1.owned(receiver).push(dna)),
                        events: s1.events.push(
                            EventView::KittyTransferred(dna, sender, receiver),
                        ),
                        ..s1
                    },
                    Ok(()),
                )
            }
        },
    }
}

/// If `s[i]` is the first occurrence of `needle`, `index_of_first` finds it.
proof fn lemma_first_index_at(s: Seq<Seq<u8>>, needle: Seq<u8>, i: int)
    requires
        0 <= i < s.len(),
        s[i] == needle,
        forall|j: int| 0 <= j < i ==> s[j] != needle,
    ensures
        s.index_of_first(needle) == Some(i),
{
    s.index_of_first_ensures(needle);
}

/// If `needle` occurs nowhere in `s`, `index_of_first` reports that.
proof fn lemma_first_index_none(s: Seq<Seq<u8>>, needle: Seq<u8>)
    requires
        forall|j: int| 0 <= j < s.len() ==> s[j] != needle,
    ensures
        s.index_of_first(needle) is None,
{
    s.index_of_first_ensures(needle);
}

/// Storing a record preserves well-formedness of the record sequence and
/// makes the record retrievable under its dna without disturbing the others.
pub proof fn lemma_store_kitty(kitties: Seq<KittyView>, k: KittyView)
    requires
        forall|i: int, j: int|
            #![trigger kitties[i], kitties[j]]
            0 <= i < j < kitties.len() ==> kitties[i].dna != kitties[j].dna,
    ensures
        forall|i: int, j: int|
            #![trigger store_kitty(kitties, k)[i], store_kitty(kitties, k)[j]]
            0 <= i < j < store_kitty(kitties, k).len() ==> store_kitty(kitties, k)[i].dna
                != store_kitty(kitties, k)[j].dna,
        kitty_lookup(store_kitty(kitties, k), k.dna) == Some(k),
        forall|d: Seq<u8>|
            d != k.dna ==> #[trigger] kitty_lookup(store_kitty(kitties, k), d) == kitty_lookup(
                kitties,
                d,
            ),
{
    let dnas = kitty_dnas(kitties);
    dnas.index_of_first_ensures(k.dna);
    match dnas.index_of_first(k.dna) {
        Some(i) => {
            let stored = kitties.update(i, k);
            assert(kitty_dnas(stored) =~= dnas);
            lemma_first_index_at(kitty_dnas(stored), k.dna, i);
            assert(dnas[i] == kitties[i].dna);
            assert forall|a: int, b: int| 0 <= a < b < stored.len() implies stored[a].dna
                != stored[b].dna by {
                assert(kitties[a].dna != kitties[b].dna);
            }
            assert forall|d: Seq<u8>| d != k.dna implies #[trigger] kitty_lookup(stored, d)
                == kitty_lookup(kitties, d) by {
                dnas.index_of_first_ensures(d);
            }
        },
        None => {
            let stored = kitties.push(k);
            assert(kitty_dnas(stored) =~= dnas.push(k.dna));
            lemma_first_index_at(kitty_dnas(stored), k.dna, kitties.len() as int);
            assert forall|a: int, b: int| 0 <= a < b < stored.len() implies stored[a].dna
                != stored[b].dna by {
                if b < kitties.len() {
                    assert(kitties[a].dna != kitties[b].dna);
                } else {
                    assert(dnas[a] == kitties[a].dna);
                }
            }
            assert forall|d: Seq<u8>| d != k.dna implies #[trigger] kitty_lookup(stored, d)
                == kitty_lookup(kitties, d) by {
                dnas.index_of_first_ensures(d);
                kitty_dnas(stored).index_of_first_ensures(d);
                match dnas.index_of_first(d) {
                    Some(j) => {
                        lemma_first_index_at(kitty_dnas(stored), d, j);
                    },
                    None => {
                        lemma_first_index_none(kitty_dnas(stored), d);
                    },
                }
            }
        },
    }
}

/// The kitty registry, configured at construction with the per-owner
/// capacity limit.
pub struct KittyRegistry {
    quantity: u32,
    kitties: Vec<Kitty>,
    owners: HashMap<u64, Vec<Vec<u8>>>,
    events: Vec<Event>,
    limit: u32,
}

impl View for KittyRegistry {
    type V = KittyRegistryView;

    closed spec fn view(&self) -> KittyRegistryView {
        KittyRegistryView {
            count: self.quantity as int,
            kitties: self.kitties.deep_view(),
            owners: self.owners@.map_values(|v: Vec<Vec<u8>>| v.deep_view()),
            events: self.events.deep_view(),
            limit: self.limit as int,
        }
    }
}

impl KittyRegistry {
    /// Constructs an empty registry with the given capacity limit.
    pub fn new(limit: u32) -> (r: Self)
        ensures
            r@ == KittyRegistryView::initial(limit as int),
            r@.wf(),
    {
        let r = KittyRegistry {
            quantity: 0,
            kitties: Vec::new(),
            owners: HashMap::new(),
            events: Vec::new(),
            limit,
        };
        proof {
            assert(r@.kitties =~= Seq::<KittyView>::empty());
            assert(r@.events =~= Seq::<EventView>::empty());
            assert(r@.owners =~= Map::<u64, Seq<Seq<u8>>>::empty());
            assert(r@ =~= KittyRegistryView::initial(limit as int));
        }
        r
    }

    /// The number of creation attempts recorded so far.
    pub fn quantity(&self) -> (r: u32)
        ensures
            r == self@.count,
    {
        self.quantity
    }

    /// The configured per-owner capacity limit.
    pub fn kitties_limit(&self) -> (r: u32)
        ensures
            r == self@.limit,
    {
        self.limit
    }

    /// The events emitted so far, oldest first.
    pub fn events(&self) -> (r: &Vec<Event>)
        ensures
            r.deep_view() == self@.events,
    {
        &self.events
    }

    /// Looks the record stored under `dna` up.
    pub fn kitty_from_dna(&self, dna: &Vec<u8>) -> (r: Option<&Kitty>)
        ensures
            match r {
                Some(k) => kitty_lookup(self@.kitties, dna@) == Some(k@),
                None => kitty_lookup(self@.kitties, dna@) is None,
            },
    {
        let mut i: usize = 0;
        while i < self.kitties.len()
            invariant
                i <= self@.kitties.len(),
                self@.kitties.len() == self.kitties@.len(),
                forall|j: int| 0 <= j < i ==> kitty_dnas(self@.kitties)[j] != dna@,
            decreases self@.kitties.len() - i,
        {
            if bytes_eq(&self.kitties[i].dna, dna) {
                proof {
                    assert(kitty_dnas(self@.kitties)[i as int] == dna@);
                    lemma_first_index_at(kitty_dnas(self@.kitties), dna@, i as int);
                }
                return Some(&self.kitties[i]);
            }
            proof {
                assert(kitty_dnas(self@.kitties)[i as int] == self@.kitties[i as int].dna);
            }
            i = i + 1;
        }
        proof {
            lemma_first_index_none(kitty_dnas(self@.kitties), dna@);
        }
        None
    }

    /// The index entry of `who`, if it has one.
    pub fn owner_kitties(&self, who: u64) -> (r: Option<&Vec<Vec<u8>>>)
        ensures
            match r {
                Some(l) => self@.owners.contains_key(who) && l.deep_view() == self@.owned(who),
                None => !self@.owners.contains_key(who),
            },
    {
        self.owners.get(&who)
    }

    /// The length of the index entry of `who`, absent entries counting as
    /// empty.
    fn owned_len(&self, who: u64) -> (n: usize)
        ensures
            n == self@.owned(who).len(),
    {
        match self.owners.get(&who) {
            Some(l) => l.len(),
            None => 0,
        }
    }

    /// Stores `kitty` in the record store, overwriting the record with the
    /// same dna if one exists.
    fn store_record(&mut self, kitty: Kitty)
        ensures
            final(self)@ == (KittyRegistryView {
                kitties: store_kitty(old(self)@.kitties, kitty@),
                ..old(self)@
            }),
    {
        let mut i: usize = 0;
        while i < self.kitties.len()
            invariant
                i <= self.kitties@.len(),
                self == old(self),
                forall|j: int| 0 <= j < i ==> kitty_dnas(self@.kitties)[j] != kitty@.dna,
            decreases self.kitties@.len() - i,
        {
            if bytes_eq(&self.kitties[i].dna, &kitty.dna) {
                proof {
                    assert(kitty_dnas(old(self)@.kitties)[i as int] == kitty@.dna);
                    lemma_first_index_at(kitty_dnas(old(self)@.kitties), kitty@.dna, i as int);
                }
                self.kitties.set(i, kitty);
                proof {
                    assert(self@.kitties =~= old(self)@.kitties.update(i as int, kitty@));
                    assert(self@ =~= (KittyRegistryView {
                        kitties: store_kitty(old(self)@.kitties, kitty@),
                        ..old(self)@
                    }));
                }
                return ;
            }
            proof {
                assert(kitty_dnas(self@.kitties)[i as int] == self@.kitties[i as int].dna);
            }
            i = i + 1;
        }
        proof {
            lemma_first_index_none(kitty_dnas(old(self)@.kitties), kitty@.dna);
        }
        self.kitties.push(kitty);
        proof {
            assert(self@.kitties =~= old(self)@.kitties.push(kitty@));
            assert(self@ =~= (KittyRegistryView {
                kitties: store_kitty(old(self)@.kitties, kitty@),
                ..old(self)@
            }));
        }
    }

    /// Appends `dna` to the index entry of `who`, creating the entry if it is
    /// absent.
    fn append_owned(&mut self, who: u64, dna: Vec<u8>)
        ensures
            final(self)@ == (KittyRegistryView {
                owners: old(self)@.owners.insert(who, old(self)@.owned(who).push(dna@)),
                ..old(self)@
            }),
    {
        let mut list = match self.owners.remove(&who) {
            Some(l) => l,
            None => Vec::new(),
        };
        let ghost mid = list.deep_view();
        proof {
            assert(mid == old(self)@.owned(who));
        }
        list.push(dna);
        proof {
            assert(list.deep_view() =~= mid.push(dna@));
        }
        self.owners.insert(who, list);
        proof {
            assert(self@.owners =~= old(self)@.owners.insert(
                who,
                old(self)@.owned(who).push(dna@),
            ));
            assert(self@ =~= (KittyRegistryView {
                owners: old(self)@.owners.insert(who, old(self)@.owned(who).push(dna@)),
                ..old(self)@
            }));
        }
    }

    /// Removes position `idx` from the index entry of `who` and persists the
    /// reduced entry.
    fn remove_owned_at(&mut self, who: u64, idx: usize)
        requires
            old(self)@.owners.contains_key(who),
            idx < old(self)@.owned(who).len(),
        ensures
            final(self)@ == (KittyRegistryView {
                owners: old(self)@.owners.insert(who, old(self)@.owned(who).remove(idx as int)),
                ..old(self)@
            }),
    {
        let mut list = match self.owners.remove(&who) {
            Some(l) => l,
            None => Vec::new(),
        };
        let ghost mid = list.deep_view();
        proof {
            assert(mid == old(self)@.owned(who));
        }
        list.remove(idx);
        proof {
            assert(list.deep_view() =~= mid.remove(idx as int));
        }
        self.owners.insert(who, list);
        proof {
            assert(self@.owners =~= old(self)@.owners.insert(
                who,
                old(self)@.owned(who).remove(idx as int),
            ));
            assert(self@ =~= (KittyRegistryView {
                owners: old(self)@.owners.insert(
                    who,
                    old(self)@.owned(who).remove(idx as int),
                ),
                ..old(self)@
            }));
        }
    }

    /// Creates a kitty owned by `caller`, keyed by `dna` and stamped with the
    /// clock reading `now`. Follows `create_kitty_spec` exactly.
    pub fn create_kitty(&mut self, caller: u64, dna: Vec<u8>, price: u32, now: u64) -> (r:
        Result<(), Error>)
        requires
            old(self)@.wf(),
        ensures
            final(self)@.wf(),
            (final(self)@, r) == create_kitty_spec(old(self)@, caller, dna@, price, now),
            r != Err::<(), Error>(Error::StorageOverflow) ==> kitty_lookup(
                final(self)@.kitties,
                dna@,
            ) == Some(
                KittyView {
                    dna: dna@,
                    owner: caller,
                    price,
                    gender: kitty_gender_of(dna@),
                    created_at: now,
                },
            ),
    {
        if self.quantity == u32::MAX {
            return Err(Error::StorageOverflow);
        }
        let gender = gen_kitty_gender(&dna);
        let kitty = Kitty {
            dna: clone_bytes(&dna),
            owner: caller,
            price,
            gender,
            created_at: now,
        };
        self.quantity = self.quantity + 1;
        self.store_record(kitty);
        proof {
            lemma_store_kitty(
                old(self)@.kitties,
                KittyView {
                    dna: dna@,
                    owner: caller,
                    price,
                    gender: kitty_gender_of(dna@),
                    created_at: now,
                },
            );
        }
        let cur = self.owned_len(caller);
        if cur >= self.limit as usize {
            proof {
                assert(self@ =~= create_kitty_spec(old(self)@, caller, dna@, price, now).0);
            }
            return Err(Error::ExceedLimit);
        }
        self.append_owned(caller, clone_bytes(&dna));
        self.events.push(Event::KittyCreated(dna));
        proof {
            assert(self@.events =~= create_kitty_spec(
                old(self)@,
                caller,
                dna@,
                price,
                now,
            ).0.events);
            assert(self@ =~= create_kitty_spec(old(self)@, caller, dna@, price, now).0);
        }
        Ok(())
    }

    /// Transfers the kitty keyed by `dna` from `sender`'s index to
    /// `receiver`'s. Follows `transfer_kitty_spec` exactly.
    pub fn transfer_kitty(&mut self, sender: u64, dna: Vec<u8>, receiver: u64) -> (r: Result<
        (),
        Error,
    >)
        requires
            old(self)@.wf(),
        ensures
            final(self)@.wf(),
            (final(self)@, r) == transfer_kitty_spec(old(self)@, sender, dna@, receiver),
    {
        let ghost sl = self@.owned(sender);
        let idx_opt = match self.owners.get(&sender) {
            Some(l) => find_first(l, &dna),
            None => {
                proof {
                    lemma_first_index_none(sl, dna@);
                }
                None
            },
        };
        let idx = match idx_opt {
            Some(i) => i,
            None => {
                return Err(Error::NotKittyOwner);
            },
        };
        proof {
            sl.index_of_first_ensures(dna@);
        }
        self.remove_owned_at(sender, idx);
        let rcur = self.owned_len(receiver);
        if rcur >= self.limit as usize {
            proof {
                assert(self@ =~= transfer_kitty_spec(old(self)@, sender, dna@, receiver).0);
            }
            return Err(Error::ExceedLimit);
        }
        self.append_owned(receiver, clone_bytes(&dna));
        self.events.push(Event::KittyTransferred(dna, sender, receiver));
        proof {
            assert(self@.events =~= transfer_kitty_spec(
                old(self)@,
                sender,
                dna@,
                receiver,
            ).0.events);
            assert(self@ =~= transfer_kitty_spec(old(self)@, sender, dna@, receiver).0);
        }
        Ok(())
    }
}

/// Folds `create_kitty_spec` over a sequence of calls by one actor, each a
/// `(dna, price, now)` triple.
pub open spec fn run_create_kitties(
    s: KittyRegistryView,
    caller: u64,
    calls: Seq<(Seq<u8>, u32, u64)>,
) -> KittyRegistryView
    decreases calls.len(),
{
    if calls.len() == 0 {
        s
    } else {
        run_create_kitties(
            create_kitty_spec(s, caller, calls[0].0, calls[0].1, calls[0].2).0,
            caller,
            calls.drop_first(),
        )
    }
}

/// Holds when every call of the sequence, applied in order, returns `Ok`.
pub open spec fn kitty_creations_all_succeed(
    s: KittyRegistryView,
    caller: u64,
    calls: Seq<(Seq<u8>, u32, u64)>,
) -> bool
    decreases calls.len(),
{
    calls.len() == 0 || {
        let step = create_kitty_spec(s, caller, calls[0].0, calls[0].1, calls[0].2);
        &&& step.1 == Ok::<(), Error>(())
        &&& kitty_creations_all_succeed(step.0, caller, calls.drop_first())
    }
}

/// `create_kitty` preserves well-formedness, on the success path and on every
/// failure path.
pub proof fn lemma_create_kitty_spec_wf(
    s: KittyRegistryView,
    caller: u64,
    dna: Seq<u8>,
    price: u32,
    now: u64,
)
    requires
        s.wf(),
    ensures
        create_kitty_spec(s, caller, dna, price, now).0.wf(),
{
    if s.count < u32::MAX {
        let k = KittyView {
            dna,
            owner: caller,
            price,
            gender: kitty_gender_of(dna),
            created_at: now,
        };
        lemma_store_kitty(s.kitties, k);
    }
}

/// While an actor's index is below capacity and the counter has room, every
/// creation by that actor succeeds, each one growing the index by exactly one
/// entry and the counter by one.
pub proof fn lemma_kitty_creation_fills_to_limit(
    s: KittyRegistryView,
    caller: u64,
    calls: Seq<(Seq<u8>, u32, u64)>,
)
    requires
        s.wf(),
        s.owned(caller).len() + calls.len() <= s.limit,
        s.count + calls.len() <= u32::MAX,
    ensures
        kitty_creations_all_succeed(s, caller, calls),
        run_create_kitties(s, caller, calls).wf(),
        run_create_kitties(s, caller, calls).owned(caller).len() == s.owned(caller).len()
            + calls.len(),
        run_create_kitties(s, caller, calls).count == s.count + calls.len(),
        run_create_kitties(s, caller, calls).limit == s.limit,
    decreases calls.len(),
{
    if calls.len() > 0 {
        let step = create_kitty_spec(s, caller, calls[0].0, calls[0].1, calls[0].2);
        lemma_create_kitty_spec_wf(s, caller, calls[0].0, calls[0].1, calls[0].2);
        assert(step.0.owned(caller) == s.owned(caller).push(calls[0].0));
        lemma_kitty_creation_fills_to_limit(step.0, caller, calls.drop_first());
    }
}

/// A creation by an actor whose index is already at capacity fails with
/// `ExceedLimit`; the counter increment and the record insertion performed
/// before the check are kept, while the index and the event log are not
/// touched.
pub proof fn lemma_create_kitty_at_limit(
    s: KittyRegistryView,
    caller: u64,
    dna: Seq<u8>,
    price: u32,
    now: u64,
)
    requires
        s.owned(caller).len() >= s.limit,
        s.count < u32::MAX,
    ensures
        create_kitty_spec(s, caller, dna, price, now).1 == Err::<(), Error>(Error::ExceedLimit),
        create_kitty_spec(s, caller, dna, price, now).0.count == s.count + 1,
        create_kitty_spec(s, caller, dna, price, now).0.owners == s.owners,
        create_kitty_spec(s, caller, dna, price, now).0.events == s.events,
{
}

/// A transfer of a dna absent from the sender's index fails with
/// `NotKittyOwner` and changes nothing: both actors' index entries, the
/// records, the counter and the event log stay as they were.
pub proof fn lemma_transfer_not_owner(
    s: KittyRegistryView,
    sender: u64,
    dna: Seq<u8>,
    receiver: u64,
)
    requires
        !s.owned(sender).contains(dna),
    ensures
        transfer_kitty_spec(s, sender, dna, receiver) == (
            s,
            Err::<(), Error>(Error::NotKittyOwner),
        ),
{
    s.owned(sender).index_of_first_ensures(dna);
}

/// A transfer of a dna the sender's index holds exactly once, to a distinct
/// receiver whose index is below capacity, succeeds: the dna leaves the
/// sender's entry and is appended to the receiver's, one `KittyTransferred`
/// event is emitted, and a repeated transfer of the same dna by the original
/// sender then fails with `NotKittyOwner`.
pub proof fn lemma_transfer_moves_ownership(
    s: KittyRegistryView,
    sender: u64,
    dna: Seq<u8>,
    receiver: u64,
)
    requires
        s.wf(),
        s.owned(sender).contains(dna),
        forall|i: int, j: int|
            #![trigger s.owned(sender)[i], s.owned(sender)[j]]
            0 <= i < j < s.owned(sender).len() ==> !(s.owned(sender)[i] == dna && s.owned(
                sender,
            )[j] == dna),
        s.owned(receiver).len() < s.limit,
        receiver != sender,
    ensures
        transfer_kitty_spec(s, sender, dna, receiver).1 == Ok::<(), Error>(()),
        transfer_kitty_spec(s, sender, dna, receiver).0.owned(sender).len() == s.owned(
            sender,
        ).len() - 1,
        !transfer_kitty_spec(s, sender, dna, receiver).0.owned(sender).contains(dna),
        transfer_kitty_spec(s, sender, dna, receiver).0.owned(receiver) == s.owned(
            receiver,
        ).push(dna),
        transfer_kitty_spec(s, sender, dna, receiver).0.events == s.events.push(
            EventView::KittyTransferred(dna, sender, receiver),
        ),
        transfer_kitty_spec(
            transfer_kitty_spec(s, sender, dna, receiver).0,
            sender,
            dna,
            receiver,
        ).1 == Err::<(), Error>(Error::NotKittyOwner),
{
    let sl = s.owned(sender);
    sl.index_of_first_ensures(dna);
    let i = sl.index_of_first(dna).unwrap();
    let removed = sl.remove(i);
    assert forall|j: int| 0 <= j < removed.len() implies removed[j] != dna by {
        if j < i {
            assert(removed[j] == sl[j]);
        } else {
            assert(removed[j] == sl[j + 1]);
            assert(!(sl[i] == dna && sl[j + 1] == dna));
        }
    }
    let t = transfer_kitty_spec(s, sender, dna, receiver);
    assert(t.0.owned(sender) == removed);
    lemma_transfer_not_owner(t.0, sender, dna, receiver);
}

/// Finds the first position of `needle` in `list`, by content.
fn find_first(list: &Vec<Vec<u8>>, needle: &Vec<u8>) -> (r: Option<usize>)
    ensures
        match r {
            Some(i) => list.deep_view().index_of_first(needle@) == Some(i as int),
            None => list.deep_view().index_of_first(needle@) is None,
        },
{
    let mut i: usize = 0;
    while i < list.len()
        invariant
            i <= list@.len(),
            forall|j: int| 0 <= j < i ==> list.deep_view()[j] != needle@,
        decreases list@.len() - i,
    {
        if bytes_eq(&list[i], needle) {
            proof {
                assert(list.deep_view()[i as int] == needle@);
                lemma_first_index_at(list.deep_view(), needle@, i as int);
            }
            return Some(i);
        }
        proof {
            assert(list.deep_view()[i as int] == list@[i as int]@);
        }
        i = i + 1;
    }
    proof {
        lemma_first_index_none(list.deep_view(), needle@);
    }
    None
}

} // verus!
