//! Shared types of the two registries: the error taxonomy, the event
//! notifications, and small byte-vector utilities used for the byte-string
//! keys.

use vstd::prelude::*;

verus! {

/// The failure kinds an operation can report. Every error is returned
/// synchronously to the caller; none is fatal to the registry.
#[derive(Clone, Copy, Debug, PartialEq, Eq, Structural)]
pub enum Error {
    /// Student age was 20 or below; reported before any mutation.
    TooYoung,
    /// A counter would wrap past its representable range; reported before any
    /// mutation.
    StorageOverflow,
    /// A transfer was requested by an actor whose index does not hold the key;
    /// reported before any mutation.
    NotKittyOwner,
    /// An owner index is already at capacity.
    ExceedLimit,
}

/// Typed notifications appended to a registry's event log after the
/// corresponding successful mutation. The host drains the log and owns
/// delivery.
#[derive(Clone, Debug, PartialEq, Eq)]
pub enum Event {
    StudentStored(Vec<u8>, u8),
    KittyCreated(Vec<u8>),
    KittyTransferred(Vec<u8>, u64, u64),
}

/// Mathematical counterpart of `Event`, with byte vectors abstracted to
/// sequences.
pub ghost enum EventView {
    StudentStored(Seq<u8>, u8),
    KittyCreated(Seq<u8>),
    KittyTransferred(Seq<u8>, u64, u64),
}

impl View for Event {
    type V = EventView;

    open spec fn view(&self) -> EventView {
        match self {
            Event::StudentStored(name, age) => EventView::StudentStored(name@, *age),
            Event::KittyCreated(dna) => EventView::KittyCreated(dna@),
            Event::KittyTransferred(dna, from, to) => EventView::KittyTransferred(
                dna@,
                *from,
                *to,
            ),
        }
    }
}

impl DeepView for Event {
    type V = EventView;

    open spec fn deep_view(&self) -> EventView {
        self.view()
    }
}

/// The deep view of a byte vector is its view.
pub broadcast proof fn lemma_bytes_deep_view(v: Vec<u8>)
    ensures
        #[trigger] v.deep_view() == v@,
{
    assert(v.deep_view() =~= v@);
}

/// Copies a byte vector.
pub fn clone_bytes(v: &Vec<u8>) -> (r: Vec<u8>)
    ensures
        r@ == v@,
{
    let mut r: Vec<u8> = Vec::new();
    let mut i: usize = 0;
    while i < v.len()
        invariant
            i <= v@.len(),
            r@ == v@.subrange(0, i as int),
        decreases v@.len() - i,
    {
        r.push(v[i]);
        proof {
            assert(r@ =~= v@.subrange(0, i + 1));
        }
        i = i + 1;
    }
    proof {
        assert(r@ =~= v@);
    }
    r
}

/// Compares two byte vectors for equality of their contents.
pub fn bytes_eq(a: &Vec<u8>, b: &Vec<u8>) -> (r: bool)
    ensures
        r == (a@ == b@),
{
    if a.len() != b.len() {
        return false;
    }
    let mut i: usize = 0;
    while i < a.len()
        invariant
            a@.len() == b@.len(),
            i <= a@.len(),
            forall|j: int| 0 <= j < i ==> a@[j] == b@[j],
        decreases a@.len() - i,
    {
        if a[i] != b[i] {
            return false;
        }
        i = i + 1;
    }
    proof {
        assert(a@ =~= b@);
    }
    true
}

} // verus!
