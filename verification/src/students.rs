//! The student registry: a monotonic id counter and a map from id to student
//! record. Ids are allocated sequentially from 0 and never reused, so the
//! record store is kept as a vector indexed by id.

use vstd::prelude::*;
use crate::gender::{gen_gender, student_gender_of, Gender};
use crate::types::{clone_bytes, Error, Event, EventView};

verus! {

/// A student record. Every field is set at creation and never mutated.
#[derive(Clone, Debug)]
pub struct Student {
    /// Primary key, assigned by the registry.
    pub id: u32,
    /// Caller-supplied name, unvalidated for uniqueness or content.
    pub name: Vec<u8>,
    /// Strictly greater than 20 at creation time.
    pub age: u8,
    /// Derived once from the name's length parity.
    pub gender: Gender,
    /// The authenticated creator.
    pub owner: u64,
}

/// Mathematical counterpart of `Student`.
pub ghost struct StudentView {
    pub id: u32,
    pub name: Seq<u8>,
    pub age: u8,
    pub gender: Gender,
    pub owner: u64,
}

impl View for Student {
    type V = StudentView;

    open spec fn view(&self) -> StudentView {
        StudentView {
            id: self.id,
            name: self.name@,
            age: self.age,
            gender: self.gender,
            owner: self.owner,
        }
    }
}

impl DeepView for Student {
    type V = StudentView;

    open spec fn deep_view(&self) -> StudentView {
        self.view()
    }
}

/// Mathematical state of the student registry.
#[verifier::ext_equal]
pub ghost struct StudentRegistryView {
    pub next_id: int,
    pub students: Seq<StudentView>,
    pub events: Seq<EventView>,
}

impl StudentRegistryView {
    /// The state the registry is constructed in.
    pub open spec fn initial() -> Self {
        StudentRegistryView { next_id: 0, students: Seq::empty(), events: Seq::empty() }
    }

    /// Well-formedness: the counter equals the number of stored records, every
    /// record sits at the index of its own id, and the counter fits in 32 bits.
    pub open spec fn wf(self) -> bool {
        &&& 0 <= self.next_id <= u32::MAX
        &&& self.students.len() == self.next_id
        &&& forall|i: int|
            0 <= i < self.students.len() ==> (#[trigger] self.students[i]).id == i
    }
}

/// The state transition of `create_student`: an age of 20 or below is
/// rejected before any mutation; a full counter is rejected before any
/// mutation; otherwise the record is stored under the current counter value
/// with its gender derived from the name, the counter is incremented, and one
/// event is emitted.
pub open spec fn create_student_spec(
    s: StudentRegistryView,
    caller: u64,
    name: Seq<u8>,
    age: u8,
) -> (StudentRegistryView, Result<(), Error>) {
    if age <= 20 {
        (s, Err(Error::TooYoung))
    } else if s.next_id >= u32::MAX {
        (s, Err(Error::StorageOverflow))
    } else {
        let st = StudentView {
            id: s.next_id as u32,
            name,
            age,
            gender: student_gender_of(name),
            owner: caller,
        };
        (
            StudentRegistryView {
                next_id: s.next_id + 1,
                students: s.students.push(st),
                events: s.events.push(EventView::StudentStored(name, age)),
            },
            Ok(()),
        )
    }
}

/// The student registry.
pub struct StudentRegistry {
    next_student_id: u32,
    students: Vec<Student>,
    events: Vec<Event>,
}

impl View for StudentRegistry {
    type V = StudentRegistryView;

    closed spec fn view(&self) -> StudentRegistryView {
        StudentRegistryView {
            next_id: self.next_student_id as int,
            students: self.students.deep_view(),
            events: self.events.deep_view(),
        }
    }
}

impl StudentRegistry {
    /// Constructs an empty registry with the counter at 0.
    pub fn new() -> (r: Self)
        ensures
            r@ == StudentRegistryView::initial(),
            r@.wf(),
    {
        let r = StudentRegistry { next_student_id: 0, students: Vec::new(), events: Vec::new() };
        proof {
            assert(r@.students =~= Seq::<StudentView>::empty());
            assert(r@.events =~= Seq::<EventView>::empty());
            assert(r@ =~= StudentRegistryView::initial());
        }
        r
    }

    /// The id the next successful creation will be stored under.
    pub fn student_id(&self) -> (r: u32)
        ensures
            r == self@.next_id,
    {
        self.next_student_id
    }

    /// Looks a student up by its id.
    pub fn student(&self, id: u32) -> (r: Option<&Student>)
        ensures
            match r {
                Some(st) => id < self@.students.len() && st@ == self@.students[id as int],
                None => id >= self@.students.len(),
            },
    {
        if (id as usize) < self.students.len() {
            Some(&self.students[id as usize])
        } else {
            None
        }
    }

    /// The events emitted so far, oldest first.
    pub fn events(&self) -> (r: &Vec<Event>)
        ensures
            r.deep_view() == self@.events,
    {
        &self.events
    }

    /// Creates a student owned by `caller`, allocating the next id. Follows
    /// `create_student_spec` exactly.
    pub fn create_student(&mut self, caller: u64, name: Vec<u8>, age: u8) -> (r: Result<
        (),
        Error,
    >)
        requires
            old(self)@.wf(),
        ensures
            final(self)@.wf(),
            (final(self)@, r) == create_student_spec(old(self)@, caller, name@, age),
    {
        if age <= 20 {
            return Err(Error::TooYoung);
        }
        if self.next_student_id == u32::MAX {
            return Err(Error::StorageOverflow);
        }
        let gender = match gen_gender(&name) {
            Ok(g) => g,
            Err(e) => {
                return Err(e);
            },
        };
        let id = self.next_student_id;
        let student = Student { id, name: clone_bytes(&name), age, gender, owner: caller };
        self.students.push(student);
        self.next_student_id = id + 1;
        self.events.push(Event::StudentStored(name, age));
        proof {
            let spec_next = create_student_spec(old(self)@, caller, name@, age).0;
            assert(self@.students =~= spec_next.students);
            assert(self@.events =~= spec_next.events);
            assert(self@ =~= spec_next);
        }
        Ok(())
    }
}

/// Folds `create_student_spec` over a sequence of calls, each a
/// `(caller, name, age)` triple.
pub open spec fn run_create_students(
    s: StudentRegistryView,
    calls: Seq<(u64, Seq<u8>, u8)>,
) -> StudentRegistryView
    decreases calls.len(),
{
    if calls.len() == 0 {
        s
    } else {
        run_create_students(
            create_student_spec(s, calls[0].0, calls[0].1, calls[0].2).0,
            calls.drop_first(),
        )
    }
}

/// Holds when every call of the sequence, applied in order, returns `Ok`.
pub open spec fn student_creations_all_succeed(
    s: StudentRegistryView,
    calls: Seq<(u64, Seq<u8>, u8)>,
) -> bool
    decreases calls.len(),
{
    calls.len() == 0 || {
        let step = create_student_spec(s, calls[0].0, calls[0].1, calls[0].2);
        &&& step.1 == Ok::<(), Error>(())
        &&& student_creations_all_succeed(step.0, calls.drop_first())
    }
}

proof fn lemma_run_create_students(s: StudentRegistryView, calls: Seq<(u64, Seq<u8>, u8)>)
    requires
        s.wf(),
        forall|i: int| 0 <= i < calls.len() ==> (#[trigger] calls[i]).2 > 20,
        s.next_id + calls.len() <= u32::MAX,
    ensures
        student_creations_all_succeed(s, calls),
        run_create_students(s, calls).wf(),
        run_create_students(s, calls).next_id == s.next_id + calls.len(),
        forall|i: int|
            0 <= i < s.students.len() ==> run_create_students(s, calls).students[i]
                == s.students[i],
        forall|i: int|
            0 <= i < calls.len() ==> run_create_students(s, calls).students[s.next_id + i]
                == (StudentView {
                id: (s.next_id + i) as u32,
                name: calls[i].1,
                age: calls[i].2,
                gender: student_gender_of(calls[i].1),
                owner: calls[i].0,
            }),
    decreases calls.len(),
{
    if calls.len() == 0 {
    } else {
        let step = create_student_spec(s, calls[0].0, calls[0].1, calls[0].2);
        let rest = calls.drop_first();
        assert(calls[0].2 > 20);
        lemma_run_create_students(step.0, rest);
        assert forall|i: int| 0 <= i < s.students.len() implies run_create_students(
            s,
            calls,
        ).students[i] == s.students[i] by {
            assert(run_create_students(step.0, rest).students[i] == step.0.students[i]);
            assert(step.0.students[i] == s.students[i]);
        }
        assert forall|i: int| 0 <= i < calls.len() implies run_create_students(
            s,
            calls,
        ).students[s.next_id + i] == (StudentView {
            id: (s.next_id + i) as u32,
            name: calls[i].1,
            age: calls[i].2,
            gender: student_gender_of(calls[i].1),
            owner: calls[i].0,
        }) by {
            if i == 0 {
                assert(step.0.students[s.next_id as int] == StudentView {
                    id: s.next_id as u32,
                    name: calls[0].1,
                    age: calls[0].2,
                    gender: student_gender_of(calls[0].1),
                    owner: calls[0].0,
                });
            } else {
                assert(rest[i - 1] == calls[i]);
            }
        }
    }
}

/// After any number of successful creations from the initial state, the
/// counter equals the number of creations, and the student created by the
/// i-th call is retrievable under id i with exactly the fields that call
/// supplied.
pub proof fn lemma_student_creation_sequence(calls: Seq<(u64, Seq<u8>, u8)>)
    requires
        forall|i: int| 0 <= i < calls.len() ==> (#[trigger] calls[i]).2 > 20,
        calls.len() <= u32::MAX,
    ensures
        student_creations_all_succeed(StudentRegistryView::initial(), calls),
        run_create_students(StudentRegistryView::initial(), calls).wf(),
        run_create_students(StudentRegistryView::initial(), calls).next_id == calls.len(),
        forall|i: int|
            0 <= i < calls.len() ==> run_create_students(
                StudentRegistryView::initial(),
                calls,
            ).students[i] == (StudentView {
                id: i as u32,
                name: calls[i].1,
                age: calls[i].2,
                gender: student_gender_of(calls[i].1),
                owner: calls[i].0,
            }),
{
    lemma_run_create_students(StudentRegistryView::initial(), calls);
}

/// A creation with an age of 20 or below fails with `TooYoung` and changes
/// nothing: neither the counter, nor the records, nor the event log.
pub proof fn lemma_create_student_underage(
    s: StudentRegistryView,
    caller: u64,
    name: Seq<u8>,
    age: u8,
)
    requires
        age <= 20,
    ensures
        create_student_spec(s, caller, name, age) == (s, Err::<(), Error>(Error::TooYoung)),
{
}

} // verus!
