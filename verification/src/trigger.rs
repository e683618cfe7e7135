use crate::assoc::{
    has_key, keys_distinct, lemma_map_of_keys, lemma_map_of_push, lemma_map_of_remove,
    lemma_map_of_update, lemma_map_of_value, map_of,
};
use crate::text::str_equal;
use vstd::prelude::*;

verus! {

/// What the trigger backend needs to disarm a trigger that it armed.
#[derive(Clone, Copy, Debug, PartialEq, Eq, Structural)]
pub enum TriggerHandle {
    /// A job of the timer engine that runs inside the host process, by the
    /// identifier the engine gave it.
    InProcess(u128),
    /// A job of the operating system's scheduler. It is found again by the
    /// name that is derived from the task's identifier.
    OsJob,
}

/// The live triggers, each under the identifier of its task: a task has at
/// most one.
#[derive(Debug)]
pub struct TriggerHandles {
    entries: Vec<(String, TriggerHandle)>,
}

impl View for TriggerHandles {
    type V = Map<Seq<char>, TriggerHandle>;

    open spec fn view(&self) -> Map<Seq<char>, TriggerHandle> {
        map_of(self.pairs())
    }
}

impl TriggerHandles {
    /// The handles with their tasks' identifiers, in the order they came.
    pub closed spec fn pairs(&self) -> Seq<(Seq<char>, TriggerHandle)> {
        self.entries@.map_values(|e: (String, TriggerHandle)| (e.0@, e.1))
    }

    /// Validity: no task has two handles.
    #[verifier::type_invariant]
    pub open spec fn well_formed(&self) -> bool {
        keys_distinct(self.pairs())
    }

    /// No live trigger.
    pub fn new() -> (handles: Self)
        ensures
            handles@ == Map::<Seq<char>, TriggerHandle>::empty(),
    {
        let handles = TriggerHandles { entries: Vec::new() };
        assert(handles.pairs() =~= Seq::empty());
        handles
    }

    fn position(&self, task_id: &str) -> (found: Option<usize>)
        ensures
            match found {
                Some(i) => i < self.pairs().len() && self.pairs()[i as int].0 == task_id@,
                None => !has_key(self.pairs(), task_id@),
            },
    {
        let mut i: usize = 0;
        while i < self.entries.len()
            invariant
                i <= self.entries.len(),
                forall|j: int| 0 <= j < i ==> self.pairs()[j].0 != task_id@,
            decreases self.entries.len() - i,
        {
            if str_equal(self.entries[i].0.as_str(), task_id) {
                return Some(i);
            }
            i += 1;
        }
        None
    }

    /// The handle of the task `task_id`.
    pub fn get(&self, task_id: &str) -> (handle: Option<TriggerHandle>)
        ensures
            handle == (if self@.contains_key(task_id@) {
                Some(self@[task_id@])
            } else {
                None
            }),
    {
        proof {
            use_type_invariant(self);
            lemma_map_of_keys(self.pairs(), task_id@);
        }
        match self.position(task_id) {
            Some(i) => {
                proof {
                    lemma_map_of_value(self.pairs(), i as int);
                }
                Some(self.entries[i].1)
            },
            None => None,
        }
    }

    /// Puts `handle` under `task_id`, in place of a handle that stood there.
    pub fn insert(&mut self, task_id: String, handle: TriggerHandle)
        ensures
            final(self)@ == old(self)@.insert(task_id@, handle),
    {
        proof {
            use_type_invariant(&*self);
        }
        let ghost before = self.pairs();
        let found = self.position(task_id.as_str());
        let mut entries: Vec<(String, TriggerHandle)> = Vec::new();
        std::mem::swap(&mut entries, &mut self.entries);
        match found {
            Some(i) => {
                proof {
                    lemma_map_of_update(before, i as int, handle);
                }
                entries[i] = (task_id, handle);
                assert(entries@.map_values(|e: (String, TriggerHandle)| (e.0@, e.1))
                    =~= before.update(i as int, (task_id@, handle)));
            },
            None => {
                proof {
                    lemma_map_of_push(before, task_id@, handle);
                }
                entries.push((task_id, handle));
                assert(entries@.map_values(|e: (String, TriggerHandle)| (e.0@, e.1))
                    =~= before.push((task_id@, handle)));
            },
        }
        self.entries = entries;
    }

    /// Takes the handle of the task `task_id` out, if there is one.
    pub fn remove(&mut self, task_id: &str) -> (handle: Option<TriggerHandle>)
        ensures
            final(self)@ == old(self)@.remove(task_id@),
            handle == (if old(self)@.contains_key(task_id@) {
                Some(old(self)@[task_id@])
            } else {
                None
            }),
    {
        proof {
            use_type_invariant(&*self);
            lemma_map_of_keys(self.pairs(), task_id@);
        }
        let ghost before = self.pairs();
        match self.position(task_id) {
            Some(i) => {
                proof {
                    lemma_map_of_value(before, i as int);
                    lemma_map_of_remove(before, i as int);
                }
                let mut entries: Vec<(String, TriggerHandle)> = Vec::new();
                std::mem::swap(&mut entries, &mut self.entries);
                let entry = entries.remove(i);
                assert(entries@.map_values(|e: (String, TriggerHandle)| (e.0@, e.1))
                    =~= before.remove(i as int));
                self.entries = entries;
                Some(entry.1)
            },
            None => {
                assert(map_of(before).remove(task_id@) =~= map_of(before));
                None
            },
        }
    }
}

} // verus!
