use crate::models::{TaskInfo, TaskInfoView, TaskStatus};
use crate::text::str_equal;
use vstd::prelude::*;

verus! {

/// No task identifier occurs twice among `records`.
pub open spec fn ids_distinct(records: Seq<TaskInfoView>) -> bool {
    forall|i: int, j: int| 0 <= i < j < records.len() ==> records[i].task_id != records[j].task_id
}

/// Some record of `records` has the identifier `task_id`.
pub open spec fn has_task(records: Seq<TaskInfoView>, task_id: Seq<char>) -> bool {
    exists|i: int| 0 <= i < records.len() && #[trigger] records[i].task_id == task_id
}

/// The place of the record with the identifier `task_id`, where there is one.
pub open spec fn task_index(records: Seq<TaskInfoView>, task_id: Seq<char>) -> int {
    choose|i: int| 0 <= i < records.len() && #[trigger] records[i].task_id == task_id
}

/// The status of the task `task_id`, if `records` hold it.
pub open spec fn status_of(records: Seq<TaskInfoView>, task_id: Seq<char>) -> Option<TaskStatus> {
    if has_task(records, task_id) {
        Some(records[task_index(records, task_id)].status)
    } else {
        None
    }
}

/// `records` after the status `requested` was asked for the task `task_id`:
/// the task takes the step where it is known and the step is allowed, and
/// nothing changes otherwise.
pub open spec fn request_status(
    records: Seq<TaskInfoView>,
    task_id: Seq<char>,
    requested: TaskStatus,
) -> Seq<TaskInfoView> {
    if has_task(records, task_id) {
        let i = task_index(records, task_id);
        records.update(i, records[i].with_status(records[i].status.after(requested)))
    } else {
        records
    }
}

/// `after` is a later state of `before`: each record of `before` is still in
/// its place, changed in nothing but its status, and its status is one that
/// the earlier status may reach.
pub open spec fn evolves_to(before: Seq<TaskInfoView>, after: Seq<TaskInfoView>) -> bool {
    &&& before.len() <= after.len()
    &&& forall|i: int|
        0 <= i < before.len() ==> {
            &&& #[trigger] after[i] == before[i].with_status(after[i].status)
            &&& before[i].status.may_reach(after[i].status)
        }
}

/// Among distinct identifiers, the record at `i` is the one its identifier
/// finds.
pub proof fn lemma_task_index(records: Seq<TaskInfoView>, i: int)
    requires
        ids_distinct(records),
        0 <= i < records.len(),
    ensures
        has_task(records, records[i].task_id),
        task_index(records, records[i].task_id) == i,
{
    assert(records[i].task_id == records[i].task_id);
    let j = task_index(records, records[i].task_id);
    if j < i {
        assert(records[j].task_id != records[i].task_id);
    } else if i < j {
        assert(records[i].task_id != records[j].task_id);
    }
}

/// A state is a later state of itself.
pub proof fn lemma_evolves_reflexive(records: Seq<TaskInfoView>)
    ensures
        evolves_to(records, records),
{
}

/// A later state of a later state is a later state.
pub proof fn lemma_evolves_transitive(
    first: Seq<TaskInfoView>,
    second: Seq<TaskInfoView>,
    third: Seq<TaskInfoView>,
)
    requires
        evolves_to(first, second),
        evolves_to(second, third),
    ensures
        evolves_to(first, third),
{
    assert forall|i: int| 0 <= i < first.len() implies {
        &&& #[trigger] third[i] == first[i].with_status(third[i].status)
        &&& first[i].status.may_reach(third[i].status)
    } by {
        assert(second[i] == first[i].with_status(second[i].status));
        assert(third[i] == second[i].with_status(third[i].status));
    }
}

/// Asking for a status leads to a later state, and keeps identifiers
/// distinct.
pub proof fn lemma_request_evolves(
    records: Seq<TaskInfoView>,
    task_id: Seq<char>,
    requested: TaskStatus,
)
    ensures
        evolves_to(records, request_status(records, task_id, requested)),
        request_status(records, task_id, requested).len() == records.len(),
        ids_distinct(records) ==> ids_distinct(request_status(records, task_id, requested)),
        forall|other: Seq<char>|
            has_task(request_status(records, task_id, requested), other) == has_task(
                records,
                other,
            ),
{
    let after = request_status(records, task_id, requested);
    assert forall|i: int| 0 <= i < records.len() implies #[trigger] after[i].task_id
        == records[i].task_id by {}
    if ids_distinct(records) {
        assert forall|i: int, j: int| 0 <= i < j < after.len() implies after[i].task_id
            != after[j].task_id by {
            assert(after[i].task_id == records[i].task_id);
            assert(after[j].task_id == records[j].task_id);
        }
    }
    assert forall|other: Seq<char>| has_task(after, other) == has_task(records, other) by {
        if has_task(after, other) {
            let i = task_index(after, other);
            assert(records[i].task_id == other);
        }
        if has_task(records, other) {
            let i = task_index(records, other);
            assert(after[i].task_id == other);
        }
    }
}

/// In every later state a terminal status is what it was, and a task that has
/// left `Scheduled` has not returned to it.
pub proof fn lemma_evolved_status(
    before: Seq<TaskInfoView>,
    after: Seq<TaskInfoView>,
    task_id: Seq<char>,
)
    requires
        ids_distinct(before),
        ids_distinct(after),
        evolves_to(before, after),
        has_task(before, task_id),
    ensures
        has_task(after, task_id),
        status_of(before, task_id).unwrap().is_terminal() ==> status_of(after, task_id)
            == status_of(before, task_id),
        status_of(before, task_id) != Some(TaskStatus::Scheduled) ==> status_of(after, task_id)
            != Some(TaskStatus::Scheduled),
{
    let i = task_index(before, task_id);
    assert(after[i] == before[i].with_status(after[i].status));
    assert(after[i].task_id == task_id);
    lemma_task_index(after, i);
}

/// The tasks that were scheduled, each under its own identifier, in the order
/// in which they came.
#[derive(Debug)]
pub struct TaskRegistry {
    tasks: Vec<TaskInfo>,
}

impl View for TaskRegistry {
    type V = Seq<TaskInfoView>;

    closed spec fn view(&self) -> Seq<TaskInfoView> {
        self.tasks@.map_values(|t: TaskInfo| t@)
    }
}

impl TaskRegistry {
    /// Validity: no identifier occurs twice.
    #[verifier::type_invariant]
    pub open spec fn well_formed(&self) -> bool {
        ids_distinct(self@)
    }

    /// A registry without tasks.
    pub fn new() -> (registry: Self)
        ensures
            registry@ == Seq::<TaskInfoView>::empty(),
    {
        let registry = TaskRegistry { tasks: Vec::new() };
        assert(registry@ =~= Seq::empty());
        registry
    }

    /// The number of tasks.
    pub fn len(&self) -> (n: usize)
        ensures
            n == self@.len(),
    {
        self.tasks.len()
    }

    /// Where the task `task_id` stands, if it is known.
    fn position(&self, task_id: &str) -> (found: Option<usize>)
        ensures
            match found {
                Some(i) => i < self@.len() && self@[i as int].task_id == task_id@ && has_task(
                    self@,
                    task_id@,
                ) && task_index(self@, task_id@) == i,
                None => !has_task(self@, task_id@),
            },
    {
        proof {
            use_type_invariant(self);
        }
        let mut i: usize = 0;
        while i < self.tasks.len()
            invariant
                i <= self.tasks.len(),
                ids_distinct(self@),
                forall|j: int| 0 <= j < i ==> self@[j].task_id != task_id@,
            decreases self.tasks.len() - i,
        {
            if str_equal(self.tasks[i].task_id.as_str(), task_id) {
                proof {
                    lemma_task_index(self@, i as int);
                }
                return Some(i);
            }
            i += 1;
        }
        None
    }

    /// Whether the task `task_id` is known.
    pub fn contains(&self, task_id: &str) -> (known: bool)
        ensures
            known == has_task(self@, task_id@),
    {
        self.position(task_id).is_some()
    }

    /// The record of the task `task_id`.
    pub fn get(&self, task_id: &str) -> (record: Option<&TaskInfo>)
        ensures
            match record {
                Some(r) => has_task(self@, task_id@) && r@ == self@[task_index(self@, task_id@)],
                None => !has_task(self@, task_id@),
            },
    {
        match self.position(task_id) {
            Some(i) => Some(&self.tasks[i]),
            None => None,
        }
    }

    /// The status of the task `task_id`.
    pub fn status(&self, task_id: &str) -> (status: Option<TaskStatus>)
        ensures
            status == status_of(self@, task_id@),
    {
        match self.position(task_id) {
            Some(i) => Some(self.tasks[i].status),
            None => None,
        }
    }

    /// Adds a record under an identifier that no task has yet.
    pub fn insert(&mut self, record: TaskInfo)
        requires
            !has_task(old(self)@, record.task_id@),
        ensures
            final(self)@ == old(self)@.push(record@),
            evolves_to(old(self)@, final(self)@),
    {
        proof {
            use_type_invariant(&*self);
        }
        let ghost before = self@;
        let ghost added = record@;
        let mut tasks: Vec<TaskInfo> = Vec::new();
        std::mem::swap(&mut tasks, &mut self.tasks);
        tasks.push(record);
        proof {
            let after = tasks@.map_values(|t: TaskInfo| t@);
            assert(after =~= before.push(added));
            assert forall|i: int, j: int| 0 <= i < j < after.len() implies after[i].task_id
                != after[j].task_id by {
                if j == before.len() {
                    assert(before[i].task_id != added.task_id);
                }
            }
        }
        self.tasks = tasks;
    }

    /// Asks for the status `new_status` for the task `task_id`. The task takes
    /// the step where it is allowed; an unknown task, or a step that is not
    /// allowed, changes nothing. Says whether the status changed.
    pub fn update_status(&mut self, task_id: &str, new_status: TaskStatus) -> (changed: bool)
        ensures
            final(self)@ == request_status(old(self)@, task_id@, new_status),
            changed == (match status_of(old(self)@, task_id@) {
                Some(status) => status.may_become(new_status),
                None => false,
            }),
            evolves_to(old(self)@, final(self)@),
    {
        proof {
            use_type_invariant(&*self);
            lemma_request_evolves(self@, task_id@, new_status);
        }
        let ghost before = self@;
        match self.position(task_id) {
            Some(i) => {
                if self.tasks[i].status.can_become(new_status) {
                    let mut tasks: Vec<TaskInfo> = Vec::new();
                    std::mem::swap(&mut tasks, &mut self.tasks);
                    tasks[i].status = new_status;
                    assert(tasks@.map_values(|t: TaskInfo| t@) =~= request_status(
                        before,
                        task_id@,
                        new_status,
                    ));
                    self.tasks = tasks;
                    true
                } else {
                    assert(before =~= request_status(before, task_id@, new_status));
                    false
                }
            },
            None => false,
        }
    }

    /// A copy of every record, in order.
    pub fn get_all(&self) -> (records: Vec<TaskInfo>)
        ensures
            records@.map_values(|t: TaskInfo| t@) == self@,
    {
        let mut records: Vec<TaskInfo> = Vec::new();
        let mut i: usize = 0;
        while i < self.tasks.len()
            invariant
                i <= self.tasks.len(),
                records@.map_values(|t: TaskInfo| t@) == self@.take(i as int),
            decreases self.tasks.len() - i,
        {
            let ghost copied = records@.map_values(|t: TaskInfo| t@);
            let record = self.tasks[i].clone();
            records.push(record);
            proof {
                assert(records@.map_values(|t: TaskInfo| t@) =~= copied.push(record@));
                assert(self@.take(i + 1) =~= self@.take(i as int).push(self@[i as int]));
            }
            i += 1;
        }
        assert(self@.take(self.tasks.len() as int) =~= self@);
        records
    }
}

} // verus!
