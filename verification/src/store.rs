//! The collection of tasks and the operations on it.
//!
//! Records stand in the order in which they were added. An id may be shared by
//! several records; a uuid belongs to one record only, as long as records come
//! in through `insert` or `create`.

use crate::calendar::calendar_date;
use crate::identity::is_hyphenated_uuid;
use crate::task::{
    id_value, parse_id, validated, Field, Status, Task, TaskError, TaskView, DATE_FORMAT,
};
use crate::text::{numeral_value, numeral_within, parse_numeral, str_eq};
use vstd::prelude::*;

verus! {

/// The positions of the records with the id `id`, in rising order.
pub open spec fn positions_with_id(tasks: Seq<TaskView>, id: i32) -> Seq<int>
    decreases tasks.len(),
{
    if tasks.len() == 0 {
        Seq::empty()
    } else if tasks.last().id == id {
        positions_with_id(tasks.drop_last(), id).push(tasks.len() - 1)
    } else {
        positions_with_id(tasks.drop_last(), id)
    }
}

/// The records with the id `id`, in the order in which they stand.
pub open spec fn with_id(tasks: Seq<TaskView>, id: i32) -> Seq<TaskView> {
    tasks.filter(|t: TaskView| t.id == id)
}

/// The records whose `field` is `value`, in the order in which they stand.
pub open spec fn matching(tasks: Seq<TaskView>, field: Field, value: Seq<char>) -> Seq<TaskView> {
    tasks.filter(|t: TaskView| t.matches(field, value))
}

/// Some record has the uuid `uuid`.
pub open spec fn has_uuid(tasks: Seq<TaskView>, uuid: Seq<char>) -> bool {
    exists|i: int| 0 <= i < tasks.len() && (#[trigger] tasks[i]).uuid == uuid
}

/// The record at `at` has the uuid `uuid`, and none before it has.
pub open spec fn is_first_with_uuid(tasks: Seq<TaskView>, uuid: Seq<char>, at: int) -> bool {
    &&& 0 <= at < tasks.len()
    &&& tasks[at].uuid == uuid
    &&& forall|i: int| 0 <= i < at ==> (#[trigger] tasks[i]).uuid != uuid
}

/// No two records share a uuid.
pub open spec fn uuids_distinct(tasks: Seq<TaskView>) -> bool {
    forall|i: int, j: int|
        0 <= i < j < tasks.len() ==> (#[trigger] tasks[i]).uuid != (#[trigger] tasks[j]).uuid
}

/// No record has a uuid in hyphenated form. An empty collection is such a
/// one.
pub open spec fn no_hyphenated_uuid(tasks: Seq<TaskView>) -> bool {
    forall|i: int| 0 <= i < tasks.len() ==> !is_hyphenated_uuid((#[trigger] tasks[i]).uuid)
}

/// The collection after `task` was added at its end, or `DuplicateUuid` where
/// a record has the uuid of `task` already.
pub open spec fn inserted(tasks: Seq<TaskView>, task: TaskView) -> Result<Seq<TaskView>, TaskError> {
    if has_uuid(tasks, task.uuid) {
        Err(TaskError::DuplicateUuid)
    } else {
        Ok(tasks.push(task))
    }
}

/// The record that an id, and a selection where several records share it,
/// picks out: its position.
///
/// No record with the id: `NotFound`. One: that record, and the selection is
/// not looked at. Several: the selection has to be a numeral between 1 and
/// their number, and picks among them in the order in which they stand,
/// counting from 1; anything else is a `Selection` error.
pub open spec fn resolution(tasks: Seq<TaskView>, id: i32, selection: Seq<char>) -> Result<
    int,
    TaskError,
> {
    let found = positions_with_id(tasks, id);
    if found.len() == 0 {
        Err(TaskError::NotFound)
    } else if found.len() == 1 {
        Ok(found[0])
    } else {
        match numeral_within(selection, 1, found.len() as int) {
            Some(k) => Ok(found[k - 1]),
            None => Err(TaskError::Selection),
        }
    }
}

/// The collection after the record that `id` and `selection` pick out was
/// removed, or the error that left it as it was.
pub open spec fn without_resolved(tasks: Seq<TaskView>, id: i32, selection: Seq<char>) -> Result<
    Seq<TaskView>,
    TaskError,
> {
    match resolution(tasks, id, selection) {
        Ok(at) => Ok(tasks.remove(at)),
        Err(e) => Err(e),
    }
}

/// The collection after `value` was entered for the field named `field_name`
/// of the record that `id` and `selection` pick out, or the error that left it
/// as it was. The record is looked for first, then the field's name, then the
/// value.
pub open spec fn updated(
    tasks: Seq<TaskView>,
    id: i32,
    selection: Seq<char>,
    field_name: Seq<char>,
    value: Seq<char>,
) -> Result<Seq<TaskView>, TaskError> {
    match resolution(tasks, id, selection) {
        Err(e) => Err(e),
        Ok(at) => match Field::named(field_name) {
            None => Err(TaskError::InvalidField),
            Some(field) => match tasks[at].edited(field, value) {
                None => Err(TaskError::Validation(Field::Id)),
                Some(after) => Ok(tasks.update(at, after)),
            },
        },
    }
}

/// The collection after the first record with the id `id` was marked as
/// completed, or `NotFound` where no record has the id.
pub open spec fn completed(tasks: Seq<TaskView>, id: i32) -> Result<Seq<TaskView>, TaskError> {
    let found = positions_with_id(tasks, id);
    if found.len() == 0 {
        Err(TaskError::NotFound)
    } else {
        Ok(tasks.update(found[0], tasks[found[0]].completed()))
    }
}

/// What a search for `value` in the field named `field_name` finds.
///
/// A name that is no field's finds nothing. A search by id needs a number:
/// with anything else for `value` it is refused.
pub open spec fn searched(tasks: Seq<TaskView>, field_name: Seq<char>, value: Seq<char>) -> Result<
    Seq<TaskView>,
    TaskError,
> {
    match Field::named(field_name) {
        None => Ok(Seq::empty()),
        Some(field) => if field == Field::Id && id_value(value) is None {
            Err(TaskError::Validation(Field::Id))
        } else {
            Ok(matching(tasks, field, value))
        },
    }
}

/// What `positions_with_id` holds: positions of the collection, rising, each of
/// a record with the id, and none of these left out.
pub proof fn lemma_positions_with_id(tasks: Seq<TaskView>, id: i32)
    ensures
        forall|k: int|
            0 <= k < positions_with_id(tasks, id).len() ==> {
                let at = #[trigger] positions_with_id(tasks, id)[k];
                0 <= at < tasks.len() && tasks[at].id == id
            },
        forall|k: int, l: int|
            0 <= k < l < positions_with_id(tasks, id).len() ==> #[trigger] positions_with_id(
                tasks,
                id,
            )[k] < #[trigger] positions_with_id(tasks, id)[l],
        forall|at: int|
            0 <= at < tasks.len() && (#[trigger] tasks[at]).id == id ==> positions_with_id(
                tasks,
                id,
            ).contains(at),
        positions_with_id(tasks, id).len() <= tasks.len(),
    decreases tasks.len(),
{
    if tasks.len() > 0 {
        let shorter = tasks.drop_last();
        let before = positions_with_id(shorter, id);
        let all = positions_with_id(tasks, id);
        lemma_positions_with_id(shorter, id);
        assert forall|at: int| 0 <= at < tasks.len() && (#[trigger] tasks[at]).id == id implies all.contains(
            at,
        ) by {
            if at < shorter.len() {
                assert(shorter[at].id == id);
                let k = choose|k: int| 0 <= k < before.len() && before[k] == at;
                assert(all[k] == at);
            } else {
                assert(all[all.len() - 1] == at);
            }
        }
        assert forall|k: int| 0 <= k < all.len() implies {
            let at = #[trigger] all[k];
            0 <= at < tasks.len() && tasks[at].id == id
        } by {
            if k < before.len() {
                assert(all[k] == before[k]);
                assert(shorter[before[k]] == tasks[before[k]]);
            }
        }
        assert forall|k: int, l: int| 0 <= k < l < all.len() implies #[trigger] all[k]
            < #[trigger] all[l] by {
            assert(all[k] == before[k]);
            if l < before.len() {
                assert(all[l] == before[l]);
            }
        }
    }
}

/// The tasks of one list, in the order in which they were added.
pub struct TaskStore {
    tasks: Vec<Task>,
}

impl View for TaskStore {
    type V = Seq<TaskView>;

    closed spec fn view(&self) -> Seq<TaskView> {
        self.tasks.deep_view()
    }
}

impl TaskStore {
    /// A collection without records.
    pub fn new() -> (store: TaskStore)
        ensures
            store@ == Seq::<TaskView>::empty(),
    {
        let store = TaskStore { tasks: Vec::new() };
        assert(store@ =~= Seq::<TaskView>::empty());
        store
    }

    /// A collection of the records given, in their order.
    pub fn from_tasks(tasks: Vec<Task>) -> (store: TaskStore)
        ensures
            store@ == tasks.deep_view(),
    {
        TaskStore { tasks }
    }

    /// The records, in the order in which they stand.
    pub fn into_tasks(self) -> (tasks: Vec<Task>)
        ensures
            tasks.deep_view() == self@,
    {
        self.tasks
    }

    /// All records, unchanged, in the order in which they were added.
    pub fn list(&self) -> (tasks: &Vec<Task>)
        ensures
            tasks.deep_view() == self@,
    {
        &self.tasks
    }

    /// The number of records.
    pub fn len(&self) -> (n: usize)
        ensures
            n == self@.len(),
    {
        self.tasks.len()
    }

    /// The position of the first record with the uuid `uuid`.
    pub fn position_of_uuid(&self, uuid: &str) -> (at: Option<usize>)
        ensures
            match at {
                Some(i) => is_first_with_uuid(self@, uuid@, i as int),
                None => !has_uuid(self@, uuid@),
            },
    {
        let mut i: usize = 0;
        while i < self.tasks.len()
            invariant
                i <= self.tasks.len(),
                forall|k: int| 0 <= k < i ==> (#[trigger] self@[k]).uuid != uuid@,
            decreases self.tasks.len() - i,
        {
            if str_eq(self.tasks[i].uuid(), uuid) {
                return Some(i);
            }
            i = i + 1;
        }
        None
    }

    /// Adds a record at the end, unless its uuid is taken.
    ///
    /// A uuid that a record of the collection has already is refused with
    /// `DuplicateUuid`, and nothing changes. An id that other records have is
    /// no obstacle.
    pub fn insert(&mut self, task: Task) -> (done: Result<(), TaskError>)
        ensures
            match inserted(old(self)@, task@) {
                Ok(after) => done is Ok && final(self)@ == after,
                Err(e) => done == Err::<(), TaskError>(e) && final(self)@ == old(self)@,
            },
            uuids_distinct(old(self)@) ==> uuids_distinct(final(self)@),
    {
        match self.position_of_uuid(task.uuid()) {
            Some(_) => Err(TaskError::DuplicateUuid),
            None => {
                self.tasks.push(task);
                assert(self@ =~= old(self)@.push(task@));
                Ok(())
            },
        }
    }

    /// Creates a task from the texts entered for it, under a uuid drawn for
    /// it, and adds it at the end.
    ///
    /// Fails, changing nothing, where the due date, the id or the priority
    /// cannot be read, and with `DuplicateUuid` where the uuid drawn is that of
    /// a record of the collection. The uuid drawn is in hyphenated form, so
    /// where no record has such a uuid, in an empty collection above all, texts
    /// that can be read always give a new record.
    pub fn create(
        &mut self,
        id: String,
        priority: String,
        title: String,
        description: String,
        due_date: String,
        assignees: Vec<String>,
    ) -> (done: Result<(), TaskError>)
        ensures
            match validated(id@, priority@, calendar_date(due_date@, DATE_FORMAT@)) {
                Ok((n, p, date)) => match done {
                    Ok(_) => {
                        let made = final(self)@.last();
                        &&& final(self)@ == old(self)@.push(made)
                        &&& made == TaskView::created(
                            made.uuid,
                            n,
                            p,
                            title@,
                            description@,
                            date,
                            assignees.deep_view(),
                        )
                        &&& is_hyphenated_uuid(made.uuid)
                        &&& !has_uuid(old(self)@, made.uuid)
                    },
                    Err(e) => e == TaskError::DuplicateUuid && final(self)@ == old(self)@,
                },
                Err(e) => done == Err::<(), TaskError>(e) && final(self)@ == old(self)@,
            },
            validated(id@, priority@, calendar_date(due_date@, DATE_FORMAT@)) is Ok
                && no_hyphenated_uuid(old(self)@) ==> done is Ok,
            uuids_distinct(old(self)@) ==> uuids_distinct(final(self)@),
    {
        match Task::new(id, priority, title, description, due_date, assignees) {
            Ok(task) => self.insert(task),
            Err(e) => Err(e),
        }
    }

    /// The positions of the records with the id `id`, in rising order.
    pub fn positions_by_id(&self, id: i32) -> (found: Vec<usize>)
        ensures
            found@.map_values(|p: usize| p as int) == positions_with_id(self@, id),
    {
        let mut found: Vec<usize> = Vec::new();
        let mut i: usize = 0;
        while i < self.tasks.len()
            invariant
                i <= self.tasks.len(),
                found@.map_values(|p: usize| p as int) == positions_with_id(
                    self@.take(i as int),
                    id,
                ),
            decreases self.tasks.len() - i,
        {
            proof {
                let longer = self@.take(i + 1);
                assert(longer.drop_last() =~= self@.take(i as int));
                assert(longer.last() == self@[i as int]);
            }
            if self.tasks[i].id() == id {
                found.push(i);
                assert(found@.map_values(|p: usize| p as int) =~= positions_with_id(
                    self@.take(i as int),
                    id,
                ).push(i as int));
            }
            i = i + 1;
        }
        assert(self@.take(i as int) =~= self@);
        found
    }

    /// Every record with the id `id`, in the order in which they stand: none,
    /// one or many.
    pub fn find_all_by_id(&self, id: i32) -> (found: Vec<Task>)
        ensures
            found.deep_view() == with_id(self@, id),
    {
        let ghost wanted = |t: TaskView| t.id == id;
        let mut found: Vec<Task> = Vec::new();
        let mut i: usize = 0;
        proof {
            reveal(Seq::filter);
            assert(found.deep_view() =~= self@.take(0).filter(wanted));
        }
        while i < self.tasks.len()
            invariant
                i <= self.tasks.len(),
                wanted == (|t: TaskView| t.id == id),
                found.deep_view() == self@.take(i as int).filter(wanted),
            decreases self.tasks.len() - i,
        {
            proof {
                assert(self@.take(i + 1) =~= self@.take(i as int).push(self@[i as int]));
                self@.take(i as int).lemma_filter_push(self@[i as int], wanted);
            }
            if self.tasks[i].id() == id {
                let ghost before = found.deep_view();
                found.push(self.tasks[i].clone());
                assert(found.deep_view() =~= before.push(self@[i as int]));
            }
            i = i + 1;
        }
        assert(self@.take(i as int) =~= self@);
        found
    }

    /// The uuids of the records with the id `id`, in the order in which they
    /// stand: the candidates among which a selection picks, the first being
    /// number 1.
    pub fn candidates(&self, id: i32) -> (uuids: Vec<String>)
        ensures
            uuids.deep_view() == positions_with_id(self@, id).map_values(|at: int| self@[at].uuid),
    {
        let found = self.positions_by_id(id);
        proof {
            lemma_positions_with_id(self@, id);
        }
        let ghost positions = positions_with_id(self@, id);
        let mut uuids: Vec<String> = Vec::new();
        let mut k: usize = 0;
        while k < found.len()
            invariant
                k <= found.len(),
                found@.map_values(|p: usize| p as int) == positions,
                forall|j: int|
                    0 <= j < positions.len() ==> 0 <= #[trigger] positions[j] < self@.len(),
                uuids.len() == k,
                forall|j: int| 0 <= j < k ==> (#[trigger] uuids@[j])@ == self@[positions[j]].uuid,
            decreases found.len() - k,
        {
            assert(found@.map_values(|p: usize| p as int)[k as int] == found@[k as int]);
            let at = found[k];
            uuids.push(self.tasks[at].uuid().to_owned());
            k = k + 1;
        }
        assert(found@.map_values(|p: usize| p as int).len() == found@.len());
        assert(uuids.deep_view() =~= positions.map_values(|at: int| self@[at].uuid));
        uuids
    }

    /// The position of the record that `id` picks out, with `selection`
    /// deciding where several records share the id.
    pub fn resolve(&self, id: i32, selection: &str) -> (resolved: Result<usize, TaskError>)
        ensures
            match resolved {
                Ok(at) => resolution(self@, id, selection@) == Ok::<int, TaskError>(at as int)
                    && at < self@.len(),
                Err(e) => resolution(self@, id, selection@) == Err::<int, TaskError>(e),
            },
    {
        let found = self.positions_by_id(id);
        proof {
            lemma_positions_with_id(self@, id);
            assert(found@.map_values(|p: usize| p as int).len() == found@.len());
        }
        if found.len() == 0 {
            Err(TaskError::NotFound)
        } else if found.len() == 1 {
            assert(found@.map_values(|p: usize| p as int)[0] == found@[0]);
            Ok(found[0])
        } else {
            match parse_numeral(selection, 1, found.len() as u64) {
                Some(k) => {
                    let chosen: usize = (k - 1) as usize;
                    assert(found@.map_values(|p: usize| p as int)[chosen as int]
                        == found@[chosen as int]);
                    Ok(found[chosen])
                },
                None => Err(TaskError::Selection),
            }
        }
    }

    /// Removes the first record with the uuid `uuid`. The records that stay
    /// keep their order and are not touched.
    ///
    /// Fails with `NotFound`, changing nothing, where no record has the uuid.
    pub fn delete(&mut self, uuid: &str) -> (done: Result<(), TaskError>)
        ensures
            match done {
                Ok(_) => exists|at: int| #[trigger]
                    is_first_with_uuid(old(self)@, uuid@, at) && final(self)@ == old(
                        self,
                    )@.remove(at),
                Err(e) => e == TaskError::NotFound && !has_uuid(old(self)@, uuid@) && final(self)@
                    == old(self)@,
            },
            done is Ok <==> has_uuid(old(self)@, uuid@),
            done is Ok ==> final(self)@.len() == old(self)@.len() - 1,
            uuids_distinct(old(self)@) ==> uuids_distinct(final(self)@),
    {
        match self.position_of_uuid(uuid) {
            Some(at) => {
                self.tasks.remove(at);
                assert(self@ =~= old(self)@.remove(at as int));
                assert(is_first_with_uuid(old(self)@, uuid@, at as int));
                assert(old(self)@[at as int].uuid == uuid@);
                Ok(())
            },
            None => Err(TaskError::NotFound),
        }
    }

    /// Removes the record that `id` picks out, with `selection` deciding where
    /// several records share the id. The records that stay keep their order
    /// and are not touched.
    pub fn delete_by_id(&mut self, id: i32, selection: &str) -> (done: Result<(), TaskError>)
        ensures
            match without_resolved(old(self)@, id, selection@) {
                Ok(after) => done is Ok && final(self)@ == after,
                Err(e) => done == Err::<(), TaskError>(e) && final(self)@ == old(self)@,
            },
            uuids_distinct(old(self)@) ==> uuids_distinct(final(self)@),
    {
        match self.resolve(id, selection) {
            Ok(at) => {
                self.tasks.remove(at);
                assert(self@ =~= old(self)@.remove(at as int));
                Ok(())
            },
            Err(e) => Err(e),
        }
    }

    /// Enters `new_value` for the field named `field_name` of the record that
    /// `id` picks out, with `selection` deciding where several records share
    /// the id.
    ///
    /// The value is stored as it stands; only an id has to be a number. On any
    /// error nothing changes.
    pub fn update(&mut self, id: i32, selection: &str, field_name: &str, new_value: &str) -> (done:
        Result<(), TaskError>)
        ensures
            match updated(old(self)@, id, selection@, field_name@, new_value@) {
                Ok(after) => done is Ok && final(self)@ == after,
                Err(e) => done == Err::<(), TaskError>(e) && final(self)@ == old(self)@,
            },
            final(self)@.len() == old(self)@.len(),
            uuids_distinct(old(self)@) ==> uuids_distinct(final(self)@),
    {
        let at = match self.resolve(id, selection) {
            Ok(at) => at,
            Err(e) => {
                return Err(e);
            },
        };
        let field = match Field::from_name(field_name) {
            Some(field) => field,
            None => {
                return Err(TaskError::InvalidField);
            },
        };
        let done = self.tasks[at].set_field(field, new_value);
        proof {
            assert(self.tasks@[at as int]@ == self@[at as int]);
            assert(old(self).tasks@[at as int]@ == old(self)@[at as int]);
            assert forall|k: int| 0 <= k < self@.len() && k != at implies self@[k] == old(
                self,
            )@[k] by {
                assert(self.tasks@[k] == old(self).tasks@[k]);
            }
            match old(self)@[at as int].edited(field, new_value@) {
                Some(after) => {
                    assert(after.uuid == old(self)@[at as int].uuid);
                    assert(self@ =~= old(self)@.update(at as int, after));
                },
                None => {
                    assert(self@ =~= old(self)@);
                },
            }
        }
        done
    }

    /// Marks the first record with the id `id` as completed. A record that is
    /// completed already stays so.
    ///
    /// Fails with `NotFound`, changing nothing, where no record has the id.
    pub fn complete(&mut self, id: i32) -> (done: Result<(), TaskError>)
        ensures
            match completed(old(self)@, id) {
                Ok(after) => done is Ok && final(self)@ == after,
                Err(e) => done == Err::<(), TaskError>(e) && final(self)@ == old(self)@,
            },
            final(self)@.len() == old(self)@.len(),
            uuids_distinct(old(self)@) ==> uuids_distinct(final(self)@),
    {
        let found = self.positions_by_id(id);
        proof {
            lemma_positions_with_id(self@, id);
            assert(found@.map_values(|p: usize| p as int).len() == found@.len());
        }
        if found.len() == 0 {
            return Err(TaskError::NotFound);
        }
        assert(found@.map_values(|p: usize| p as int)[0] == found@[0]);
        let at = found[0];
        self.tasks[at].complete();
        assert(self@ =~= old(self)@.update(at as int, old(self)@[at as int].completed()));
        Ok(())
    }

    /// The records whose field named `field_name` is `value`, in the order in
    /// which they stand. None is no error.
    ///
    /// A name that is no field's finds nothing. The id is compared as a
    /// number, and a `value` that is none is refused; the assignees match where
    /// one of the listed names is `value`; every other field is compared as
    /// text, letter for letter.
    pub fn search(&self, field_name: &str, value: &str) -> (found: Result<Vec<Task>, TaskError>)
        ensures
            match searched(self@, field_name@, value@) {
                Ok(records) => found is Ok && found->Ok_0.deep_view() == records,
                Err(e) => found == Err::<Vec<Task>, TaskError>(e),
            },
    {
        let mut found: Vec<Task> = Vec::new();
        let field = match Field::from_name(field_name) {
            Some(field) => field,
            None => {
                assert(found.deep_view() =~= Seq::<TaskView>::empty());
                return Ok(found);
            },
        };
        let wanted_id: i32 = match field {
            Field::Id => match parse_id(value) {
                Some(id) => id,
                None => {
                    return Err(TaskError::Validation(Field::Id));
                },
            },
            _ => 0,
        };
        let ghost wanted = |t: TaskView| t.matches(field, value@);
        let mut i: usize = 0;
        proof {
            reveal(Seq::filter);
            assert(found.deep_view() =~= self@.take(0).filter(wanted));
        }
        while i < self.tasks.len()
            invariant
                i <= self.tasks.len(),
                wanted == (|t: TaskView| t.matches(field, value@)),
                field == Field::Id ==> id_value(value@) == Some(wanted_id),
                found.deep_view() == self@.take(i as int).filter(wanted),
            decreases self.tasks.len() - i,
        {
            proof {
                assert(self@.take(i + 1) =~= self@.take(i as int).push(self@[i as int]));
                self@.take(i as int).lemma_filter_push(self@[i as int], wanted);
            }
            let hit = match field {
                Field::Id => self.tasks[i].id() == wanted_id,
                _ => self.tasks[i].matches(field, value),
            };
            if hit {
                let ghost before = found.deep_view();
                found.push(self.tasks[i].clone());
                assert(found.deep_view() =~= before.push(self@[i as int]));
            }
            i = i + 1;
        }
        assert(self@.take(i as int) =~= self@);
        Ok(found)
    }

    /// Whether no two records share a uuid.
    pub fn has_distinct_uuids(&self) -> (distinct: bool)
        ensures
            distinct == uuids_distinct(self@),
    {
        let mut j: usize = 0;
        while j < self.tasks.len()
            invariant
                j <= self.tasks.len(),
                forall|a: int, b: int|
                    0 <= a < b < j ==> (#[trigger] self@[a]).uuid != (#[trigger] self@[b]).uuid,
            decreases self.tasks.len() - j,
        {
            let mut i: usize = 0;
            while i < j
                invariant
                    i <= j < self.tasks.len(),
                    forall|a: int| 0 <= a < i ==> (#[trigger] self@[a]).uuid != self@[j as int].uuid,
                decreases j - i,
            {
                if str_eq(self.tasks[i].uuid(), self.tasks[j].uuid()) {
                    assert(self@[i as int].uuid == self@[j as int].uuid);
                    return false;
                }
                i = i + 1;
            }
            j = j + 1;
        }
        true
    }
}

/// The records with an id are those at the positions with the id, in the same
/// order.
pub proof fn lemma_with_id_at_positions(tasks: Seq<TaskView>, id: i32)
    ensures
        with_id(tasks, id) == positions_with_id(tasks, id).map_values(|at: int| tasks[at]),
    decreases tasks.len(),
{
    reveal(Seq::filter);
    if tasks.len() > 0 {
        let shorter = tasks.drop_last();
        lemma_with_id_at_positions(shorter, id);
        lemma_positions_with_id(shorter, id);
        let before = positions_with_id(shorter, id);
        assert(before.map_values(|at: int| shorter[at]) =~= before.map_values(|at: int| tasks[at]));
        assert(with_id(tasks, id) =~= positions_with_id(tasks, id).map_values(|at: int| tasks[at]));
    } else {
        assert(with_id(tasks, id) =~= positions_with_id(tasks, id).map_values(|at: int| tasks[at]));
    }
}

/// Where a record is added, the records with an id are those that had it
/// before, followed by the new record if it has the id.
pub proof fn lemma_with_id_push(tasks: Seq<TaskView>, task: TaskView, id: i32)
    ensures
        with_id(tasks.push(task), id) == if task.id == id {
            with_id(tasks, id).push(task)
        } else {
            with_id(tasks, id)
        },
{
    tasks.lemma_filter_push(task, |t: TaskView| t.id == id);
}

/// Records may share an id: after two records with the same id were added,
/// one after the other, both are found under the id, the first before the
/// second and both behind those that had the id already.
pub proof fn lemma_shared_id_found_in_order(tasks: Seq<TaskView>, first: TaskView, second: TaskView)
    requires
        first.id == second.id,
        inserted(tasks, first) is Ok,
        inserted(tasks.push(first), second) is Ok,
    ensures
        inserted(tasks, first) == Ok::<Seq<TaskView>, TaskError>(tasks.push(first)),
        inserted(tasks.push(first), second) == Ok::<Seq<TaskView>, TaskError>(
            tasks.push(first).push(second),
        ),
        with_id(tasks.push(first).push(second), first.id) == with_id(tasks, first.id).push(
            first,
        ).push(second),
{
    lemma_with_id_push(tasks, first, first.id);
    lemma_with_id_push(tasks.push(first), second, first.id);
}

/// Among several records that share an id, the selection `k` picks the one
/// that stands `k`-th among them, counting from 1; a selection below 1 or
/// above their number is a `Selection` error, in resolving, in removing and in
/// updating alike.
pub proof fn lemma_selection_picks_kth(
    tasks: Seq<TaskView>,
    id: i32,
    selection: Seq<char>,
    k: int,
    field_name: Seq<char>,
    value: Seq<char>,
)
    requires
        positions_with_id(tasks, id).len() > 1,
        numeral_value(selection) == Some(k),
    ensures
        1 <= k <= positions_with_id(tasks, id).len() ==> {
            let at = positions_with_id(tasks, id)[k - 1];
            &&& resolution(tasks, id, selection) == Ok::<int, TaskError>(at)
            &&& 0 <= at < tasks.len()
            &&& tasks[at] == with_id(tasks, id)[k - 1]
        },
        k < 1 || k > positions_with_id(tasks, id).len() ==> {
            &&& resolution(tasks, id, selection) == Err::<int, TaskError>(TaskError::Selection)
            &&& without_resolved(tasks, id, selection) == Err::<Seq<TaskView>, TaskError>(
                TaskError::Selection,
            )
            &&& updated(tasks, id, selection, field_name, value) == Err::<
                Seq<TaskView>,
                TaskError,
            >(TaskError::Selection)
        },
{
    lemma_positions_with_id(tasks, id);
    lemma_with_id_at_positions(tasks, id);
}

/// Where no two records share a uuid, the record at a position is the only
/// one with its uuid: to remove the first record with that uuid is to remove
/// the record at the position.
pub proof fn lemma_uuid_picks_one(tasks: Seq<TaskView>, at: int)
    requires
        uuids_distinct(tasks),
        0 <= at < tasks.len(),
    ensures
        is_first_with_uuid(tasks, tasks[at].uuid, at),
        forall|other: int|
            0 <= other < tasks.len() && other != at ==> (#[trigger] tasks[other]).uuid
                != tasks[at].uuid,
{
    assert forall|other: int| 0 <= other < tasks.len() && other != at implies (#[trigger] tasks[other]).uuid
        != tasks[at].uuid by {
        if other < at {
            assert(tasks[other].uuid != tasks[at].uuid);
        } else {
            assert(tasks[at].uuid != tasks[other].uuid);
        }
    }
}

/// The positions of the records with an id depend on the ids alone.
proof fn lemma_positions_by_ids(a: Seq<TaskView>, b: Seq<TaskView>, id: i32)
    requires
        a.len() == b.len(),
        forall|i: int| 0 <= i < a.len() ==> (#[trigger] a[i]).id == b[i].id,
    ensures
        positions_with_id(a, id) == positions_with_id(b, id),
    decreases a.len(),
{
    if a.len() > 0 {
        assert forall|i: int| 0 <= i < a.drop_last().len() implies (#[trigger] a.drop_last()[i]).id
            == b.drop_last()[i].id by {
            assert(a[i].id == b[i].id);
        }
        lemma_positions_by_ids(a.drop_last(), b.drop_last(), id);
        assert(a.last().id == b.last().id);
    }
}

/// To complete a task twice is to complete it once: the second time changes
/// nothing. The collection keeps its size, and the record stays completed.
pub proof fn lemma_complete_twice(tasks: Seq<TaskView>, id: i32)
    requires
        completed(tasks, id) is Ok,
    ensures
        ({
            let once = completed(tasks, id)->Ok_0;
            let at = positions_with_id(tasks, id)[0];
            &&& once.len() == tasks.len()
            &&& 0 <= at < tasks.len()
            &&& once[at].status == Status::Completed.label()
            &&& completed(once, id) == Ok::<Seq<TaskView>, TaskError>(once)
        }),
{
    lemma_positions_with_id(tasks, id);
    let once = completed(tasks, id)->Ok_0;
    let at = positions_with_id(tasks, id)[0];
    assert forall|i: int| 0 <= i < tasks.len() implies (#[trigger] tasks[i]).id == once[i].id by {}
    lemma_positions_by_ids(tasks, once, id);
    assert(once.update(at, once[at].completed()) =~= once);
}

/// To delete by uuid is to remove exactly one record: the collection is one
/// shorter, and every other record stands unchanged, in the same order. Where
/// no two records shared a uuid, none has the uuid afterwards.
pub proof fn lemma_delete_takes_one(tasks: Seq<TaskView>, uuid: Seq<char>, at: int)
    requires
        is_first_with_uuid(tasks, uuid, at),
    ensures
        tasks.remove(at).len() == tasks.len() - 1,
        forall|i: int| 0 <= i < at ==> #[trigger] tasks.remove(at)[i] == tasks[i],
        forall|i: int| at <= i < tasks.len() - 1 ==> #[trigger] tasks.remove(at)[i] == tasks[i + 1],
        uuids_distinct(tasks) ==> !has_uuid(tasks.remove(at), uuid),
{
    if uuids_distinct(tasks) {
        lemma_uuid_picks_one(tasks, at);
        let after = tasks.remove(at);
        assert forall|i: int| 0 <= i < after.len() implies (#[trigger] after[i]).uuid != uuid by {
            if i < at {
                assert(after[i] == tasks[i]);
            } else {
                assert(after[i] == tasks[i + 1]);
            }
        }
    }
}

/// A search finds the records whose field is the value, all of them and no
/// other, and leaves them in their order.
pub proof fn lemma_search_exact(tasks: Seq<TaskView>, field: Field, value: Seq<char>)
    ensures
        forall|k: int|
            0 <= k < matching(tasks, field, value).len() ==> (#[trigger] matching(
                tasks,
                field,
                value,
            )[k]).matches(field, value),
        forall|i: int|
            0 <= i < tasks.len() && (#[trigger] tasks[i]).matches(field, value) ==> matching(
                tasks,
                field,
                value,
            ).contains(tasks[i]),
        forall|t: TaskView| #[trigger]
            matching(tasks, field, value).contains(t) ==> tasks.contains(t) && t.matches(
                field,
                value,
            ),
{
    let wanted = |t: TaskView| t.matches(field, value);
    let found = tasks.filter(wanted);
    assert forall|k: int| 0 <= k < found.len() implies (#[trigger] found[k]).matches(
        field,
        value,
    ) by {
        tasks.lemma_filter_pred(wanted, k);
    }
    assert forall|i: int| 0 <= i < tasks.len() && (#[trigger] tasks[i]).matches(
        field,
        value,
    ) implies found.contains(tasks[i]) by {
        tasks.lemma_filter_contains(wanted, i);
    }
    assert forall|t: TaskView| #[trigger] found.contains(t) implies tasks.contains(t) && t.matches(
        field,
        value,
    ) by {
        tasks.lemma_filter_contains_rev(wanted, t);
        let k = choose|k: int| 0 <= k < found.len() && found[k] == t;
        tasks.lemma_filter_pred(wanted, k);
    }
}

} // verus!
