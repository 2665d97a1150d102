//! The task record and the vocabulary around it: status, priority, the names
//! of the fields, and the errors that the operations report.

use crate::calendar::{calendar_date, parse_date};
use crate::identity::{fresh_uuid, is_hyphenated_uuid};
use crate::text::{numeral_within, parse_numeral, str_eq};
use vstd::prelude::*;
use vstd::string::*;

verus! {

/// Whether a task is done. A task starts as `NotCompleted`.
#[derive(Clone, Copy, Debug, PartialEq, Eq, Structural)]
pub enum Status {
    Completed,
    NotCompleted,
}

impl Status {
    /// The text under which the status is stored and shown.
    pub open spec fn label(self) -> Seq<char> {
        match self {
            Status::Completed => "Completed"@,
            Status::NotCompleted => "Not Completed"@,
        }
    }

    pub fn as_str(&self) -> (text: &'static str)
        ensures
            text@ == self.label(),
    {
        match self {
            Status::Completed => "Completed",
            Status::NotCompleted => "Not Completed",
        }
    }

    pub fn to_string(&self) -> (text: String)
        ensures
            text@ == self.label(),
    {
        self.as_str().to_owned()
    }
}

/// How urgent a task is.
#[derive(Clone, Copy, Debug, PartialEq, Eq, Structural)]
pub enum Priority {
    Critical,
    High,
    Medium,
    Low,
}

impl Priority {
    /// The text under which the priority is entered, stored and shown.
    pub open spec fn label(self) -> Seq<char> {
        match self {
            Priority::Critical => "Critical"@,
            Priority::High => "High"@,
            Priority::Medium => "Medium"@,
            Priority::Low => "Low"@,
        }
    }

    /// The priority that `text` names: the one whose label it is, letter for
    /// letter.
    pub open spec fn named(text: Seq<char>) -> Option<Priority> {
        if text == Priority::Critical.label() {
            Some(Priority::Critical)
        } else if text == Priority::High.label() {
            Some(Priority::High)
        } else if text == Priority::Medium.label() {
            Some(Priority::Medium)
        } else if text == Priority::Low.label() {
            Some(Priority::Low)
        } else {
            None
        }
    }

    pub fn as_str(&self) -> (text: &'static str)
        ensures
            text@ == self.label(),
    {
        match self {
            Priority::Critical => "Critical",
            Priority::High => "High",
            Priority::Medium => "Medium",
            Priority::Low => "Low",
        }
    }

    /// Reads a priority from its label. The match is exact: case counts, and
    /// no space is skipped.
    pub fn from_str(input: &str) -> (parsed: Result<Priority, ()>)
        ensures
            match Priority::named(input@) {
                Some(p) => parsed == Ok::<Priority, ()>(p),
                None => parsed is Err,
            },
    {
        if str_eq(input, "Critical") {
            Ok(Priority::Critical)
        } else if str_eq(input, "High") {
            Ok(Priority::High)
        } else if str_eq(input, "Medium") {
            Ok(Priority::Medium)
        } else if str_eq(input, "Low") {
            Ok(Priority::Low)
        } else {
            Err(())
        }
    }
}

/// The fields of a task that can be edited and searched.
#[derive(Clone, Copy, Debug, PartialEq, Eq, Structural)]
pub enum Field {
    Id,
    Priority,
    Title,
    Description,
    DueDate,
    Status,
    Assignees,
}

impl Field {
    /// The name under which the field is stored and asked for.
    pub open spec fn name(self) -> Seq<char> {
        match self {
            Field::Id => "id"@,
            Field::Priority => "priority"@,
            Field::Title => "title"@,
            Field::Description => "description"@,
            Field::DueDate => "due_date"@,
            Field::Status => "status"@,
            Field::Assignees => "assignees"@,
        }
    }

    /// The field that `text` names, letter for letter.
    pub open spec fn named(text: Seq<char>) -> Option<Field> {
        if text == Field::Id.name() {
            Some(Field::Id)
        } else if text == Field::Priority.name() {
            Some(Field::Priority)
        } else if text == Field::Title.name() {
            Some(Field::Title)
        } else if text == Field::Description.name() {
            Some(Field::Description)
        } else if text == Field::DueDate.name() {
            Some(Field::DueDate)
        } else if text == Field::Status.name() {
            Some(Field::Status)
        } else if text == Field::Assignees.name() {
            Some(Field::Assignees)
        } else {
            None
        }
    }

    pub fn as_str(&self) -> (text: &'static str)
        ensures
            text@ == self.name(),
    {
        match self {
            Field::Id => "id",
            Field::Priority => "priority",
            Field::Title => "title",
            Field::Description => "description",
            Field::DueDate => "due_date",
            Field::Status => "status",
            Field::Assignees => "assignees",
        }
    }

    /// Reads a field from its name.
    pub fn from_name(name: &str) -> (field: Option<Field>)
        ensures
            field == Field::named(name@),
    {
        if str_eq(name, "id") {
            Some(Field::Id)
        } else if str_eq(name, "priority") {
            Some(Field::Priority)
        } else if str_eq(name, "title") {
            Some(Field::Title)
        } else if str_eq(name, "description") {
            Some(Field::Description)
        } else if str_eq(name, "due_date") {
            Some(Field::DueDate)
        } else if str_eq(name, "status") {
            Some(Field::Status)
        } else if str_eq(name, "assignees") {
            Some(Field::Assignees)
        } else {
            None
        }
    }
}

/// Why an operation was refused. A refused operation changes nothing.
#[derive(Clone, Copy, Debug, PartialEq, Eq, Structural)]
pub enum TaskError {
    /// The text given for this field cannot be read as the field requires.
    Validation(Field),
    /// No record has the identity asked for.
    NotFound,
    /// Several records share the id, and the selection among them is no
    /// number, or a number that picks none of them.
    Selection,
    /// The name is not the name of a field.
    InvalidField,
    /// A record with the same uuid is already in the collection.
    DuplicateUuid,
    /// The collection could not be written or read.
    Persistence,
}

/// Who a task is assigned to: a list of names, or, once the field was edited,
/// the text that was entered.
#[derive(Debug, PartialEq, Eq)]
pub enum Assignees {
    Names(Vec<String>),
    Text(String),
}

/// The assignees as mathematics sees them.
pub enum AssigneesView {
    Names(Seq<Seq<char>>),
    Text(Seq<char>),
}

impl View for Assignees {
    type V = AssigneesView;

    open spec fn view(&self) -> AssigneesView {
        match self {
            Assignees::Names(names) => AssigneesView::Names(names.deep_view()),
            Assignees::Text(text) => AssigneesView::Text(text@),
        }
    }
}

impl DeepView for Assignees {
    type V = AssigneesView;

    open spec fn deep_view(&self) -> AssigneesView {
        self@
    }
}

impl Clone for Assignees {
    fn clone(&self) -> (copy: Assignees)
        ensures
            copy@ == self@,
    {
        match self {
            Assignees::Names(names) => {
                let mut copied: Vec<String> = Vec::new();
                let mut i: usize = 0;
                while i < names.len()
                    invariant
                        i <= names.len(),
                        copied.len() == i,
                        forall|k: int| 0 <= k < i ==> copied@[k]@ == names@[k]@,
                    decreases names.len() - i,
                {
                    copied.push(names[i].clone());
                    i = i + 1;
                }
                assert(copied.deep_view() =~= names.deep_view());
                Assignees::Names(copied)
            },
            Assignees::Text(text) => Assignees::Text(text.clone()),
        }
    }
}

impl AssigneesView {
    /// Whether `name` is one of the listed names. A text that replaced the
    /// list lists nobody.
    pub open spec fn lists(self, name: Seq<char>) -> bool {
        match self {
            AssigneesView::Names(names) => names.contains(name),
            AssigneesView::Text(_) => false,
        }
    }
}

impl Assignees {
    /// Whether `name` is one of the listed names, letter for letter.
    pub fn lists(&self, name: &str) -> (found: bool)
        ensures
            found == self@.lists(name@),
    {
        match self {
            Assignees::Names(names) => {
                let mut i: usize = 0;
                while i < names.len()
                    invariant
                        i <= names.len(),
                        self@ == AssigneesView::Names(names.deep_view()),
                        forall|k: int| 0 <= k < i ==> names.deep_view()[k] != name@,
                    decreases names.len() - i,
                {
                    if str_eq(names[i].as_str(), name) {
                        assert(names.deep_view()[i as int] == name@);
                        return true;
                    }
                    i = i + 1;
                }
                false
            },
            Assignees::Text(_) => false,
        }
    }
}

/// The format in which a due date is entered: year, month, day.
pub const DATE_FORMAT: &'static str = "%Y-%m-%d";

/// One task. Its fields are read through the methods and change only through
/// `set_field` and `complete`; the uuid never changes.
#[derive(Debug, PartialEq, Eq)]
pub struct Task {
    uuid: String,
    id: i32,
    priority: String,
    title: String,
    description: String,
    due_date: String,
    status: String,
    assignees: Assignees,
}

/// A task as mathematics sees it.
pub struct TaskView {
    pub uuid: Seq<char>,
    pub id: i32,
    pub priority: Seq<char>,
    pub title: Seq<char>,
    pub description: Seq<char>,
    pub due_date: Seq<char>,
    pub status: Seq<char>,
    pub assignees: AssigneesView,
}

impl View for Task {
    type V = TaskView;

    closed spec fn view(&self) -> TaskView {
        TaskView {
            uuid: self.uuid@,
            id: self.id,
            priority: self.priority@,
            title: self.title@,
            description: self.description@,
            due_date: self.due_date@,
            status: self.status@,
            assignees: self.assignees@,
        }
    }
}

impl DeepView for Task {
    type V = TaskView;

    open spec fn deep_view(&self) -> TaskView {
        self@
    }
}

/// The number that `text` gives for an id: a numeral that a signed 32-bit
/// integer holds.
pub open spec fn id_value(text: Seq<char>) -> Option<i32> {
    match numeral_within(text, i32::MIN as int, i32::MAX as int) {
        Some(v) => Some(v as i32),
        None => None,
    }
}

/// Reads an id from its numeral.
pub fn parse_id(text: &str) -> (id: Option<i32>)
    ensures
        id == id_value(text@),
{
    match parse_numeral(text, -0x8000_0000, 0x7fff_ffff) {
        Some(v) => Some(v as i32),
        None => None,
    }
}

/// What the texts entered for a new task amount to: the id, the priority and
/// the due date, or the first field that cannot be read. The due date is
/// looked at first, then the id, then the priority. `date` is what the calendar
/// made of the text entered for the due date.
pub open spec fn validated(id: Seq<char>, priority: Seq<char>, date: Option<Seq<char>>) -> Result<
    (i32, Priority, Seq<char>),
    TaskError,
> {
    if date is None {
        Err(TaskError::Validation(Field::DueDate))
    } else if id_value(id) is None {
        Err(TaskError::Validation(Field::Id))
    } else if Priority::named(priority) is None {
        Err(TaskError::Validation(Field::Priority))
    } else {
        Ok((id_value(id)->0, Priority::named(priority)->0, date->0))
    }
}

impl TaskView {
    /// The record of a task that was just created: not completed, assigned to
    /// the names given.
    pub open spec fn created(
        uuid: Seq<char>,
        id: i32,
        priority: Priority,
        title: Seq<char>,
        description: Seq<char>,
        due_date: Seq<char>,
        assignees: Seq<Seq<char>>,
    ) -> TaskView {
        TaskView {
            uuid,
            id,
            priority: priority.label(),
            title,
            description,
            due_date,
            status: Status::NotCompleted.label(),
            assignees: AssigneesView::Names(assignees),
        }
    }

    /// The record with its status set to `Completed`.
    pub open spec fn completed(self) -> TaskView {
        TaskView { status: Status::Completed.label(), ..self }
    }

    /// The record after `value` was entered for `field`, or nothing where the
    /// value cannot be stored: an id has to be a number, every other field
    /// takes the text as it is.
    pub open spec fn edited(self, field: Field, value: Seq<char>) -> Option<TaskView> {
        match field {
            Field::Id => match id_value(value) {
                Some(id) => Some(TaskView { id, ..self }),
                None => None,
            },
            Field::Priority => Some(TaskView { priority: value, ..self }),
            Field::Title => Some(TaskView { title: value, ..self }),
            Field::Description => Some(TaskView { description: value, ..self }),
            Field::DueDate => Some(TaskView { due_date: value, ..self }),
            Field::Status => Some(TaskView { status: value, ..self }),
            Field::Assignees => Some(TaskView { assignees: AssigneesView::Text(value), ..self }),
        }
    }

    /// Whether `field` of the record is `value`: the id as a number, the
    /// assignees where one of the listed names is the value, every other field
    /// as text, letter for letter.
    pub open spec fn matches(self, field: Field, value: Seq<char>) -> bool {
        match field {
            Field::Id => id_value(value) == Some(self.id),
            Field::Priority => self.priority == value,
            Field::Title => self.title == value,
            Field::Description => self.description == value,
            Field::DueDate => self.due_date == value,
            Field::Status => self.status == value,
            Field::Assignees => self.assignees.lists(value),
        }
    }
}

impl Clone for Task {
    fn clone(&self) -> (copy: Task)
        ensures
            copy@ == self@,
    {
        Task {
            uuid: self.uuid.clone(),
            id: self.id,
            priority: self.priority.clone(),
            title: self.title.clone(),
            description: self.description.clone(),
            due_date: self.due_date.clone(),
            status: self.status.clone(),
            assignees: self.assignees.clone(),
        }
    }
}

impl Task {
    /// Creates a task from the texts entered for it, under a uuid drawn for it.
    ///
    /// Fails where the due date, the id or the priority cannot be read, and
    /// says which. The due date is stored the way the calendar writes the date
    /// it read.
    pub fn new(
        id: String,
        priority: String,
        title: String,
        description: String,
        due_date: String,
        assignees: Vec<String>,
    ) -> (made: Result<Task, TaskError>)
        ensures
            match validated(id@, priority@, calendar_date(due_date@, DATE_FORMAT@)) {
                Ok((n, p, date)) => made is Ok && is_hyphenated_uuid(made->Ok_0@.uuid)
                    && made->Ok_0@ == TaskView::created(
                    made->Ok_0@.uuid,
                    n,
                    p,
                    title@,
                    description@,
                    date,
                    assignees.deep_view(),
                ),
                Err(e) => made == Err::<Task, TaskError>(e),
            },
    {
        let date = parse_date(due_date.as_str(), DATE_FORMAT);
        let uuid = fresh_uuid();
        Task::assemble(uuid, id.as_str(), priority.as_str(), title, description, date, assignees)
    }

    /// Creates a task under the uuid given, from the texts entered for it and
    /// from what the calendar made of the due date.
    pub fn assemble(
        uuid: String,
        id: &str,
        priority: &str,
        title: String,
        description: String,
        date: Option<String>,
        assignees: Vec<String>,
    ) -> (made: Result<Task, TaskError>)
        ensures
            match validated(
                id@,
                priority@,
                match date {
                    Some(d) => Some(d@),
                    None => None,
                },
            ) {
                Ok((n, p, d)) => made is Ok && made->Ok_0@ == TaskView::created(
                    uuid@,
                    n,
                    p,
                    title@,
                    description@,
                    d,
                    assignees.deep_view(),
                ),
                Err(e) => made == Err::<Task, TaskError>(e),
            },
    {
        let due_date = match date {
            Some(d) => d,
            None => {
                return Err(TaskError::Validation(Field::DueDate));
            },
        };
        let number = match parse_id(id) {
            Some(n) => n,
            None => {
                return Err(TaskError::Validation(Field::Id));
            },
        };
        let level = match Priority::from_str(priority) {
            Ok(p) => p,
            Err(_) => {
                return Err(TaskError::Validation(Field::Priority));
            },
        };
        Ok(
            Task {
                uuid,
                id: number,
                priority: level.as_str().to_owned(),
                title,
                description,
                due_date,
                status: Status::NotCompleted.to_string(),
                assignees: Assignees::Names(assignees),
            },
        )
    }

    /// The task with exactly these fields.
    pub fn from_parts(
        uuid: String,
        id: i32,
        priority: String,
        title: String,
        description: String,
        due_date: String,
        status: String,
        assignees: Assignees,
    ) -> (task: Task)
        ensures
            task@ == (TaskView {
                uuid: uuid@,
                id,
                priority: priority@,
                title: title@,
                description: description@,
                due_date: due_date@,
                status: status@,
                assignees: assignees@,
            }),
    {
        Task { uuid, id, priority, title, description, due_date, status, assignees }
    }

    /// Marks the task as completed. A completed task stays completed.
    pub fn complete(&mut self)
        ensures
            final(self)@ == old(self)@.completed(),
    {
        self.status = Status::Completed.to_string();
    }

    /// Stores `value` in `field`. An id has to be a number; every other field
    /// takes the text as it is. A refused value leaves the task as it was.
    pub fn set_field(&mut self, field: Field, value: &str) -> (done: Result<(), TaskError>)
        ensures
            match old(self)@.edited(field, value@) {
                Some(after) => done is Ok && final(self)@ == after,
                None => done == Err::<(), TaskError>(TaskError::Validation(Field::Id))
                    && final(self)@ == old(self)@,
            },
    {
        match field {
            Field::Id => {
                match parse_id(value) {
                    Some(id) => {
                        self.id = id;
                    },
                    None => {
                        return Err(TaskError::Validation(Field::Id));
                    },
                }
            },
            Field::Priority => {
                self.priority = value.to_owned();
            },
            Field::Title => {
                self.title = value.to_owned();
            },
            Field::Description => {
                self.description = value.to_owned();
            },
            Field::DueDate => {
                self.due_date = value.to_owned();
            },
            Field::Status => {
                self.status = value.to_owned();
            },
            Field::Assignees => {
                self.assignees = Assignees::Text(value.to_owned());
            },
        }
        Ok(())
    }

    /// Whether `field` of the task is `value`.
    pub fn matches(&self, field: Field, value: &str) -> (same: bool)
        ensures
            same == self@.matches(field, value@),
    {
        match field {
            Field::Id => {
                match parse_id(value) {
                    Some(id) => self.id == id,
                    None => false,
                }
            },
            Field::Priority => str_eq(self.priority.as_str(), value),
            Field::Title => str_eq(self.title.as_str(), value),
            Field::Description => str_eq(self.description.as_str(), value),
            Field::DueDate => str_eq(self.due_date.as_str(), value),
            Field::Status => str_eq(self.status.as_str(), value),
            Field::Assignees => self.assignees.lists(value),
        }
    }

    pub fn uuid(&self) -> (text: &str)
        ensures
            text@ == self@.uuid,
    {
        self.uuid.as_str()
    }

    pub fn id(&self) -> (id: i32)
        ensures
            id == self@.id,
    {
        self.id
    }

    pub fn priority(&self) -> (text: &str)
        ensures
            text@ == self@.priority,
    {
        self.priority.as_str()
    }

    pub fn title(&self) -> (text: &str)
        ensures
            text@ == self@.title,
    {
        self.title.as_str()
    }

    pub fn description(&self) -> (text: &str)
        ensures
            text@ == self@.description,
    {
        self.description.as_str()
    }

    pub fn due_date(&self) -> (text: &str)
        ensures
            text@ == self@.due_date,
    {
        self.due_date.as_str()
    }

    pub fn status(&self) -> (text: &str)
        ensures
            text@ == self@.status,
    {
        self.status.as_str()
    }

    pub fn assignees(&self) -> (assignees: &Assignees)
        ensures
            assignees@ == self@.assignees,
    {
        &self.assignees
    }

    /// Whether the task is marked as completed.
    pub fn is_completed(&self) -> (done: bool)
        ensures
            done == (self@.status == Status::Completed.label()),
    {
        str_eq(self.status.as_str(), Status::Completed.as_str())
    }
}

} // verus!
