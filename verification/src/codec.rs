//! The JSON document of a collection: an array with one object for each task,
//! in the order of the tasks.
//!
//! Each object has the members `uuid`, `id`, `priority`, `title`,
//! `description`, `due_date`, `status` and `assignees`, in this order. The id
//! is an integer; the assignees are an array of strings or, once edited, a
//! string; every other member is a string.

use crate::json::{
    json_from_integer, json_from_items, json_from_members, json_from_text, json_integer,
    json_items, json_member, json_of, json_parse, json_pretty, json_text, jsons_of, member_of,
    members_of, parse_json, pretty_json, Json,
};
use crate::store::TaskStore;
use crate::task::{Assignees, AssigneesView, Field, Task, TaskError, TaskView};
use vstd::prelude::*;

verus! {

/// The name of the member that holds the uuid.
pub open spec fn uuid_key() -> Seq<char> {
    "uuid"@
}

/// The document of the assignees.
pub open spec fn assignees_document(assignees: AssigneesView) -> Json {
    match assignees {
        AssigneesView::Names(names) => Json::Array(names.map_values(|n: Seq<char>| Json::Text(n))),
        AssigneesView::Text(text) => Json::Text(text),
    }
}

/// The document of one task.
pub open spec fn task_document(task: TaskView) -> Json {
    Json::Object(
        seq![
            (uuid_key(), Json::Text(task.uuid)),
            (Field::Id.name(), Json::Int(task.id as int)),
            (Field::Priority.name(), Json::Text(task.priority)),
            (Field::Title.name(), Json::Text(task.title)),
            (Field::Description.name(), Json::Text(task.description)),
            (Field::DueDate.name(), Json::Text(task.due_date)),
            (Field::Status.name(), Json::Text(task.status)),
            (Field::Assignees.name(), assignees_document(task.assignees)),
        ],
    )
}

/// The document of a collection.
pub open spec fn document_of(tasks: Seq<TaskView>) -> Json {
    Json::Array(tasks.map_values(|t: TaskView| task_document(t)))
}

/// The string under `key`, where the document is an object that has one.
pub open spec fn text_member(document: Json, key: Seq<char>) -> Option<Seq<char>> {
    match document.member(key) {
        Some(member) => member.text(),
        None => None,
    }
}

/// The id of the object: its member `id`, where that is an integer that a
/// signed 32-bit integer holds.
pub open spec fn id_member(document: Json) -> Option<i32> {
    match document.member(Field::Id.name()) {
        Some(member) => match member.integer() {
            Some(n) => if i32::MIN <= n <= i32::MAX {
                Some(n as i32)
            } else {
                None
            },
            None => None,
        },
        None => None,
    }
}

/// The names that an array of strings holds.
pub open spec fn names_of(items: Seq<Json>) -> Option<Seq<Seq<char>>> {
    if forall|i: int| 0 <= i < items.len() ==> (#[trigger] items[i]).text() is Some {
        Some(items.map_values(|item: Json| item.text()->0))
    } else {
        None
    }
}

/// The assignees that a document holds: an array of strings or a string.
pub open spec fn assignees_of(document: Json) -> Option<AssigneesView> {
    match document {
        Json::Array(items) => match names_of(items) {
            Some(names) => Some(AssigneesView::Names(names)),
            None => None,
        },
        Json::Text(text) => Some(AssigneesView::Text(text)),
        _ => None,
    }
}

/// The assignees of the object: what its member `assignees` holds.
pub open spec fn assignees_member(document: Json) -> Option<AssigneesView> {
    match document.member(Field::Assignees.name()) {
        Some(member) => assignees_of(member),
        None => None,
    }
}

/// The task that a document holds: an object with each of the eight members
/// in its form. Members beyond these are passed over.
pub open spec fn task_of(document: Json) -> Option<TaskView> {
    let uuid = text_member(document, uuid_key());
    let id = id_member(document);
    let priority = text_member(document, Field::Priority.name());
    let title = text_member(document, Field::Title.name());
    let description = text_member(document, Field::Description.name());
    let due_date = text_member(document, Field::DueDate.name());
    let status = text_member(document, Field::Status.name());
    let assignees = assignees_member(document);
    if uuid is Some && id is Some && priority is Some && title is Some && description is Some
        && due_date is Some && status is Some && assignees is Some {
        Some(
            TaskView {
                uuid: uuid->0,
                id: id->0,
                priority: priority->0,
                title: title->0,
                description: description->0,
                due_date: due_date->0,
                status: status->0,
                assignees: assignees->0,
            },
        )
    } else {
        None
    }
}

/// The collection that a document holds: an array of which every item holds
/// a task.
pub open spec fn tasks_of(document: Json) -> Option<Seq<TaskView>> {
    match document {
        Json::Array(items) => if forall|i: int|
            0 <= i < items.len() ==> task_of(#[trigger] items[i]) is Some {
            Some(items.map_values(|item: Json| task_of(item)->0))
        } else {
            None
        },
        _ => None,
    }
}

/// What decoding makes of a text, given what the JSON reader made of it: the
/// collection that the document holds, and the empty collection where the
/// text is no JSON or the document holds no collection.
pub open spec fn decoded(parsed: Option<Json>) -> Seq<TaskView> {
    match parsed {
        Some(document) => match tasks_of(document) {
            Some(tasks) => tasks,
            None => Seq::empty(),
        },
        None => Seq::empty(),
    }
}

/// What encoding makes of a collection, given what the JSON writer made of
/// its document: the text written, and `Persistence` where the writer wrote
/// none.
pub open spec fn encoded(written: Option<Seq<char>>) -> Result<Seq<char>, TaskError> {
    match written {
        Some(text) => Ok(text),
        None => Err(TaskError::Persistence),
    }
}

/// An outcome of encoding with the text seen as its characters.
pub open spec fn text_of(outcome: Result<String, TaskError>) -> Result<Seq<char>, TaskError> {
    match outcome {
        Ok(text) => Ok(text@),
        Err(e) => Err(e),
    }
}

/// The eight member names differ from one another.
pub proof fn lemma_member_names_differ()
    ensures
        forall|f: Field| uuid_key() != #[trigger] f.name(),
        forall|f: Field, g: Field| f != g ==> #[trigger] f.name() != #[trigger] g.name(),
{
    reveal_strlit("uuid");
    reveal_strlit("id");
    reveal_strlit("priority");
    reveal_strlit("title");
    reveal_strlit("description");
    reveal_strlit("due_date");
    reveal_strlit("status");
    reveal_strlit("assignees");
    assert("uuid"@.len() == 4);
    assert("id"@.len() == 2);
    assert("priority"@.len() == 8);
    assert("title"@.len() == 5);
    assert("description"@.len() == 11);
    assert("due_date"@.len() == 8);
    assert("status"@.len() == 6);
    assert("assignees"@.len() == 9);
    assert("priority"@[0] == 'p');
    assert("due_date"@[0] == 'd');
}

/// The assignees come back from their document as they went in.
pub proof fn lemma_assignees_round_trip(assignees: AssigneesView)
    ensures
        assignees_of(assignees_document(assignees)) == Some(assignees),
{
    match assignees {
        AssigneesView::Names(names) => {
            let items = names.map_values(|n: Seq<char>| Json::Text(n));
            assert(items.map_values(|item: Json| item.text()->0) =~= names);
        },
        AssigneesView::Text(_) => {},
    }
}

/// A task comes back from its document as it went in.
pub proof fn lemma_task_round_trip(task: TaskView)
    ensures
        task_of(task_document(task)) == Some(task),
{
    lemma_member_names_differ();
    lemma_assignees_round_trip(task.assignees);
    reveal_with_fuel(member_of, 9);
}

/// A collection comes back from its document as it went in: the same
/// records with the same fields, in the same order.
pub proof fn lemma_round_trip(tasks: Seq<TaskView>)
    ensures
        tasks_of(document_of(tasks)) == Some(tasks),
        decoded(Some(document_of(tasks))) == tasks,
{
    let items = tasks.map_values(|t: TaskView| task_document(t));
    assert forall|i: int| 0 <= i < items.len() implies task_of(#[trigger] items[i]) == Some(
        tasks[i],
    ) by {
        lemma_task_round_trip(tasks[i]);
    }
    assert(items.map_values(|item: Json| task_of(item)->0) =~= tasks);
}

/// The string under `key`, copied out of the object.
fn read_text(document: &serde_json::Value, key: &str) -> (text: Option<String>)
    ensures
        match text {
            Some(t) => text_member(json_of(*document), key@) == Some(t@),
            None => text_member(json_of(*document), key@) is None,
        },
{
    match json_member(document, key) {
        Some(member) => match json_text(member) {
            Some(text) => Some(text.to_owned()),
            None => None,
        },
        None => None,
    }
}

/// The id of the object.
fn read_id(document: &serde_json::Value) -> (id: Option<i32>)
    ensures
        id == id_member(json_of(*document)),
{
    match json_member(document, Field::Id.as_str()) {
        Some(member) => match json_integer(member) {
            Some(n) => if -0x8000_0000 <= n && n <= 0x7fff_ffff {
                Some(n as i32)
            } else {
                None
            },
            None => None,
        },
        None => None,
    }
}

/// The assignees of the object.
fn read_assignees(document: &serde_json::Value) -> (assignees: Option<Assignees>)
    ensures
        match assignees {
            Some(a) => assignees_member(json_of(*document)) == Some(a@),
            None => assignees_member(json_of(*document)) is None,
        },
{
    let member = match json_member(document, Field::Assignees.as_str()) {
        Some(member) => member,
        None => {
            return None;
        },
    };
    match json_text(member) {
        Some(text) => {
            return Some(Assignees::Text(text.to_owned()));
        },
        None => {},
    }
    let items = match json_items(member) {
        Some(items) => items,
        None => {
            return None;
        },
    };
    let ghost held = jsons_of(items@);
    let mut names: Vec<String> = Vec::new();
    let mut i: usize = 0;
    while i < items.len()
        invariant
            i <= items.len(),
            held == jsons_of(items@),
            json_of(*member) == Json::Array(held),
            assignees_member(json_of(*document)) == assignees_of(json_of(*member)),
            names.len() == i,
            forall|k: int| 0 <= k < i ==> (#[trigger] held[k]).text() == Some(names@[k]@),
        decreases items.len() - i,
    {
        assert(held[i as int] == json_of(items@[i as int]));
        match json_text(&items[i]) {
            Some(name) => {
                names.push(name.to_owned());
            },
            None => {
                return None;
            },
        }
        i = i + 1;
    }
    assert(names.deep_view() =~= held.map_values(|item: Json| item.text()->0));
    Some(Assignees::Names(names))
}

/// The task that the value holds, where it holds one.
pub fn task_from_document(document: &serde_json::Value) -> (task: Option<Task>)
    ensures
        match task {
            Some(t) => task_of(json_of(*document)) == Some(t@),
            None => task_of(json_of(*document)) is None,
        },
{
    let uuid = match read_text(document, "uuid") {
        Some(text) => text,
        None => {
            return None;
        },
    };
    let id = match read_id(document) {
        Some(id) => id,
        None => {
            return None;
        },
    };
    let priority = match read_text(document, Field::Priority.as_str()) {
        Some(text) => text,
        None => {
            return None;
        },
    };
    let title = match read_text(document, Field::Title.as_str()) {
        Some(text) => text,
        None => {
            return None;
        },
    };
    let description = match read_text(document, Field::Description.as_str()) {
        Some(text) => text,
        None => {
            return None;
        },
    };
    let due_date = match read_text(document, Field::DueDate.as_str()) {
        Some(text) => text,
        None => {
            return None;
        },
    };
    let status = match read_text(document, Field::Status.as_str()) {
        Some(text) => text,
        None => {
            return None;
        },
    };
    let assignees = match read_assignees(document) {
        Some(assignees) => assignees,
        None => {
            return None;
        },
    };
    Some(Task::from_parts(uuid, id, priority, title, description, due_date, status, assignees))
}

/// The collection that the value holds, where it holds one: an array of
/// which every item holds a task.
pub fn tasks_from_document(document: &serde_json::Value) -> (tasks: Option<Vec<Task>>)
    ensures
        match tasks {
            Some(t) => tasks_of(json_of(*document)) == Some(t.deep_view()),
            None => tasks_of(json_of(*document)) is None,
        },
{
    let items = match json_items(document) {
        Some(items) => items,
        None => {
            return None;
        },
    };
    let ghost held = jsons_of(items@);
    let mut tasks: Vec<Task> = Vec::new();
    let mut i: usize = 0;
    while i < items.len()
        invariant
            i <= items.len(),
            held == jsons_of(items@),
            json_of(*document) == Json::Array(held),
            tasks.len() == i,
            forall|k: int| 0 <= k < i ==> task_of(#[trigger] held[k]) == Some(tasks@[k]@),
        decreases items.len() - i,
    {
        assert(held[i as int] == json_of(items@[i as int]));
        match task_from_document(&items[i]) {
            Some(task) => {
                tasks.push(task);
            },
            None => {
                return None;
            },
        }
        i = i + 1;
    }
    assert(tasks.deep_view() =~= held.map_values(|item: Json| task_of(item)->0));
    Some(tasks)
}

/// What decoding returns, given what the JSON reader returned: the collection
/// that the value holds, and the empty collection where the reader failed or
/// the value holds no collection.
pub fn tasks_from_parsed(parsed: Result<serde_json::Value, serde_json::Error>) -> (tasks: Vec<Task>)
    ensures
        tasks.deep_view() == decoded(
            match parsed {
                Ok(value) => Some(json_of(value)),
                Err(_) => None,
            },
        ),
{
    let found = match parsed {
        Ok(value) => tasks_from_document(&value),
        Err(_) => None,
    };
    match found {
        Some(tasks) => tasks,
        None => {
            let tasks: Vec<Task> = Vec::new();
            assert(tasks.deep_view() =~= Seq::<TaskView>::empty());
            tasks
        },
    }
}

/// Reads a collection from the text of its document.
///
/// A text that is no JSON, the empty text among them, and a document that
/// holds no collection give the empty collection: no text is an error.
pub fn decode(text: &str) -> (tasks: Vec<Task>)
    ensures
        tasks.deep_view() == decoded(json_parse(text@)),
        text@.len() == 0 ==> tasks.len() == 0,
        json_parse(text@) is None ==> tasks.len() == 0,
{
    let tasks = tasks_from_parsed(parse_json(text));
    assert(tasks.deep_view().len() == tasks.len());
    tasks
}

/// The value that holds the document of the assignees.
fn assignees_to_document(assignees: &Assignees) -> (value: serde_json::Value)
    ensures
        json_of(value) == assignees_document(assignees@),
{
    match assignees {
        Assignees::Names(names) => {
            let mut items: Vec<serde_json::Value> = Vec::new();
            let mut i: usize = 0;
            while i < names.len()
                invariant
                    i <= names.len(),
                    items.len() == i,
                    forall|k: int|
                        0 <= k < i ==> json_of(#[trigger] items@[k]) == Json::Text(names@[k]@),
                decreases names.len() - i,
            {
                items.push(json_from_text(names[i].clone()));
                i = i + 1;
            }
            assert(jsons_of(items@) =~= names.deep_view().map_values(
                |n: Seq<char>| Json::Text(n),
            ));
            json_from_items(items)
        },
        Assignees::Text(text) => json_from_text(text.clone()),
    }
}

/// The value that holds the document of the task.
pub fn task_to_document(task: &Task) -> (value: serde_json::Value)
    ensures
        json_of(value) == task_document(task@),
{
    let mut members: Vec<(String, serde_json::Value)> = Vec::new();
    members.push(("uuid".to_owned(), json_from_text(task.uuid().to_owned())));
    members.push((Field::Id.as_str().to_owned(), json_from_integer(task.id() as i64)));
    members.push((Field::Priority.as_str().to_owned(), json_from_text(task.priority().to_owned())));
    members.push((Field::Title.as_str().to_owned(), json_from_text(task.title().to_owned())));
    members.push(
        (Field::Description.as_str().to_owned(), json_from_text(task.description().to_owned())),
    );
    members.push((Field::DueDate.as_str().to_owned(), json_from_text(task.due_date().to_owned())));
    members.push((Field::Status.as_str().to_owned(), json_from_text(task.status().to_owned())));
    members.push((Field::Assignees.as_str().to_owned(), assignees_to_document(task.assignees())));
    proof {
        lemma_member_names_differ();
        assert(members_of(members@) =~= task_document(task@)->Object_0);
    }
    json_from_members(members)
}

/// The value that holds the document of the collection.
pub fn document(tasks: &Vec<Task>) -> (value: serde_json::Value)
    ensures
        json_of(value) == document_of(tasks.deep_view()),
{
    let mut items: Vec<serde_json::Value> = Vec::new();
    let mut i: usize = 0;
    while i < tasks.len()
        invariant
            i <= tasks.len(),
            items.len() == i,
            forall|k: int| 0 <= k < i ==> json_of(#[trigger] items@[k]) == task_document(tasks@[k]@),
        decreases tasks.len() - i,
    {
        items.push(task_to_document(&tasks[i]));
        i = i + 1;
    }
    assert(jsons_of(items@) =~= tasks.deep_view().map_values(|t: TaskView| task_document(t)));
    json_from_items(items)
}

/// What encoding returns, given what the JSON writer returned: the text it
/// wrote, or `Persistence` where it failed.
pub fn text_from_written(written: Result<String, serde_json::Error>) -> (text: Result<
    String,
    TaskError,
>)
    ensures
        match written {
            Ok(t) => text == Ok::<String, TaskError>(t),
            Err(_) => text == Err::<String, TaskError>(TaskError::Persistence),
        },
{
    match written {
        Ok(text) => Ok(text),
        Err(_) => Err(TaskError::Persistence),
    }
}

/// Writes a collection as the text of its document: pretty-printed JSON, the
/// records in their order, the members of each in theirs.
///
/// Returns the text that the JSON writer gives for the document, and fails
/// with `Persistence` exactly where the writer gives none.
pub fn encode(tasks: &Vec<Task>) -> (text: Result<String, TaskError>)
    ensures
        text_of(text) == encoded(json_pretty(document_of(tasks.deep_view()))),
{
    let value = document(tasks);
    text_from_written(pretty_json(&value))
}

impl TaskStore {
    /// The collection that the text of a document holds; see `decode`.
    pub fn decode(text: &str) -> (store: TaskStore)
        ensures
            store@ == decoded(json_parse(text@)),
            text@.len() == 0 ==> store@.len() == 0,
            json_parse(text@) is None ==> store@.len() == 0,
    {
        TaskStore::from_tasks(decode(text))
    }

    /// The text of the collection's document; see `encode`.
    pub fn encode(&self) -> (text: Result<String, TaskError>)
        ensures
            text_of(text) == encoded(json_pretty(document_of(self@))),
    {
        encode(self.list())
    }
}

} // verus!
