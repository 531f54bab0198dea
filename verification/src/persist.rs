//! The store in its file: which document stands for a store, which
//! documents make a store, and the text of both.
//!
//! The file is a JSON array with one object for each task, in the order of
//! the store. An object has the fields `id` (an integer), `description` (a
//! string) and `status` (a string, the label of a status); other fields are
//! passed over.

use vstd::prelude::*;
use vstd::string::StringSliceAdditionalSpecFns;
use vstd::utf8::encode_utf8;
use crate::document::{
    document_model, parse_document, parsed_document, render_document, rendered_document, Field,
    FieldModel, Record, Scalar, ScalarModel,
};
use crate::store::{lemma_holding_wf, restored, LoadError, StoreModel, TaskStore};
use crate::task::{models, Status, Task, TaskModel};
use crate::text::same_text;

verus! {

/// The value of the first field of a record that has this name.
pub open spec fn field_value(record: Seq<FieldModel>, name: Seq<char>) -> Option<ScalarModel>
    decreases record.len(),
{
    if record.len() == 0 {
        None
    } else if record[0].name == name {
        Some(record[0].value)
    } else {
        field_value(record.drop_first(), name)
    }
}

/// The record that stands for a task.
pub open spec fn task_record(task: TaskModel) -> Seq<FieldModel> {
    seq![
        FieldModel { name: "id"@, value: ScalarModel::Number(Some(task.id as u64)) },
        FieldModel { name: "description"@, value: ScalarModel::Text(task.description) },
        FieldModel { name: "status"@, value: ScalarModel::Text(task.status.label_text()) },
    ]
}

/// The task that a record stands for: its `id` is a number with a value
/// that fits 32 bits, its `description` is a string and its `status` is the
/// label of a status. Any other record stands for no task.
pub open spec fn record_task(record: Seq<FieldModel>) -> Option<TaskModel> {
    match (
        field_value(record, "id"@),
        field_value(record, "description"@),
        field_value(record, "status"@),
    ) {
        (
            Some(ScalarModel::Number(Some(id))),
            Some(ScalarModel::Text(description)),
            Some(ScalarModel::Text(label)),
        ) => {
            if id <= u32::MAX && Status::of_label(label) is Some {
                Some(
                    TaskModel {
                        id: id as u32,
                        description,
                        status: Status::of_label(label).unwrap(),
                    },
                )
            } else {
                None
            }
        },
        _ => None,
    }
}

/// The document that stands for a list of tasks: one record for each, in
/// order.
pub open spec fn tasks_document(tasks: Seq<TaskModel>) -> Seq<Seq<FieldModel>> {
    tasks.map_values(|t: TaskModel| task_record(t))
}

/// The tasks that a document stands for, if each of its records stands for
/// one.
pub open spec fn document_tasks(document: Seq<Seq<FieldModel>>) -> Option<Seq<TaskModel>> {
    if forall|i: int| 0 <= i < document.len() ==> record_task(#[trigger] document[i]) is Some {
        Some(document.map_values(|r: Seq<FieldModel>| record_task(r).unwrap()))
    } else {
        None
    }
}

/// The store that a document makes, or why it makes none.
pub open spec fn read_document(document: Seq<Seq<FieldModel>>) -> Result<StoreModel, LoadError> {
    match document_tasks(document) {
        Some(tasks) => restored(tasks),
        None => Err(LoadError::InvalidRecord),
    }
}

/// The store that the content of the file makes, where `None` says that
/// there is no file: no file makes the empty store, and bytes that are no
/// JSON array of objects make none.
pub open spec fn loaded(contents: Option<Seq<u8>>) -> Result<StoreModel, LoadError> {
    match contents {
        None => Ok(StoreModel::empty()),
        Some(bytes) => match parsed_document(bytes) {
            Some(document) => read_document(document),
            None => Err(LoadError::Malformed),
        },
    }
}

/// The bytes handed to `load`, as a mathematical value.
pub open spec fn contents_model(contents: Option<&[u8]>) -> Option<Seq<u8>> {
    match contents {
        None => None,
        Some(bytes) => Some(bytes@),
    }
}

/// Why a store was not turned into text.
#[derive(Clone, Copy, Debug, PartialEq, Eq, Structural)]
pub enum SaveError {
    /// The encoder reported an error.
    Unencodable,
    /// The text does not load back as the tasks of the store.
    Unfaithful,
}

/// Looks up the first field with this name.
pub fn find_field<'a>(record: &'a Record, name: &str) -> (value: Option<&'a Scalar>)
    ensures
        match value {
            Some(v) => field_value(record@, name@) == Some(v@),
            None => field_value(record@, name@) is None,
        },
{
    let mut i: usize = 0;
    proof {
        assert(record@.skip(0) =~= record@);
    }
    while i < record.fields.len()
        invariant
            i <= record.fields.len(),
            field_value(record@, name@) == field_value(record@.skip(i as int), name@),
        decreases record.fields.len() - i,
    {
        proof {
            let rest = record@.skip(i as int);
            assert(rest[0] == record.fields[i as int]@);
            assert(rest.drop_first() =~= record@.skip(i + 1));
        }
        if same_text(record.fields[i].name.as_str(), name) {
            return Some(&record.fields[i].value);
        }
        i += 1;
    }
    None
}

/// The record that stands for a task.
pub fn record_from_task(task: &Task) -> (record: Record)
    ensures
        record@ == task_record(task@),
{
    let mut fields: Vec<Field> = Vec::new();
    fields.push(Field { name: "id".to_owned(), value: Scalar::Number(Some(task.id as u64)) });
    fields.push(
        Field { name: "description".to_owned(), value: Scalar::Text(task.description.clone()) },
    );
    fields.push(
        Field { name: "status".to_owned(), value: Scalar::Text(task.status.label().to_owned()) },
    );
    let record = Record { fields };
    assert(record@ =~= task_record(task@));
    record
}

/// The task that a record stands for, if it stands for one.
pub fn task_from_record(record: &Record) -> (task: Option<Task>)
    ensures
        match task {
            Some(t) => record_task(record@) == Some(t@),
            None => record_task(record@) is None,
        },
{
    let id: u64 = match find_field(record, "id") {
        Some(Scalar::Number(Some(n))) => *n,
        _ => { return None; },
    };
    if id > u32::MAX as u64 {
        return None;
    }
    let description: String = match find_field(record, "description") {
        Some(Scalar::Text(s)) => s.clone(),
        _ => { return None; },
    };
    let status: Status = match find_field(record, "status") {
        Some(Scalar::Text(s)) => match Status::from_label(s.as_str()) {
            Some(status) => status,
            None => { return None; },
        },
        _ => { return None; },
    };
    Some(Task { id: id as u32, description, status })
}

/// The document that stands for a list of tasks.
pub fn document_from_tasks(tasks: &[Task]) -> (document: Vec<Record>)
    ensures
        document_model(document@) == tasks_document(models(tasks@)),
{
    let mut document: Vec<Record> = Vec::new();
    let mut i: usize = 0;
    while i < tasks.len()
        invariant
            i <= tasks.len(),
            document@.len() == i,
            forall|j: int| 0 <= j < i ==> (#[trigger] document@[j])@ == task_record(tasks@[j]@),
        decreases tasks.len() - i,
    {
        document.push(record_from_task(&tasks[i]));
        i += 1;
    }
    assert(document_model(document@) =~= tasks_document(models(tasks@)));
    document
}

/// The tasks that a document stands for, if each of its records stands for
/// one.
pub fn tasks_from_document(document: &Vec<Record>) -> (res: Option<Vec<Task>>)
    ensures
        match res {
            Some(tasks) => document_tasks(document_model(document@)) == Some(models(tasks@)),
            None => document_tasks(document_model(document@)) is None,
        },
{
    let ghost model = document_model(document@);
    let mut tasks: Vec<Task> = Vec::new();
    let mut i: usize = 0;
    while i < document.len()
        invariant
            i <= document.len(),
            model == document_model(document@),
            tasks@.len() == i,
            forall|j: int|
                0 <= j < i ==> record_task(#[trigger] model[j]) == Some(tasks@[j]@),
        decreases document.len() - i,
    {
        match task_from_record(&document[i]) {
            Some(task) => {
                tasks.push(task);
            },
            None => {
                assert(record_task(model[i as int]) is None);
                return None;
            },
        }
        i += 1;
    }
    assert(models(tasks@) =~= model.map_values(|r: Seq<FieldModel>| record_task(r).unwrap()));
    Some(tasks)
}

/// Whether two lists hold the same tasks in the same order.
pub fn same_tasks(a: &[Task], b: &[Task]) -> (same: bool)
    ensures
        same == (models(a@) == models(b@)),
{
    if a.len() != b.len() {
        assert(models(a@).len() != models(b@).len());
        return false;
    }
    let mut i: usize = 0;
    while i < a.len()
        invariant
            i <= a.len(),
            a.len() == b.len(),
            forall|j: int| 0 <= j < i ==> (#[trigger] a@[j])@ == b@[j]@,
        decreases a.len() - i,
    {
        let same = a[i].id == b[i].id && a[i].status == b[i].status && same_text(
            a[i].description.as_str(),
            b[i].description.as_str(),
        );
        if !same {
            assert(models(a@)[i as int] != models(b@)[i as int]);
            return false;
        }
        i += 1;
    }
    assert(models(a@) =~= models(b@));
    true
}

impl TaskStore {
    /// The document that stands for the store.
    pub fn to_document(&self) -> (document: Vec<Record>)
        ensures
            document_model(document@) == tasks_document(self@.tasks),
    {
        document_from_tasks(self.list())
    }

    /// The store that a document makes, or why it makes none.
    pub fn from_document(document: &Vec<Record>) -> (res: Result<TaskStore, LoadError>)
        ensures
            match res {
                Ok(store) => store.wf() && read_document(document_model(document@)) == Ok::<
                    StoreModel,
                    LoadError,
                >(store@),
                Err(e) => read_document(document_model(document@)) == Err::<StoreModel, LoadError>(
                    e,
                ),
            },
    {
        match tasks_from_document(document) {
            Some(tasks) => TaskStore::from_tasks(tasks),
            None => Err(LoadError::InvalidRecord),
        }
    }

    /// Loads the store from the content of its file, where `None` says that
    /// there is no file: that gives the empty store and no error.
    pub fn load(contents: Option<&[u8]>) -> (res: Result<TaskStore, LoadError>)
        ensures
            match res {
                Ok(store) => store.wf() && loaded(contents_model(contents)) == Ok::<
                    StoreModel,
                    LoadError,
                >(store@),
                Err(e) => loaded(contents_model(contents)) == Err::<StoreModel, LoadError>(e),
            },
            contents is None ==> res is Ok && res.unwrap()@ == StoreModel::empty(),
    {
        match contents {
            None => Ok(TaskStore::new()),
            Some(bytes) => match parse_document(bytes) {
                Ok(document) => TaskStore::from_document(&document),
                Err(_) => Err(LoadError::Malformed),
            },
        }
    }

    /// Loads the store as `load` does, and starts with the empty store where
    /// loading fails. The error comes back beside the store, for the caller
    /// to tell the user.
    pub fn load_or_fresh(contents: Option<&[u8]>) -> (res: (TaskStore, Option<LoadError>))
        ensures
            res.0.wf(),
            match loaded(contents_model(contents)) {
                Ok(store) => res.0@ == store && res.1 is None,
                Err(e) => res.0@ == StoreModel::empty() && res.1 == Some(e),
            },
    {
        match TaskStore::load(contents) {
            Ok(store) => (store, None),
            Err(e) => (TaskStore::new(), Some(e)),
        }
    }

    /// Whether this text, written to the file, loads back as the tasks of
    /// this store.
    pub fn reads_back(&self, text: &str) -> (faithful: bool)
        ensures
            faithful == (loaded(Some(encode_utf8(text@))) == Ok::<StoreModel, LoadError>(
                StoreModel::holding(self@.tasks),
            )),
    {
        match TaskStore::load(Some(text.as_bytes())) {
            Ok(store) => same_tasks(store.list(), self.list()),
            Err(_) => false,
        }
    }

    /// Decides on the text that the encoder gave for this store, where
    /// `None` says that it gave an error: the text is accepted if it loads
    /// back as the tasks of this store.
    pub fn accept_text(&self, rendered: Option<String>) -> (res: Result<String, SaveError>)
        ensures
            match res {
                Ok(text) => rendered == Some(text) && loaded(Some(encode_utf8(text@))) == Ok::<
                    StoreModel,
                    LoadError,
                >(StoreModel::holding(self@.tasks)),
                Err(SaveError::Unencodable) => rendered is None,
                Err(SaveError::Unfaithful) => rendered is Some && loaded(
                    Some(encode_utf8(rendered.unwrap()@)),
                ) != Ok::<StoreModel, LoadError>(StoreModel::holding(self@.tasks)),
            },
    {
        match rendered {
            None => Err(SaveError::Unencodable),
            Some(text) => {
                if self.reads_back(text.as_str()) {
                    Ok(text)
                } else {
                    Err(SaveError::Unfaithful)
                }
            },
        }
    }

    /// The text to write to the file: the JSON array, indented, that stands
    /// for the store. The text is handed out only if it loads back as the
    /// tasks of this store, in their order.
    pub fn to_json(&self) -> (res: Result<String, SaveError>)
        ensures
            match res {
                Ok(text) => rendered_document(tasks_document(self@.tasks)) == Some(text@)
                    && loaded(Some(encode_utf8(text@))) == Ok::<StoreModel, LoadError>(
                    StoreModel::holding(self@.tasks),
                ),
                Err(SaveError::Unencodable) => rendered_document(tasks_document(self@.tasks))
                    is None,
                Err(SaveError::Unfaithful) => rendered_document(tasks_document(self@.tasks))
                    is Some && loaded(
                    Some(encode_utf8(rendered_document(tasks_document(self@.tasks)).unwrap())),
                ) != Ok::<StoreModel, LoadError>(StoreModel::holding(self@.tasks)),
            },
    {
        let document = self.to_document();
        let rendered = match render_document(&document) {
            Ok(text) => Some(text),
            Err(_) => None,
        };
        self.accept_text(rendered)
    }
}

/// The names of the three fields differ, so each is found in the record of
/// a task, and a task is read back from its record.
pub proof fn lemma_record_round_trip(task: TaskModel)
    ensures
        record_task(task_record(task)) == Some(task),
{
    reveal_strlit("id");
    reveal_strlit("description");
    reveal_strlit("status");
    let record = task_record(task);
    assert("id"@.len() == 2 && "description"@.len() == 11 && "status"@.len() == 6);
    reveal_with_fuel(field_value, 4);
    let second = record.drop_first();
    let third = second.drop_first();
    assert(second[0] == record[1]);
    assert(third[0] == record[2]);
    assert(field_value(record, "id"@) == Some(ScalarModel::Number(Some(task.id as u64))));
    assert(field_value(record, "description"@) == Some(ScalarModel::Text(task.description)));
    assert(field_value(record, "status"@) == Some(ScalarModel::Text(task.status.label_text())));
    task.status.lemma_label_round_trip();
}

/// A list of tasks is read back from its document.
pub proof fn lemma_document_round_trip(tasks: Seq<TaskModel>)
    ensures
        document_tasks(tasks_document(tasks)) == Some(tasks),
{
    let document = tasks_document(tasks);
    assert forall|i: int| 0 <= i < document.len() implies record_task(#[trigger] document[i])
        == Some(tasks[i]) by {
        lemma_record_round_trip(tasks[i]);
    }
    assert(document.map_values(|r: Seq<FieldModel>| record_task(r).unwrap()) =~= tasks);
}

/// The document of a store that meets the invariant makes a store with the
/// same tasks: the same identifiers, descriptions and statuses in the same
/// order.
pub proof fn lemma_store_round_trip(store: StoreModel)
    requires
        store.wf(),
    ensures
        read_document(tasks_document(store.tasks)) == Ok::<StoreModel, LoadError>(
            StoreModel::holding(store.tasks),
        ),
        StoreModel::holding(store.tasks).tasks == store.tasks,
        StoreModel::holding(store.tasks).wf(),
{
    lemma_document_round_trip(store.tasks);
    lemma_holding_wf(store.tasks);
}

} // verus!
