//! Tasks and their status.

use vstd::prelude::*;
use crate::text::same_text;

verus! {

/// Where a task stands. A task starts `InProgress` and can only move to `Done`.
#[derive(Clone, Copy, Debug, PartialEq, Eq, Structural)]
pub enum Status {
    InProgress,
    Done,
}

impl Status {
    /// The text that stands for this status in the persisted file and on screen.
    pub open spec fn label_text(self) -> Seq<char> {
        match self {
            Status::InProgress => "In Progress"@,
            Status::Done => "Done"@,
        }
    }

    /// The status that a text stands for, if it is the label of one.
    pub open spec fn of_label(text: Seq<char>) -> Option<Status> {
        if text == "In Progress"@ {
            Some(Status::InProgress)
        } else if text == "Done"@ {
            Some(Status::Done)
        } else {
            None
        }
    }

    /// The text that stands for this status.
    pub fn label(&self) -> (text: &'static str)
        ensures
            text@ == self.label_text(),
    {
        match self {
            Status::InProgress => "In Progress",
            Status::Done => "Done",
        }
    }

    /// Reads a status from its label; any other text is no status.
    pub fn from_label(text: &str) -> (status: Option<Status>)
        ensures
            status == Status::of_label(text@),
    {
        if same_text(text, "In Progress") {
            Some(Status::InProgress)
        } else if same_text(text, "Done") {
            Some(Status::Done)
        } else {
            None
        }
    }

    /// Every status is read back from its own label.
    pub proof fn lemma_label_round_trip(self)
        ensures
            Status::of_label(self.label_text()) == Some(self),
    {
        reveal_strlit("In Progress");
        reveal_strlit("Done");
        assert("In Progress"@.len() != "Done"@.len());
    }
}

/// A unit of work: an identifier, a description fixed at creation, and a status.
#[derive(Clone, Debug, PartialEq, Eq)]
pub struct Task {
    pub id: u32,
    pub description: String,
    pub status: Status,
}

/// What a task is, as a mathematical value.
pub struct TaskModel {
    pub id: u32,
    pub description: Seq<char>,
    pub status: Status,
}

impl TaskModel {
    /// The same task, completed.
    pub open spec fn done(self) -> TaskModel {
        TaskModel { id: self.id, description: self.description, status: Status::Done }
    }
}

impl View for Task {
    type V = TaskModel;

    open spec fn view(&self) -> TaskModel {
        TaskModel { id: self.id, description: self.description@, status: self.status }
    }
}

/// The models of a list of tasks, in order.
pub open spec fn models(tasks: Seq<Task>) -> Seq<TaskModel> {
    tasks.map_values(|t: Task| t@)
}

} // verus!
