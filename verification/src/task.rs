//! Admitting a document-processing task: its identity, its audit record and
//! its place in the queue.

use vstd::prelude::*;
use vstd::string::*;
use crate::error::{ServiceError, ServiceErrorView};
use crate::identity::{hyphenated, id_text, is_random_shape, random_id};

verus! {

/// The `OffsetDateTime` of the `time` crate, as `s3::creds` hands it on: a
/// point in time that the library carries and never looks into.
#[verifier::external_type_specification]
#[verifier::external_body]
pub struct ExOffsetDateTime(s3::creds::time::OffsetDateTime);

/// The stage of a task's life that the audit store shows.
#[derive(Clone, Copy, Debug, PartialEq, Eq)]
pub enum FileTaskStatus {
    /// The task was admitted and waits in the queue.
    Created,
}

impl FileTaskStatus {
    /// The status as the audit store spells it.
    pub open spec fn spec_label(&self) -> Seq<char> {
        match self {
            FileTaskStatus::Created => "CREATED"@,
        }
    }

    /// The status as the audit store spells it.
    pub fn label(&self) -> (text: String)
        ensures
            text@ == self.spec_label(),
    {
        match self {
            FileTaskStatus::Created => "CREATED".to_owned(),
        }
    }
}

/// A task as the queue carries it.
#[derive(Clone, Debug, PartialEq, Eq)]
pub struct FileTask<P> {
    pub id: u128,
    pub file_name: String,
    /// The upload that the task is about, as it was sent.
    pub upload_file_data: P,
    /// How often the task has been tried.
    pub attempt_number: u8,
}

/// The first record of a task in the audit store.
#[derive(Debug, PartialEq, Eq)]
pub struct TaskAuditRecord {
    /// The text of the task's identifier.
    pub id: String,
    pub file_name: String,
    pub pages: u32,
    pub pages_processed: u32,
    pub status: FileTaskStatus,
    pub created_at: s3::creds::time::OffsetDateTime,
}

/// The current time. This is `OffsetDateTime::now_utc` of the `time` crate,
/// as `s3::creds` hands it on; nothing is promised of the reading.
#[verifier::external_body]
pub(crate) fn now_utc() -> (now: s3::creds::time::OffsetDateTime) {
    s3::creds::time::OffsetDateTime::now_utc()
}

/// What the caller is told of an admitted task.
#[derive(Clone, Debug, PartialEq, Eq)]
pub struct CreateFileTaskResponse {
    pub id: u128,
    pub file_name: String,
    pub status: FileTaskStatus,
    /// What the queue answered to the push: its length with the task in it.
    pub pos_in_queue: String,
}

/// How far the admission of a task has come. Each state but the last waits
/// for the outcome of one action.
#[derive(Clone, Debug, PartialEq, Eq)]
pub enum Admission<P> {
    /// The audit record is being written.
    Auditing(FileTask<P>),
    /// A connection to the queue is being taken.
    Connecting(FileTask<P>),
    /// The task is being serialized.
    Serializing(FileTask<P>),
    /// The task is being pushed onto the queue.
    Pushing(FileTask<P>),
    /// The admission has ended, with a response or an error.
    Closed,
}

/// The outcome of an action.
#[derive(Clone, Debug, PartialEq, Eq)]
pub enum AdmissionEvent {
    AuditWritten,
    /// The audit store refused the record, with its reason.
    AuditFailed(String),
    Connected,
    /// No connection could be had, with the reason.
    ConnectionFailed(String),
    /// The task as text.
    Serialized(String),
    SerializationFailed,
    /// The queue took the task; the text is what it answered.
    Pushed(String),
    /// The queue did not take the task, with its reason.
    PushFailed(String),
}

/// What is to be done next for an admission.
#[derive(Debug, PartialEq, Eq)]
pub enum AdmissionAction {
    /// Insert the record into the audit store.
    WriteAudit(TaskAuditRecord),
    /// Take a connection to the queue.
    Connect,
    /// Serialize the task that the state holds.
    Serialize,
    /// Push `message` onto the head of the list named `queue`.
    Push { queue: String, message: String },
    /// Answer the caller.
    Respond(CreateFileTaskResponse),
    /// Fail the caller's request.
    Fail(ServiceError),
    /// The event answers nothing that was asked: there is nothing to do.
    Ignore,
}

/// The name of the list that holds the tasks to process.
pub open spec fn queue_name() -> Seq<char> {
    "files_to_process"@
}

/// The text of the error for a task that could not be serialized.
pub open spec fn serialization_failure() -> Seq<char> {
    "Failed to Serialize FileTask"@
}

impl<P> Admission<P> {
    /// The task that is under way, if the admission has not ended.
    pub open spec fn spec_task(&self) -> Option<FileTask<P>> {
        match self {
            Admission::Auditing(task) => Some(*task),
            Admission::Connecting(task) => Some(*task),
            Admission::Serializing(task) => Some(*task),
            Admission::Pushing(task) => Some(*task),
            Admission::Closed => None,
        }
    }

    /// The state that follows when `event` arrives.
    pub open spec fn next(self, event: AdmissionEvent) -> Admission<P> {
        match (self, event) {
            (Admission::Auditing(task), AdmissionEvent::AuditWritten) => Admission::Connecting(
                task,
            ),
            (Admission::Auditing(_), AdmissionEvent::AuditFailed(_)) => Admission::Closed,
            (Admission::Connecting(task), AdmissionEvent::Connected) => Admission::Serializing(
                task,
            ),
            (Admission::Connecting(_), AdmissionEvent::ConnectionFailed(_)) => Admission::Closed,
            (Admission::Serializing(task), AdmissionEvent::Serialized(_)) => Admission::Pushing(
                task,
            ),
            (Admission::Serializing(_), AdmissionEvent::SerializationFailed) => Admission::Closed,
            (Admission::Pushing(_), AdmissionEvent::Pushed(_)) => Admission::Closed,
            (Admission::Pushing(_), AdmissionEvent::PushFailed(_)) => Admission::Closed,
            (state, _) => state,
        }
    }

    /// Whether `action` is what `event` calls for in this state.
    pub open spec fn calls_for(self, event: AdmissionEvent, action: AdmissionAction) -> bool {
        match (self, event) {
            (Admission::Auditing(_), AdmissionEvent::AuditWritten) => action
                == AdmissionAction::Connect,
            (Admission::Auditing(_), AdmissionEvent::AuditFailed(reason)) => action matches AdmissionAction::Fail(
                error,
            ) && error@ == ServiceErrorView::RequestFailure(reason@),
            (Admission::Connecting(_), AdmissionEvent::Connected) => action
                == AdmissionAction::Serialize,
            (
                Admission::Connecting(_),
                AdmissionEvent::ConnectionFailed(reason),
            ) => action matches AdmissionAction::Fail(error) && error@
                == ServiceErrorView::RequestFailure(reason@),
            (
                Admission::Serializing(_),
                AdmissionEvent::Serialized(text),
            ) => action matches AdmissionAction::Push { queue, message } && queue@ == queue_name()
                && message@ == text@,
            (
                Admission::Serializing(_),
                AdmissionEvent::SerializationFailed,
            ) => action matches AdmissionAction::Fail(error) && error@
                == ServiceErrorView::RequestFailure(serialization_failure()),
            (Admission::Pushing(task), AdmissionEvent::Pushed(position)) => {
                &&& action matches AdmissionAction::Respond(response)
                &&& response.id == task.id
                &&& response.file_name@ == task.file_name@
                &&& response.status == FileTaskStatus::Created
                &&& response.pos_in_queue@ == position@
            },
            (Admission::Pushing(_), AdmissionEvent::PushFailed(reason)) => action matches AdmissionAction::Fail(
                error,
            ) && error@ == ServiceErrorView::RequestFailure(reason@),
            _ => action == AdmissionAction::Ignore,
        }
    }

    /// The task that is under way, if the admission has not ended.
    pub fn task(&self) -> (task: Option<&FileTask<P>>)
        ensures
            match task {
                Some(held) => self.spec_task() == Some(*held),
                None => self.spec_task() is None,
            },
    {
        match self {
            Admission::Auditing(task) => Some(task),
            Admission::Connecting(task) => Some(task),
            Admission::Serializing(task) => Some(task),
            Admission::Pushing(task) => Some(task),
            Admission::Closed => None,
        }
    }

    /// Takes the outcome of the last action and says what to do next.
    ///
    /// The audit record is written before anything else, and a task whose
    /// record could not be written is never pushed. A failure at any stage
    /// ends the admission; what was written before stays as it is.
    pub fn advance(self, event: AdmissionEvent) -> (step: (Admission<P>, AdmissionAction))
        ensures
            step.0 == self.next(event),
            self.calls_for(event, step.1),
    {
        match (self, event) {
            (Admission::Auditing(task), AdmissionEvent::AuditWritten) => (
                Admission::Connecting(task),
                AdmissionAction::Connect,
            ),
            (Admission::Auditing(_), AdmissionEvent::AuditFailed(reason)) => (
                Admission::Closed,
                AdmissionAction::Fail(ServiceError::RequestFailure(reason)),
            ),
            (Admission::Connecting(task), AdmissionEvent::Connected) => (
                Admission::Serializing(task),
                AdmissionAction::Serialize,
            ),
            (Admission::Connecting(_), AdmissionEvent::ConnectionFailed(reason)) => (
                Admission::Closed,
                AdmissionAction::Fail(ServiceError::RequestFailure(reason)),
            ),
            (Admission::Serializing(task), AdmissionEvent::Serialized(text)) => (
                Admission::Pushing(task),
                AdmissionAction::Push { queue: "files_to_process".to_owned(), message: text },
            ),
            (Admission::Serializing(_), AdmissionEvent::SerializationFailed) => (
                Admission::Closed,
                AdmissionAction::Fail(
                    ServiceError::RequestFailure("Failed to Serialize FileTask".to_owned()),
                ),
            ),
            (Admission::Pushing(task), AdmissionEvent::Pushed(position)) => (
                Admission::Closed,
                AdmissionAction::Respond(
                    CreateFileTaskResponse {
                        id: task.id,
                        file_name: task.file_name,
                        status: FileTaskStatus::Created,
                        pos_in_queue: position,
                    },
                ),
            ),
            (Admission::Pushing(_), AdmissionEvent::PushFailed(reason)) => (
                Admission::Closed,
                AdmissionAction::Fail(ServiceError::RequestFailure(reason)),
            ),
            (state, _) => (state, AdmissionAction::Ignore),
        }
    }
}

/// The state that an admission reaches from `state` when `events` arrive in
/// their order.
pub open spec fn after<P>(state: Admission<P>, events: Seq<AdmissionEvent>) -> Admission<P>
    decreases events.len(),
{
    if events.len() == 0 {
        state
    } else {
        after(state, events.drop_last()).next(events.last())
    }
}

/// Whatever arrives, an admission keeps its task until it ends.
pub proof fn lemma_task_is_kept<P>(task: FileTask<P>, events: Seq<AdmissionEvent>)
    ensures
        after(Admission::Auditing(task), events).spec_task() matches Some(kept) ==> kept == task,
    decreases events.len(),
{
    if events.len() > 0 {
        lemma_task_is_kept(task, events.drop_last());
    }
}

/// An admission stays where it began until the audit record is written.
pub proof fn lemma_audit_comes_first<P>(task: FileTask<P>, events: Seq<AdmissionEvent>)
    ensures
        after(Admission::Auditing(task), events) is Auditing || after(
            Admission::Auditing(task),
            events,
        ) is Closed || exists|j: int| 0 <= j < events.len() && events[j] is AuditWritten,
    decreases events.len(),
{
    if events.len() > 0 {
        let earlier = events.drop_last();
        lemma_audit_comes_first(task, earlier);
        if exists|j: int| 0 <= j < earlier.len() && earlier[j] is AuditWritten {
            let j = choose|j: int| 0 <= j < earlier.len() && earlier[j] is AuditWritten;
            assert(events[j] is AuditWritten);
        } else if after(Admission::Auditing(task), earlier) is Auditing {
            if events.last() is AuditWritten {
                assert(events[events.len() - 1] is AuditWritten);
            }
        }
    }
}

/// A task is pushed only after its audit record was written: where the
/// event at place `at` of a run calls for a push, an earlier event of the run
/// reported the record as written.
pub proof fn lemma_push_follows_audit<P>(
    task: FileTask<P>,
    events: Seq<AdmissionEvent>,
    at: int,
    action: AdmissionAction,
)
    requires
        0 <= at < events.len(),
        after(Admission::Auditing(task), events.take(at)).calls_for(events[at], action),
        action is Push,
    ensures
        exists|j: int| 0 <= j < at && events[j] is AuditWritten,
{
    let earlier = events.take(at);
    lemma_audit_comes_first(task, earlier);
    let j = choose|j: int| 0 <= j < earlier.len() && earlier[j] is AuditWritten;
    assert(events[j] is AuditWritten);
}

/// An admission whose audit record could not be written has ended: no
/// later event calls for anything.
pub proof fn lemma_failed_audit_ends<P>(
    task: FileTask<P>,
    events: Seq<AdmissionEvent>,
    event: AdmissionEvent,
    action: AdmissionAction,
)
    requires
        events.len() > 0,
        events[0] is AuditFailed,
        after(Admission::Auditing(task), events).calls_for(event, action),
    ensures
        after(Admission::Auditing(task), events) is Closed,
        action is Ignore,
{
    lemma_failed_audit_closes(task, events);
}

proof fn lemma_failed_audit_closes<P>(task: FileTask<P>, events: Seq<AdmissionEvent>)
    requires
        events.len() > 0,
        events[0] is AuditFailed,
    ensures
        after(Admission::Auditing(task), events) is Closed,
    decreases events.len(),
{
    let earlier = events.drop_last();
    if earlier.len() > 0 {
        assert(earlier[0] == events[0]);
        lemma_failed_audit_closes(task, earlier);
    } else {
        assert(after(Admission::Auditing(task), earlier) == Admission::Auditing(task));
    }
}

/// Whether `state` and `action` begin the admission of the task with the
/// given identifier, file name and upload: the task is new, its audit record
/// shows nothing processed yet, and the record is the first thing written.
pub open spec fn begins<P>(
    state: Admission<P>,
    action: AdmissionAction,
    id: u128,
    file_name: Seq<char>,
    upload_file_data: P,
) -> bool {
    &&& state matches Admission::Auditing(task)
    &&& task.id == id
    &&& task.file_name@ == file_name
    &&& task.upload_file_data == upload_file_data
    &&& task.attempt_number == 0
    &&& action matches AdmissionAction::WriteAudit(record)
    &&& record.id@ == hyphenated(id)
    &&& record.file_name@ == file_name
    &&& record.pages == 0
    &&& record.pages_processed == 0
    &&& record.status == FileTaskStatus::Created
}

/// Begins the admission of a task whose identifier and time of creation are
/// given.
pub fn begin_admission<P>(
    id: u128,
    created_at: s3::creds::time::OffsetDateTime,
    file_name: String,
    upload_file_data: P,
) -> (step: (Admission<P>, AdmissionAction))
    ensures
        begins(step.0, step.1, id, file_name@, upload_file_data),
        step.1 matches AdmissionAction::WriteAudit(record) && record.created_at == created_at,
{
    let record = TaskAuditRecord {
        id: id_text(id),
        file_name: file_name.clone(),
        pages: 0,
        pages_processed: 0,
        status: FileTaskStatus::Created,
        created_at,
    };
    let task = FileTask { id, file_name, upload_file_data, attempt_number: 0 };
    (Admission::Auditing(task), AdmissionAction::WriteAudit(record))
}

/// Begins the admission of a task for an upload: draws a fresh identifier,
/// reads the clock, and asks for the audit record to be written.
pub fn create_task<P>(file_name: String, upload_file_data: P) -> (step: (
    Admission<P>,
    AdmissionAction,
))
    ensures
        step.0 matches Admission::Auditing(task) && is_random_shape(task.id) && begins(
            step.0,
            step.1,
            task.id,
            file_name@,
            upload_file_data,
        ),
{
    let id = random_id();
    let created_at = now_utc();
    begin_admission(id, created_at, file_name, upload_file_data)
}

} // verus!
