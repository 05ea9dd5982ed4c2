use retrieval_fanout::error::ServiceError;
use retrieval_fanout::task::{
    begin_admission, create_task, Admission, AdmissionAction, AdmissionEvent,
    CreateFileTaskResponse, FileTask, FileTaskStatus,
};
use s3::creds::time::OffsetDateTime;

const ID: u128 = 0x0123_4567_89ab_4def_8123_4567_89ab_cdef;

fn hex(digit: u128) -> char {
    "0123456789abcdef".chars().nth(digit as usize).unwrap()
}

fn expected_text(id: u128) -> String {
    let mut text = String::new();
    for place in 0..32 {
        if place == 8 || place == 12 || place == 16 || place == 20 {
            text.push('-');
        }
        text.push(hex((id >> (4 * (31 - place))) & 0xf));
    }
    text
}

fn task(payload: &str) -> FileTask<String> {
    FileTask {
        id: ID,
        file_name: "report.pdf".to_string(),
        upload_file_data: payload.to_string(),
        attempt_number: 0,
    }
}

#[test]
fn begin_admission_writes_the_audit_record_first() {
    let (state, action) = begin_admission(
        ID,
        OffsetDateTime::UNIX_EPOCH,
        "report.pdf".to_string(),
        "payload".to_string(),
    );
    assert_eq!(state, Admission::Auditing(task("payload")));
    match action {
        AdmissionAction::WriteAudit(record) => {
            assert_eq!(record.id, "01234567-89ab-4def-8123-456789abcdef");
            assert_eq!(record.file_name, "report.pdf");
            assert_eq!(record.pages, 0);
            assert_eq!(record.pages_processed, 0);
            assert_eq!(record.status, FileTaskStatus::Created);
            assert_eq!(record.created_at, OffsetDateTime::UNIX_EPOCH);
        }
        other => panic!("unexpected action {:?}", other),
    }
}

#[test]
fn the_text_of_an_identifier_is_its_hyphenated_lower_case_form() {
    for id in [0u128, u128::MAX, ID, 1, 0xfedc_ba98_7654_3210_0f1e_2d3c_4b5a_6978] {
        let (_, action) =
            begin_admission(id, OffsetDateTime::UNIX_EPOCH, String::new(), ());
        match action {
            AdmissionAction::WriteAudit(record) => {
                assert_eq!(record.id, expected_text(id));
                assert_eq!(record.id.len(), 36);
            }
            other => panic!("unexpected action {:?}", other),
        }
    }
    assert_eq!(expected_text(0), "00000000-0000-0000-0000-000000000000");
    assert_eq!(expected_text(u128::MAX), "ffffffff-ffff-ffff-ffff-ffffffffffff");
}

#[test]
fn create_task_draws_a_random_identifier() {
    let (state, action) = create_task("report.pdf".to_string(), 7u8);
    let task = match state {
        Admission::Auditing(task) => task,
        other => panic!("unexpected state {:?}", other),
    };
    assert_eq!(task.file_name, "report.pdf");
    assert_eq!(task.upload_file_data, 7);
    assert_eq!(task.attempt_number, 0);
    assert_eq!((task.id >> 76) & 0xf, 4);
    assert_eq!((task.id >> 62) & 0x3, 2);
    match action {
        AdmissionAction::WriteAudit(record) => {
            assert_eq!(record.id, expected_text(task.id));
            assert_eq!(record.id.chars().nth(14), Some('4'));
            assert!(matches!(record.id.chars().nth(19), Some('8' | '9' | 'a' | 'b')));
            assert_eq!(record.file_name, "report.pdf");
            assert_eq!(record.pages, 0);
            assert_eq!(record.pages_processed, 0);
            assert_eq!(record.status, FileTaskStatus::Created);
            assert!(record.created_at > OffsetDateTime::UNIX_EPOCH);
        }
        other => panic!("unexpected action {:?}", other),
    }
}

#[test]
fn two_admissions_get_different_identifiers() {
    let mut seen: Vec<u128> = Vec::new();
    for _ in 0..64 {
        let (state, _) = create_task("report.pdf".to_string(), ());
        let id = state.task().unwrap().id;
        assert!(!seen.contains(&id));
        seen.push(id);
    }
}

#[test]
fn an_admission_runs_from_the_audit_to_the_response() {
    let state = Admission::Auditing(task("payload"));
    let (state, action) = state.advance(AdmissionEvent::AuditWritten);
    assert_eq!(state, Admission::Connecting(task("payload")));
    assert_eq!(action, AdmissionAction::Connect);
    let (state, action) = state.advance(AdmissionEvent::Connected);
    assert_eq!(state, Admission::Serializing(task("payload")));
    assert_eq!(action, AdmissionAction::Serialize);
    assert_eq!(state.task(), Some(&task("payload")));
    let (state, action) = state.advance(AdmissionEvent::Serialized("{\"id\":1}".to_string()));
    assert_eq!(state, Admission::Pushing(task("payload")));
    assert_eq!(
        action,
        AdmissionAction::Push {
            queue: "files_to_process".to_string(),
            message: "{\"id\":1}".to_string()
        }
    );
    let (state, action) = state.advance(AdmissionEvent::Pushed("17".to_string()));
    assert_eq!(state, Admission::Closed);
    assert_eq!(
        action,
        AdmissionAction::Respond(CreateFileTaskResponse {
            id: ID,
            file_name: "report.pdf".to_string(),
            status: FileTaskStatus::Created,
            pos_in_queue: "17".to_string(),
        })
    );
    assert_eq!(state.task(), None);
}

#[test]
fn a_failed_audit_ends_the_admission_before_anything_is_pushed() {
    let state = Admission::Auditing(task("payload"));
    let (state, action) = state.advance(AdmissionEvent::AuditFailed("table missing".to_string()));
    assert_eq!(state, Admission::Closed);
    assert_eq!(
        action,
        AdmissionAction::Fail(ServiceError::RequestFailure("table missing".to_string()))
    );
    let (state, action) = state.advance(AdmissionEvent::Serialized("{}".to_string()));
    assert_eq!(state, Admission::Closed);
    assert_eq!(action, AdmissionAction::Ignore);
    let (state, action) = state.advance(AdmissionEvent::Pushed("1".to_string()));
    assert_eq!(state, Admission::Closed);
    assert_eq!(action, AdmissionAction::Ignore);
}

#[test]
fn a_failure_at_a_later_stage_ends_the_admission() {
    let (state, action) = Admission::Connecting(task("p"))
        .advance(AdmissionEvent::ConnectionFailed("pool timed out".to_string()));
    assert_eq!(state, Admission::Closed);
    assert_eq!(
        action,
        AdmissionAction::Fail(ServiceError::RequestFailure("pool timed out".to_string()))
    );
    let (state, action) =
        Admission::Serializing(task("p")).advance(AdmissionEvent::SerializationFailed);
    assert_eq!(state, Admission::Closed);
    assert_eq!(
        action,
        AdmissionAction::Fail(ServiceError::RequestFailure(
            "Failed to Serialize FileTask".to_string()
        ))
    );
    let (state, action) =
        Admission::Pushing(task("p")).advance(AdmissionEvent::PushFailed("broken pipe".to_string()));
    assert_eq!(state, Admission::Closed);
    assert_eq!(
        action,
        AdmissionAction::Fail(ServiceError::RequestFailure("broken pipe".to_string()))
    );
}

#[test]
fn the_audit_store_spells_the_status_in_capitals() {
    assert_eq!(FileTaskStatus::Created.label(), "CREATED");
}

#[test]
fn an_event_that_answers_nothing_is_ignored() {
    let (state, action) = Admission::Auditing(task("p")).advance(AdmissionEvent::Connected);
    assert_eq!(state, Admission::Auditing(task("p")));
    assert_eq!(action, AdmissionAction::Ignore);
    let (state, action) = state.advance(AdmissionEvent::Pushed("3".to_string()));
    assert_eq!(state, Admission::Auditing(task("p")));
    assert_eq!(action, AdmissionAction::Ignore);
    let (state, action) = Admission::Pushing(task("p")).advance(AdmissionEvent::AuditWritten);
    assert_eq!(state, Admission::Pushing(task("p")));
    assert_eq!(action, AdmissionAction::Ignore);
    let (state, action) =
        Admission::Connecting(task("p")).advance(AdmissionEvent::Serialized("{}".to_string()));
    assert_eq!(state, Admission::Connecting(task("p")));
    assert_eq!(action, AdmissionAction::Ignore);
}
