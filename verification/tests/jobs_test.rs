use std::path::PathBuf;

use obs_telegram_agent::jobs::{jobs_file_at, JobError, JobService, JobState, MAX_FILE_SIZE_BYTES};
use obs_telegram_agent::telegram::UploadError;

#[derive(Clone, Default)]
struct FakeGateway;

fn queued(service: &mut JobService<FakeGateway>, id: &str) -> String {
    service
        .enqueue(
            PathBuf::from("/recordings/recording.mp4"),
            "recording.mp4",
            Some(1024),
            id.to_owned(),
        )
        .unwrap()
}

#[test]
fn rejects_a_file_larger_than_two_gibibytes_before_upload() {
    assert_eq!(
        JobService::<FakeGateway>::validate_size(2 * 1024_u64.pow(3) + 1),
        Err(JobError::FileTooLarge)
    );
}

#[test]
fn accepts_a_file_of_exactly_two_gibibytes() {
    assert_eq!(MAX_FILE_SIZE_BYTES, 2 * 1024_u64.pow(3));
    assert_eq!(
        JobService::<FakeGateway>::validate_size(2 * 1024_u64.pow(3)),
        Ok(())
    );
}

#[test]
fn enqueue_never_calls_telegram_until_the_plugin_posts_a_job() {
    let service = JobService::new(FakeGateway);
    assert!(service.jobs().is_empty());
}

/// Starts the upload of `id` the way the agent does: the gateway is called
/// only when the queue hands out the recording.
fn start_upload(
    service: &mut JobService<FakeGateway>,
    id: &str,
    uploads: &mut Vec<(PathBuf, String)>,
    outcome: Result<(), UploadError>,
) -> Result<(), JobError> {
    let (path, name) = service.begin_upload(id)?;
    uploads.push((path, name));
    service.record_upload_result(id, outcome);
    Ok(())
}

#[test]
fn retry_is_the_only_way_to_reupload_a_failed_job() {
    let mut service = JobService::new(FakeGateway);
    let job_id = queued(&mut service, "a1");
    let mut uploads = Vec::new();
    let rejected = Err(UploadError::PreUploadRejected);

    assert_eq!(uploads.len(), 0);
    start_upload(&mut service, &job_id, &mut uploads, rejected.clone()).unwrap();
    assert_eq!(uploads.len(), 1);
    assert_eq!(
        uploads[0],
        (PathBuf::from("/recordings/recording.mp4"), "recording.mp4".to_owned())
    );
    assert_eq!(
        start_upload(&mut service, &job_id, &mut uploads, rejected.clone()),
        Err(JobError::NotRetryable)
    );
    assert_eq!(uploads.len(), 1);

    assert_eq!(service.retry(&job_id).unwrap().state, JobState::Queued);
    start_upload(&mut service, &job_id, &mut uploads, rejected).unwrap();
    assert_eq!(uploads.len(), 2);
}

#[test]
fn a_failed_job_carries_the_retry_message() {
    let mut service = JobService::new(FakeGateway);
    let id = queued(&mut service, "b2");
    service.begin_upload(&id).unwrap();
    service.record_upload_result(&id, Err(UploadError::PreUploadRejected));
    let status = service.status(&id).unwrap();
    assert_eq!(status.state, JobState::Failed);
    assert_eq!(
        status.retryable_error.as_deref(),
        Some("Telegram upload failed. Try again.")
    );
}

#[test]
fn completing_a_persisted_job_erases_its_protected_source_path() {
    let mut service = JobService::new(FakeGateway);
    let id = queued(&mut service, "c3");
    service.begin_upload(&id).unwrap();
    service.record_upload_result(&id, Ok(()));
    assert_eq!(service.status(&id).unwrap().state, JobState::Completed);
    assert!(service.records()[0].recording_path.is_none());
}

#[test]
fn completed_jobs_do_not_persist_the_recording_path_but_failed_jobs_survive_restart() {
    let mut service = JobService::new(FakeGateway);
    let id = queued(&mut service, "d4");
    service.begin_upload(&id).unwrap();
    service.record_upload_result(&id, Err(UploadError::PreUploadRejected));
    assert_eq!(
        service.records()[0].recording_path,
        Some(PathBuf::from("/recordings/recording.mp4"))
    );

    let restored = JobService::restore(FakeGateway, service.records());
    assert_eq!(restored.status(&id).unwrap().state, JobState::Failed);
    assert!(restored.records()[0].recording_path.is_some());
}

#[test]
fn queued_jobs_restored_after_a_crash_become_manually_retryable_failures() {
    let mut service = JobService::new(FakeGateway);
    let id = queued(&mut service, "e5");

    let mut restored = JobService::restore(FakeGateway, service.records());
    assert_eq!(restored.status(&id).unwrap().state, JobState::Failed);
    assert_eq!(restored.retry(&id).unwrap().state, JobState::Queued);
}

#[test]
fn an_interrupted_upload_is_restored_as_unknown() {
    let mut service = JobService::new(FakeGateway);
    let id = queued(&mut service, "f6");
    service.begin_upload(&id).unwrap();

    let mut restored = JobService::restore(FakeGateway, service.records());
    assert_eq!(restored.status(&id).unwrap().state, JobState::Unknown);
    assert_eq!(restored.retry(&id).err(), Some(JobError::NotRetryable));
    assert!(restored.records()[0].recording_path.is_none());
}

#[test]
fn a_persist_failure_before_upload_leaves_a_pollable_failed_job_without_calling_telegram() {
    let mut service = JobService::new(FakeGateway);
    let id = queued(&mut service, "g7");
    service.begin_upload(&id).unwrap();
    service.mark_failed(&id);
    assert_eq!(service.status(&id).unwrap().state, JobState::Failed);
}

#[test]
fn a_completion_persist_failure_marks_the_job_unknown_and_never_retryable() {
    let mut service = JobService::new(FakeGateway);
    let id = queued(&mut service, "h8");
    service.begin_upload(&id).unwrap();
    service.record_upload_result(&id, Ok(()));
    service.completion_not_persisted(&id);
    assert_eq!(service.status(&id).unwrap().state, JobState::Unknown);
    assert_eq!(service.retry(&id).err(), Some(JobError::NotRetryable));
}

#[test]
fn an_uncertain_transport_result_is_unknown_and_never_offered_for_retry() {
    let mut service = JobService::new(FakeGateway);
    let id = queued(&mut service, "i9");
    service.begin_upload(&id).unwrap();
    service.record_upload_result(&id, Err(UploadError::TransportUncertain));
    assert_eq!(service.status(&id).unwrap().state, JobState::Unknown);
    assert_eq!(service.retry(&id).err(), Some(JobError::NotRetryable));
}

#[test]
fn retry_save_failure_rolls_back_to_the_failed_pollable_state() {
    let mut service = JobService::new(FakeGateway);
    let id = queued(&mut service, "j10");
    service.begin_upload(&id).unwrap();
    service.record_upload_result(&id, Err(UploadError::PreUploadRejected));
    service.retry(&id).unwrap();
    service.mark_failed(&id);
    assert_eq!(service.status(&id).unwrap().state, JobState::Failed);
}

#[test]
fn display_name_is_derived_from_the_source_basename() {
    let mut service = JobService::new(FakeGateway);
    let id = service
        .enqueue(
            PathBuf::from("/tmp/take-01.mp4"),
            "ignored.mp4",
            Some(10),
            "k11".to_owned(),
        )
        .unwrap();
    assert_eq!(service.status(&id).unwrap().filename, "take-01.mp4");
}

#[test]
fn display_name_with_a_path_separator_is_rejected() {
    let mut service = JobService::new(FakeGateway);
    assert_eq!(
        service.enqueue(
            PathBuf::from("/tmp/recording.mp4"),
            "../recording.mp4",
            Some(10),
            "l12".to_owned(),
        ),
        Err(JobError::InvalidDisplayName)
    );
    assert!(service.jobs().is_empty());
}

#[test]
fn enqueue_reports_each_refusal() {
    let mut service = JobService::new(FakeGateway);
    let path = PathBuf::from("/tmp/r.mkv");
    assert_eq!(
        service.enqueue(path.clone(), "r.mkv", None, "m".to_owned()),
        Err(JobError::FileUnavailable)
    );
    assert_eq!(
        service.enqueue(
            path.clone(),
            "r.mkv",
            Some(MAX_FILE_SIZE_BYTES + 1),
            "m".to_owned()
        ),
        Err(JobError::FileTooLarge)
    );
    assert_eq!(
        service.enqueue(path.clone(), "r\\x.mkv", Some(1), "m".to_owned()),
        Err(JobError::InvalidDisplayName)
    );
    assert_eq!(service.status("m"), Err(JobError::NotFound));
}

#[test]
fn a_recording_path_without_a_file_name_is_named_after_the_display_name() {
    let mut service = JobService::new(FakeGateway);
    let id = service
        .enqueue(PathBuf::from("/"), "take.mkv", Some(1), "n".to_owned())
        .unwrap();
    let status = service.status(&id).unwrap();
    assert_eq!(status.filename, "take.mkv");
    assert_eq!(status.state, JobState::Queued);
}

#[test]
fn restore_drops_a_stored_job_over_two_gibibytes() {
    let mut service = JobService::new(FakeGateway);
    queued(&mut service, "big");
    queued(&mut service, "small");
    let mut records: Vec<obs_telegram_agent::jobs::Job> = service
        .records()
        .iter()
        .map(|job| obs_telegram_agent::jobs::Job {
            status: job.status.clone(),
            recording_path: job.recording_path.clone(),
        })
        .collect();
    records[0].status.size = MAX_FILE_SIZE_BYTES + 1;
    let restored = JobService::restore(FakeGateway, &records);
    let ids: Vec<String> = restored.jobs().into_iter().map(|s| s.job_id).collect();
    assert_eq!(ids, vec!["small"]);
}

#[test]
fn jobs_lists_every_job_in_queue_order_and_discard_forgets_one() {
    let mut service = JobService::new(FakeGateway);
    queued(&mut service, "one");
    queued(&mut service, "two");
    let ids: Vec<String> = service.jobs().into_iter().map(|s| s.job_id).collect();
    assert_eq!(ids, vec!["one".to_owned(), "two".to_owned()]);
    service.discard("one");
    let ids: Vec<String> = service.jobs().into_iter().map(|s| s.job_id).collect();
    assert_eq!(ids, vec!["two".to_owned()]);
}

#[test]
fn restore_keeps_the_first_of_two_stored_jobs_with_one_identifier() {
    let mut first = JobService::new(FakeGateway);
    queued(&mut first, "same");
    let mut second = JobService::new(FakeGateway);
    queued(&mut second, "same");
    second.begin_upload("same").unwrap();
    second.record_upload_result("same", Ok(()));
    let mut records = Vec::new();
    for service in [first, second] {
        for job in service.records() {
            records.push(obs_telegram_agent::jobs::Job {
                status: job.status.clone(),
                recording_path: job.recording_path.clone(),
            });
        }
    }
    let restored = JobService::restore(FakeGateway, &records);
    assert_eq!(restored.jobs().len(), 1);
    assert_eq!(restored.status("same").unwrap().state, JobState::Failed);
}

#[test]
fn new_job_ids_are_thirty_two_hexadecimal_digits() {
    let a = obs_telegram_agent::jobs::new_job_id().unwrap();
    let b = obs_telegram_agent::jobs::new_job_id().unwrap();
    assert_eq!(a.len(), 32);
    assert!(a.bytes().all(|c| c.is_ascii_hexdigit() && !c.is_ascii_uppercase()));
    assert_ne!(a, b);
}

#[test]
fn restore_keeps_the_stored_order() {
    let mut service = JobService::new(FakeGateway);
    queued(&mut service, "first");
    queued(&mut service, "second");
    queued(&mut service, "third");
    let restored = JobService::restore(FakeGateway, service.records());
    let ids: Vec<String> = restored.jobs().into_iter().map(|s| s.job_id).collect();
    assert_eq!(ids, vec!["first", "second", "third"]);
}

#[test]
fn the_queue_is_kept_in_its_directory() {
    let directory = PathBuf::from("/Users/me/Library/Application Support/OBS-Telegram-Send");
    assert_eq!(jobs_file_at(&directory), directory.join("upload-jobs.json"));
}
