use splatgen::cloud::GaussianCloud;
use splatgen::error::Error;
use splatgen::job::{Model3D, StatusReport, JobResult, build_generate_request};
use splatgen::worker::{
    WorkerMachine, WorkerCommand, WorkerResponse, WorkerEvent, WorkerAction, SubmitOutcome,
    PollOutcome, RgbaBuffer,
};

fn report(status: &str, progress: Option<f32>) -> StatusReport {
    StatusReport {
        job_id: "job-1".to_string(),
        status: status.to_string(),
        progress: progress.map(f32::to_bits),
        message: None,
        result: None,
        error: None,
    }
}

fn start_poll(w: &mut WorkerMachine, job_id: &str) {
    let (rs, act) = w.step(WorkerEvent::Command(WorkerCommand::CheckStatus(job_id.to_string())));
    assert!(rs.is_empty());
    assert!(matches!(act, WorkerAction::Poll { .. }));
}

fn progress_values(rs: &[WorkerResponse]) -> Vec<f32> {
    rs.iter()
        .filter_map(|r| match r {
            WorkerResponse::Progress(p) => Some(f32::from_bits(*p)),
            _ => None,
        })
        .collect()
}

#[test]
fn test_images_command_is_status_then_error() {
    // Image-driven generation is a hard stub: one status, one error, no
    // network action, and the worker stays available.
    let mut w = WorkerMachine::new();
    let images = vec![RgbaBuffer { width: 2, height: 2, pixels: vec![0u8; 16] }];
    let (rs, act) = w.step(WorkerEvent::Command(WorkerCommand::GenerateFromImages(images)));
    assert_eq!(rs.len(), 2);
    assert!(matches!(&rs[0], WorkerResponse::Status(s) if s == "Processing images..."));
    assert!(matches!(
        &rs[1],
        WorkerResponse::Error(e)
            if e == "Image-based generation not yet implemented with Shap-E. Use text prompts instead."
    ));
    assert!(matches!(act, WorkerAction::Wait));
    assert!(!w.is_terminated());
}

#[test]
fn test_unreachable_service_reports_error_and_worker_survives() {
    // Drive a real submission against a service that cannot be reached.
    let mut w = WorkerMachine::new();
    let (rs, act) = w.step(WorkerEvent::Command(WorkerCommand::GenerateFromPrompt {
        prompt: "a cat statue".to_string(),
        model: Model3D::ShapE,
    }));
    assert_eq!(rs.len(), 1);
    assert!(matches!(&rs[0], WorkerResponse::Status(s) if s == "Submitting job to Shap-E service..."));
    let (prompt, model) = match act {
        WorkerAction::Submit { prompt, model } => (prompt, model),
        other => panic!("expected a submit action, got {:?}", std::mem::discriminant(&other)),
    };
    let req = build_generate_request(&prompt, model);
    let client = reqwest::blocking::Client::new();
    let outcome = match client
        .post("http://127.0.0.1:1/generate")
        .body(format!("{{\"prompt\":\"{}\",\"model\":\"{}\"}}", req.prompt, req.model))
        .send()
    {
        Ok(resp) => SubmitOutcome::HttpError(resp.status().to_string()),
        Err(e) => SubmitOutcome::NoConnection(e.to_string()),
    };
    let (rs, act) = w.step(WorkerEvent::Submitted(outcome));
    assert_eq!(rs.len(), 1);
    match &rs[0] {
        WorkerResponse::Error(m) => {
            assert!(m.starts_with("Failed to submit job: "));
            assert!(m.contains("connect"));
        },
        _ => panic!("expected an error response"),
    }
    assert!(matches!(act, WorkerAction::Wait));
    // The worker accepts a subsequent command: it has not terminated.
    assert!(!w.is_terminated());
    let (rs, _) = w.step(WorkerEvent::Command(WorkerCommand::GenerateFromImages(vec![])));
    assert_eq!(rs.len(), 2);
}

#[test]
fn test_duplicate_progress_is_suppressed() {
    // Progress 0.1, 0.1, 0.5 across three polls yields exactly two
    // progress responses: 0.1 then 0.5.
    let mut w = WorkerMachine::new();
    start_poll(&mut w, "job-1");
    let mut seen: Vec<f32> = Vec::new();
    for p in [0.1f32, 0.1, 0.5] {
        let (rs, act) = w.step(WorkerEvent::Polled(PollOutcome::Report(report(
            "STARTED",
            Some(p),
        ))));
        seen.extend(progress_values(&rs));
        assert!(matches!(act, WorkerAction::Poll { .. }));
    }
    assert_eq!(seen, vec![0.1, 0.5]);
}

#[test]
fn test_success_without_result_is_an_error() {
    let mut w = WorkerMachine::new();
    start_poll(&mut w, "job-1");
    let (rs, act) = w.step(WorkerEvent::Polled(PollOutcome::Report(report("SUCCESS", None))));
    assert_eq!(rs.len(), 1);
    assert!(matches!(
        &rs[0],
        WorkerResponse::Error(m)
            if m == "Failed to check status: Job succeeded but no result path returned"
    ));
    assert!(rs.iter().all(|r| !matches!(r, WorkerResponse::Success(_))));
    // The poll loop has terminated: the worker waits for the next command.
    assert!(matches!(act, WorkerAction::Wait));
    assert!(!w.is_terminated());
}

#[test]
fn test_unrecognized_status_keeps_polling_until_success() {
    let mut w = WorkerMachine::new();
    start_poll(&mut w, "job-1");
    // An unknown status string is non-terminal: no error, keep polling.
    let (rs, act) = w.step(WorkerEvent::Polled(PollOutcome::Report(report("UNKNOWN", None))));
    assert!(rs.iter().all(|r| !matches!(r, WorkerResponse::Error(_))));
    assert!(matches!(act, WorkerAction::Poll { ref job_id } if job_id == "job-1"));
    // The next poll succeeds with a valid result.
    let mut rep = report("SUCCESS", None);
    rep.result = Some(JobResult {
        output_path: "outputs/model.ply".to_string(),
        model: "shap-e".to_string(),
        prompt: "a cat statue".to_string(),
    });
    let (rs, act) = w.step(WorkerEvent::Polled(PollOutcome::Report(rep)));
    assert_eq!(rs.len(), 1);
    assert!(matches!(&rs[0], WorkerResponse::Status(s) if s == "Loading generated Gaussians..."));
    let (path, original) = match act {
        WorkerAction::Load { path, original } => (path, original),
        _ => panic!("expected a load action"),
    };
    assert_eq!(path, "outputs/model.ply");
    assert_eq!(original, "outputs/model.ply");
    // Loading the decoded cloud emits the success response.
    let mut cloud = GaussianCloud::new();
    cloud.add_gaussian(
        splatgen::cloud::Float3 { x: 0, y: 0, z: 0 },
        splatgen::cloud::Float3 { x: 0, y: 0, z: 0 },
        splatgen::cloud::Quat { w: 0, x: 0, y: 0, z: 0 },
        splatgen::cloud::Color3 { r: 0, g: 0, b: 0 },
        0,
    );
    let (rs, act) = w.step(WorkerEvent::Loaded(Ok(cloud)));
    assert_eq!(rs.len(), 2);
    assert!(matches!(&rs[0], WorkerResponse::Status(s) if s == "Loaded 1 Gaussians"));
    assert!(matches!(&rs[1], WorkerResponse::Success(c) if c.count == 1));
    assert!(matches!(act, WorkerAction::Wait));
}

#[test]
fn test_submission_accepted_reports_job_id() {
    let mut w = WorkerMachine::new();
    let (_, act) = w.step(WorkerEvent::Command(WorkerCommand::GenerateFromPrompt {
        prompt: "a vase".to_string(),
        model: Model3D::GaussianDreamer,
    }));
    assert!(matches!(act, WorkerAction::Submit { .. }));
    let (rs, act) = w.step(WorkerEvent::Submitted(SubmitOutcome::Accepted("j42".to_string())));
    assert_eq!(rs.len(), 2);
    assert!(matches!(&rs[0], WorkerResponse::JobSubmitted(id) if id == "j42"));
    assert!(matches!(&rs[1], WorkerResponse::Status(s) if s == "Job submitted (ID: j42)"));
    assert!(matches!(act, WorkerAction::Poll { ref job_id } if job_id == "j42"));
}

#[test]
fn test_job_failure_reports_service_error() {
    let mut w = WorkerMachine::new();
    start_poll(&mut w, "job-9");
    let mut rep = report("FAILURE", None);
    rep.error = Some("cuda out of memory".to_string());
    let (rs, act) = w.step(WorkerEvent::Polled(PollOutcome::Report(rep)));
    assert_eq!(rs.len(), 2);
    assert!(matches!(&rs[0], WorkerResponse::Error(m) if m == "cuda out of memory"));
    assert!(matches!(
        &rs[1],
        WorkerResponse::Error(m) if m == "Failed to check status: cuda out of memory"
    ));
    assert!(matches!(act, WorkerAction::Wait));

    // Without a service message a fixed default is reported.
    start_poll(&mut w, "job-9");
    let (rs, _) = w.step(WorkerEvent::Polled(PollOutcome::Report(report("FAILURE", None))));
    assert!(matches!(&rs[0], WorkerResponse::Error(m) if m == "Unknown error"));
}

#[test]
fn test_poll_transport_failures() {
    let mut w = WorkerMachine::new();
    start_poll(&mut w, "job-1");
    let (rs, _) = w.step(WorkerEvent::Polled(PollOutcome::NoConnection("refused".to_string())));
    assert!(matches!(
        &rs[0],
        WorkerResponse::Error(m) if m == "Failed to check status: Failed to check status: refused"
    ));

    start_poll(&mut w, "job-1");
    let (rs, _) = w.step(WorkerEvent::Polled(PollOutcome::HttpError("500".to_string())));
    assert!(matches!(
        &rs[0],
        WorkerResponse::Error(m) if m == "Failed to check status: Status check failed: 500"
    ));

    start_poll(&mut w, "job-1");
    let (rs, _) = w.step(WorkerEvent::Polled(PollOutcome::BadPayload("eof".to_string())));
    assert!(matches!(
        &rs[0],
        WorkerResponse::Error(m) if m == "Failed to check status: Failed to parse status: eof"
    ));
}

#[test]
fn test_poll_from_prompt_uses_poll_prefix() {
    let mut w = WorkerMachine::new();
    let (_, _) = w.step(WorkerEvent::Command(WorkerCommand::GenerateFromPrompt {
        prompt: "a vase".to_string(),
        model: Model3D::ShapE,
    }));
    let (_, _) = w.step(WorkerEvent::Submitted(SubmitOutcome::Accepted("j1".to_string())));
    let (rs, _) = w.step(WorkerEvent::Polled(PollOutcome::NoConnection("refused".to_string())));
    assert!(matches!(
        &rs[0],
        WorkerResponse::Error(m) if m == "Failed to poll job: Failed to check status: refused"
    ));
}

#[test]
fn test_load_failure_is_reported() {
    let mut w = WorkerMachine::new();
    start_poll(&mut w, "job-1");
    let mut rep = report("SUCCESS", None);
    rep.result = Some(JobResult {
        output_path: "outputs/gone.ply".to_string(),
        model: "shap-e".to_string(),
        prompt: "a vase".to_string(),
    });
    let (_, act) = w.step(WorkerEvent::Polled(PollOutcome::Report(rep)));
    assert!(matches!(act, WorkerAction::Load { .. }));
    let (rs, act) = w.step(WorkerEvent::Loaded(Err(Error::InvalidGaussianCloud(
        "No end_header found".to_string(),
    ))));
    assert_eq!(rs.len(), 1);
    assert!(matches!(
        &rs[0],
        WorkerResponse::Error(m)
            if m == "Failed to check status: Failed to load .ply: Invalid Gaussian cloud: No end_header found"
    ));
    assert!(matches!(act, WorkerAction::Wait));
}

#[test]
fn test_status_messages_are_forwarded_each_poll() {
    let mut w = WorkerMachine::new();
    start_poll(&mut w, "job-1");
    for _ in 0..2 {
        let mut rep = report("PENDING", None);
        rep.message = Some("queued".to_string());
        let (rs, _) = w.step(WorkerEvent::Polled(PollOutcome::Report(rep)));
        // Status messages are never deduplicated.
        assert_eq!(rs.len(), 1);
        assert!(matches!(&rs[0], WorkerResponse::Status(s) if s == "queued"));
    }
}

#[test]
fn test_first_progress_of_zero_is_emitted() {
    // Nothing has been emitted yet, so a reported 0.0 is not a duplicate.
    let mut w = WorkerMachine::new();
    start_poll(&mut w, "job-1");
    let (rs, _) = w.step(WorkerEvent::Polled(PollOutcome::Report(report("PENDING", Some(0.0)))));
    assert_eq!(progress_values(&rs), vec![0.0]);
    // The same value on the next poll is suppressed.
    let (rs, _) = w.step(WorkerEvent::Polled(PollOutcome::Report(report("PENDING", Some(0.0)))));
    assert_eq!(progress_values(&rs), Vec::<f32>::new());
}

#[test]
fn test_success_resolves_the_output_path() {
    // The service's container path is rewritten before the load.
    let mut w = WorkerMachine::new();
    start_poll(&mut w, "job-1");
    let mut rep = report("SUCCESS", None);
    rep.result = Some(JobResult {
        output_path: "/app/outputs/model.ply".to_string(),
        model: "shap-e".to_string(),
        prompt: "a vase".to_string(),
    });
    let (rs, act) = w.step(WorkerEvent::Polled(PollOutcome::Report(rep)));
    assert!(matches!(&rs[0], WorkerResponse::Status(s) if s == "Loading generated Gaussians..."));
    match act {
        WorkerAction::Load { path, original } => {
            assert_eq!(path, "outputs/model.ply");
            assert_eq!(original, "/app/outputs/model.ply");
        }
        _ => panic!("expected a load action"),
    }
}

#[test]
fn test_success_with_unresolvable_path_is_an_error() {
    let mut w = WorkerMachine::new();
    start_poll(&mut w, "job-1");
    let mut rep = report("SUCCESS", None);
    rep.result = Some(JobResult {
        output_path: "..".to_string(),
        model: "shap-e".to_string(),
        prompt: "a vase".to_string(),
    });
    let (rs, act) = w.step(WorkerEvent::Polled(PollOutcome::Report(rep)));
    assert_eq!(rs.len(), 1);
    assert!(matches!(
        &rs[0],
        WorkerResponse::Error(m)
            if m == "Failed to check status: Invalid configuration: Invalid output path"
    ));
    assert!(matches!(act, WorkerAction::Wait));
}

#[test]
fn test_shutdown_terminates_the_worker() {
    let mut w = WorkerMachine::new();
    let (rs, act) = w.step(WorkerEvent::Command(WorkerCommand::Shutdown));
    assert!(rs.is_empty());
    assert!(matches!(act, WorkerAction::Stop));
    assert!(w.is_terminated());
    // After termination every event just asks the loop to stop.
    let (rs, act) = w.step(WorkerEvent::Command(WorkerCommand::CheckStatus("j".to_string())));
    assert!(rs.is_empty());
    assert!(matches!(act, WorkerAction::Stop));
}

#[test]
fn test_closed_inbox_terminates_like_shutdown() {
    let mut w = WorkerMachine::new();
    let (rs, act) = w.step(WorkerEvent::InboxClosed);
    assert!(rs.is_empty());
    assert!(matches!(act, WorkerAction::Stop));
    assert!(w.is_terminated());
}
