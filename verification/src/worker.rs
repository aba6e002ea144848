//! The generation worker's protocol: a state machine from events to
//! responses and actions.
//!
//! The worker is an actor that consumes commands from an inbox and emits
//! responses into an outbox. Everything it decides is here, as one step
//! function; the loop around it (the thread, the queues, the network
//! transport, the fixed two-second pacing sleep and the file read) performs
//! each returned action and hands the outcome back as the next event.
use vstd::prelude::*;
use crate::cloud::GaussianCloud;
use crate::error::Error;
use crate::job::{Model3D, StatusReport, JobState, resolve_output_path, spec_resolve_output_path};
use crate::text::{concat_str, decimal_string, dec_chars, append_str};

verus! {

/// The fixed spacing, in seconds, that the loop sleeps before every status
/// request (the first included): a deliberate minimum service load-spacing.
pub const POLL_INTERVAL_SECS: u64 = 2;

/// A raw RGBA image buffer handed in for image-driven generation.
pub struct RgbaBuffer {
    pub width: u32,
    pub height: u32,
    pub pixels: Vec<u8>,
}

/// What a caller asks of the worker.
pub enum WorkerCommand {
    GenerateFromImages(Vec<RgbaBuffer>),
    GenerateFromPrompt { prompt: String, model: Model3D },
    CheckStatus(String),
    Shutdown,
}

/// What the worker reports back. `Progress` carries the `f32` bit pattern
/// of the reported fraction.
pub enum WorkerResponse {
    Success(GaussianCloud),
    Error(String),
    Progress(u32),
    Status(String),
    JobSubmitted(String),
}

/// What one submission attempt produced, as the transport saw it: the
/// accepted job id, or the three ways the attempt can fail.
pub enum SubmitOutcome {
    Accepted(String),
    NoConnection(String),
    HttpError(String),
    BadPayload(String),
}

/// What one status request produced, as the transport saw it.
pub enum PollOutcome {
    Report(StatusReport),
    NoConnection(String),
    HttpError(String),
    BadPayload(String),
}

/// Which command entered the poll loop; it names the prefix of a poll
/// failure report.
#[derive(Clone, Copy, PartialEq, Eq, Structural, Debug)]
pub enum PollOrigin {
    Prompt,
    Check,
}

/// What the worker's loop observes: a command (or the inbox closing), or
/// the outcome of the action the previous step requested.
pub enum WorkerEvent {
    Command(WorkerCommand),
    InboxClosed,
    Submitted(SubmitOutcome),
    Polled(PollOutcome),
    Loaded(Result<GaussianCloud, Error>),
}

/// What the worker's loop must do next.
pub enum WorkerAction {
    /// Wait for the next command.
    Wait,
    /// Submit the generation job to the service.
    Submit { prompt: String, model: Model3D },
    /// Sleep the fixed pacing interval, then request the job's status.
    Poll { job_id: String },
    /// Read and decode the point-cloud file at `path` (the service's
    /// output path, resolved to a local one); a missing file is reported
    /// naming both `path` and `original`.
    Load { path: String, original: String },
    /// Exit the loop; the worker is done.
    Stop,
}

/// Where the worker stands between events.
pub enum WorkerState {
    /// Ready for the next command.
    Waiting,
    /// A submission is in flight.
    Submitting,
    /// A job is being polled; the last progress value emitted, if any,
    /// suppresses a repeat of the same value.
    Polling { job_id: String, last_progress: Option<u32>, origin: PollOrigin },
    /// A finished job's output file is being loaded.
    Loading { origin: PollOrigin },
    /// The worker has shut down.
    Terminated,
}

/// The text of a submission failure, naming the remediation for a missing
/// service.
pub open spec fn submit_failure_text(o: SubmitOutcome) -> Seq<char> {
    match o {
        SubmitOutcome::Accepted(_) => Seq::empty(),
        SubmitOutcome::NoConnection(e) => "Failed to connect: "@ + e@
            + ". Make sure FastAPI service is running (cd python && docker-compose up)"@,
        SubmitOutcome::HttpError(s) => "Service returned error: "@ + s@,
        SubmitOutcome::BadPayload(e) => "Failed to parse response: "@ + e@,
    }
}

/// The text of a status-request failure.
pub open spec fn poll_failure_text(o: PollOutcome) -> Seq<char> {
    match o {
        PollOutcome::Report(_) => Seq::empty(),
        PollOutcome::NoConnection(e) => "Failed to check status: "@ + e@,
        PollOutcome::HttpError(s) => "Status check failed: "@ + s@,
        PollOutcome::BadPayload(e) => "Failed to parse status: "@ + e@,
    }
}

/// The prefix a poll failure is reported under, by the command that started
/// the poll.
pub open spec fn origin_prefix(o: PollOrigin) -> Seq<char> {
    match o {
        PollOrigin::Prompt => "Failed to poll job: "@,
        PollOrigin::Check => "Failed to check status: "@,
    }
}

pub open spec fn is_status(r: WorkerResponse, m: Seq<char>) -> bool {
    r matches WorkerResponse::Status(s) && s@ == m
}

pub open spec fn is_error(r: WorkerResponse, m: Seq<char>) -> bool {
    r matches WorkerResponse::Error(s) && s@ == m
}

pub open spec fn is_progress(r: WorkerResponse, p: u32) -> bool {
    r matches WorkerResponse::Progress(q) && q == p
}

pub open spec fn is_job_submitted(r: WorkerResponse, id: Seq<char>) -> bool {
    r matches WorkerResponse::JobSubmitted(s) && s@ == id
}

pub open spec fn is_success(r: WorkerResponse, c: GaussianCloud) -> bool {
    r matches WorkerResponse::Success(cl) && cl == c
}

/// True when a report carries a progress value that differs from the last
/// one emitted (or none was emitted yet), so a `Progress` response is due;
/// a value unchanged from the last emitted one is suppressed.
pub open spec fn emits_progress(rep: StatusReport, last: Option<u32>) -> bool {
    rep.progress matches Some(p) && (last is None || p != last->0)
}

/// How many progress and status notes a report emits before its
/// classification is acted on.
pub open spec fn note_len(rep: StatusReport, last: Option<u32>) -> int {
    (if emits_progress(rep, last) {
        1int
    } else {
        0int
    }) + (if rep.message is Some {
        1int
    } else {
        0int
    })
}

/// The notes at the head of the responses to a report: the changed progress
/// value, if any, then the report's message, if any (never deduplicated).
pub open spec fn notes_ok(rep: StatusReport, last: Option<u32>, rs: Seq<WorkerResponse>) -> bool {
    &&& (emits_progress(rep, last) ==> is_progress(rs[0], rep.progress->0))
    &&& (rep.message matches Some(m) ==> is_status(
        rs[
            if emits_progress(rep, last) {
                1int
            } else {
                0int
            }
        ],
        m@,
    ))
}

/// The progress watermark after a report.
pub open spec fn next_progress(rep: StatusReport, last: Option<u32>) -> Option<u32> {
    match rep.progress {
        Some(p) => Some(p),
        None => last,
    }
}

/// The error text a failed job reports (a fixed default when the service
/// gave none).
pub open spec fn failure_message(rep: StatusReport) -> Seq<char> {
    match rep.error {
        Some(e) => e@,
        None => "Unknown error"@,
    }
}

/// The worker protocol, one event at a time: given the state before the
/// event, this says exactly which responses are emitted, which state is
/// entered, and which action the loop must perform next.
///
/// A driver that performs each returned action and feeds back its outcome
/// only ever produces the event the state expects; an outcome event that
/// does not match the state changes nothing and asks the loop to keep
/// waiting (or to stop, once the worker has terminated).
pub open spec fn step_spec(
    pre: WorkerState,
    ev: WorkerEvent,
    post: WorkerState,
    rs: Seq<WorkerResponse>,
    act: WorkerAction,
) -> bool {
    match pre {
        WorkerState::Waiting => match ev {
            WorkerEvent::Command(cmd) => match cmd {
                WorkerCommand::GenerateFromImages(_) => {
                    &&& rs.len() == 2
                    &&& is_status(rs[0], "Processing images..."@)
                    &&& is_error(
                        rs[1],
                        "Image-based generation not yet implemented with Shap-E. Use text prompts instead."@,
                    )
                    &&& post is Waiting
                    &&& act is Wait
                },
                WorkerCommand::GenerateFromPrompt { prompt, model } => {
                    &&& rs.len() == 1
                    &&& is_status(rs[0], "Submitting job to "@ + model.spec_name() + " service..."@)
                    &&& post is Submitting
                    &&& (act matches WorkerAction::Submit { prompt: p2, model: m2 } && p2 == prompt
                        && m2 == model)
                },
                WorkerCommand::CheckStatus(job_id) => {
                    &&& rs.len() == 0
                    &&& (post matches WorkerState::Polling { job_id: j, last_progress, origin }
                        && j == job_id && last_progress is None && origin is Check)
                    &&& (act matches WorkerAction::Poll { job_id: j } && j == job_id)
                },
                WorkerCommand::Shutdown => rs.len() == 0 && post is Terminated && act is Stop,
            },
            WorkerEvent::InboxClosed => rs.len() == 0 && post is Terminated && act is Stop,
            _ => rs.len() == 0 && post == pre && act is Wait,
        },
        WorkerState::Submitting => match ev {
            WorkerEvent::Submitted(o) => match o {
                SubmitOutcome::Accepted(job_id) => {
                    &&& rs.len() == 2
                    &&& is_job_submitted(rs[0], job_id@)
                    &&& is_status(rs[1], "Job submitted (ID: "@ + job_id@ + ")"@)
                    &&& (post matches WorkerState::Polling { job_id: j, last_progress, origin }
                        && j == job_id && last_progress is None && origin is Prompt)
                    &&& (act matches WorkerAction::Poll { job_id: j } && j == job_id)
                },
                _ => {
                    &&& rs.len() == 1
                    &&& is_error(rs[0], "Failed to submit job: "@ + submit_failure_text(o))
                    &&& post is Waiting
                    &&& act is Wait
                },
            },
            _ => rs.len() == 0 && post == pre && act is Wait,
        },
        WorkerState::Polling { job_id, last_progress, origin } => match ev {
            WorkerEvent::Polled(o) => match o {
                PollOutcome::Report(rep) => {
                    let k = note_len(rep, last_progress);
                    &&& notes_ok(rep, last_progress, rs)
                    &&& match JobState::spec_of_status(rep.status@) {
                        JobState::Success => match rep.result {
                            Some(res) => match spec_resolve_output_path(res.output_path@) {
                                Some(q) => {
                                    &&& rs.len() == k + 1
                                    &&& is_status(rs[k], "Loading generated Gaussians..."@)
                                    &&& (post matches WorkerState::Loading { origin: o2 } && o2
                                        == origin)
                                    &&& (act matches WorkerAction::Load { path, original }
                                        && path@ == q && original == res.output_path)
                                },
                                None => {
                                    &&& rs.len() == k + 1
                                    &&& is_error(
                                        rs[k],
                                        origin_prefix(origin) + ("Invalid configuration: "@
                                            + "Invalid output path"@),
                                    )
                                    &&& post is Waiting
                                    &&& act is Wait
                                },
                            },
                            None => {
                                &&& rs.len() == k + 1
                                &&& is_error(
                                    rs[k],
                                    origin_prefix(origin)
                                        + "Job succeeded but no result path returned"@,
                                )
                                &&& post is Waiting
                                &&& act is Wait
                            },
                        },
                        JobState::Failure => {
                            &&& rs.len() == k + 2
                            &&& is_error(rs[k], failure_message(rep))
                            &&& is_error(rs[k + 1], origin_prefix(origin) + failure_message(rep))
                            &&& post is Waiting
                            &&& act is Wait
                        },
                        _ => {
                            &&& rs.len() == k
                            &&& (post matches WorkerState::Polling {
                                job_id: j,
                                last_progress: lp,
                                origin: o2,
                            } && j == job_id && lp == next_progress(rep, last_progress) && o2
                                == origin)
                            &&& (act matches WorkerAction::Poll { job_id: j } && j == job_id)
                        },
                    }
                },
                _ => {
                    &&& rs.len() == 1
                    &&& is_error(rs[0], origin_prefix(origin) + poll_failure_text(o))
                    &&& post is Waiting
                    &&& act is Wait
                },
            },
            _ => rs.len() == 0 && post == pre && act is Wait,
        },
        WorkerState::Loading { origin } => match ev {
            WorkerEvent::Loaded(res) => match res {
                Ok(cloud) => {
                    &&& rs.len() == 2
                    &&& is_status(rs[0], "Loaded "@ + dec_chars(cloud.count as nat) + " Gaussians"@)
                    &&& is_success(rs[1], cloud)
                    &&& post is Waiting
                    &&& act is Wait
                },
                Err(e) => {
                    &&& rs.len() == 1
                    &&& is_error(
                        rs[0],
                        origin_prefix(origin) + "Failed to load .ply: "@ + e.spec_text(),
                    )
                    &&& post is Waiting
                    &&& act is Wait
                },
            },
            _ => rs.len() == 0 && post == pre && act is Wait,
        },
        WorkerState::Terminated => rs.len() == 0 && post is Terminated && act is Stop,
    }
}

/// The worker's decision core. A driver loop owns one machine, feeds it
/// every event, forwards the responses, and performs the actions.
pub struct WorkerMachine {
    pub state: WorkerState,
}

impl WorkerMachine {
    /// A fresh worker, ready for its first command.
    pub fn new() -> (r: WorkerMachine)
        ensures
            r.state is Waiting,
    {
        WorkerMachine { state: WorkerState::Waiting }
    }

    /// True when the worker's loop has ended.
    pub fn is_terminated(&self) -> (r: bool)
        ensures
            r == (self.state is Terminated),
    {
        match &self.state {
            WorkerState::Terminated => true,
            _ => false,
        }
    }

    /// Feeds one event through the protocol (see `step_spec`).
    pub fn step(&mut self, ev: WorkerEvent) -> (r: (Vec<WorkerResponse>, WorkerAction))
        ensures
            step_spec(old(self).state, ev, final(self).state, r.0@, r.1),
    {
        match ev {
            WorkerEvent::Command(cmd) => {
                match &self.state {
                    WorkerState::Waiting => {},
                    WorkerState::Terminated => {
                        return (Vec::new(), WorkerAction::Stop);
                    },
                    _ => {
                        return (Vec::new(), WorkerAction::Wait);
                    },
                }
                match cmd {
                    WorkerCommand::GenerateFromImages(_) => {
                        let mut rs: Vec<WorkerResponse> = Vec::new();
                        rs.push(WorkerResponse::Status("Processing images...".to_owned()));
                        rs.push(
                            WorkerResponse::Error(
                                "Image-based generation not yet implemented with Shap-E. Use text prompts instead.".to_owned(),
                            ),
                        );
                        (rs, WorkerAction::Wait)
                    },
                    WorkerCommand::GenerateFromPrompt { prompt, model } => {
                        let mut rs: Vec<WorkerResponse> = Vec::new();
                        let mut m = concat_str("Submitting job to ", model.name());
                        append_str(&mut m, " service...");
                        rs.push(WorkerResponse::Status(m));
                        self.state = WorkerState::Submitting;
                        (rs, WorkerAction::Submit { prompt, model })
                    },
                    WorkerCommand::CheckStatus(job_id) => {
                        let jid = job_id.clone();
                        self.state = WorkerState::Polling {
                            job_id,
                            last_progress: None,
                            origin: PollOrigin::Check,
                        };
                        (Vec::new(), WorkerAction::Poll { job_id: jid })
                    },
                    WorkerCommand::Shutdown => {
                        self.state = WorkerState::Terminated;
                        (Vec::new(), WorkerAction::Stop)
                    },
                }
            },
            WorkerEvent::InboxClosed => {
                match &self.state {
                    WorkerState::Waiting => {
                        self.state = WorkerState::Terminated;
                        (Vec::new(), WorkerAction::Stop)
                    },
                    WorkerState::Terminated => (Vec::new(), WorkerAction::Stop),
                    _ => (Vec::new(), WorkerAction::Wait),
                }
            },
            WorkerEvent::Submitted(o) => {
                match &self.state {
                    WorkerState::Submitting => {},
                    WorkerState::Terminated => {
                        return (Vec::new(), WorkerAction::Stop);
                    },
                    _ => {
                        return (Vec::new(), WorkerAction::Wait);
                    },
                }
                match o {
                    SubmitOutcome::Accepted(job_id) => {
                        let mut rs: Vec<WorkerResponse> = Vec::new();
                        rs.push(WorkerResponse::JobSubmitted(job_id.clone()));
                        let mut m = concat_str("Job submitted (ID: ", job_id.as_str());
                        append_str(&mut m, ")");
                        rs.push(WorkerResponse::Status(m));
                        let jid = job_id.clone();
                        self.state = WorkerState::Polling {
                            job_id,
                            last_progress: None,
                            origin: PollOrigin::Prompt,
                        };
                        (rs, WorkerAction::Poll { job_id: jid })
                    },
                    SubmitOutcome::NoConnection(e) => {
                        let mut m = concat_str("Failed to submit job: ", "Failed to connect: ");
                        append_str(&mut m, e.as_str());
                        append_str(
                            &mut m,
                            ". Make sure FastAPI service is running (cd python && docker-compose up)",
                        );
                        proof {
                            assert(m@ =~= "Failed to submit job: "@ + ("Failed to connect: "@ + e@
                                + ". Make sure FastAPI service is running (cd python && docker-compose up)"@));
                        }
                        let mut rs: Vec<WorkerResponse> = Vec::new();
                        rs.push(WorkerResponse::Error(m));
                        self.state = WorkerState::Waiting;
                        (rs, WorkerAction::Wait)
                    },
                    SubmitOutcome::HttpError(s) => {
                        let mut m = concat_str(
                            "Failed to submit job: ",
                            "Service returned error: ",
                        );
                        append_str(&mut m, s.as_str());
                        proof {
                            assert(m@ =~= "Failed to submit job: "@ + ("Service returned error: "@
                                + s@));
                        }
                        let mut rs: Vec<WorkerResponse> = Vec::new();
                        rs.push(WorkerResponse::Error(m));
                        self.state = WorkerState::Waiting;
                        (rs, WorkerAction::Wait)
                    },
                    SubmitOutcome::BadPayload(e) => {
                        let mut m = concat_str(
                            "Failed to submit job: ",
                            "Failed to parse response: ",
                        );
                        append_str(&mut m, e.as_str());
                        proof {
                            assert(m@ =~= "Failed to submit job: "@ + ("Failed to parse response: "@
                                + e@));
                        }
                        let mut rs: Vec<WorkerResponse> = Vec::new();
                        rs.push(WorkerResponse::Error(m));
                        self.state = WorkerState::Waiting;
                        (rs, WorkerAction::Wait)
                    },
                }
            },
            WorkerEvent::Polled(o) => {
                let (job_id, last_progress, origin): (String, Option<u32>, PollOrigin) = match &self
                    .state {
                    WorkerState::Polling { job_id, last_progress, origin } => (
                        job_id.clone(),
                        *last_progress,
                        *origin,
                    ),
                    WorkerState::Terminated => {
                        return (Vec::new(), WorkerAction::Stop);
                    },
                    _ => {
                        return (Vec::new(), WorkerAction::Wait);
                    },
                };
                let prefix = match origin {
                    PollOrigin::Prompt => "Failed to poll job: ",
                    PollOrigin::Check => "Failed to check status: ",
                };
                proof {
                    assert(prefix@ == origin_prefix(origin));
                }
                match o {
                    PollOutcome::Report(rep) => {
                        let mut rs: Vec<WorkerResponse> = Vec::new();
                        let new_last: Option<u32> = match rep.progress {
                            Some(p) => {
                                let emit = match last_progress {
                                    Some(lp) => p != lp,
                                    None => true,
                                };
                                if emit {
                                    rs.push(WorkerResponse::Progress(p));
                                }
                                Some(p)
                            },
                            None => last_progress,
                        };
                        match &rep.message {
                            Some(m) => {
                                rs.push(WorkerResponse::Status(m.clone()));
                            },
                            None => {},
                        }
                        let state = JobState::of_status(rep.status.as_str());
                        match state {
                            JobState::Success => match rep.result {
                                Some(res) => match resolve_output_path(res.output_path.as_str()) {
                                    Ok(q) => {
                                        rs.push(
                                            WorkerResponse::Status(
                                                "Loading generated Gaussians...".to_owned(),
                                            ),
                                        );
                                        self.state = WorkerState::Loading { origin };
                                        (
                                            rs,
                                            WorkerAction::Load {
                                                path: q,
                                                original: res.output_path,
                                            },
                                        )
                                    },
                                    Err(err) => {
                                        let t = err.text();
                                        let m = concat_str(prefix, t.as_str());
                                        proof {
                                            assert(m@ =~= origin_prefix(origin) + (
                                            "Invalid configuration: "@ + "Invalid output path"@));
                                        }
                                        rs.push(WorkerResponse::Error(m));
                                        self.state = WorkerState::Waiting;
                                        (rs, WorkerAction::Wait)
                                    },
                                },
                                None => {
                                    let m = concat_str(
                                        prefix,
                                        "Job succeeded but no result path returned",
                                    );
                                    rs.push(WorkerResponse::Error(m));
                                    self.state = WorkerState::Waiting;
                                    (rs, WorkerAction::Wait)
                                },
                            },
                            JobState::Failure => {
                                let msg: String = match rep.error {
                                    Some(e) => e,
                                    None => "Unknown error".to_owned(),
                                };
                                rs.push(WorkerResponse::Error(msg.clone()));
                                rs.push(WorkerResponse::Error(concat_str(prefix, msg.as_str())));
                                self.state = WorkerState::Waiting;
                                (rs, WorkerAction::Wait)
                            },
                            _ => {
                                let jid = job_id.clone();
                                self.state = WorkerState::Polling {
                                    job_id,
                                    last_progress: new_last,
                                    origin,
                                };
                                (rs, WorkerAction::Poll { job_id: jid })
                            },
                        }
                    },
                    PollOutcome::NoConnection(e) => {
                        let mut m = concat_str(prefix, "Failed to check status: ");
                        append_str(&mut m, e.as_str());
                        proof {
                            assert(m@ =~= origin_prefix(origin) + ("Failed to check status: "@
                                + e@));
                        }
                        let mut rs: Vec<WorkerResponse> = Vec::new();
                        rs.push(WorkerResponse::Error(m));
                        self.state = WorkerState::Waiting;
                        (rs, WorkerAction::Wait)
                    },
                    PollOutcome::HttpError(s) => {
                        let mut m = concat_str(prefix, "Status check failed: ");
                        append_str(&mut m, s.as_str());
                        proof {
                            assert(m@ =~= origin_prefix(origin) + ("Status check failed: "@ + s@));
                        }
                        let mut rs: Vec<WorkerResponse> = Vec::new();
                        rs.push(WorkerResponse::Error(m));
                        self.state = WorkerState::Waiting;
                        (rs, WorkerAction::Wait)
                    },
                    PollOutcome::BadPayload(e) => {
                        let mut m = concat_str(prefix, "Failed to parse status: ");
                        append_str(&mut m, e.as_str());
                        proof {
                            assert(m@ =~= origin_prefix(origin) + ("Failed to parse status: "@
                                + e@));
                        }
                        let mut rs: Vec<WorkerResponse> = Vec::new();
                        rs.push(WorkerResponse::Error(m));
                        self.state = WorkerState::Waiting;
                        (rs, WorkerAction::Wait)
                    },
                }
            },
            WorkerEvent::Loaded(res) => {
                let origin = match &self.state {
                    WorkerState::Loading { origin } => *origin,
                    WorkerState::Terminated => {
                        return (Vec::new(), WorkerAction::Stop);
                    },
                    _ => {
                        return (Vec::new(), WorkerAction::Wait);
                    },
                };
                match res {
                    Ok(cloud) => {
                        let mut m = concat_str("Loaded ", decimal_string(cloud.count as u64).as_str());
                        append_str(&mut m, " Gaussians");
                        let mut rs: Vec<WorkerResponse> = Vec::new();
                        rs.push(WorkerResponse::Status(m));
                        rs.push(WorkerResponse::Success(cloud));
                        self.state = WorkerState::Waiting;
                        (rs, WorkerAction::Wait)
                    },
                    Err(e) => {
                        let prefix = match origin {
                            PollOrigin::Prompt => "Failed to poll job: ",
                            PollOrigin::Check => "Failed to check status: ",
                        };
                        let mut m = concat_str(prefix, "Failed to load .ply: ");
                        let t = e.text();
                        append_str(&mut m, t.as_str());
                        proof {
                            assert(m@ =~= origin_prefix(origin) + ("Failed to load .ply: "@
                                + e.spec_text()));
                        }
                        let mut rs: Vec<WorkerResponse> = Vec::new();
                        rs.push(WorkerResponse::Error(m));
                        self.state = WorkerState::Waiting;
                        (rs, WorkerAction::Wait)
                    },
                }
            },
        }
    }
}

} // verus!
