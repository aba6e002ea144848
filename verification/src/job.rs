//! The job client's data and decisions: the model selector, the request and
//! status payloads exchanged with the generation service, the job-state
//! classification, and the normalization of returned output paths.
//!
//! The network transport itself lives outside the library; everything here
//! is the pure part: what to send, and what each reply means.
use vstd::prelude::*;
use crate::error::Error;
use crate::text::{concat_str, str_eq, str_starts_with, char_substring, has_prefix};

verus! {

/// The model selector for prompt-driven generation.
#[derive(Clone, Copy, PartialEq, Eq, Structural, Debug)]
pub enum Model3D {
    ShapE,
    GaussianDreamer,
}

impl Model3D {
    /// The display name of the model.
    pub open spec fn spec_name(self) -> Seq<char> {
        match self {
            Model3D::ShapE => "Shap-E"@,
            Model3D::GaussianDreamer => "GaussianDreamer"@,
        }
    }

    /// The identifier the service expects in a request.
    pub open spec fn spec_id(self) -> Seq<char> {
        match self {
            Model3D::ShapE => "shap-e"@,
            Model3D::GaussianDreamer => "gaussiandreamer"@,
        }
    }

    /// The display name of the model.
    pub fn name(&self) -> (r: &'static str)
        ensures
            r@ == self.spec_name(),
    {
        match self {
            Model3D::ShapE => "Shap-E",
            Model3D::GaussianDreamer => "GaussianDreamer",
        }
    }

    /// The identifier the service expects in a request.
    pub fn id(&self) -> (r: &'static str)
        ensures
            r@ == self.spec_id(),
    {
        match self {
            Model3D::ShapE => "shap-e",
            Model3D::GaussianDreamer => "gaussiandreamer",
        }
    }
}

/// The body of a job submission: the prompt, the model identifier, and the
/// fixed sampling parameters. `guidance_scale` is the `f32` bit pattern of
/// the value sent on the wire.
pub struct GenerateRequest {
    pub prompt: String,
    pub model: String,
    pub guidance_scale: u32,
    pub num_inference_steps: usize,
}

/// The bit pattern of the guidance scale every submission carries (15.0).
pub const SUBMIT_GUIDANCE_BITS: u32 = 0x4170_0000;

/// The number of inference steps every submission requests.
pub const SUBMIT_INFERENCE_STEPS: usize = 64;

/// Builds the submission body for a prompt and a model.
pub fn build_generate_request(prompt: &str, model: Model3D) -> (r: GenerateRequest)
    ensures
        r.prompt@ == prompt@,
        r.model@ == model.spec_id(),
        r.guidance_scale == SUBMIT_GUIDANCE_BITS,
        r.num_inference_steps == SUBMIT_INFERENCE_STEPS,
{
    GenerateRequest {
        prompt: prompt.to_owned(),
        model: model.id().to_owned(),
        guidance_scale: SUBMIT_GUIDANCE_BITS,
        num_inference_steps: SUBMIT_INFERENCE_STEPS,
    }
}

/// The result payload of a finished job.
pub struct JobResult {
    pub output_path: String,
    pub model: String,
    pub prompt: String,
}

/// One status reply of the service. `progress` is the `f32` bit pattern of
/// the reported fraction.
pub struct StatusReport {
    pub job_id: String,
    pub status: String,
    pub progress: Option<u32>,
    pub message: Option<String>,
    pub result: Option<JobResult>,
    pub error: Option<String>,
}

/// The state of a job as the service reports it. `Pending`, `Started`,
/// `Retry` and `Unknown` are non-terminal; `Success` and `Failure` end the
/// poll loop.
#[derive(Clone, Copy, PartialEq, Eq, Structural, Debug)]
pub enum JobState {
    Pending,
    Started,
    Retry,
    Success,
    Failure,
    Unknown,
}

impl JobState {
    /// The state a status string denotes; anything unrecognized is
    /// `Unknown`, which keeps the poll going.
    pub open spec fn spec_of_status(s: Seq<char>) -> JobState {
        if s == "SUCCESS"@ {
            JobState::Success
        } else if s == "FAILURE"@ {
            JobState::Failure
        } else if s == "PENDING"@ {
            JobState::Pending
        } else if s == "STARTED"@ {
            JobState::Started
        } else if s == "RETRY"@ {
            JobState::Retry
        } else {
            JobState::Unknown
        }
    }

    /// Classifies a status string.
    pub fn of_status(s: &str) -> (r: JobState)
        ensures
            r == JobState::spec_of_status(s@),
    {
        if str_eq(s, "SUCCESS") {
            JobState::Success
        } else if str_eq(s, "FAILURE") {
            JobState::Failure
        } else if str_eq(s, "PENDING") {
            JobState::Pending
        } else if str_eq(s, "STARTED") {
            JobState::Started
        } else if str_eq(s, "RETRY") {
            JobState::Retry
        } else {
            JobState::Unknown
        }
    }

    /// True when no further polling is meaningful.
    pub open spec fn spec_terminal(self) -> bool {
        self == JobState::Success || self == JobState::Failure
    }

    /// True when no further polling is meaningful.
    pub fn is_terminal(&self) -> (r: bool)
        ensures
            r == self.spec_terminal(),
    {
        match self {
            JobState::Success => true,
            JobState::Failure => true,
            _ => false,
        }
    }
}

/// The configuration of the direct text-to-splat service. `guidance_scale`
/// is the `f32` bit pattern of the value sent (7.5 by default).
pub struct GaussianDreamerConfig {
    pub service_url: String,
    pub guidance_scale: u32,
    pub num_iterations: usize,
}

impl Default for GaussianDreamerConfig {
    /// The local service on its default port, with the default sampling
    /// parameters.
    fn default() -> (r: GaussianDreamerConfig)
        ensures
            r.service_url@ == "http://127.0.0.1:5000"@,
            r.guidance_scale == 0x40F0_0000,
            r.num_iterations == 500,
    {
        GaussianDreamerConfig {
            service_url: "http://127.0.0.1:5000".to_owned(),
            guidance_scale: 0x40F0_0000,
            num_iterations: 500,
        }
    }
}

/// One reply of the direct generation service.
pub struct GenerateResponse {
    pub status: String,
    pub output_path: Option<String>,
    pub error: Option<String>,
}

/// The position where the last `/`-separated segment of `p` begins, looking
/// below `e`.
pub open spec fn seg_start(p: Seq<char>, e: int) -> int
    decreases e,
    when 0 <= e <= p.len()
{
    if e <= 0 {
        0
    } else if p[e - 1] == '/' {
        e
    } else {
        seg_start(p, e - 1)
    }
}

/// `p` with its trailing slashes removed.
pub open spec fn strip_trailing_slashes(p: Seq<char>) -> Seq<char>
    decreases p.len(),
{
    if p.len() > 0 && p.last() == '/' {
        strip_trailing_slashes(p.drop_last())
    } else {
        p
    }
}

/// Stripping trailing slashes never lengthens a path.
proof fn lemma_strip_trailing_slashes_len(p: Seq<char>)
    ensures
        strip_trailing_slashes(p).len() <= p.len(),
    decreases p.len(),
{
    if p.len() > 0 && p.last() == '/' {
        lemma_strip_trailing_slashes_len(p.drop_last());
    }
}

/// A segment starts at or before the position it is sought from.
proof fn lemma_seg_start_bounds(p: Seq<char>, e: int)
    requires
        0 <= e <= p.len(),
    ensures
        0 <= seg_start(p, e) <= e,
    decreases e,
{
    if e > 0 && p[e - 1] != '/' {
        lemma_seg_start_bounds(p, e - 1);
    }
}

/// The file name of the path `p`: its last `/`-separated segment, with
/// trailing slashes and trailing `.` segments ignored.
pub open spec fn spec_file_name(p: Seq<char>) -> Seq<char>
    decreases p.len(),
    via spec_file_name_decreases
{
    let t = strip_trailing_slashes(p);
    let f = t.subrange(seg_start(t, t.len() as int), t.len() as int);
    if f.len() == 1 && f[0] == '.' {
        spec_file_name(t.subrange(0, t.len() - 1))
    } else {
        f
    }
}

#[via_fn]
proof fn spec_file_name_decreases(p: Seq<char>) {
    lemma_strip_trailing_slashes_len(p);
    let t = strip_trailing_slashes(p);
    lemma_seg_start_bounds(t, t.len() as int);
}

/// Where the service's output path resolves to locally, if anywhere:
/// the documented prefixes are rewritten to the local `outputs/` directory,
/// a path already under `outputs/` stays, and any other path is reduced to
/// its file name under `outputs/`. A path without a usable file name (empty
/// once trailing `.` segments are dropped, or ending in `..`) resolves
/// nowhere.
pub open spec fn spec_resolve_output_path(p: Seq<char>) -> Option<Seq<char>> {
    if has_prefix(p, "/app/outputs/"@) {
        Some("outputs/"@ + p.skip(13))
    } else if has_prefix(p, "../outputs/"@) {
        Some("outputs/"@ + p.skip(11))
    } else if has_prefix(p, "outputs/"@) {
        Some(p)
    } else {
        let f = spec_file_name(p);
        if f.len() == 0 || f == ".."@ {
            None
        } else {
            Some("outputs/"@ + f)
        }
    }
}

/// Normalizes the output path a service reply names to a local path, as
/// `spec_resolve_output_path` says; a path with no usable file name is
/// rejected as an invalid configuration.
pub fn resolve_output_path(path: &str) -> (r: Result<String, Error>)
    ensures
        match r {
            Ok(q) => spec_resolve_output_path(path@) == Some(q@),
            Err(e) => spec_resolve_output_path(path@) is None && (e
                matches Error::InvalidConfig(m) && m@ == "Invalid output path"@),
        },
{
    let n = path.unicode_len();
    if str_starts_with(path, "/app/outputs/") {
        proof {
            reveal_strlit("/app/outputs/");
        }
        let rest = char_substring(path, 13, n);
        let out = concat_str("outputs/", rest.as_str());
        proof {
            assert(path@.skip(13) =~= rest@);
        }
        Ok(out)
    } else if str_starts_with(path, "../outputs/") {
        proof {
            reveal_strlit("../outputs/");
        }
        let rest = char_substring(path, 11, n);
        let out = concat_str("outputs/", rest.as_str());
        proof {
            assert(path@.skip(11) =~= rest@);
        }
        Ok(out)
    } else if str_starts_with(path, "outputs/") {
        Ok(path.to_owned())
    } else {
        // Reduce to the file name: repeatedly drop trailing slashes and a
        // trailing `.` segment, then take the last segment.
        let mut e = n;
        let mut s: usize = n;
        let mut done = false;
        proof {
            assert(path@.subrange(0, n as int) =~= path@);
        }
        while !done
            invariant
                0 <= s <= e <= n,
                n == path@.len(),
                spec_file_name(path@) == spec_file_name(path@.subrange(0, e as int)),
                done ==> spec_file_name(path@) == path@.subrange(s as int, e as int),
            decreases e + (if done {
                0int
            } else {
                1int
            }),
        {
            let ghost e0 = e;
            while e > 0 && path.get_char(e - 1) == '/'
                invariant
                    0 <= e <= e0 <= n,
                    n == path@.len(),
                    spec_file_name(path@) == spec_file_name(path@.subrange(0, e as int)),
                decreases e,
            {
                proof {
                    let a = path@.subrange(0, e as int);
                    let b = path@.subrange(0, e as int - 1);
                    assert(a.drop_last() =~= b);
                    assert(strip_trailing_slashes(a) == strip_trailing_slashes(b));
                    assert(spec_file_name(a) == spec_file_name(b));
                }
                e -= 1;
            }
            let ghost t = path@.subrange(0, e as int);
            proof {
                if e > 0 {
                    assert(t.last() != '/');
                }
                assert(strip_trailing_slashes(t) == t);
            }
            s = e;
            while s > 0 && path.get_char(s - 1) != '/'
                invariant
                    0 <= s <= e <= n,
                    n == path@.len(),
                    t == path@.subrange(0, e as int),
                    seg_start(t, e as int) == seg_start(t, s as int),
                decreases s,
            {
                proof {
                    assert(t[s as int - 1] == path@[s as int - 1]);
                }
                s -= 1;
            }
            proof {
                if s > 0 {
                    assert(t[s as int - 1] == path@[s as int - 1]);
                }
                assert(seg_start(t, e as int) == s as int);
            }
            if e - s == 1 && path.get_char(s) == '.' {
                // A trailing `.` segment names the directory itself: drop
                // it and look again.
                proof {
                    let f = t.subrange(s as int, e as int);
                    assert(f[0] == path@[s as int]);
                    assert(f.len() == 1 && f[0] == '.');
                    assert(t.subrange(0, t.len() - 1) =~= path@.subrange(0, e as int - 1));
                    assert(spec_file_name(t) == spec_file_name(path@.subrange(0, e as int - 1)));
                }
                e -= 1;
            } else {
                proof {
                    let f = t.subrange(s as int, e as int);
                    if f.len() == 1 && f[0] == '.' {
                        assert(path@[s as int] == '.');
                        assert(false);
                    }
                    assert(spec_file_name(t) == f);
                }
                done = true;
            }
        }
        let f = char_substring(path, s, e);
        proof {
            assert(f@ == spec_file_name(path@));
        }
        if f.as_str().is_empty() || str_eq(f.as_str(), "..") {
            return Err(Error::InvalidConfig("Invalid output path".to_owned()));
        }
        Ok(concat_str("outputs/", f.as_str()))
    }
}

/// The text that reports a resolved output file missing on disk, naming the
/// resolved and the original path.
pub fn missing_file_message(resolved: &str, original: &str) -> (r: String)
    ensures
        r@ == "Generated file not found at: "@ + resolved@ + ". Original path was: "@
            + original@,
{
    let mut s = concat_str("Generated file not found at: ", resolved);
    let t = concat_str(". Original path was: ", original);
    crate::text::append_str(&mut s, t.as_str());
    s
}

/// What one reply of the direct generation service decides: a `success`
/// reply must name an output path that resolves locally; an `error` reply
/// fails with the service's message (or a fixed default); any other status
/// is unexpected and fails naming it.
pub fn classify_generate_response(resp: &GenerateResponse) -> (r: Result<String, Error>)
    ensures
        match r {
            Ok(q) => resp.status@ == "success"@ && (resp.output_path matches Some(p)
                && spec_resolve_output_path(p@) == Some(q@)),
            Err(e) => match e {
                Error::InvalidConfig(m) => {
                    ||| (resp.status@ == "success"@ && resp.output_path is None && m@
                        == "No output path returned"@)
                    ||| (resp.status@ == "success"@ && (resp.output_path matches Some(p)
                        && spec_resolve_output_path(p@) is None) && m@ == "Invalid output path"@)
                    ||| (resp.status@ == "error"@ && m@ == "GaussianDreamer error: "@ + (match resp
                        .error {
                        Some(err) => err@,
                        None => "Unknown error"@,
                    }))
                    ||| (resp.status@ != "success"@ && resp.status@ != "error"@ && m@
                        == "Unexpected status: "@ + resp.status@)
                },
                _ => false,
            },
        },
{
    if str_eq(resp.status.as_str(), "success") {
        match &resp.output_path {
            Some(p) => resolve_output_path(p.as_str()),
            None => Err(Error::InvalidConfig("No output path returned".to_owned())),
        }
    } else if str_eq(resp.status.as_str(), "error") {
        let detail = match &resp.error {
            Some(err) => concat_str("GaussianDreamer error: ", err.as_str()),
            None => concat_str("GaussianDreamer error: ", "Unknown error"),
        };
        Err(Error::InvalidConfig(detail))
    } else {
        Err(Error::InvalidConfig(concat_str("Unexpected status: ", resp.status.as_str())))
    }
}

} // verus!
