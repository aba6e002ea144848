use splatgen::error::Error;
use splatgen::job::{
    Model3D, JobState, GaussianDreamerConfig, GenerateResponse, build_generate_request,
    resolve_output_path, classify_generate_response, missing_file_message,
    SUBMIT_GUIDANCE_BITS, SUBMIT_INFERENCE_STEPS,
};

#[test]
fn test_model_names_and_ids() {
    assert_eq!(Model3D::ShapE.name(), "Shap-E");
    assert_eq!(Model3D::ShapE.id(), "shap-e");
    assert_eq!(Model3D::GaussianDreamer.name(), "GaussianDreamer");
    assert_eq!(Model3D::GaussianDreamer.id(), "gaussiandreamer");
}

#[test]
fn test_generate_request_fields() {
    let req = build_generate_request("a chair", Model3D::ShapE);
    assert_eq!(req.prompt, "a chair");
    assert_eq!(req.model, "shap-e");
    assert_eq!(f32::from_bits(req.guidance_scale), 15.0);
    assert_eq!(req.guidance_scale, SUBMIT_GUIDANCE_BITS);
    assert_eq!(req.num_inference_steps, 64);
    assert_eq!(req.num_inference_steps, SUBMIT_INFERENCE_STEPS);
}

#[test]
fn test_job_state_classification() {
    assert_eq!(JobState::of_status("SUCCESS"), JobState::Success);
    assert_eq!(JobState::of_status("FAILURE"), JobState::Failure);
    assert_eq!(JobState::of_status("PENDING"), JobState::Pending);
    assert_eq!(JobState::of_status("STARTED"), JobState::Started);
    assert_eq!(JobState::of_status("RETRY"), JobState::Retry);
    assert_eq!(JobState::of_status("UNKNOWN"), JobState::Unknown);
    assert_eq!(JobState::of_status("success"), JobState::Unknown);
    assert_eq!(JobState::of_status(""), JobState::Unknown);
}

#[test]
fn test_job_state_terminality() {
    assert!(JobState::Success.is_terminal());
    assert!(JobState::Failure.is_terminal());
    assert!(!JobState::Pending.is_terminal());
    assert!(!JobState::Started.is_terminal());
    assert!(!JobState::Retry.is_terminal());
    assert!(!JobState::Unknown.is_terminal());
}

#[test]
fn test_dreamer_config_default() {
    let config = GaussianDreamerConfig::default();
    assert_eq!(config.service_url, "http://127.0.0.1:5000");
    assert_eq!(f32::from_bits(config.guidance_scale), 7.5);
    assert_eq!(config.num_iterations, 500);
}

#[test]
fn test_resolve_container_path() {
    let r = resolve_output_path("/app/outputs/model.ply").unwrap();
    assert_eq!(r, "outputs/model.ply");
}

#[test]
fn test_resolve_relative_path() {
    let r = resolve_output_path("../outputs/model.ply").unwrap();
    assert_eq!(r, "outputs/model.ply");
}

#[test]
fn test_resolve_local_path_unchanged() {
    let r = resolve_output_path("outputs/run7/model.ply").unwrap();
    assert_eq!(r, "outputs/run7/model.ply");
}

#[test]
fn test_resolve_unknown_path_takes_file_name() {
    let r = resolve_output_path("/tmp/jobs/model.ply").unwrap();
    assert_eq!(r, "outputs/model.ply");
    let r2 = resolve_output_path("model.ply").unwrap();
    assert_eq!(r2, "outputs/model.ply");
    let r3 = resolve_output_path("/tmp/jobs/model.ply///").unwrap();
    assert_eq!(r3, "outputs/model.ply");
}

#[test]
fn test_resolve_ignores_trailing_dot_segments() {
    assert_eq!(resolve_output_path("/tmp/jobs/model.ply/.").unwrap(), "outputs/model.ply");
    assert_eq!(resolve_output_path("foo/.").unwrap(), "outputs/foo");
    assert_eq!(resolve_output_path("a/./.").unwrap(), "outputs/a");
    assert_eq!(resolve_output_path("./model.ply").unwrap(), "outputs/model.ply");
}

#[test]
fn test_resolve_invalid_paths() {
    for bad in ["", "/", "///", "a/..", ".", "./", "/."] {
        let err = resolve_output_path(bad).unwrap_err();
        assert_eq!(err.text(), "Invalid configuration: Invalid output path");
    }
}

#[test]
fn test_classify_success_reply() {
    let resp = GenerateResponse {
        status: "success".to_string(),
        output_path: Some("/app/outputs/model.ply".to_string()),
        error: None,
    };
    assert_eq!(classify_generate_response(&resp).unwrap(), "outputs/model.ply");
}

#[test]
fn test_classify_success_without_path() {
    let resp = GenerateResponse { status: "success".to_string(), output_path: None, error: None };
    let err = classify_generate_response(&resp).unwrap_err();
    assert_eq!(err.text(), "Invalid configuration: No output path returned");
}

#[test]
fn test_classify_error_reply() {
    let resp = GenerateResponse {
        status: "error".to_string(),
        output_path: None,
        error: Some("out of memory".to_string()),
    };
    let err = classify_generate_response(&resp).unwrap_err();
    assert_eq!(err.text(), "Invalid configuration: GaussianDreamer error: out of memory");

    let resp2 = GenerateResponse { status: "error".to_string(), output_path: None, error: None };
    let err2 = classify_generate_response(&resp2).unwrap_err();
    assert_eq!(err2.text(), "Invalid configuration: GaussianDreamer error: Unknown error");
}

#[test]
fn test_classify_unexpected_status() {
    let resp =
        GenerateResponse { status: "queued".to_string(), output_path: None, error: None };
    let err = classify_generate_response(&resp).unwrap_err();
    assert_eq!(err.text(), "Invalid configuration: Unexpected status: queued");
}

#[test]
fn test_missing_file_message() {
    let m = missing_file_message("outputs/model.ply", "/app/outputs/model.ply");
    assert_eq!(
        m,
        "Generated file not found at: outputs/model.ply. Original path was: /app/outputs/model.ply",
    );
}

#[test]
fn test_error_texts() {
    assert_eq!(Error::ModelNotLoaded("lgm".to_string()).text(), "Model not loaded: lgm");
    assert_eq!(Error::InvalidConfig("bad".to_string()).text(), "Invalid configuration: bad");
    assert_eq!(Error::GenerationFailed("oom".to_string()).text(), "Generation failed: oom");
    assert_eq!(
        Error::InvalidGaussianCloud("short".to_string()).text(),
        "Invalid Gaussian cloud: short",
    );
    assert_eq!(Error::IoError("eof".to_string()).text(), "IO error: eof");
    assert_eq!(Error::RenderError("lost".to_string()).text(), "Render error: lost");
}
