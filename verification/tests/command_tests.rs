use vidgen_core::command::audio_scale_string;
use vidgen_core::command::build_job_args;
use vidgen_core::command::first_existing;
use vidgen_core::command::join_path;
use vidgen_core::command::needs_parent_creation;
use vidgen_core::command::parent_path;
use vidgen_core::command::python_test_result;
use vidgen_core::command::style_needs_weights;
use vidgen_core::command::style_weights_filename;
use vidgen_core::command::success_result;
use vidgen_core::command::validate_input_file;
use vidgen_core::command::GenerateVideoParams;
use vidgen_core::normalize_path_for_cli;

fn params() -> GenerateVideoParams {
    GenerateVideoParams {
        audio_path: "music\\track.mp3".to_string(),
        output_path: "out\\video.mp4".to_string(),
        resolution: "1280x720".to_string(),
        fps: 24,
        style_name: Some("neon_dreams".to_string()),
        quality: Some(50),
        layers: Some(4),
        hidden_dim: Some(128),
    }
}

#[test]
fn audio_scale_for_quality_50_is_exactly_0_50() {
    assert_eq!(audio_scale_string(50), "0.50");
}

#[test]
fn audio_scale_covers_the_whole_percentage_range() {
    assert_eq!(audio_scale_string(0), "0.00");
    assert_eq!(audio_scale_string(7), "0.07");
    assert_eq!(audio_scale_string(99), "0.99");
    assert_eq!(audio_scale_string(100), "1.00");
}

#[test]
fn full_request_builds_the_whole_argument_vector() {
    let weights = "styles/neon_dreams.pth".to_string();
    let args = build_job_args(&params(), Some(&weights));
    assert_eq!(
        args,
        vec![
            "music/track.mp3".to_string(),
            "out/video.mp4".to_string(),
            "--resolution".to_string(),
            "1280x720".to_string(),
            "--fps".to_string(),
            "24".to_string(),
            "--layers".to_string(),
            "4".to_string(),
            "--hidden-dim".to_string(),
            "128".to_string(),
            "--audio-scale".to_string(),
            "0.50".to_string(),
            "--load-weights".to_string(),
            "styles/neon_dreams.pth".to_string(),
        ]
    );
}

#[test]
fn resolved_request_carries_audio_scale_and_load_weights() {
    let weights = "styles/neon_dreams.pth".to_string();
    let args = build_job_args(&params(), Some(&weights));
    assert!(args.iter().any(|a| a == "--audio-scale"));
    assert!(args.iter().any(|a| a == "--load-weights"));
}

#[test]
fn unresolved_style_omits_the_weights_flag_without_failing() {
    let args = build_job_args(&params(), None);
    assert!(!args.iter().any(|a| a == "--load-weights"));
    assert!(args.iter().any(|a| a == "--audio-scale"));
}

#[test]
fn optional_arguments_are_omitted_when_absent() {
    let mut p = params();
    p.quality = None;
    p.layers = None;
    p.hidden_dim = None;
    p.style_name = None;
    let args = build_job_args(&p, None);
    assert_eq!(
        args,
        vec![
            "music/track.mp3".to_string(),
            "out/video.mp4".to_string(),
            "--resolution".to_string(),
            "1280x720".to_string(),
            "--fps".to_string(),
            "24".to_string(),
        ]
    );
}

#[test]
fn backslashes_are_normalized_for_the_worker() {
    assert_eq!(normalize_path_for_cli("C:\\music\\track.mp3"), "C:/music/track.mp3");
    assert_eq!(normalize_path_for_cli("already/fine.mp3"), "already/fine.mp3");
}

#[test]
fn weights_lookup_is_wanted_only_for_real_style_names() {
    assert!(style_needs_weights(&Some("neon".to_string())));
    assert!(!style_needs_weights(&Some("default".to_string())));
    assert!(!style_needs_weights(&Some("".to_string())));
    assert!(!style_needs_weights(&None));
}

#[test]
fn weights_paths_are_built_from_the_style_name() {
    assert_eq!(style_weights_filename("neon"), "neon.pth");
    assert_eq!(join_path("styles", "neon.pth"), "styles/neon.pth");
    assert_eq!(join_path("styles/pack", "neon.pth"), "styles/pack/neon.pth");
}

#[test]
fn first_existing_candidate_wins() {
    assert_eq!(first_existing(&vec![false, true, true]), Some(1));
    assert_eq!(first_existing(&vec![true]), Some(0));
    assert_eq!(first_existing(&vec![false, false]), None);
    assert_eq!(first_existing(&vec![]), None);
}

#[test]
fn input_validation_reports_each_failure_exactly() {
    assert!(validate_input_file("a.mp3", true, Ok(true)).is_ok());
    assert_eq!(
        validate_input_file("a.mp3", false, Ok(true)).unwrap_err(),
        "Input file not found: a.mp3"
    );
    assert_eq!(
        validate_input_file("a.mp3", true, Ok(false)).unwrap_err(),
        "Input path is not a file: a.mp3"
    );
    assert_eq!(
        validate_input_file("a.mp3", true, Err("denied".to_string())).unwrap_err(),
        "Cannot access input file: denied"
    );
}

#[test]
fn parent_paths_guide_directory_creation() {
    assert_eq!(parent_path("out/videos/final.mp4"), "out/videos");
    assert_eq!(parent_path("final.mp4"), "");
    assert_eq!(parent_path("out\\final.mp4"), "out");
    assert!(needs_parent_creation("out", false));
    assert!(!needs_parent_creation("out", true));
    assert!(!needs_parent_creation("", false));
}

#[test]
fn success_result_reports_path_size_and_unknown_duration() {
    let r = success_result("out/video.mp4".to_string(), 2048);
    assert!(r.success);
    assert_eq!(r.message, "Video generated successfully");
    let data = r.data.unwrap();
    assert_eq!(data.video_path, "out/video.mp4");
    assert_eq!(data.duration_ms, 0);
    assert_eq!(data.size, 2048);
}

#[test]
fn python_test_result_follows_the_exit_code() {
    let ok = python_test_result(0);
    assert!(ok.success);
    assert_eq!(ok.message, "Python exited with code 0");
    assert!(ok.data.is_none());
    let bad = python_test_result(2);
    assert!(!bad.success);
    assert_eq!(bad.message, "Python exited with code 2");
}
