//! Encoder selection policy and argv composition.

use camera_vms::encoder::{EncoderConfig, EncoderSelector};
use camera_vms::errors::VmsError;
use camera_vms::gpu::GpuCapabilities;
use camera_vms::models::EncoderSettings;

fn settings(mode: &str, gpu: Option<&str>) -> EncoderSettings {
    EncoderSettings {
        id: 1,
        encoder_mode: mode.to_string(),
        gpu_encoder: gpu.map(|s| s.to_string()),
        cpu_encoder: "libx264".to_string(),
        preset: "ultrafast".to_string(),
        quality: 23,
    }
}

fn caps(encoders: &[&str]) -> GpuCapabilities {
    GpuCapabilities {
        available_encoders: encoders.iter().map(|s| s.to_string()).collect(),
        preferred_encoder: None,
        gpu_type: "NVIDIA".to_string(),
        gpu_name: None,
    }
}

fn cpu_stream_expected(fps_interval: &str) -> Vec<String> {
    [
        "-c:v",
        "libx264",
        "-preset",
        "ultrafast",
        "-tune",
        "zerolatency",
        "-g",
        fps_interval,
        "-keyint_min",
        fps_interval,
        "-sc_threshold",
        "0",
        "-force_key_frames",
        "expr:gte(t,n_forced*2)",
    ]
    .iter()
    .map(|s| s.to_string())
    .collect()
}

#[test]
fn auto_with_failing_test_falls_back_to_cpu() {
    let sel = EncoderSelector::new(caps(&["h264_nvenc"]), settings("Auto", Some("h264_nvenc")));
    // The configured GPU encoder is available, so it would be tested.
    assert_eq!(sel.encoder_test_candidate().as_deref(), Some("h264_nvenc"));
    // A failed functional test selects the CPU configuration.
    let cfg = sel.select_encoder_for_streaming(None, false).unwrap();
    assert_eq!(cfg.codec, "libx264");
    assert!(!cfg.is_gpu);
    assert_eq!(cfg.args, cpu_stream_expected("60"));
}

#[test]
fn auto_with_passing_test_uses_gpu() {
    let sel = EncoderSelector::new(caps(&["h264_nvenc"]), settings("Auto", Some("h264_nvenc")));
    let cfg = sel.select_encoder_for_streaming(Some(30), true).unwrap();
    assert_eq!(cfg.codec, "h264_nvenc");
    assert!(cfg.is_gpu);
    assert_eq!(cfg.args[0], "-c:v");
    assert_eq!(cfg.args[1], "h264_nvenc");
    assert!(cfg.args.contains(&"-tune".to_string()));
    assert!(cfg.args.contains(&"ll".to_string()));
    // GOP is fps * 2.
    let g = cfg.args.iter().position(|a| a == "-g").unwrap();
    assert_eq!(cfg.args[g + 1], "60");
    // No B-frames on this backend.
    let bf = cfg.args.iter().position(|a| a == "-bf").unwrap();
    assert_eq!(cfg.args[bf + 1], "0");
}

#[test]
fn auto_with_unavailable_encoder_skips_the_test() {
    let sel = EncoderSelector::new(caps(&[]), settings("Auto", Some("h264_nvenc")));
    assert!(sel.encoder_test_candidate().is_none());
    let cfg = sel.select_encoder_for_streaming(None, true).unwrap();
    assert_eq!(cfg.codec, "libx264");
}

#[test]
fn gpu_only_ignores_the_test_verdict() {
    let sel = EncoderSelector::new(caps(&[]), settings("GpuOnly", Some("h264_nvenc")));
    let failed = sel.select_encoder_for_streaming(None, false).unwrap();
    let passed = sel.select_encoder_for_streaming(None, true).unwrap();
    assert_eq!(failed.codec, "h264_nvenc");
    assert_eq!(failed.args, passed.args);
    assert!(failed.is_gpu);
}

#[test]
fn gpu_only_without_encoder_is_a_hard_error() {
    let sel = EncoderSelector::new(caps(&[]), settings("GpuOnly", None));
    assert_eq!(sel.select_encoder_for_streaming(None, true).unwrap_err(), VmsError::Validation);
    assert_eq!(sel.select_encoder_for_recording(true).unwrap_err(), VmsError::Validation);
}

#[test]
fn cpu_only_always_selects_cpu() {
    let sel = EncoderSelector::new(caps(&["h264_nvenc"]), settings("CpuOnly", Some("h264_nvenc")));
    let cfg = sel.select_encoder_for_streaming(Some(25), true).unwrap();
    assert_eq!(cfg.codec, "libx264");
    assert_eq!(cfg.args, cpu_stream_expected("50"));
}

#[test]
fn selection_is_deterministic() {
    let sel = EncoderSelector::new(caps(&["h264_qsv"]), settings("Auto", Some("h264_qsv")));
    let a = sel.select_encoder_for_streaming(Some(30), true).unwrap();
    let b = sel.select_encoder_for_streaming(Some(30), true).unwrap();
    assert_eq!(a.codec, b.codec);
    assert_eq!(a.args, b.args);
    assert_eq!(a.is_gpu, b.is_gpu);
    let ra = sel.select_encoder_for_recording(true).unwrap();
    let rb = sel.select_encoder_for_recording(true).unwrap();
    assert_eq!(ra.args, rb.args);
}

#[test]
fn qsv_configs_carry_hardware_init() {
    let sel = EncoderSelector::new(caps(&["h264_qsv"]), settings("GpuOnly", Some("h264_qsv")));
    let s = sel.select_encoder_for_streaming(None, false).unwrap();
    assert_eq!(s.args[0], "-init_hw_device");
    assert_eq!(s.args[1], "qsv=hw");
    let r = sel.build_gpu_config_recording("h264_qsv");
    assert_eq!(r.args[0], "-init_hw_device");
    assert!(r.args.contains(&"-global_quality".to_string()));
    assert!(r.args.contains(&"23".to_string()));
}

#[test]
fn recording_configs_target_quality() {
    let sel = EncoderSelector::new(caps(&["h264_nvenc"]), settings("Auto", Some("h264_nvenc")));
    let gpu: EncoderConfig = sel.build_gpu_config_recording("h264_nvenc");
    assert!(gpu.args.contains(&"vbr".to_string()));
    assert!(gpu.args.contains(&"8M".to_string()));
    let g = gpu.args.iter().position(|a| a == "-g").unwrap();
    assert_eq!(gpu.args[g + 1], "120");
    let cpu = sel.build_cpu_config_recording();
    assert_eq!(cpu.args, vec!["-c:v", "libx264", "-preset", "ultrafast"]);
}

#[test]
fn unknown_mode_defaults_to_cpu() {
    let sel = EncoderSelector::new(caps(&["h264_nvenc"]), settings("Turbo", Some("h264_nvenc")));
    let cfg = sel.select_encoder_for_streaming(None, true).unwrap();
    assert_eq!(cfg.codec, "libx264");
}
