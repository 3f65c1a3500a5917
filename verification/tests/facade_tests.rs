//! Lifecycle scenarios on the application core: streams, recordings,
//! the stop cascade and the shutdown drain.

use camera_vms::errors::VmsError;
use camera_vms::facade::{
    check_ptz_capabilities, get_camera_capabilities, ptz_move_result, ptz_stop_result,
    stream_path, stream_url, temp_recording_name, AppCore,
};
use camera_vms::models::{NewCamera, UpdateEncoderSettings};

fn new_rtsp_camera() -> NewCamera {
    NewCamera {
        name: "Cam1".to_string(),
        camera_type: "rtsp".to_string(),
        host: "192.168.1.10".to_string(),
        port: 554,
        user: Some("u".to_string()),
        pass: Some("p@ss".to_string()),
        xaddr: None,
        stream_path: Some("/live".to_string()),
    }
}

const NOW: &str = "2024-01-01T00:00:00+00:00";

#[test]
fn add_camera_assigns_first_id() {
    let mut core = AppCore::new();
    let cam = core.registry.add_camera(new_rtsp_camera(), NOW).unwrap();
    assert_eq!(cam.id, 1);
    assert_eq!(cam.name, "Cam1");
    assert_eq!(cam.created_at, NOW);
    let cam2 = core.registry.add_camera(new_rtsp_camera(), NOW).unwrap();
    assert_eq!(cam2.id, 2);
    assert_eq!(core.registry.get_cameras().len(), 2);
}

#[test]
fn start_stream_returns_playlist_url() {
    let mut core = AppCore::new();
    let cam = core.registry.add_camera(new_rtsp_camera(), NOW).unwrap();
    assert!(core.start_stream_check(cam.id).is_none());
    let path = core.note_stream_started(cam.id, 4242);
    assert_eq!(path, "streams/1/index.m3u8");
    assert_eq!(stream_url(3333, cam.id), "http://localhost:3333/streams/1/index.m3u8");
}

#[test]
fn start_stream_is_idempotent() {
    let mut core = AppCore::new();
    let cam = core.registry.add_camera(new_rtsp_camera(), NOW).unwrap();
    let first = core.note_stream_started(cam.id, 4242);
    // The second start sees the live entry and returns the same path
    // without spawning anything.
    let second = core.start_stream_check(cam.id).unwrap();
    assert_eq!(first, second);
    assert!(core.has_stream(cam.id));
}

#[test]
fn recording_commit_creates_one_pending_row() {
    let mut core = AppCore::new();
    let cam = core.registry.add_camera(new_rtsp_camera(), NOW).unwrap();
    let fetched = core.start_recording_preflight(cam.id).unwrap();
    assert_eq!(fetched.id, cam.id);
    let rec_id = core
        .start_recording_commit(cam.id, 777, temp_recording_name(cam.id), NOW.to_string())
        .unwrap();
    assert_eq!(rec_id, 1);
    let rows = core.registry.get_recordings();
    assert_eq!(rows.len(), 1);
    assert_eq!(rows[0].filename, "temp_rec_1.ts");
    assert!(!rows[0].is_finished);
    assert_eq!(core.get_recording_cameras(), vec![cam.id]);
}

#[test]
fn recording_preflight_fails_fast() {
    let mut core = AppCore::new();
    let cam = core.registry.add_camera(new_rtsp_camera(), NOW).unwrap();
    assert_eq!(core.start_recording_preflight(99).unwrap_err(), VmsError::NotFound);
    core.start_recording_commit(cam.id, 777, "temp_rec_1.ts".to_string(), NOW.to_string())
        .unwrap();
    assert_eq!(core.start_recording_preflight(cam.id).unwrap_err(), VmsError::AlreadyActive);
}

#[test]
fn failed_spawn_leaves_no_row() {
    // The commit step only runs after a successful spawn; a spawn failure
    // leaves the registry untouched because nothing else writes rows.
    let mut core = AppCore::new();
    let cam = core.registry.add_camera(new_rtsp_camera(), NOW).unwrap();
    let _ = core.start_recording_preflight(cam.id).unwrap();
    assert_eq!(core.registry.get_recordings().len(), 0);
    assert!(!core.has_recorder(cam.id));
}

#[test]
fn stop_recording_finalizes_the_row() {
    let mut core = AppCore::new();
    let cam = core.registry.add_camera(new_rtsp_camera(), NOW).unwrap();
    let rec_id = core
        .start_recording_commit(cam.id, 777, "temp_rec_1.ts".to_string(), NOW.to_string())
        .unwrap();
    assert_eq!(core.take_recorder(cam.id), Some(777));
    let youngest = core.registry.youngest_unfinished(cam.id).unwrap();
    assert_eq!(youngest.id, rec_id);
    core.registry
        .finalize_recording(
            rec_id,
            "rec_1_20240101_090000.mp4".to_string(),
            Some("rec_1_20240101_090000.jpg".to_string()),
            "2024-01-01T00:05:00+00:00".to_string(),
        )
        .unwrap();
    let rows = core.registry.get_recordings();
    let done: Vec<_> =
        rows.iter().filter(|r| r.is_finished && r.filename == "rec_1_20240101_090000.mp4").collect();
    assert_eq!(done.len(), 1);
    assert_eq!(done[0].end_time.as_deref(), Some("2024-01-01T00:05:00+00:00"));
    assert!(core.registry.youngest_unfinished(cam.id).is_none());
}

#[test]
fn youngest_unfinished_picks_latest_start() {
    let mut core = AppCore::new();
    let cam = core.registry.add_camera(new_rtsp_camera(), NOW).unwrap();
    core.registry
        .insert_pending_recording(cam.id, "a.ts".to_string(), "2024-01-01T00:00:00+00:00".to_string())
        .unwrap();
    core.registry
        .insert_pending_recording(cam.id, "b.ts".to_string(), "2024-01-02T00:00:00+00:00".to_string())
        .unwrap();
    let youngest = core.registry.youngest_unfinished(cam.id).unwrap();
    assert_eq!(youngest.filename, "b.ts");
}

#[test]
fn stop_stream_cascades_to_recording() {
    let mut core = AppCore::new();
    let cam = core.registry.add_camera(new_rtsp_camera(), NOW).unwrap();
    core.note_stream_started(cam.id, 100);
    core.start_recording_commit(cam.id, 200, "temp_rec_1.ts".to_string(), NOW.to_string())
        .unwrap();
    assert_eq!(core.registry.get_recordings().len(), 1);
    let (stream_pid, rec_pid) = core.stop_stream(cam.id);
    assert_eq!(stream_pid, Some(100));
    assert_eq!(rec_pid, Some(200));
    assert!(!core.has_stream(cam.id));
    assert!(!core.has_recorder(cam.id));
    // The dangling unfinished row is gone with the cascade.
    assert_eq!(core.registry.get_recordings().len(), 0);
}

#[test]
fn stop_stream_clears_unfinished_rows_even_without_a_child() {
    let mut core = AppCore::new();
    let cam = core.registry.add_camera(new_rtsp_camera(), NOW).unwrap();
    core.registry
        .insert_pending_recording(cam.id, "a.ts".to_string(), NOW.to_string())
        .unwrap();
    core.registry
        .insert_pending_recording(cam.id, "b.ts".to_string(), NOW.to_string())
        .unwrap();
    core.registry
        .finalize_recording(
            2,
            "rec_1_20240101_090000.mp4".to_string(),
            None,
            "2024-01-01T01:00:00+00:00".to_string(),
        )
        .unwrap();
    core.note_stream_started(cam.id, 100);
    let (stream_pid, rec_pid) = core.stop_stream(cam.id);
    assert_eq!(stream_pid, Some(100));
    assert_eq!(rec_pid, None);
    // The dangling unfinished row is gone; the finished one stays.
    let rows = core.registry.get_recordings();
    assert_eq!(rows.len(), 1);
    assert!(rows[0].is_finished);
}

#[test]
fn drain_detaches_every_child() {
    let mut core = AppCore::new();
    let c1 = core.registry.add_camera(new_rtsp_camera(), NOW).unwrap();
    let c2 = core.registry.add_camera(new_rtsp_camera(), NOW).unwrap();
    core.note_stream_started(c1.id, 100);
    core.note_stream_started(c2.id, 101);
    core.start_recording_commit(c1.id, 200, "temp_rec_1.ts".to_string(), NOW.to_string())
        .unwrap();
    let mut pids: Vec<u32> = core.drain().into_iter().map(|e| e.1).collect();
    pids.sort();
    assert_eq!(pids, vec![100, 101, 200]);
    assert!(!core.has_stream(c1.id));
    assert!(!core.has_stream(c2.id));
    assert!(!core.has_recorder(c1.id));
    assert_eq!(core.get_recording_cameras().len(), 0);
}

#[test]
fn delete_camera_removes_the_row() {
    let mut core = AppCore::new();
    let cam = core.registry.add_camera(new_rtsp_camera(), NOW).unwrap();
    core.registry.delete_camera(cam.id);
    assert!(core.registry.find_camera(cam.id).is_none());
    assert_eq!(core.registry.get_cameras().len(), 0);
}

#[test]
fn delete_recording_reports_missing_rows() {
    let mut core = AppCore::new();
    let cam = core.registry.add_camera(new_rtsp_camera(), NOW).unwrap();
    let rec_id = core
        .registry
        .insert_pending_recording(cam.id, "a.ts".to_string(), NOW.to_string())
        .unwrap();
    assert_eq!(core.registry.delete_recording(rec_id).unwrap(), "a.ts");
    assert_eq!(core.registry.delete_recording(rec_id).unwrap_err(), VmsError::NotFound);
}

#[test]
fn encoder_settings_patching() {
    let mut core = AppCore::new();
    let s = core.registry.get_encoder_settings();
    assert_eq!(s.encoder_mode, "Auto");
    assert_eq!(s.cpu_encoder, "libx264");
    assert_eq!(s.preset, "ultrafast");
    assert_eq!(s.quality, 23);
    let empty = UpdateEncoderSettings {
        encoder_mode: None,
        gpu_encoder: None,
        cpu_encoder: None,
        preset: None,
        quality: None,
    };
    assert_eq!(core.registry.update_encoder_settings(empty).unwrap_err(), VmsError::Validation);
    let patch = UpdateEncoderSettings {
        encoder_mode: Some("GpuOnly".to_string()),
        gpu_encoder: Some("h264_nvenc".to_string()),
        cpu_encoder: None,
        preset: None,
        quality: Some(20),
    };
    let updated = core.registry.update_encoder_settings(patch).unwrap();
    assert_eq!(updated.encoder_mode, "GpuOnly");
    assert_eq!(updated.gpu_encoder.as_deref(), Some("h264_nvenc"));
    assert_eq!(updated.cpu_encoder, "libx264");
    assert_eq!(updated.quality, 20);
}

#[test]
fn gpu_encoder_fill_only_when_unset() {
    let mut core = AppCore::new();
    core.registry.set_gpu_encoder_if_unset("h264_vaapi".to_string());
    assert_eq!(core.registry.get_encoder_settings().gpu_encoder.as_deref(), Some("h264_vaapi"));
    core.registry.set_gpu_encoder_if_unset("h264_nvenc".to_string());
    assert_eq!(core.registry.get_encoder_settings().gpu_encoder.as_deref(), Some("h264_vaapi"));
}

#[test]
fn recordings_list_by_start_time_descending() {
    let mut core = AppCore::new();
    let cam = core.registry.add_camera(new_rtsp_camera(), NOW).unwrap();
    core.registry
        .insert_pending_recording(cam.id, "a.ts".to_string(), "2024-01-02T00:00:00+00:00".to_string())
        .unwrap();
    core.registry
        .insert_pending_recording(cam.id, "b.ts".to_string(), "2024-01-03T00:00:00+00:00".to_string())
        .unwrap();
    core.registry
        .insert_pending_recording(cam.id, "c.ts".to_string(), "2024-01-01T00:00:00+00:00".to_string())
        .unwrap();
    let rows = core.registry.get_recordings();
    let names: Vec<&str> = rows.iter().map(|r| r.filename.as_str()).collect();
    assert_eq!(names, vec!["b.ts", "a.ts", "c.ts"]);
}

#[test]
fn recordings_listing_joins_camera_names() {
    let mut core = AppCore::new();
    let cam = core.registry.add_camera(new_rtsp_camera(), NOW).unwrap();
    core.registry
        .insert_pending_recording(cam.id, "a.ts".to_string(), NOW.to_string())
        .unwrap();
    let rows = core.registry.get_recordings();
    assert_eq!(rows[0].camera_name.as_deref(), Some("Cam1"));
}

#[test]
fn error_messages_for_the_surface() {
    assert_eq!(VmsError::AlreadyActive.message(), "Recording is already in progress");
    assert_eq!(VmsError::NotFound.message(), "not found");
    assert_eq!(VmsError::BackendMismatch.message(), "operation requires an ONVIF camera");
    assert_eq!(VmsError::NotSupported.message(), "not supported by this plugin");
    assert_eq!(VmsError::ProtocolFailure.message(), "protocol failure");
    assert_eq!(VmsError::SpawnFailure.message(), "failed to start transcoder process");
    assert_eq!(VmsError::Persistence.message(), "persistence failure");
    assert_eq!(VmsError::Validation.message(), "invalid input");
}

#[test]
fn capability_answers() {
    let caps = get_camera_capabilities();
    assert!(caps.streaming && caps.recording && caps.ptz);
    assert!(!caps.time_sync && !caps.discovery);
    let ptz = check_ptz_capabilities(true);
    assert!(ptz.supported);
    let d = ptz.capabilities.unwrap();
    assert!(d.has_pan_tilt && d.has_zoom);
    let none = check_ptz_capabilities(false);
    assert!(!none.supported && none.capabilities.is_none());
    assert_eq!(ptz_move_result().message, "Moving");
    assert_eq!(ptz_stop_result().message, "Stopped");
}

#[test]
fn temp_and_playlist_names() {
    assert_eq!(temp_recording_name(3), "temp_rec_3.ts");
    assert_eq!(stream_path(3), "streams/3/index.m3u8");
}
