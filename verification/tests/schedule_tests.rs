//! Cron canonicalization, schedule CRUD, and the scheduler's job table.

use camera_vms::cron::{
    canonical_cron, plan_schedule_job, validate_cron_expression, SchedulerManager,
};
use camera_vms::errors::VmsError;
use camera_vms::facade::AppCore;
use camera_vms::models::{NewCamera, NewRecordingSchedule, UpdateRecordingSchedule};

const NOW: &str = "2024-01-01T00:00:00+00:00";

fn new_schedule(cron: &str) -> NewRecordingSchedule {
    NewRecordingSchedule {
        camera_id: 1,
        name: "nightly".to_string(),
        cron_expression: cron.to_string(),
        duration_minutes: 1,
        fps: Some(15),
        is_enabled: true,
    }
}

fn core_with_camera() -> AppCore {
    let mut core = AppCore::new();
    core.registry
        .add_camera(
            NewCamera {
                name: "Cam1".to_string(),
                camera_type: "rtsp".to_string(),
                host: "192.168.1.10".to_string(),
                port: 554,
                user: None,
                pass: None,
                xaddr: None,
                stream_path: Some("/live".to_string()),
            },
            NOW,
        )
        .unwrap();
    core
}

#[test]
fn five_field_cron_gains_a_seconds_field() {
    assert_eq!(canonical_cron("* * * * *"), "0 * * * * *");
    assert_eq!(validate_cron_expression("* * * * *").unwrap(), "0 * * * * *");
}

#[test]
fn six_field_cron_is_stored_verbatim() {
    assert_eq!(canonical_cron("30 1 2 * * *"), "30 1 2 * * *");
    assert_eq!(validate_cron_expression("30 1 2 * * *").unwrap(), "30 1 2 * * *");
}

#[test]
fn invalid_cron_is_rejected() {
    assert_eq!(
        validate_cron_expression("definitely not cron").unwrap_err(),
        VmsError::Validation
    );
    assert_eq!(validate_cron_expression("99 99 99 99 99").unwrap_err(), VmsError::Validation);
}

#[test]
fn add_schedule_stores_the_canonical_form() {
    let mut core = core_with_camera();
    let s = core.add_recording_schedule(new_schedule("* * * * *"), NOW).unwrap();
    assert_eq!(s.id, 1);
    assert_eq!(s.cron_expression, "0 * * * * *");
    assert_eq!(s.camera_name.as_deref(), Some("Cam1"));
    let listed = core.registry.get_recording_schedules();
    assert_eq!(listed.len(), 1);
    assert_eq!(listed[0].cron_expression, "0 * * * * *");
}

#[test]
fn add_schedule_rejects_invalid_cron() {
    let mut core = core_with_camera();
    let err = core.add_recording_schedule(new_schedule("bogus"), NOW).unwrap_err();
    assert_eq!(err, VmsError::Validation);
    assert_eq!(core.registry.get_recording_schedules().len(), 0);
}

#[test]
fn update_schedule_patches_and_bumps_updated_at() {
    let mut core = core_with_camera();
    let s = core.add_recording_schedule(new_schedule("* * * * *"), NOW).unwrap();
    let later = "2024-01-02T00:00:00+00:00";
    let patch = UpdateRecordingSchedule {
        name: Some("weekly".to_string()),
        cron_expression: Some("0 0 3 * * *".to_string()),
        duration_minutes: Some(5),
        fps: None,
        is_enabled: Some(false),
    };
    let (updated, was_enabled) = core.update_recording_schedule(s.id, patch, later).unwrap();
    assert!(was_enabled);
    assert_eq!(updated.name, "weekly");
    assert_eq!(updated.cron_expression, "0 0 3 * * *");
    assert_eq!(updated.duration_minutes, 5);
    assert_eq!(updated.fps, Some(15));
    assert!(!updated.is_enabled);
    assert_eq!(updated.updated_at, later);
    assert_eq!(updated.created_at, NOW);
}

#[test]
fn update_missing_schedule_is_not_found() {
    let mut core = core_with_camera();
    let patch = UpdateRecordingSchedule {
        name: None,
        cron_expression: None,
        duration_minutes: None,
        fps: None,
        is_enabled: Some(false),
    };
    assert_eq!(core.update_recording_schedule(9, patch, NOW).unwrap_err(), VmsError::NotFound);
}

#[test]
fn toggle_flips_only_the_enabled_flag() {
    let mut core = core_with_camera();
    let s = core.add_recording_schedule(new_schedule("* * * * *"), NOW).unwrap();
    let (off, was_enabled) = core.toggle_schedule(s.id, false, NOW).unwrap();
    assert!(was_enabled);
    assert!(!off.is_enabled);
    assert_eq!(off.cron_expression, "0 * * * * *");
    let (on, was_enabled2) = core.toggle_schedule(s.id, true, NOW).unwrap();
    assert!(!was_enabled2);
    assert!(on.is_enabled);
}

#[test]
fn delete_schedule_removes_the_row() {
    let mut core = core_with_camera();
    let s = core.add_recording_schedule(new_schedule("* * * * *"), NOW).unwrap();
    core.registry.delete_schedule(s.id).unwrap();
    assert_eq!(core.registry.delete_schedule(s.id).unwrap_err(), VmsError::NotFound);
}

#[test]
fn enabled_schedules_feed_startup() {
    let mut core = core_with_camera();
    let a = core.add_recording_schedule(new_schedule("* * * * *"), NOW).unwrap();
    let b = core.add_recording_schedule(new_schedule("0 0 3 * * *"), NOW).unwrap();
    core.toggle_schedule(b.id, false, NOW).unwrap();
    let enabled = core.registry.enabled_schedules();
    assert_eq!(enabled.len(), 1);
    assert_eq!(enabled[0].id, a.id);
}

#[test]
fn scheduler_job_table_round_trip() {
    let mut mgr = SchedulerManager::new();
    assert!(mgr.get_job_id(1).is_none());
    let job = mgr.add_schedule(1);
    assert_eq!(mgr.get_job_id(1), Some(job));
    let removed = mgr.remove_schedule(1).unwrap();
    assert_eq!(removed, job);
    assert_eq!(mgr.remove_schedule(1).unwrap_err(), VmsError::NotFound);
}

#[test]
fn job_plan_converts_minutes() {
    let mut core = core_with_camera();
    let s = core.add_recording_schedule(new_schedule("* * * * *"), NOW).unwrap();
    let plan = plan_schedule_job(&s);
    assert_eq!(plan.camera_id, 1);
    assert_eq!(plan.fps, Some(15));
    assert_eq!(plan.duration_seconds, 60);
}

#[test]
fn scheduled_fire_and_auto_stop_round_trip() {
    // A schedule firing starts a recording, and the timed stop finalizes
    // it under the JST-stamped final name.
    let mut core = core_with_camera();
    let s = core.add_recording_schedule(new_schedule("* * * * *"), NOW).unwrap();
    let plan = plan_schedule_job(&s);
    let cam = core.start_recording_preflight(plan.camera_id).unwrap();
    let start = "2024-01-01T00:01:00+00:00";
    let rec_id = core
        .start_recording_commit(cam.id, 55, "temp_rec_1.ts".to_string(), start.to_string())
        .unwrap();
    // ... the duration elapses, the child is reaped ...
    assert_eq!(core.take_recorder(cam.id), Some(55));
    let row = core.registry.youngest_unfinished(cam.id).unwrap();
    let final_name =
        camera_vms::clock::final_recording_name(cam.id, &row.start_time.as_bytes().to_vec())
            .unwrap();
    assert_eq!(final_name, "rec_1_20240101_090100.mp4");
    core.registry
        .finalize_recording(rec_id, final_name.clone(), None, "2024-01-01T00:02:00+00:00".to_string())
        .unwrap();
    let rows = core.registry.get_recordings();
    assert_eq!(rows.len(), 1);
    assert!(rows[0].is_finished);
    assert_eq!(rows[0].filename, final_name);
}
