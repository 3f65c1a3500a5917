//! Data model of the orchestrator: persistent rows (cameras, recordings,
//! encoder settings, recording schedules) and the plain value types of the
//! control surface. Timestamps are carried as RFC 3339 UTC strings, exactly
//! as the store persists them.

use vstd::prelude::*;

verus! {

/// A persistent camera row.
#[derive(Clone, Debug)]
pub struct Camera {
    pub id: i32,
    pub name: String,
    /// Backend tag: `"onvif"`, `"rtsp"` or `"uvc"`.
    pub camera_type: String,
    pub host: String,
    pub port: i32,
    pub user: Option<String>,
    pub pass: Option<String>,
    /// ONVIF device-service URL; required for any ONVIF operation
    /// other than discovery.
    pub xaddr: Option<String>,
    /// Path component for plain RTSP cameras.
    pub stream_path: Option<String>,
    /// UVC locator on Linux: a device node path.
    pub device_path: Option<String>,
    /// UVC locator on Windows: an opaque device name.
    pub device_id: Option<String>,
    /// UVC locator on macOS: a device index.
    pub device_index: Option<u32>,
    /// Detected UVC pixel-format tag.
    pub video_format: Option<String>,
    pub video_width: Option<i32>,
    pub video_height: Option<i32>,
    pub video_fps: Option<i32>,
    pub created_at: String,
    pub updated_at: String,
}

/// Input for creating a camera row.
#[derive(Clone, Debug)]
pub struct NewCamera {
    pub name: String,
    pub camera_type: String,
    pub host: String,
    pub port: i32,
    pub user: Option<String>,
    pub pass: Option<String>,
    pub xaddr: Option<String>,
    pub stream_path: Option<String>,
}

/// A persistent recording row.
#[derive(Clone, Debug)]
pub struct Recording {
    pub id: i32,
    pub camera_id: i32,
    /// Temporary `.ts` name while in flight, final `.mp4` name once finished.
    pub filename: String,
    pub thumbnail: Option<String>,
    pub start_time: String,
    pub end_time: Option<String>,
    pub is_finished: bool,
    /// Joined display name of the owning camera.
    pub camera_name: Option<String>,
}

/// One device found by WS-Discovery.
#[derive(Clone, Debug)]
pub struct DiscoveredDevice {
    pub address: String,
    pub port: i32,
    pub hostname: String,
    pub name: String,
    pub manufacturer: String,
    pub xaddr: Option<String>,
}

/// Camera and server clock readings returned by the time query.
#[derive(Clone, Debug)]
pub struct CameraTimeInfo {
    pub camera_time: OnvifDateTime,
    pub server_time: String,
}

/// Outcome of a time synchronization run.
#[derive(Clone, Debug)]
pub struct TimeSyncResult {
    pub success: bool,
    pub before_time: OnvifDateTime,
    pub server_time: String,
    pub message: String,
    pub error: Option<String>,
}

/// PTZ capability answer for one camera.
#[derive(Clone, Copy, Debug)]
pub struct PTZCapabilities {
    pub supported: bool,
    pub capabilities: Option<PTZCapabilitiesDetails>,
}

/// Detail flags of a PTZ-capable camera.
#[derive(Clone, Copy, Debug)]
pub struct PTZCapabilitiesDetails {
    pub has_pan_tilt: bool,
    pub has_zoom: bool,
}

/// PTZ velocities in thousandths of the generic velocity space, so the
/// whole range [-1.0, 1.0] is [-1000, 1000].
#[derive(Clone, Copy, Debug, PartialEq, Eq, Structural)]
pub struct PtzVector {
    pub x_milli: i32,
    pub y_milli: i32,
    pub zoom_milli: i32,
}

/// Result of a PTZ command.
#[derive(Clone, Debug)]
pub struct PTZResult {
    pub success: bool,
    pub message: String,
}

/// Static capability summary of the backend.
#[derive(Clone, Copy, Debug)]
pub struct CameraCapabilities {
    pub streaming: bool,
    pub recording: bool,
    pub thumbnails: bool,
    pub ptz: bool,
    pub discovery: bool,
    pub time_sync: bool,
    pub remote_access: bool,
}

/// The singleton encoder settings row.
#[derive(Clone, Debug)]
pub struct EncoderSettings {
    pub id: i32,
    /// One of `"Auto"`, `"GpuOnly"`, `"CpuOnly"`.
    pub encoder_mode: String,
    pub gpu_encoder: Option<String>,
    pub cpu_encoder: String,
    pub preset: String,
    /// CQ/QP/global-quality value threaded to backends that take one.
    pub quality: i32,
}

impl Default for EncoderSettings {
    /// The settings seeded on first boot.
    fn default() -> (r: EncoderSettings)
        ensures
            r.id == 1,
            r.encoder_mode@ == "Auto"@,
            r.gpu_encoder is None,
            r.cpu_encoder@ == "libx264"@,
            r.preset@ == "ultrafast"@,
            r.quality == 23,
    {
        EncoderSettings {
            id: 1,
            encoder_mode: String::from_str("Auto"),
            gpu_encoder: None,
            cpu_encoder: String::from_str("libx264"),
            preset: String::from_str("ultrafast"),
            quality: 23,
        }
    }
}

/// A patch of the encoder settings; absent fields stay unchanged.
#[derive(Clone, Debug)]
pub struct UpdateEncoderSettings {
    pub encoder_mode: Option<String>,
    pub gpu_encoder: Option<String>,
    pub cpu_encoder: Option<String>,
    pub preset: Option<String>,
    pub quality: Option<i32>,
}

/// A persistent recording schedule row.
#[derive(Clone, Debug)]
pub struct RecordingSchedule {
    pub id: i32,
    pub camera_id: i32,
    pub name: String,
    /// Canonical 6-field cron expression (seconds first).
    pub cron_expression: String,
    pub duration_minutes: i32,
    pub fps: Option<i32>,
    pub is_enabled: bool,
    pub created_at: String,
    pub updated_at: String,
    /// Joined display name of the owning camera.
    pub camera_name: Option<String>,
}

/// Input for creating a schedule row.
#[derive(Clone, Debug)]
pub struct NewRecordingSchedule {
    pub camera_id: i32,
    pub name: String,
    pub cron_expression: String,
    pub duration_minutes: i32,
    pub fps: Option<i32>,
    pub is_enabled: bool,
}

/// A patch of one schedule row; absent fields stay unchanged.
#[derive(Clone, Debug)]
pub struct UpdateRecordingSchedule {
    pub name: Option<String>,
    pub cron_expression: Option<String>,
    pub duration_minutes: Option<i32>,
    pub fps: Option<i32>,
    pub is_enabled: Option<bool>,
}

/// A camera found by a plugin: the unwritten projection of a camera row.
#[derive(Clone, Debug)]
pub struct CameraInfo {
    pub name: String,
    pub host: String,
    pub port: u16,
    pub camera_type: String,
    pub user: Option<String>,
    pub pass: Option<String>,
    pub device_path: Option<String>,
    pub device_id: Option<String>,
    pub device_index: Option<u32>,
    pub video_format: Option<String>,
    pub video_width: Option<i32>,
    pub video_height: Option<i32>,
    pub video_fps: Option<i32>,
}

/// PTZ movement direction for the plugin surface.
#[derive(Clone, Copy, Debug, PartialEq, Eq, Structural)]
pub enum PtzDirection {
    Up,
    Down,
    Left,
    Right,
    ZoomIn,
    ZoomOut,
}

/// Options of one recording request.
#[derive(Clone, Copy, Debug)]
pub struct RecordingOptions {
    pub duration_minutes: Option<u32>,
    pub fps: Option<u32>,
}

/// A camera's clock reading as six plain fields (UTC).
#[derive(Clone, Copy, Debug, PartialEq, Eq, Structural)]
pub struct OnvifDateTime {
    pub year: i32,
    pub month: i32,
    pub day: i32,
    pub hour: i32,
    pub minute: i32,
    pub second: i32,
}

} // verus!
