//! The persistent registry: the authoritative store of cameras, recordings,
//! encoder settings and recording schedules. It is modelled as plain
//! sequences with unique, monotonically assigned ids; the surrounding
//! application mirrors every mutation into the database file.

use vstd::prelude::*;
use crate::errors::VmsError;
use crate::models::{
    Camera, NewCamera, Recording, EncoderSettings, UpdateEncoderSettings, RecordingSchedule,
    NewRecordingSchedule, UpdateRecordingSchedule,
};
use crate::strutil::lex_lt;

verus! {

use vstd::string::StringSliceAdditionalSpecFns;

/// Spec model of a camera row.
pub struct CameraModel {
    pub id: int,
    pub name: Seq<char>,
    pub camera_type: Seq<char>,
    pub host: Seq<char>,
    pub port: int,
    pub user: Option<Seq<char>>,
    pub pass: Option<Seq<char>>,
    pub xaddr: Option<Seq<char>>,
    pub stream_path: Option<Seq<char>>,
    pub device_path: Option<Seq<char>>,
    pub device_id: Option<Seq<char>>,
    pub device_index: Option<u32>,
    pub video_format: Option<Seq<char>>,
    pub video_width: Option<i32>,
    pub video_height: Option<i32>,
    pub video_fps: Option<i32>,
    pub created_at: Seq<char>,
    pub updated_at: Seq<char>,
}

impl View for Camera {
    type V = CameraModel;

    open spec fn view(&self) -> CameraModel {
        CameraModel {
            id: self.id as int,
            name: self.name@,
            camera_type: self.camera_type@,
            host: self.host@,
            port: self.port as int,
            user: self.user.deep_view(),
            pass: self.pass.deep_view(),
            xaddr: self.xaddr.deep_view(),
            stream_path: self.stream_path.deep_view(),
            device_path: self.device_path.deep_view(),
            device_id: self.device_id.deep_view(),
            device_index: self.device_index,
            video_format: self.video_format.deep_view(),
            video_width: self.video_width,
            video_height: self.video_height,
            video_fps: self.video_fps,
            created_at: self.created_at@,
            updated_at: self.updated_at@,
        }
    }
}

/// Spec model of a recording row.
pub struct RecordingModel {
    pub id: int,
    pub camera_id: int,
    pub filename: Seq<char>,
    pub thumbnail: Option<Seq<char>>,
    pub start_time: Seq<char>,
    pub end_time: Option<Seq<char>>,
    pub is_finished: bool,
    pub camera_name: Option<Seq<char>>,
}

impl View for Recording {
    type V = RecordingModel;

    open spec fn view(&self) -> RecordingModel {
        RecordingModel {
            id: self.id as int,
            camera_id: self.camera_id as int,
            filename: self.filename@,
            thumbnail: self.thumbnail.deep_view(),
            start_time: self.start_time@,
            end_time: self.end_time.deep_view(),
            is_finished: self.is_finished,
            camera_name: self.camera_name.deep_view(),
        }
    }
}

/// Spec model of the encoder settings row.
pub struct SettingsModel {
    pub id: int,
    pub encoder_mode: Seq<char>,
    pub gpu_encoder: Option<Seq<char>>,
    pub cpu_encoder: Seq<char>,
    pub preset: Seq<char>,
    pub quality: int,
}

impl View for EncoderSettings {
    type V = SettingsModel;

    open spec fn view(&self) -> SettingsModel {
        SettingsModel {
            id: self.id as int,
            encoder_mode: self.encoder_mode@,
            gpu_encoder: self.gpu_encoder.deep_view(),
            cpu_encoder: self.cpu_encoder@,
            preset: self.preset@,
            quality: self.quality as int,
        }
    }
}

/// Spec model of a schedule row.
pub struct ScheduleModel {
    pub id: int,
    pub camera_id: int,
    pub name: Seq<char>,
    pub cron_expression: Seq<char>,
    pub duration_minutes: int,
    pub fps: Option<i32>,
    pub is_enabled: bool,
    pub created_at: Seq<char>,
    pub updated_at: Seq<char>,
    pub camera_name: Option<Seq<char>>,
}

impl View for RecordingSchedule {
    type V = ScheduleModel;

    open spec fn view(&self) -> ScheduleModel {
        ScheduleModel {
            id: self.id as int,
            camera_id: self.camera_id as int,
            name: self.name@,
            cron_expression: self.cron_expression@,
            duration_minutes: self.duration_minutes as int,
            fps: self.fps,
            is_enabled: self.is_enabled,
            created_at: self.created_at@,
            updated_at: self.updated_at@,
            camera_name: self.camera_name.deep_view(),
        }
    }
}

/// Models of a camera sequence.
pub open spec fn cams_view(s: Seq<Camera>) -> Seq<CameraModel> {
    s.map_values(|c: Camera| c@)
}

/// Models of a recording sequence.
pub open spec fn recs_view(s: Seq<Recording>) -> Seq<RecordingModel> {
    s.map_values(|r: Recording| r@)
}

/// Models of a schedule sequence.
pub open spec fn scheds_view(s: Seq<RecordingSchedule>) -> Seq<ScheduleModel> {
    s.map_values(|r: RecordingSchedule| r@)
}

/// First camera carrying `id`.
pub open spec fn find_cam(s: Seq<CameraModel>, id: int) -> Option<CameraModel>
    decreases s.len(),
{
    if s.len() == 0 {
        None
    } else if s[0].id == id {
        Some(s[0])
    } else {
        find_cam(s.drop_first(), id)
    }
}

/// First schedule carrying `id`.
pub open spec fn find_sched(s: Seq<ScheduleModel>, id: int) -> Option<ScheduleModel>
    decreases s.len(),
{
    if s.len() == 0 {
        None
    } else if s[0].id == id {
        Some(s[0])
    } else {
        find_sched(s.drop_first(), id)
    }
}

/// First recording carrying `id`.
pub open spec fn find_rec(s: Seq<RecordingModel>, id: int) -> Option<RecordingModel>
    decreases s.len(),
{
    if s.len() == 0 {
        None
    } else if s[0].id == id {
        Some(s[0])
    } else {
        find_rec(s.drop_first(), id)
    }
}

/// The camera model a new row denotes.
pub open spec fn new_camera_model(nc: NewCamera, id: int, now: Seq<char>) -> CameraModel {
    CameraModel {
        id: id,
        name: nc.name@,
        camera_type: nc.camera_type@,
        host: nc.host@,
        port: nc.port as int,
        user: nc.user.deep_view(),
        pass: nc.pass.deep_view(),
        xaddr: nc.xaddr.deep_view(),
        stream_path: nc.stream_path.deep_view(),
        device_path: None,
        device_id: None,
        device_index: None,
        video_format: None,
        video_width: None,
        video_height: None,
        video_fps: None,
        created_at: now,
        updated_at: now,
    }
}

/// The pending recording row created right after a successful spawn.
pub open spec fn pending_recording_model(
    id: int,
    camera_id: int,
    filename: Seq<char>,
    start_time: Seq<char>,
) -> RecordingModel {
    RecordingModel {
        id: id,
        camera_id: camera_id,
        filename: filename,
        thumbnail: None,
        start_time: start_time,
        end_time: None,
        is_finished: false,
        camera_name: None,
    }
}

/// A finalized copy of a recording row.
pub open spec fn finalized_model(
    r: RecordingModel,
    filename: Seq<char>,
    thumbnail: Option<Seq<char>>,
    end_time: Seq<char>,
) -> RecordingModel {
    RecordingModel {
        id: r.id,
        camera_id: r.camera_id,
        filename: filename,
        thumbnail: thumbnail,
        start_time: r.start_time,
        end_time: Some(end_time),
        is_finished: true,
        camera_name: r.camera_name,
    }
}

/// The schedule model a new row denotes (its cron already canonical).
pub open spec fn new_schedule_model(
    ns: NewRecordingSchedule,
    cron: Seq<char>,
    id: int,
    now: Seq<char>,
) -> ScheduleModel {
    ScheduleModel {
        id: id,
        camera_id: ns.camera_id as int,
        name: ns.name@,
        cron_expression: cron,
        duration_minutes: ns.duration_minutes as int,
        fps: ns.fps,
        is_enabled: ns.is_enabled,
        created_at: now,
        updated_at: now,
        camera_name: None,
    }
}

/// A schedule row after a patch: present fields replaced, `updated_at`
/// always refreshed. `cron` is the canonicalized form of the patch's cron
/// expression, when one was given.
pub open spec fn patched_schedule(
    s: ScheduleModel,
    u: UpdateRecordingSchedule,
    cron: Option<Seq<char>>,
    now: Seq<char>,
) -> ScheduleModel {
    ScheduleModel {
        id: s.id,
        camera_id: s.camera_id,
        name: match u.name {
            Some(n) => n@,
            None => s.name,
        },
        cron_expression: match cron {
            Some(c) => c,
            None => s.cron_expression,
        },
        duration_minutes: match u.duration_minutes {
            Some(d) => d as int,
            None => s.duration_minutes,
        },
        fps: match u.fps {
            Some(f) => Some(f),
            None => s.fps,
        },
        is_enabled: match u.is_enabled {
            Some(e) => e,
            None => s.is_enabled,
        },
        created_at: s.created_at,
        updated_at: now,
        camera_name: s.camera_name,
    }
}

/// The settings row after a patch: present fields replaced.
pub open spec fn patched_settings(s: SettingsModel, u: UpdateEncoderSettings) -> SettingsModel {
    SettingsModel {
        id: s.id,
        encoder_mode: match u.encoder_mode {
            Some(m) => m@,
            None => s.encoder_mode,
        },
        gpu_encoder: match u.gpu_encoder {
            Some(g) => Some(g@),
            None => s.gpu_encoder,
        },
        cpu_encoder: match u.cpu_encoder {
            Some(c) => c@,
            None => s.cpu_encoder,
        },
        preset: match u.preset {
            Some(p) => p@,
            None => s.preset,
        },
        quality: match u.quality {
            Some(q) => q as int,
            None => s.quality,
        },
    }
}

/// An empty settings patch changes nothing and is rejected.
pub open spec fn empty_patch(u: UpdateEncoderSettings) -> bool {
    u.encoder_mode is None && u.gpu_encoder is None && u.cpu_encoder is None && u.preset is None
        && u.quality is None
}

/// Number of unfinished recordings of one camera.
pub open spec fn unfinished_for(s: Seq<RecordingModel>, camera_id: int) -> Seq<RecordingModel> {
    s.filter(|r: RecordingModel| r.camera_id == camera_id && !r.is_finished)
}

/// The youngest unfinished recording of one camera: the row with the
/// lexicographically greatest `start_time` (RFC 3339 text orders like time);
/// the earliest such row on ties.
pub open spec fn youngest_unfinished_spec(s: Seq<RecordingModel>, camera_id: int) -> Option<
    RecordingModel,
>
    decreases s.len(),
{
    if s.len() == 0 {
        None
    } else {
        let rest = youngest_unfinished_spec(s.drop_last(), camera_id);
        let last = s.last();
        if last.camera_id == camera_id && !last.is_finished {
            match rest {
                Some(best) => if lex_lt(
                    vstd::utf8::encode_utf8(best.start_time),
                    vstd::utf8::encode_utf8(last.start_time),
                ) {
                    Some(last)
                } else {
                    rest
                },
                None => Some(last),
            }
        } else {
            rest
        }
    }
}

/// The registry's well-formedness: ids unique and below their counters.
pub open spec fn registry_wf(r: Registry) -> bool {
    &&& forall|i: int, j: int|
        0 <= i < j < r.cameras@.len() ==> (#[trigger] r.cameras@[i])@.id != (
        #[trigger] r.cameras@[j])@.id
    &&& forall|i: int|
        0 <= i < r.cameras@.len() ==> 0 < (#[trigger] r.cameras@[i])@.id < r.next_camera_id as int
    &&& forall|i: int, j: int|
        0 <= i < j < r.recordings@.len() ==> (#[trigger] r.recordings@[i])@.id != (
        #[trigger] r.recordings@[j])@.id
    &&& forall|i: int|
        0 <= i < r.recordings@.len() ==> 0 < (#[trigger] r.recordings@[i])@.id
            < r.next_recording_id as int
    &&& forall|i: int, j: int|
        0 <= i < j < r.schedules@.len() ==> (#[trigger] r.schedules@[i])@.id != (
        #[trigger] r.schedules@[j])@.id
    &&& forall|i: int|
        0 <= i < r.schedules@.len() ==> 0 < (#[trigger] r.schedules@[i])@.id
            < r.next_schedule_id as int
    &&& 0 < r.next_camera_id
    &&& 0 < r.next_recording_id
    &&& 0 < r.next_schedule_id
    &&& r.settings@.id == 1
}

/// The durable registry.
pub struct Registry {
    pub cameras: Vec<Camera>,
    pub recordings: Vec<Recording>,
    pub schedules: Vec<RecordingSchedule>,
    pub settings: EncoderSettings,
    pub next_camera_id: i32,
    pub next_recording_id: i32,
    pub next_schedule_id: i32,
}

/// Copy an optional string.
pub fn clone_opt_string(o: &Option<String>) -> (r: Option<String>)
    ensures
        r.deep_view() == o.deep_view(),
{
    match o {
        Some(s) => Some(s.clone()),
        None => None,
    }
}

/// Copy a camera row.
pub fn clone_camera(c: &Camera) -> (r: Camera)
    ensures
        r@ == c@,
{
    Camera {
        id: c.id,
        name: c.name.clone(),
        camera_type: c.camera_type.clone(),
        host: c.host.clone(),
        port: c.port,
        user: clone_opt_string(&c.user),
        pass: clone_opt_string(&c.pass),
        xaddr: clone_opt_string(&c.xaddr),
        stream_path: clone_opt_string(&c.stream_path),
        device_path: clone_opt_string(&c.device_path),
        device_id: clone_opt_string(&c.device_id),
        device_index: c.device_index,
        video_format: clone_opt_string(&c.video_format),
        video_width: c.video_width,
        video_height: c.video_height,
        video_fps: c.video_fps,
        created_at: c.created_at.clone(),
        updated_at: c.updated_at.clone(),
    }
}

/// Copy a recording row.
pub fn clone_recording(r: &Recording) -> (out: Recording)
    ensures
        out@ == r@,
{
    Recording {
        id: r.id,
        camera_id: r.camera_id,
        filename: r.filename.clone(),
        thumbnail: clone_opt_string(&r.thumbnail),
        start_time: r.start_time.clone(),
        end_time: clone_opt_string(&r.end_time),
        is_finished: r.is_finished,
        camera_name: clone_opt_string(&r.camera_name),
    }
}

/// Copy a schedule row.
pub fn clone_schedule(s: &RecordingSchedule) -> (out: RecordingSchedule)
    ensures
        out@ == s@,
{
    RecordingSchedule {
        id: s.id,
        camera_id: s.camera_id,
        name: s.name.clone(),
        cron_expression: s.cron_expression.clone(),
        duration_minutes: s.duration_minutes,
        fps: s.fps,
        is_enabled: s.is_enabled,
        created_at: s.created_at.clone(),
        updated_at: s.updated_at.clone(),
        camera_name: clone_opt_string(&s.camera_name),
    }
}

/// Copy the settings row.
pub fn clone_settings(s: &EncoderSettings) -> (out: EncoderSettings)
    ensures
        out@ == s@,
{
    EncoderSettings {
        id: s.id,
        encoder_mode: s.encoder_mode.clone(),
        gpu_encoder: clone_opt_string(&s.gpu_encoder),
        cpu_encoder: s.cpu_encoder.clone(),
        preset: s.preset.clone(),
        quality: s.quality,
    }
}

impl Registry {
    /// The registry of a fresh store: empty tables, the seeded settings row.
    pub fn new() -> (r: Registry)
        ensures
            registry_wf(r),
            r.cameras@.len() == 0,
            r.recordings@.len() == 0,
            r.schedules@.len() == 0,
            r.settings@.id == 1,
            r.settings@.encoder_mode == "Auto"@,
            r.settings@.gpu_encoder is None,
            r.settings@.cpu_encoder == "libx264"@,
            r.settings@.preset == "ultrafast"@,
            r.settings@.quality == 23,
            r.next_camera_id == 1,
            r.next_recording_id == 1,
            r.next_schedule_id == 1,
    {
        Registry {
            cameras: Vec::new(),
            recordings: Vec::new(),
            schedules: Vec::new(),
            settings: EncoderSettings::default(),
            next_camera_id: 1,
            next_recording_id: 1,
            next_schedule_id: 1,
        }
    }

    /// All camera rows.
    pub fn get_cameras(&self) -> (r: Vec<Camera>)
        ensures
            cams_view(r@) == cams_view(self.cameras@),
    {
        let mut out: Vec<Camera> = Vec::new();
        let mut i: usize = 0;
        while i < self.cameras.len()
            invariant
                i <= self.cameras@.len(),
                out@.len() == i,
                forall|k: int| 0 <= k < i ==> (#[trigger] out@[k])@ == self.cameras@[k]@,
            decreases self.cameras@.len() - i,
        {
            out.push(clone_camera(&self.cameras[i]));
            i = i + 1;
        }
        proof {
            assert forall|k: int| 0 <= k < out@.len() implies cams_view(out@)[k] == cams_view(
                self.cameras@,
            )[k] by {
                assert(cams_view(out@)[k] == out@[k]@);
                assert(cams_view(self.cameras@)[k] == self.cameras@[k]@);
            }
            assert(cams_view(out@) =~= cams_view(self.cameras@));
        }
        out
    }

    /// The first camera row carrying `id`, if any.
    pub fn find_camera(&self, id: i32) -> (r: Option<Camera>)
        ensures
            match r {
                Some(c) => find_cam(cams_view(self.cameras@), id as int) == Some(c@),
                None => find_cam(cams_view(self.cameras@), id as int) is None,
            },
    {
        let mut i: usize = 0;
        proof {
            assert(cams_view(self.cameras@).skip(0) =~= cams_view(self.cameras@));
        }
        while i < self.cameras.len()
            invariant
                i <= self.cameras@.len(),
                find_cam(cams_view(self.cameras@), id as int) == find_cam(
                    cams_view(self.cameras@).skip(i as int),
                    id as int,
                ),
                forall|k: int| 0 <= k < i ==> (#[trigger] self.cameras@[k])@.id != id as int,
            decreases self.cameras@.len() - i,
        {
            proof {
                assert(cams_view(self.cameras@).skip(i as int)[0] == self.cameras@[i as int]@);
                assert(cams_view(self.cameras@).skip(i as int).drop_first() =~= cams_view(
                    self.cameras@,
                ).skip(i + 1));
            }
            if self.cameras[i].id == id {
                return Some(clone_camera(&self.cameras[i]));
            }
            i = i + 1;
        }
        proof {
            assert(cams_view(self.cameras@).skip(i as int).len() == 0);
        }
        None
    }

    /// Create a camera row: the next id is assigned, both timestamps are
    /// `now`. Fails only when the id counter is exhausted.
    pub fn add_camera(&mut self, nc: NewCamera, now: &str) -> (r: Result<Camera, VmsError>)
        requires
            registry_wf(*old(self)),
        ensures
            registry_wf(*final(self)),
            match r {
                Ok(c) => {
                    &&& c@ == new_camera_model(nc, old(self).next_camera_id as int, now@)
                    &&& cams_view(final(self).cameras@) == cams_view(old(self).cameras@).push(c@)
                    &&& final(self).next_camera_id == old(self).next_camera_id + 1
                    &&& final(self).recordings@ == old(self).recordings@
                    &&& final(self).schedules@ == old(self).schedules@
                    &&& final(self).settings == old(self).settings
                },
                Err(e) => {
                    &&& e == VmsError::Persistence
                    &&& old(self).next_camera_id == i32::MAX
                    &&& *final(self) == *old(self)
                },
            },
    {
        if self.next_camera_id == i32::MAX {
            return Err(VmsError::Persistence);
        }
        let id = self.next_camera_id;
        let cam = Camera {
            id,
            name: nc.name,
            camera_type: nc.camera_type,
            host: nc.host,
            port: nc.port,
            user: nc.user,
            pass: nc.pass,
            xaddr: nc.xaddr,
            stream_path: nc.stream_path,
            device_path: None,
            device_id: None,
            device_index: None,
            video_format: None,
            video_width: None,
            video_height: None,
            video_fps: None,
            created_at: String::from_str(now),
            updated_at: String::from_str(now),
        };
        let copy = clone_camera(&cam);
        self.cameras.push(cam);
        self.next_camera_id = id + 1;
        proof {
            assert forall|k: int| 0 <= k < self.cameras@.len() implies cams_view(
                self.cameras@,
            )[k] == cams_view(old(self).cameras@).push(copy@)[k] by {
                assert(cams_view(self.cameras@)[k] == self.cameras@[k]@);
                if k < self.cameras@.len() - 1 {
                    assert(cams_view(old(self).cameras@)[k] == old(self).cameras@[k]@);
                }
            }
            assert(cams_view(self.cameras@) =~= cams_view(old(self).cameras@).push(copy@));
            assert forall|a: int, b: int|
                0 <= a < b < self.cameras@.len() implies (#[trigger] self.cameras@[a])@.id != (
            #[trigger] self.cameras@[b])@.id by {
                if b == self.cameras@.len() - 1 {
                    assert(self.cameras@[a] == old(self).cameras@[a]);
                }
            }
        }
        Ok(copy)
    }

    /// Delete every camera row carrying `id` (at most one, by uniqueness).
    pub fn delete_camera(&mut self, id: i32)
        requires
            registry_wf(*old(self)),
        ensures
            registry_wf(*final(self)),
            cams_view(final(self).cameras@) == cams_view(old(self).cameras@).filter(
                |c: CameraModel| c.id != id as int,
            ),
            final(self).recordings@ == old(self).recordings@,
            final(self).schedules@ == old(self).schedules@,
            final(self).settings == old(self).settings,
            final(self).next_camera_id == old(self).next_camera_id,
            final(self).next_recording_id == old(self).next_recording_id,
            final(self).next_schedule_id == old(self).next_schedule_id,
    {
        let mut kept: Vec<Camera> = Vec::new();
        let mut i: usize = 0;
        proof {
            assert(cams_view(self.cameras@.take(0)) =~= Seq::<CameraModel>::empty());
            assert(cams_view(kept@) =~= cams_view(self.cameras@.take(0)).filter(
                |c: CameraModel| c.id != id as int,
            ));
        }
        while i < self.cameras.len()
            invariant
                i <= self.cameras@.len(),
                cams_view(kept@) == cams_view(self.cameras@.take(i as int)).filter(
                    |c: CameraModel| c.id != id as int,
                ),
            decreases self.cameras@.len() - i,
        {
            proof {
                reveal_with_fuel(Seq::filter, 2);
                assert(cams_view(self.cameras@.take(i + 1)).drop_last() =~= cams_view(
                    self.cameras@.take(i as int),
                ));
                assert(cams_view(self.cameras@.take(i + 1)).last() == self.cameras@[i as int]@);
            }
            if self.cameras[i].id != id {
                kept.push(clone_camera(&self.cameras[i]));
                proof {
                    assert(cams_view(kept@) =~~= cams_view(self.cameras@.take(i + 1)).filter(
                        |c: CameraModel| c.id != id as int,
                    ));
                }
            } else {
                proof {
                    assert(cams_view(kept@) =~~= cams_view(self.cameras@.take(i + 1)).filter(
                        |c: CameraModel| c.id != id as int,
                    ));
                }
            }
            i = i + 1;
        }
        proof {
            assert(self.cameras@.take(self.cameras@.len() as int) =~= self.cameras@);
        }
        self.cameras = kept;
        proof {
            let olds = cams_view(old(self).cameras@);
            let pred = |c: CameraModel| c.id != id as int;
            lemma_filter_keeps_uniqueness(olds, pred);
            let f = olds.filter(pred);
            assert forall|a: int, b: int|
                0 <= a < b < self.cameras@.len() implies (#[trigger] self.cameras@[a])@.id != (
            #[trigger] self.cameras@[b])@.id by {
                assert(cams_view(self.cameras@)[a] == self.cameras@[a]@);
                assert(cams_view(self.cameras@)[b] == self.cameras@[b]@);
                let (x, y) = choose|x: int, y: int|
                    0 <= x < y < olds.len() && olds[x] == f[a] && olds[y] == f[b];
                assert(olds[x] == old(self).cameras@[x]@);
                assert(olds[y] == old(self).cameras@[y]@);
            }
            assert forall|a: int| 0 <= a < self.cameras@.len() implies 0 < (
            #[trigger] self.cameras@[a])@.id < self.next_camera_id as int by {
                assert(cams_view(self.cameras@)[a] == self.cameras@[a]@);
                let x = choose|x: int| 0 <= x < olds.len() && olds[x] == f[a];
                assert(olds[x] == old(self).cameras@[x]@);
            }
        }
    }
}

/// A recording row joined with its camera's display name, as the listing
/// returns it.
pub open spec fn joined_rec(r: RecordingModel, cams: Seq<CameraModel>) -> RecordingModel {
    RecordingModel {
        camera_name: match find_cam(cams, r.camera_id) {
            Some(c) => Some(c.name),
            None => None,
        },
        ..r
    }
}

/// The recording rows joined with their cameras' display names.
pub open spec fn joined_models(s: Seq<RecordingModel>, cams: Seq<CameraModel>) -> Seq<
    RecordingModel,
> {
    s.map_values(|m: RecordingModel| joined_rec(m, cams))
}

/// The start-time bytes of a recording row.
pub open spec fn start_bytes(r: Recording) -> Seq<u8> {
    vstd::utf8::encode_utf8(r@.start_time)
}

/// Rows in start-time-descending order: no row starts before a later one.
pub open spec fn sorted_by_start_desc(s: Seq<Recording>) -> bool {
    forall|i: int, j: int|
        0 <= i < j < s.len() ==> !lex_lt(start_bytes(#[trigger] s[i]), start_bytes(
            #[trigger] s[j],
        ))
}

/// The insertion point that keeps a descending listing descending: the
/// first row starting strictly before the key.
fn insert_pos_desc(out: &Vec<Recording>, key: &Vec<u8>) -> (pos: usize)
    requires
        sorted_by_start_desc(out@),
    ensures
        pos <= out@.len(),
        forall|m: int| 0 <= m < pos ==> !lex_lt(start_bytes(#[trigger] out@[m]), key@),
        pos < out@.len() ==> lex_lt(start_bytes(out@[pos as int]), key@),
{
    let mut pos: usize = 0;
    while pos < out.len()
        invariant
            pos <= out@.len(),
            forall|m: int| 0 <= m < pos ==> !lex_lt(start_bytes(#[trigger] out@[m]), key@),
        decreases out@.len() - pos,
    {
        let ob = out[pos].start_time.as_str().as_bytes_vec();
        if crate::strutil::bytes_lex_lt(&ob, key) {
            return pos;
        }
        pos = pos + 1;
    }
    pos
}

/// Inserting a row at its insertion point keeps the listing descending.
proof fn lemma_insert_keeps_desc(s: Seq<Recording>, pos: int, m: RecordingModel)
    requires
        sorted_by_start_desc(s),
        0 <= pos <= s.len(),
        forall|k: int| 0 <= k < pos ==> !lex_lt(start_bytes(#[trigger] s[k]), key_of(m)),
        pos < s.len() ==> lex_lt(start_bytes(s[pos]), key_of(m)),
    ensures
        forall|x: Recording|
            x@ == m ==> sorted_by_start_desc(#[trigger] s.insert(pos, x)),
{
    assert forall|x: Recording| x@ == m implies sorted_by_start_desc(
        #[trigger] s.insert(pos, x),
    ) by {
        let t = s.insert(pos, x);
        assert forall|i: int, j: int| 0 <= i < j < t.len() implies !lex_lt(
            start_bytes(#[trigger] t[i]),
            start_bytes(#[trigger] t[j]),
        ) by {
            if i < pos && j < pos {
                assert(t[i] == s[i] && t[j] == s[j]);
            } else if i < pos && j == pos {
                assert(t[i] == s[i] && t[j] == x);
            } else if i < pos && j > pos {
                assert(t[i] == s[i] && t[j] == s[j - 1]);
            } else if i == pos && j > pos {
                assert(t[i] == x && t[j] == s[j - 1]);
                assert(lex_lt(start_bytes(s[pos]), key_of(m)));
                if pos < j - 1 {
                    assert(!lex_lt(start_bytes(s[pos]), start_bytes(s[j - 1])));
                    crate::strutil::lemma_lex_connex(
                        start_bytes(s[j - 1]),
                        start_bytes(s[pos]),
                    );
                    if lex_lt(start_bytes(s[j - 1]), start_bytes(s[pos])) {
                        crate::strutil::lemma_lex_trans(
                            start_bytes(s[j - 1]),
                            start_bytes(s[pos]),
                            key_of(m),
                        );
                    }
                }
                crate::strutil::lemma_lex_asym(start_bytes(s[j - 1]), key_of(m));
            } else {
                assert(t[i] == s[i - 1] && t[j] == s[j - 1]);
            }
        }
    }
}

/// The ordering key of a joined row model.
pub open spec fn key_of(m: RecordingModel) -> Seq<u8> {
    vstd::utf8::encode_utf8(m.start_time)
}

/// A schedule row joined with its camera's display name.
pub open spec fn joined_sched(s: ScheduleModel, cams: Seq<CameraModel>) -> ScheduleModel {
    ScheduleModel {
        camera_name: match find_cam(cams, s.camera_id) {
            Some(c) => Some(c.name),
            None => None,
        },
        ..s
    }
}

impl Registry {
    fn find_camera_name(&self, id: i32) -> (r: Option<String>)
        ensures
            r.deep_view() == match find_cam(cams_view(self.cameras@), id as int) {
                Some(c) => Some(c.name),
                None => None::<Seq<char>>,
            },
    {
        match self.find_camera(id) {
            Some(c) => Some(c.name),
            None => None,
        }
    }

    /// Record a pending recording row, right after a successful spawn:
    /// a fresh id, the temporary filename, no end time, not finished.
    pub fn insert_pending_recording(
        &mut self,
        camera_id: i32,
        filename: String,
        start_time: String,
    ) -> (r: Result<i32, VmsError>)
        requires
            registry_wf(*old(self)),
        ensures
            registry_wf(*final(self)),
            match r {
                Ok(id) => {
                    &&& id == old(self).next_recording_id
                    &&& recs_view(final(self).recordings@) == recs_view(
                        old(self).recordings@,
                    ).push(
                        pending_recording_model(id as int, camera_id as int, filename@, start_time@),
                    )
                    &&& final(self).next_recording_id == old(self).next_recording_id + 1
                    &&& final(self).cameras@ == old(self).cameras@
                    &&& final(self).schedules@ == old(self).schedules@
                    &&& final(self).settings == old(self).settings
                },
                Err(e) => {
                    &&& e == VmsError::Persistence
                    &&& old(self).next_recording_id == i32::MAX
                    &&& *final(self) == *old(self)
                },
            },
    {
        if self.next_recording_id == i32::MAX {
            return Err(VmsError::Persistence);
        }
        let id = self.next_recording_id;
        let rec = Recording {
            id,
            camera_id,
            filename,
            thumbnail: None,
            start_time,
            end_time: None,
            is_finished: false,
            camera_name: None,
        };
        self.recordings.push(rec);
        self.next_recording_id = id + 1;
        proof {
            let target = recs_view(old(self).recordings@).push(
                self.recordings@[self.recordings@.len() - 1]@,
            );
            assert forall|k: int| 0 <= k < self.recordings@.len() implies recs_view(
                self.recordings@,
            )[k] == target[k] by {
                assert(recs_view(self.recordings@)[k] == self.recordings@[k]@);
                if k < self.recordings@.len() - 1 {
                    assert(recs_view(old(self).recordings@)[k] == old(self).recordings@[k]@);
                }
            }
            assert(recs_view(self.recordings@) =~= target);
            assert(self.recordings@[self.recordings@.len() - 1]@ == pending_recording_model(
                id as int,
                camera_id as int,
                self.recordings@[self.recordings@.len() - 1]@.filename,
                self.recordings@[self.recordings@.len() - 1]@.start_time,
            ));
            assert forall|a: int, b: int|
                0 <= a < b < self.recordings@.len() implies (#[trigger] self.recordings@[a])@.id
                != (#[trigger] self.recordings@[b])@.id by {
                if b == self.recordings@.len() - 1 {
                    assert(self.recordings@[a] == old(self).recordings@[a]);
                }
            }
        }
        Ok(id)
    }

    /// The first recording row carrying `id`, if any.
    pub fn find_recording(&self, id: i32) -> (r: Option<Recording>)
        ensures
            match r {
                Some(c) => find_rec(recs_view(self.recordings@), id as int) == Some(c@),
                None => find_rec(recs_view(self.recordings@), id as int) is None,
            },
    {
        let mut i: usize = 0;
        proof {
            assert(recs_view(self.recordings@).skip(0) =~= recs_view(self.recordings@));
        }
        while i < self.recordings.len()
            invariant
                i <= self.recordings@.len(),
                find_rec(recs_view(self.recordings@), id as int) == find_rec(
                    recs_view(self.recordings@).skip(i as int),
                    id as int,
                ),
            decreases self.recordings@.len() - i,
        {
            proof {
                assert(recs_view(self.recordings@).skip(i as int)[0] == self.recordings@[i as int]@);
                assert(recs_view(self.recordings@).skip(i as int).drop_first() =~= recs_view(
                    self.recordings@,
                ).skip(i + 1));
            }
            if self.recordings[i].id == id {
                return Some(clone_recording(&self.recordings[i]));
            }
            i = i + 1;
        }
        proof {
            assert(recs_view(self.recordings@).skip(i as int).len() == 0);
        }
        None
    }

    /// Mark one recording finished, committing the final filename, the
    /// thumbnail (when one was generated) and the end time in one step.
    pub fn finalize_recording(
        &mut self,
        rec_id: i32,
        filename: String,
        thumbnail: Option<String>,
        end_time: String,
    ) -> (r: Result<(), VmsError>)
        requires
            registry_wf(*old(self)),
        ensures
            registry_wf(*final(self)),
            final(self).cameras@ == old(self).cameras@,
            final(self).schedules@ == old(self).schedules@,
            final(self).settings == old(self).settings,
            final(self).next_recording_id == old(self).next_recording_id,
            match r {
                Ok(()) => {
                    &&& find_rec(recs_view(old(self).recordings@), rec_id as int) is Some
                    &&& recs_view(final(self).recordings@) == recs_view(
                        old(self).recordings@,
                    ).map_values(
                        |m: RecordingModel|
                            if m.id == rec_id as int {
                                finalized_model(m, filename@, thumbnail.deep_view(), end_time@)
                            } else {
                                m
                            },
                    )
                },
                Err(e) => {
                    &&& e == VmsError::NotFound
                    &&& find_rec(recs_view(old(self).recordings@), rec_id as int) is None
                    &&& *final(self) == *old(self)
                },
            },
    {
        if self.find_recording(rec_id).is_none() {
            proof {
                lemma_find_rec_absent(recs_view(self.recordings@), rec_id as int);
            }
            return Err(VmsError::NotFound);
        }
        let ghost target = recs_view(old(self).recordings@).map_values(
            |m: RecordingModel|
                if m.id == rec_id as int {
                    finalized_model(m, filename@, thumbnail.deep_view(), end_time@)
                } else {
                    m
                },
        );
        let mut out: Vec<Recording> = Vec::new();
        let mut i: usize = 0;
        while i < self.recordings.len()
            invariant
                i <= self.recordings@.len(),
                out@.len() == i,
                target == recs_view(self.recordings@).map_values(
                    |m: RecordingModel|
                        if m.id == rec_id as int {
                            finalized_model(m, filename@, thumbnail.deep_view(), end_time@)
                        } else {
                            m
                        },
                ),
                forall|k: int| 0 <= k < i ==> (#[trigger] out@[k])@ == target[k],
            decreases self.recordings@.len() - i,
        {
            let row = &self.recordings[i];
            proof {
                assert(recs_view(self.recordings@)[i as int] == self.recordings@[i as int]@);
            }
            if row.id == rec_id {
                out.push(
                    Recording {
                        id: row.id,
                        camera_id: row.camera_id,
                        filename: filename.clone(),
                        thumbnail: clone_opt_string(&thumbnail),
                        start_time: row.start_time.clone(),
                        end_time: Some(end_time.clone()),
                        is_finished: true,
                        camera_name: clone_opt_string(&row.camera_name),
                    },
                );
            } else {
                out.push(clone_recording(row));
            }
            i = i + 1;
        }
        self.recordings = out;
        proof {
            lemma_find_rec_present(recs_view(old(self).recordings@), rec_id as int);
            assert forall|k: int| 0 <= k < self.recordings@.len() implies recs_view(
                self.recordings@,
            )[k] == target[k] by {
                assert(recs_view(self.recordings@)[k] == self.recordings@[k]@);
            }
            assert(recs_view(self.recordings@) =~= target);
            assert forall|a: int, b: int|
                0 <= a < b < self.recordings@.len() implies (#[trigger] self.recordings@[a])@.id
                != (#[trigger] self.recordings@[b])@.id by {
                assert(self.recordings@[a]@ == target[a]);
                assert(self.recordings@[b]@ == target[b]);
                assert(target[a].id == old(self).recordings@[a]@.id);
                assert(target[b].id == old(self).recordings@[b]@.id);
            }
            assert forall|a: int| 0 <= a < self.recordings@.len() implies 0 < (
            #[trigger] self.recordings@[a])@.id < self.next_recording_id as int by {
                assert(self.recordings@[a]@ == target[a]);
                assert(target[a].id == old(self).recordings@[a]@.id);
            }
        }
        Ok(())
    }

    /// Delete one recording row by id, handing back its stored filename so
    /// the caller can remove the media file.
    pub fn delete_recording(&mut self, id: i32) -> (r: Result<String, VmsError>)
        requires
            registry_wf(*old(self)),
        ensures
            registry_wf(*final(self)),
            final(self).cameras@ == old(self).cameras@,
            final(self).schedules@ == old(self).schedules@,
            final(self).settings == old(self).settings,
            match r {
                Ok(name) => {
                    &&& find_rec(recs_view(old(self).recordings@), id as int) matches Some(m)
                        && m.filename == name@
                    &&& recs_view(final(self).recordings@) == recs_view(
                        old(self).recordings@,
                    ).filter(|m: RecordingModel| m.id != id as int)
                },
                Err(e) => {
                    &&& e == VmsError::NotFound
                    &&& find_rec(recs_view(old(self).recordings@), id as int) is None
                    &&& *final(self) == *old(self)
                },
            },
    {
        let name = match self.find_recording(id) {
            Some(rec) => rec.filename,
            None => {
                proof {
                    lemma_find_rec_absent(recs_view(self.recordings@), id as int);
                }
                return Err(VmsError::NotFound);
            },
        };
        let mut kept: Vec<Recording> = Vec::new();
        let mut i: usize = 0;
        proof {
            assert(recs_view(self.recordings@.take(0)) =~= Seq::<RecordingModel>::empty());
            assert(recs_view(kept@) =~= recs_view(self.recordings@.take(0)).filter(
                |m: RecordingModel| m.id != id as int,
            ));
        }
        while i < self.recordings.len()
            invariant
                i <= self.recordings@.len(),
                recs_view(kept@) == recs_view(self.recordings@.take(i as int)).filter(
                    |m: RecordingModel| m.id != id as int,
                ),
            decreases self.recordings@.len() - i,
        {
            proof {
                reveal_with_fuel(Seq::filter, 2);
                assert(recs_view(self.recordings@.take(i + 1)).drop_last() =~= recs_view(
                    self.recordings@.take(i as int),
                ));
                assert(recs_view(self.recordings@.take(i + 1)).last() == self.recordings@[i as int]@);
            }
            if self.recordings[i].id != id {
                kept.push(clone_recording(&self.recordings[i]));
                proof {
                    assert(recs_view(kept@) =~~= recs_view(self.recordings@.take(i + 1)).filter(
                        |m: RecordingModel| m.id != id as int,
                    ));
                }
            } else {
                proof {
                    assert(recs_view(kept@) =~~= recs_view(self.recordings@.take(i + 1)).filter(
                        |m: RecordingModel| m.id != id as int,
                    ));
                }
            }
            i = i + 1;
        }
        proof {
            assert(self.recordings@.take(self.recordings@.len() as int) =~= self.recordings@);
        }
        self.recordings = kept;
        proof {
            let olds = recs_view(old(self).recordings@);
            let pred = |m: RecordingModel| m.id != id as int;
            lemma_filter_keeps_uniqueness(olds, pred);
            let f = olds.filter(pred);
            assert forall|a: int, b: int|
                0 <= a < b < self.recordings@.len() implies (#[trigger] self.recordings@[a])@.id
                != (#[trigger] self.recordings@[b])@.id by {
                assert(recs_view(self.recordings@)[a] == self.recordings@[a]@);
                assert(recs_view(self.recordings@)[b] == self.recordings@[b]@);
                let (x, y) = choose|x: int, y: int|
                    0 <= x < y < olds.len() && olds[x] == f[a] && olds[y] == f[b];
                assert(olds[x] == old(self).recordings@[x]@);
                assert(olds[y] == old(self).recordings@[y]@);
            }
            assert forall|a: int| 0 <= a < self.recordings@.len() implies 0 < (
            #[trigger] self.recordings@[a])@.id < self.next_recording_id as int by {
                assert(recs_view(self.recordings@)[a] == self.recordings@[a]@);
                let x = choose|x: int| 0 <= x < olds.len() && olds[x] == f[a];
                assert(olds[x] == old(self).recordings@[x]@);
            }
        }
        Ok(name)
    }

    /// Delete every unfinished recording row of one camera (the cleanup the
    /// stream-stop cascade performs).
    pub fn delete_unfinished_for(&mut self, camera_id: i32)
        requires
            registry_wf(*old(self)),
        ensures
            registry_wf(*final(self)),
            final(self).cameras@ == old(self).cameras@,
            final(self).schedules@ == old(self).schedules@,
            final(self).settings == old(self).settings,
            final(self).next_recording_id == old(self).next_recording_id,
            recs_view(final(self).recordings@) == recs_view(old(self).recordings@).filter(
                |m: RecordingModel| !(m.camera_id == camera_id as int && !m.is_finished),
            ),
    {
        let mut kept: Vec<Recording> = Vec::new();
        let mut i: usize = 0;
        proof {
            assert(recs_view(self.recordings@.take(0)) =~= Seq::<RecordingModel>::empty());
            assert(recs_view(kept@) =~= recs_view(self.recordings@.take(0)).filter(
                |m: RecordingModel| !(m.camera_id == camera_id as int && !m.is_finished),
            ));
        }
        while i < self.recordings.len()
            invariant
                i <= self.recordings@.len(),
                recs_view(kept@) == recs_view(self.recordings@.take(i as int)).filter(
                    |m: RecordingModel| !(m.camera_id == camera_id as int && !m.is_finished),
                ),
            decreases self.recordings@.len() - i,
        {
            proof {
                reveal_with_fuel(Seq::filter, 2);
                assert(recs_view(self.recordings@.take(i + 1)).drop_last() =~= recs_view(
                    self.recordings@.take(i as int),
                ));
                assert(recs_view(self.recordings@.take(i + 1)).last() == self.recordings@[i as int]@);
            }
            if !(self.recordings[i].camera_id == camera_id && !self.recordings[i].is_finished) {
                kept.push(clone_recording(&self.recordings[i]));
                proof {
                    assert(recs_view(kept@) =~~= recs_view(self.recordings@.take(i + 1)).filter(
                        |m: RecordingModel| !(m.camera_id == camera_id as int && !m.is_finished),
                    ));
                }
            } else {
                proof {
                    assert(recs_view(kept@) =~~= recs_view(self.recordings@.take(i + 1)).filter(
                        |m: RecordingModel| !(m.camera_id == camera_id as int && !m.is_finished),
                    ));
                }
            }
            i = i + 1;
        }
        proof {
            assert(self.recordings@.take(self.recordings@.len() as int) =~= self.recordings@);
        }
        self.recordings = kept;
        proof {
            let olds = recs_view(old(self).recordings@);
            let pred = |m: RecordingModel| !(m.camera_id == camera_id as int && !m.is_finished);
            lemma_filter_keeps_uniqueness(olds, pred);
            let f = olds.filter(pred);
            assert forall|a: int, b: int|
                0 <= a < b < self.recordings@.len() implies (#[trigger] self.recordings@[a])@.id
                != (#[trigger] self.recordings@[b])@.id by {
                assert(recs_view(self.recordings@)[a] == self.recordings@[a]@);
                assert(recs_view(self.recordings@)[b] == self.recordings@[b]@);
                let (x, y) = choose|x: int, y: int|
                    0 <= x < y < olds.len() && olds[x] == f[a] && olds[y] == f[b];
                assert(olds[x] == old(self).recordings@[x]@);
                assert(olds[y] == old(self).recordings@[y]@);
            }
            assert forall|a: int| 0 <= a < self.recordings@.len() implies 0 < (
            #[trigger] self.recordings@[a])@.id < self.next_recording_id as int by {
                assert(recs_view(self.recordings@)[a] == self.recordings@[a]@);
                let x = choose|x: int| 0 <= x < olds.len() && olds[x] == f[a];
                assert(olds[x] == old(self).recordings@[x]@);
            }
        }
    }

    /// The youngest unfinished recording row of one camera.
    pub fn youngest_unfinished(&self, camera_id: i32) -> (r: Option<Recording>)
        ensures
            match r {
                Some(rec) => youngest_unfinished_spec(recs_view(self.recordings@), camera_id as int)
                    == Some(rec@),
                None => youngest_unfinished_spec(recs_view(self.recordings@), camera_id as int)
                    is None,
            },
    {
        let mut best: Option<Recording> = None;
        let mut i: usize = 0;
        proof {
            assert(recs_view(self.recordings@.take(0)) =~= Seq::<RecordingModel>::empty());
        }
        while i < self.recordings.len()
            invariant
                i <= self.recordings@.len(),
                match best {
                    Some(b) => youngest_unfinished_spec(
                        recs_view(self.recordings@.take(i as int)),
                        camera_id as int,
                    ) == Some(b@),
                    None => youngest_unfinished_spec(
                        recs_view(self.recordings@.take(i as int)),
                        camera_id as int,
                    ) is None,
                },
            decreases self.recordings@.len() - i,
        {
            let row = &self.recordings[i];
            proof {
                assert(recs_view(self.recordings@.take(i + 1)).drop_last() =~= recs_view(
                    self.recordings@.take(i as int),
                ));
                assert(recs_view(self.recordings@.take(i + 1)).last() == self.recordings@[i as int]@);
            }
            if row.camera_id == camera_id && !row.is_finished {
                match &best {
                    Some(b) => {
                        let bb = b.start_time.as_str().as_bytes_vec();
                        let rb = row.start_time.as_str().as_bytes_vec();
                        if crate::strutil::bytes_lex_lt(&bb, &rb) {
                            best = Some(clone_recording(row));
                        }
                    },
                    None => {
                        best = Some(clone_recording(row));
                    },
                }
            }
            i = i + 1;
        }
        proof {
            assert(self.recordings@.take(self.recordings@.len() as int) =~= self.recordings@);
        }
        best
    }

    /// All recording rows, each joined with its camera's name, sorted by
    /// start time descending (the RFC 3339 text orders like time), the
    /// earlier row first on ties.
    pub fn get_recordings(&self) -> (r: Vec<Recording>)
        ensures
            r@.len() == self.recordings@.len(),
            recs_view(r@).to_multiset() == joined_models(
                recs_view(self.recordings@),
                cams_view(self.cameras@),
            ).to_multiset(),
            sorted_by_start_desc(r@),
    {
        let ghost target = joined_models(recs_view(self.recordings@), cams_view(self.cameras@));
        let mut out: Vec<Recording> = Vec::new();
        let mut i: usize = 0;
        proof {
            broadcast use vstd::seq_lib::to_multiset_build;
            broadcast use vstd::seq_lib::to_multiset_insert;

            assert(target.take(0) =~= Seq::<RecordingModel>::empty());
            assert(recs_view(out@) =~= Seq::<RecordingModel>::empty());
        }
        while i < self.recordings.len()
            invariant
                i <= self.recordings@.len(),
                out@.len() == i,
                target == joined_models(recs_view(self.recordings@), cams_view(self.cameras@)),
                target.len() == self.recordings@.len(),
                recs_view(out@).to_multiset() == target.take(i as int).to_multiset(),
                sorted_by_start_desc(out@),
            decreases self.recordings@.len() - i,
        {
            let row = &self.recordings[i];
            let cam_name = self.find_camera_name(row.camera_id);
            let joined = Recording {
                id: row.id,
                camera_id: row.camera_id,
                filename: row.filename.clone(),
                thumbnail: clone_opt_string(&row.thumbnail),
                start_time: row.start_time.clone(),
                end_time: clone_opt_string(&row.end_time),
                is_finished: row.is_finished,
                camera_name: cam_name,
            };
            proof {
                assert(recs_view(self.recordings@)[i as int] == self.recordings@[i as int]@);
                assert(joined@ == target[i as int]);
            }
            let key = joined.start_time.as_str().as_bytes_vec();
            let pos = insert_pos_desc(&out, &key);
            let ghost prev = out@;
            out.insert(pos, joined);
            proof {
                broadcast use vstd::seq_lib::to_multiset_build;
                broadcast use vstd::seq_lib::to_multiset_insert;

                assert(recs_view(out@) =~= recs_view(prev).insert(
                    pos as int,
                    target[i as int],
                ));
                assert(recs_view(out@).to_multiset() =~= recs_view(prev).to_multiset().insert(
                    target[i as int],
                ));
                assert(target.take(i + 1).drop_last() =~= target.take(i as int));
                assert(target.take(i + 1) =~= target.take(i as int).push(target[i as int]));
                assert(target.take(i + 1).to_multiset() =~= target.take(
                    i as int,
                ).to_multiset().insert(target[i as int]));
                lemma_insert_keeps_desc(prev, pos as int, target[i as int]);
            }
            i = i + 1;
        }
        proof {
            assert(target.take(target.len() as int) =~= target);
        }
        out
    }

    /// The settings row.
    pub fn get_encoder_settings(&self) -> (r: EncoderSettings)
        ensures
            r@ == self.settings@,
    {
        clone_settings(&self.settings)
    }

    /// Patch the settings row. An empty patch is rejected and changes
    /// nothing; otherwise each present field replaces the stored one and
    /// the new row is returned.
    pub fn update_encoder_settings(&mut self, patch: UpdateEncoderSettings) -> (r: Result<
        EncoderSettings,
        VmsError,
    >)
        requires
            registry_wf(*old(self)),
        ensures
            registry_wf(*final(self)),
            final(self).cameras@ == old(self).cameras@,
            final(self).recordings@ == old(self).recordings@,
            final(self).schedules@ == old(self).schedules@,
            match r {
                Ok(s) => {
                    &&& !empty_patch(patch)
                    &&& final(self).settings@ == patched_settings(old(self).settings@, patch)
                    &&& s@ == final(self).settings@
                },
                Err(e) => {
                    &&& e == VmsError::Validation
                    &&& empty_patch(patch)
                    &&& *final(self) == *old(self)
                },
            },
    {
        if patch.encoder_mode.is_none() && patch.gpu_encoder.is_none() && patch.cpu_encoder.is_none()
            && patch.preset.is_none() && patch.quality.is_none() {
            return Err(VmsError::Validation);
        }
        let s = &self.settings;
        let updated = EncoderSettings {
            id: s.id,
            encoder_mode: match &patch.encoder_mode {
                Some(m) => m.clone(),
                None => s.encoder_mode.clone(),
            },
            gpu_encoder: match &patch.gpu_encoder {
                Some(g) => Some(g.clone()),
                None => clone_opt_string(&s.gpu_encoder),
            },
            cpu_encoder: match &patch.cpu_encoder {
                Some(c) => c.clone(),
                None => s.cpu_encoder.clone(),
            },
            preset: match &patch.preset {
                Some(p) => p.clone(),
                None => s.preset.clone(),
            },
            quality: match patch.quality {
                Some(q) => q,
                None => s.quality,
            },
        };
        let returned = clone_settings(&updated);
        self.settings = updated;
        Ok(returned)
    }

    /// Fill the GPU encoder after the boot-time probe, but only when none
    /// is stored yet.
    pub fn set_gpu_encoder_if_unset(&mut self, name: String)
        requires
            registry_wf(*old(self)),
        ensures
            registry_wf(*final(self)),
            final(self).cameras@ == old(self).cameras@,
            final(self).recordings@ == old(self).recordings@,
            final(self).schedules@ == old(self).schedules@,
            old(self).settings@.gpu_encoder is None ==> final(self).settings@ == (SettingsModel {
                gpu_encoder: Some(name@),
                ..old(self).settings@
            }),
            old(self).settings@.gpu_encoder is Some ==> (final(self).settings == old(self).settings),
    {
        if self.settings.gpu_encoder.is_none() {
            self.settings = EncoderSettings {
                id: self.settings.id,
                encoder_mode: self.settings.encoder_mode.clone(),
                gpu_encoder: Some(name),
                cpu_encoder: self.settings.cpu_encoder.clone(),
                preset: self.settings.preset.clone(),
                quality: self.settings.quality,
            };
        }
    }
}

impl Registry {
    /// The first schedule row carrying `id`, if any.
    pub fn find_schedule(&self, id: i32) -> (r: Option<RecordingSchedule>)
        ensures
            match r {
                Some(s) => find_sched(scheds_view(self.schedules@), id as int) == Some(s@),
                None => find_sched(scheds_view(self.schedules@), id as int) is None,
            },
    {
        let mut i: usize = 0;
        proof {
            assert(scheds_view(self.schedules@).skip(0) =~= scheds_view(self.schedules@));
        }
        while i < self.schedules.len()
            invariant
                i <= self.schedules@.len(),
                find_sched(scheds_view(self.schedules@), id as int) == find_sched(
                    scheds_view(self.schedules@).skip(i as int),
                    id as int,
                ),
            decreases self.schedules@.len() - i,
        {
            proof {
                assert(scheds_view(self.schedules@).skip(i as int)[0] == self.schedules@[i as int]@);
                assert(scheds_view(self.schedules@).skip(i as int).drop_first() =~= scheds_view(
                    self.schedules@,
                ).skip(i + 1));
            }
            if self.schedules[i].id == id {
                return Some(clone_schedule(&self.schedules[i]));
            }
            i = i + 1;
        }
        proof {
            assert(scheds_view(self.schedules@).skip(i as int).len() == 0);
        }
        None
    }

    /// Create a schedule row from an input whose cron expression has already
    /// been canonicalized to `cron`. The returned copy is joined with the
    /// camera's display name.
    pub fn add_schedule(&mut self, ns: NewRecordingSchedule, cron: String, now: &str) -> (r: Result<
        RecordingSchedule,
        VmsError,
    >)
        requires
            registry_wf(*old(self)),
        ensures
            registry_wf(*final(self)),
            final(self).cameras@ == old(self).cameras@,
            final(self).recordings@ == old(self).recordings@,
            final(self).settings == old(self).settings,
            match r {
                Ok(s) => {
                    &&& scheds_view(final(self).schedules@) == scheds_view(
                        old(self).schedules@,
                    ).push(
                        new_schedule_model(ns, cron@, old(self).next_schedule_id as int, now@),
                    )
                    &&& s@ == joined_sched(
                        new_schedule_model(ns, cron@, old(self).next_schedule_id as int, now@),
                        cams_view(old(self).cameras@),
                    )
                    &&& final(self).next_schedule_id == old(self).next_schedule_id + 1
                },
                Err(e) => {
                    &&& e == VmsError::Persistence
                    &&& old(self).next_schedule_id == i32::MAX
                    &&& *final(self) == *old(self)
                },
            },
    {
        if self.next_schedule_id == i32::MAX {
            return Err(VmsError::Persistence);
        }
        let id = self.next_schedule_id;
        let row = RecordingSchedule {
            id,
            camera_id: ns.camera_id,
            name: ns.name,
            cron_expression: cron,
            duration_minutes: ns.duration_minutes,
            fps: ns.fps,
            is_enabled: ns.is_enabled,
            created_at: String::from_str(now),
            updated_at: String::from_str(now),
            camera_name: None,
        };
        let mut returned = clone_schedule(&row);
        returned.camera_name = self.find_camera_name(row.camera_id);
        self.schedules.push(row);
        self.next_schedule_id = id + 1;
        proof {
            let target = scheds_view(old(self).schedules@).push(
                self.schedules@[self.schedules@.len() - 1]@,
            );
            assert forall|k: int| 0 <= k < self.schedules@.len() implies scheds_view(
                self.schedules@,
            )[k] == target[k] by {
                assert(scheds_view(self.schedules@)[k] == self.schedules@[k]@);
                if k < self.schedules@.len() - 1 {
                    assert(scheds_view(old(self).schedules@)[k] == old(self).schedules@[k]@);
                }
            }
            assert(scheds_view(self.schedules@) =~= target);
            assert forall|a: int, b: int|
                0 <= a < b < self.schedules@.len() implies (#[trigger] self.schedules@[a])@.id != (
            #[trigger] self.schedules@[b])@.id by {
                if b == self.schedules@.len() - 1 {
                    assert(self.schedules@[a] == old(self).schedules@[a]);
                }
            }
        }
        Ok(returned)
    }

    /// Patch one schedule row: present fields replace stored ones, the
    /// cron expression (already canonical) when given, and `updated_at`
    /// is always refreshed. The patched row is returned joined with the
    /// camera's display name.
    pub fn update_schedule(
        &mut self,
        id: i32,
        patch: UpdateRecordingSchedule,
        cron: Option<String>,
        now: &str,
    ) -> (r: Result<RecordingSchedule, VmsError>)
        requires
            registry_wf(*old(self)),
        ensures
            registry_wf(*final(self)),
            final(self).cameras@ == old(self).cameras@,
            final(self).recordings@ == old(self).recordings@,
            final(self).settings == old(self).settings,
            final(self).next_schedule_id == old(self).next_schedule_id,
            match r {
                Ok(s) => {
                    &&& find_sched(scheds_view(old(self).schedules@), id as int) is Some
                    &&& scheds_view(final(self).schedules@) == scheds_view(
                        old(self).schedules@,
                    ).map_values(
                        |m: ScheduleModel|
                            if m.id == id as int {
                                patched_schedule(m, patch, cron.deep_view(), now@)
                            } else {
                                m
                            },
                    )
                    &&& s@ == joined_sched(
                        patched_schedule(
                            find_sched(scheds_view(old(self).schedules@), id as int).unwrap(),
                            patch,
                            cron.deep_view(),
                            now@,
                        ),
                        cams_view(old(self).cameras@),
                    )
                },
                Err(e) => {
                    &&& e == VmsError::NotFound
                    &&& find_sched(scheds_view(old(self).schedules@), id as int) is None
                    &&& *final(self) == *old(self)
                },
            },
    {
        let found = match self.find_schedule(id) {
            Some(s) => s,
            None => {
                return Err(VmsError::NotFound);
            },
        };
        let ghost target = scheds_view(old(self).schedules@).map_values(
            |m: ScheduleModel|
                if m.id == id as int {
                    patched_schedule(m, patch, cron.deep_view(), now@)
                } else {
                    m
                },
        );
        let patched = RecordingSchedule {
            id: found.id,
            camera_id: found.camera_id,
            name: match &patch.name {
                Some(n) => n.clone(),
                None => found.name.clone(),
            },
            cron_expression: match &cron {
                Some(c) => c.clone(),
                None => found.cron_expression.clone(),
            },
            duration_minutes: match patch.duration_minutes {
                Some(d) => d,
                None => found.duration_minutes,
            },
            fps: match patch.fps {
                Some(f) => Some(f),
                None => found.fps,
            },
            is_enabled: match patch.is_enabled {
                Some(e) => e,
                None => found.is_enabled,
            },
            created_at: found.created_at.clone(),
            updated_at: String::from_str(now),
            camera_name: clone_opt_string(&found.camera_name),
        };
        proof {
            lemma_find_sched_is_element(scheds_view(old(self).schedules@), id as int);
        }
        let mut out: Vec<RecordingSchedule> = Vec::new();
        let mut i: usize = 0;
        while i < self.schedules.len()
            invariant
                registry_wf(*old(self)),
                i <= self.schedules@.len(),
                out@.len() == i,
                patched@ == patched_schedule(
                    find_sched(scheds_view(old(self).schedules@), id as int).unwrap(),
                    patch,
                    cron.deep_view(),
                    now@,
                ),
                patched@.id == id as int,
                self.schedules@ == old(self).schedules@,
                target == scheds_view(self.schedules@).map_values(
                    |m: ScheduleModel|
                        if m.id == id as int {
                            patched_schedule(m, patch, cron.deep_view(), now@)
                        } else {
                            m
                        },
                ),
                forall|k: int| 0 <= k < i ==> (#[trigger] out@[k])@ == target[k],
            decreases self.schedules@.len() - i,
        {
            let row = &self.schedules[i];
            proof {
                assert(scheds_view(self.schedules@)[i as int] == self.schedules@[i as int]@);
                if self.schedules@[i as int]@.id == id as int {
                    let olds = scheds_view(old(self).schedules@);
                    assert forall|a: int, b: int| 0 <= a < b < olds.len() implies (
                    #[trigger] olds[a]).id != (#[trigger] olds[b]).id by {
                        assert(olds[a] == old(self).schedules@[a]@);
                        assert(olds[b] == old(self).schedules@[b]@);
                    }
                    lemma_find_sched_unique(olds, id as int, i as int);
                }
            }
            if row.id == id {
                out.push(clone_schedule(&patched));
            } else {
                out.push(clone_schedule(row));
            }
            i = i + 1;
        }
        self.schedules = out;
        let mut returned = clone_schedule(&patched);
        returned.camera_name = self.find_camera_name(patched.camera_id);
        proof {
            assert forall|k: int| 0 <= k < self.schedules@.len() implies scheds_view(
                self.schedules@,
            )[k] == target[k] by {
                assert(scheds_view(self.schedules@)[k] == self.schedules@[k]@);
            }
            assert(scheds_view(self.schedules@) =~= target);
            assert forall|a: int, b: int|
                0 <= a < b < self.schedules@.len() implies (#[trigger] self.schedules@[a])@.id != (
            #[trigger] self.schedules@[b])@.id by {
                assert(self.schedules@[a]@ == target[a]);
                assert(self.schedules@[b]@ == target[b]);
                assert(target[a].id == old(self).schedules@[a]@.id);
                assert(target[b].id == old(self).schedules@[b]@.id);
            }
            assert forall|a: int| 0 <= a < self.schedules@.len() implies 0 < (
            #[trigger] self.schedules@[a])@.id < self.next_schedule_id as int by {
                assert(self.schedules@[a]@ == target[a]);
                assert(target[a].id == old(self).schedules@[a]@.id);
            }
        }
        Ok(returned)
    }

    /// Delete one schedule row by id.
    pub fn delete_schedule(&mut self, id: i32) -> (r: Result<(), VmsError>)
        requires
            registry_wf(*old(self)),
        ensures
            registry_wf(*final(self)),
            final(self).cameras@ == old(self).cameras@,
            final(self).recordings@ == old(self).recordings@,
            final(self).settings == old(self).settings,
            match r {
                Ok(()) => {
                    &&& find_sched(scheds_view(old(self).schedules@), id as int) is Some
                    &&& scheds_view(final(self).schedules@) == scheds_view(
                        old(self).schedules@,
                    ).filter(|m: ScheduleModel| m.id != id as int)
                },
                Err(e) => {
                    &&& e == VmsError::NotFound
                    &&& find_sched(scheds_view(old(self).schedules@), id as int) is None
                    &&& *final(self) == *old(self)
                },
            },
    {
        if self.find_schedule(id).is_none() {
            return Err(VmsError::NotFound);
        }
        let mut kept: Vec<RecordingSchedule> = Vec::new();
        let mut i: usize = 0;
        proof {
            assert(scheds_view(self.schedules@.take(0)) =~= Seq::<ScheduleModel>::empty());
            assert(scheds_view(kept@) =~= scheds_view(self.schedules@.take(0)).filter(
                |m: ScheduleModel| m.id != id as int,
            ));
        }
        while i < self.schedules.len()
            invariant
                i <= self.schedules@.len(),
                scheds_view(kept@) == scheds_view(self.schedules@.take(i as int)).filter(
                    |m: ScheduleModel| m.id != id as int,
                ),
            decreases self.schedules@.len() - i,
        {
            proof {
                reveal_with_fuel(Seq::filter, 2);
                assert(scheds_view(self.schedules@.take(i + 1)).drop_last() =~= scheds_view(
                    self.schedules@.take(i as int),
                ));
                assert(scheds_view(self.schedules@.take(i + 1)).last() == self.schedules@[i as int]@);
            }
            if self.schedules[i].id != id {
                kept.push(clone_schedule(&self.schedules[i]));
                proof {
                    assert(scheds_view(kept@) =~~= scheds_view(self.schedules@.take(i + 1)).filter(
                        |m: ScheduleModel| m.id != id as int,
                    ));
                }
            } else {
                proof {
                    assert(scheds_view(kept@) =~~= scheds_view(self.schedules@.take(i + 1)).filter(
                        |m: ScheduleModel| m.id != id as int,
                    ));
                }
            }
            i = i + 1;
        }
        proof {
            assert(self.schedules@.take(self.schedules@.len() as int) =~= self.schedules@);
        }
        self.schedules = kept;
        proof {
            let olds = scheds_view(old(self).schedules@);
            let pred = |m: ScheduleModel| m.id != id as int;
            lemma_filter_keeps_uniqueness(olds, pred);
            let f = olds.filter(pred);
            assert forall|a: int, b: int|
                0 <= a < b < self.schedules@.len() implies (#[trigger] self.schedules@[a])@.id != (
            #[trigger] self.schedules@[b])@.id by {
                assert(scheds_view(self.schedules@)[a] == self.schedules@[a]@);
                assert(scheds_view(self.schedules@)[b] == self.schedules@[b]@);
                let (x, y) = choose|x: int, y: int|
                    0 <= x < y < olds.len() && olds[x] == f[a] && olds[y] == f[b];
                assert(olds[x] == old(self).schedules@[x]@);
                assert(olds[y] == old(self).schedules@[y]@);
            }
            assert forall|a: int| 0 <= a < self.schedules@.len() implies 0 < (
            #[trigger] self.schedules@[a])@.id < self.next_schedule_id as int by {
                assert(scheds_view(self.schedules@)[a] == self.schedules@[a]@);
                let x = choose|x: int| 0 <= x < olds.len() && olds[x] == f[a];
                assert(olds[x] == old(self).schedules@[x]@);
            }
        }
        Ok(())
    }

    /// All schedule rows, newest first, each joined with its camera's name.
    pub fn get_recording_schedules(&self) -> (r: Vec<RecordingSchedule>)
        ensures
            r@.len() == self.schedules@.len(),
            forall|k: int|
                0 <= k < r@.len() ==> (#[trigger] r@[k])@ == joined_sched(
                    scheds_view(self.schedules@)[self.schedules@.len() - 1 - k],
                    cams_view(self.cameras@),
                ),
    {
        let mut out: Vec<RecordingSchedule> = Vec::new();
        let mut i: usize = self.schedules.len();
        while i > 0
            invariant
                i <= self.schedules@.len(),
                out@.len() == self.schedules@.len() - i,
                forall|k: int|
                    0 <= k < out@.len() ==> (#[trigger] out@[k])@ == joined_sched(
                        scheds_view(self.schedules@)[self.schedules@.len() - 1 - k],
                        cams_view(self.cameras@),
                    ),
            decreases i,
        {
            i = i - 1;
            let row = &self.schedules[i];
            let mut copy = clone_schedule(row);
            copy.camera_name = self.find_camera_name(row.camera_id);
            out.push(copy);
            proof {
                assert(scheds_view(self.schedules@)[i as int] == self.schedules@[i as int]@);
            }
        }
        out
    }

    /// The enabled schedule rows, in storage order (what startup re-arms).
    pub fn enabled_schedules(&self) -> (r: Vec<RecordingSchedule>)
        ensures
            scheds_view(r@) == scheds_view(self.schedules@).filter(
                |m: ScheduleModel| m.is_enabled,
            ),
    {
        let mut kept: Vec<RecordingSchedule> = Vec::new();
        let mut i: usize = 0;
        proof {
            assert(scheds_view(self.schedules@.take(0)) =~= Seq::<ScheduleModel>::empty());
            assert(scheds_view(kept@) =~= scheds_view(self.schedules@.take(0)).filter(
                |m: ScheduleModel| m.is_enabled,
            ));
        }
        while i < self.schedules.len()
            invariant
                i <= self.schedules@.len(),
                scheds_view(kept@) == scheds_view(self.schedules@.take(i as int)).filter(
                    |m: ScheduleModel| m.is_enabled,
                ),
            decreases self.schedules@.len() - i,
        {
            proof {
                reveal_with_fuel(Seq::filter, 2);
                assert(scheds_view(self.schedules@.take(i + 1)).drop_last() =~= scheds_view(
                    self.schedules@.take(i as int),
                ));
                assert(scheds_view(self.schedules@.take(i + 1)).last() == self.schedules@[i as int]@);
            }
            if self.schedules[i].is_enabled {
                kept.push(clone_schedule(&self.schedules[i]));
                proof {
                    assert(scheds_view(kept@) =~~= scheds_view(self.schedules@.take(i + 1)).filter(
                        |m: ScheduleModel| m.is_enabled,
                    ));
                }
            } else {
                proof {
                    assert(scheds_view(kept@) =~~= scheds_view(self.schedules@.take(i + 1)).filter(
                        |m: ScheduleModel| m.is_enabled,
                    ));
                }
            }
            i = i + 1;
        }
        proof {
            assert(self.schedules@.take(self.schedules@.len() as int) =~= self.schedules@);
        }
        kept
    }
}

/// The schedule `find_sched` returns is an element of the sequence.
proof fn lemma_find_sched_is_element(s: Seq<ScheduleModel>, id: int)
    requires
        find_sched(s, id) is Some,
    ensures
        exists|i: int| 0 <= i < s.len() && s[i] == find_sched(s, id).unwrap(),
        find_sched(s, id).unwrap().id == id,
    decreases s.len(),
{
    if s.len() > 0 {
        if s[0].id == id {
            assert(s[0] == find_sched(s, id).unwrap());
        } else {
            lemma_find_sched_is_element(s.drop_first(), id);
            let i = choose|i: int|
                0 <= i < s.drop_first().len() && s.drop_first()[i] == find_sched(
                    s.drop_first(),
                    id,
                ).unwrap();
            assert(s[i + 1] == find_sched(s, id).unwrap());
        }
    }
}

/// In a sequence with unique ids, an element carrying the sought id is the
/// one `find_sched` returns.
proof fn lemma_find_sched_unique(s: Seq<ScheduleModel>, id: int, i: int)
    requires
        0 <= i < s.len(),
        s[i].id == id,
        forall|a: int, b: int| 0 <= a < b < s.len() ==> (#[trigger] s[a]).id != (#[trigger] s[b]).id,
    ensures
        find_sched(s, id) == Some(s[i]),
    decreases s.len(),
{
    if s[0].id == id {
        if i != 0 {
            assert(s[0].id != s[i].id);
        }
    } else {
        assert(i > 0);
        assert(s.drop_first()[i - 1] == s[i]);
        assert forall|a: int, b: int|
            0 <= a < b < s.drop_first().len() implies (#[trigger] s.drop_first()[a]).id != (
        #[trigger] s.drop_first()[b]).id by {
            assert(s.drop_first()[a] == s[a + 1]);
            assert(s.drop_first()[b] == s[b + 1]);
        }
        lemma_find_sched_unique(s.drop_first(), id, i - 1);
    }
}

proof fn lemma_find_rec_absent(s: Seq<RecordingModel>, id: int)
    requires
        find_rec(s, id) is None,
    ensures
        forall|i: int| 0 <= i < s.len() ==> (#[trigger] s[i]).id != id,
    decreases s.len(),
{
    if s.len() > 0 {
        lemma_find_rec_absent(s.drop_first(), id);
        assert forall|i: int| 0 <= i < s.len() implies (#[trigger] s[i]).id != id by {
            if i > 0 {
                assert(s.drop_first()[i - 1] == s[i]);
            }
        }
    }
}

proof fn lemma_find_rec_present(s: Seq<RecordingModel>, id: int)
    requires
        find_rec(s, id) is Some,
    ensures
        exists|i: int| 0 <= i < s.len() && (#[trigger] s[i]).id == id,
    decreases s.len(),
{
    if s.len() > 0 {
        if s[0].id == id {
        } else {
            lemma_find_rec_present(s.drop_first(), id);
            let i = choose|i: int|
                0 <= i < s.drop_first().len() && (#[trigger] s.drop_first()[i]).id == id;
            assert(s[i + 1].id == id);
        }
    }
}

/// A filtered subsequence keeps element membership: every element of the
/// filter output is an element of the input.
pub proof fn lemma_filter_keeps_uniqueness<A>(s: Seq<A>, pred: spec_fn(A) -> bool)
    ensures
        forall|i: int|
            0 <= i < s.filter(pred).len() ==> exists|j: int|
                0 <= j < s.len() && s[j] == #[trigger] s.filter(pred)[i],
        forall|i: int, j: int|
            0 <= i < j < s.filter(pred).len() ==> exists|a: int, b: int|
                0 <= a < b < s.len() && s[a] == #[trigger] s.filter(pred)[i] && s[b]
                    == #[trigger] s.filter(pred)[j],
    decreases s.len(),
{
    reveal_with_fuel(Seq::filter, 2);
    if s.len() > 0 {
        lemma_filter_keeps_uniqueness(s.drop_last(), pred);
        let f = s.filter(pred);
        let fd = s.drop_last().filter(pred);
        assert forall|i: int| 0 <= i < f.len() implies exists|j: int|
            0 <= j < s.len() && s[j] == #[trigger] f[i] by {
            if pred(s.last()) && i == f.len() - 1 {
                assert(s[s.len() - 1] == f[i]);
            } else {
                assert(f[i] == fd[i]);
                let j = choose|j: int| 0 <= j < s.drop_last().len() && s.drop_last()[j] == fd[i];
                assert(s[j] == f[i]);
            }
        }
        assert forall|i: int, j: int| 0 <= i < j < f.len() implies exists|a: int, b: int|
            0 <= a < b < s.len() && s[a] == #[trigger] f[i] && s[b] == #[trigger] f[j] by {
            if pred(s.last()) && j == f.len() - 1 {
                assert(f[i] == fd[i]);
                let a = choose|a: int| 0 <= a < s.drop_last().len() && s.drop_last()[a] == fd[i];
                assert(s[a] == f[i]);
                assert(s[s.len() - 1] == f[j]);
                assert(0 <= a < s.len() - 1);
            } else {
                assert(f[i] == fd[i] && f[j] == fd[j]);
                let (a, b) = choose|a: int, b: int|
                    0 <= a < b < s.drop_last().len() && s.drop_last()[a] == fd[i] && s.drop_last()[b]
                        == fd[j];
                assert(s[a] == f[i] && s[b] == f[j]);
            }
        }
    }
}

} // verus!
