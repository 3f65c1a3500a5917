//! The application core: the registry plus the process supervisor's two
//! pid tables and the scheduler's bookkeeping, with the lifecycle
//! transitions the control surface performs on them. The outside work
//! (spawning the transcoder, killing children, SOAP calls) is done by the
//! surrounding application between these steps; every decision and state
//! change is made here.

use vstd::prelude::*;
use crate::assoc::AssocMap;
use crate::errors::VmsError;
use crate::models::{
    Camera, CameraCapabilities, PTZCapabilities, PTZCapabilitiesDetails, PTZResult,
};
use crate::registry::{
    Registry, registry_wf, cams_view, recs_view, find_cam, RecordingModel, unfinished_for,
    pending_recording_model, finalized_model,
};
use crate::strutil::{dec_str, dec_str_signed, u64_to_string, i64_to_string};

verus! {

use vstd::string::StringExecFns;

/// The whole in-process state: durable registry, ephemeral process tables,
/// and the scheduler's id maps.
pub struct AppCore {
    pub registry: Registry,
    /// camera id -> live streaming transcoder pid.
    pub streams: AssocMap<u32>,
    /// camera id -> live recording transcoder pid.
    pub recorders: AssocMap<u32>,
    /// schedule id -> camera id, for schedules currently firing.
    pub active_scheduled: AssocMap<i32>,
}

/// Well-formedness of the core.
pub open spec fn core_wf(c: AppCore) -> bool {
    &&& registry_wf(c.registry)
    &&& c.streams.wf()
    &&& c.recorders.wf()
    &&& c.active_scheduled.wf()
}

/// The relative playlist path of one camera's stream.
pub open spec fn stream_path_spec(id: int) -> Seq<char> {
    "streams/"@ + dec_str_signed(id) + "/index.m3u8"@
}

/// The URL under which the local file server exposes one camera's playlist.
pub open spec fn stream_url_spec(port: nat, id: int) -> Seq<char> {
    "http://localhost:"@ + dec_str(port) + "/"@ + stream_path_spec(id)
}

/// What starting a stream does to the stream table: nothing when one is
/// already live, otherwise the new child is recorded.
pub open spec fn spec_start_stream(m: Map<i32, u32>, id: i32, pid: u32) -> Map<i32, u32> {
    if m.contains_key(id) {
        m
    } else {
        m.insert(id, pid)
    }
}

/// Starting a stream is idempotent: a second start, with whatever child the
/// second spawn would have produced, changes nothing, and the playlist path
/// handed back is the same both times (it is a function of the camera id
/// alone).
pub proof fn lemma_start_stream_idempotent(m: Map<i32, u32>, id: i32, pid1: u32, pid2: u32)
    ensures
        spec_start_stream(spec_start_stream(m, id, pid1), id, pid2) == spec_start_stream(
            m,
            id,
            pid1,
        ),
{
    if !m.contains_key(id) {
        assert(spec_start_stream(m, id, pid1).contains_key(id));
    }
}

/// What a successful or failed recording start does to the rows and the
/// recorder table: a failed spawn changes nothing; a successful one adds
/// exactly the pending row and the child.
pub open spec fn spec_start_recording(
    recs: Seq<RecordingModel>,
    recorders: Map<i32, u32>,
    camera_id: i32,
    spawn: Option<u32>,
    rec_id: int,
    temp: Seq<char>,
    now: Seq<char>,
) -> (Seq<RecordingModel>, Map<i32, u32>) {
    match spawn {
        None => (recs, recorders),
        Some(pid) => (
            recs.push(pending_recording_model(rec_id, camera_id as int, temp, now)),
            recorders.insert(camera_id, pid),
        ),
    }
}

/// A failed spawn changes nothing: no row is inserted and no recorder
/// entry is bound, whatever rows existed before.
pub proof fn lemma_start_recording_spawn_failure_is_noop(
    recs: Seq<RecordingModel>,
    recorders: Map<i32, u32>,
    camera_id: i32,
    rec_id: int,
    temp: Seq<char>,
    now: Seq<char>,
)
    ensures
        spec_start_recording(recs, recorders, camera_id, None, rec_id, temp, now).0 == recs,
        spec_start_recording(recs, recorders, camera_id, None, rec_id, temp, now).1 == recorders,
{
}

/// Starting a recording is atomic: when the transcoder fails to spawn, no
/// row is inserted; when it spawns, exactly one unfinished row exists for
/// the camera (none existed before, by the fail-fast check).
pub proof fn lemma_start_recording_atomic(
    recs: Seq<RecordingModel>,
    recorders: Map<i32, u32>,
    camera_id: i32,
    spawn: Option<u32>,
    rec_id: int,
    temp: Seq<char>,
    now: Seq<char>,
)
    requires
        unfinished_for(recs, camera_id as int).len() == 0,
    ensures
        spawn is None ==> spec_start_recording(
            recs,
            recorders,
            camera_id,
            spawn,
            rec_id,
            temp,
            now,
        ).0 == recs,
        spawn is Some ==> unfinished_for(
            spec_start_recording(recs, recorders, camera_id, spawn, rec_id, temp, now).0,
            camera_id as int,
        ).len() == 1,
{
    if spawn is Some {
        let p = pending_recording_model(rec_id, camera_id as int, temp, now);
        lemma_filter_push(recs, |m: RecordingModel| m.camera_id == camera_id as int
            && !m.is_finished, p);
    }
}

/// Filtering a pushed sequence: the new element is kept exactly when the
/// predicate holds of it.
pub proof fn lemma_filter_push<A>(s: Seq<A>, pred: spec_fn(A) -> bool, x: A)
    ensures
        pred(x) ==> s.push(x).filter(pred) == s.filter(pred).push(x),
        !pred(x) ==> s.push(x).filter(pred) == s.filter(pred),
{
    reveal_with_fuel(Seq::filter, 2);
    assert(s.push(x).drop_last() =~= s);
    assert(s.push(x).last() == x);
}

/// After finalizing one recording, exactly one row carries the final name
/// and the finished mark, provided no other row already carried that name.
pub proof fn lemma_finalize_bijection(
    recs: Seq<RecordingModel>,
    rec_id: int,
    name: Seq<char>,
    thumb: Option<Seq<char>>,
    end_time: Seq<char>,
    i: int,
)
    requires
        0 <= i < recs.len(),
        recs[i].id == rec_id,
        forall|a: int, b: int|
            0 <= a < b < recs.len() ==> (#[trigger] recs[a]).id != (#[trigger] recs[b]).id,
        forall|j: int| 0 <= j < recs.len() ==> (#[trigger] recs[j]).filename != name,
    ensures
        ({
            let out = recs.map_values(
                |m: RecordingModel|
                    if m.id == rec_id {
                        finalized_model(m, name, thumb, end_time)
                    } else {
                        m
                    },
            );
            &&& out[i].is_finished && out[i].filename == name
            &&& forall|j: int|
                0 <= j < out.len() && j != i ==> !((#[trigger] out[j]).is_finished && out[j].filename
                    == name)
        }),
{
    let out = recs.map_values(
        |m: RecordingModel|
            if m.id == rec_id {
                finalized_model(m, name, thumb, end_time)
            } else {
                m
            },
    );
    assert(out[i].filename == name);
    assert forall|j: int|
        0 <= j < out.len() && j != i implies !((#[trigger] out[j]).is_finished && out[j].filename
        == name) by {
        if recs[j].id == rec_id {
            if j < i {
                assert(recs[j].id != recs[i].id);
            } else {
                assert(recs[i].id != recs[j].id);
            }
        } else {
            assert(out[j] == recs[j]);
        }
    }
}

/// The playlist path of one camera's stream, relative to the serving root.
pub fn stream_path(id: i32) -> (r: String)
    ensures
        r@ == stream_path_spec(id as int),
{
    let mut s = String::from_str("streams/");
    s.append(i64_to_string(id as i64).as_str());
    s.append("/index.m3u8");
    s
}

/// The playlist URL the control surface returns for a started stream.
pub fn stream_url(port: u16, id: i32) -> (r: String)
    ensures
        r@ == stream_url_spec(port as nat, id as int),
{
    let mut s = String::from_str("http://localhost:");
    s.append(u64_to_string(port as u64).as_str());
    s.append("/");
    s.append(stream_path(id).as_str());
    proof {
        assert(s@ =~= stream_url_spec(port as nat, id as int));
    }
    s
}

/// The temporary transport-stream filename of one camera's recording.
pub fn temp_recording_name(id: i32) -> (r: String)
    ensures
        r@ == "temp_rec_"@ + dec_str_signed(id as int) + ".ts"@,
{
    let mut s = String::from_str("temp_rec_");
    s.append(i64_to_string(id as i64).as_str());
    s.append(".ts");
    s
}

impl AppCore {
    /// A fresh core: empty registry, no children, no armed schedules.
    pub fn new() -> (r: AppCore)
        ensures
            core_wf(r),
            r.streams@ == Map::<i32, u32>::empty(),
            r.recorders@ == Map::<i32, u32>::empty(),
            r.active_scheduled@ == Map::<i32, i32>::empty(),
            r.registry.cameras@.len() == 0,
            r.registry.recordings@.len() == 0,
            r.registry.schedules@.len() == 0,
    {
        AppCore {
            registry: Registry::new(),
            streams: AssocMap::new(),
            recorders: AssocMap::new(),
            active_scheduled: AssocMap::new(),
        }
    }

    /// Whether a live stream child is tracked for the camera.
    pub fn has_stream(&self, id: i32) -> (r: bool)
        requires
            core_wf(*self),
        ensures
            r == self.streams@.contains_key(id),
    {
        self.streams.contains(id)
    }

    /// Whether a live recording child is tracked for the camera.
    pub fn has_recorder(&self, id: i32) -> (r: bool)
        requires
            core_wf(*self),
        ensures
            r == self.recorders@.contains_key(id),
    {
        self.recorders.contains(id)
    }

    /// The idempotence check of `start_stream`: when a stream is already
    /// live, hand back its playlist path without touching anything.
    pub fn start_stream_check(&self, id: i32) -> (r: Option<String>)
        requires
            core_wf(*self),
        ensures
            match r {
                Some(p) => self.streams@.contains_key(id) && p@ == stream_path_spec(id as int),
                None => !self.streams@.contains_key(id),
            },
    {
        if self.streams.contains(id) {
            Some(stream_path(id))
        } else {
            None
        }
    }

    /// Record the streaming child spawned for a camera. The caller has run
    /// `start_stream_check` first and spawned only on `None`.
    pub fn note_stream_started(&mut self, id: i32, pid: u32) -> (r: String)
        requires
            core_wf(*old(self)),
            !old(self).streams@.contains_key(id),
        ensures
            core_wf(*final(self)),
            final(self).streams@ == spec_start_stream(old(self).streams@, id, pid),
            final(self).streams@ == old(self).streams@.insert(id, pid),
            final(self).recorders == old(self).recorders,
            final(self).registry == old(self).registry,
            final(self).active_scheduled == old(self).active_scheduled,
            r@ == stream_path_spec(id as int),
    {
        self.streams.insert(id, pid);
        stream_path(id)
    }

    /// Stop one camera's stream: the streaming child leaves the table, and
    /// as the user expects a full stop, any live recording child leaves too
    /// and every unfinished row of the camera is dropped. Both removed pids
    /// are handed back for the caller to terminate and reap.
    pub fn stop_stream(&mut self, id: i32) -> (r: (Option<u32>, Option<u32>))
        requires
            core_wf(*old(self)),
        ensures
            core_wf(*final(self)),
            final(self).streams@ == old(self).streams@.remove(id),
            final(self).recorders@ == old(self).recorders@.remove(id),
            final(self).active_scheduled == old(self).active_scheduled,
            r.0 matches Some(p) ==> old(self).streams@.contains_key(id) && old(self).streams@[id]
                == p,
            r.0 is None ==> !old(self).streams@.contains_key(id),
            r.1 matches Some(p) ==> old(self).recorders@.contains_key(id) && old(
                self,
            ).recorders@[id] == p,
            r.1 is None ==> !old(self).recorders@.contains_key(id),
            recs_view(final(self).registry.recordings@) == recs_view(
                old(self).registry.recordings@,
            ).filter(|m: RecordingModel| !(m.camera_id == id as int && !m.is_finished)),
            final(self).registry.cameras@ == old(self).registry.cameras@,
            final(self).registry.schedules@ == old(self).registry.schedules@,
            final(self).registry.settings == old(self).registry.settings,
    {
        let stream_pid = self.streams.remove(id);
        let rec_pid = self.recorders.remove(id);
        self.registry.delete_unfinished_for(id);
        (stream_pid, rec_pid)
    }

    /// Whether a camera-clock set must stop the live stream and restart it
    /// after the post-set dwell: exactly when a stream child is tracked at
    /// sync time.
    pub fn sync_restart_needed(&self, id: i32) -> (r: bool)
        requires
            core_wf(*self),
        ensures
            r == self.streams@.contains_key(id),
    {
        self.streams.contains(id)
    }

    /// The fail-fast check and row lookup before a recording starts:
    /// a camera already recording is refused, a missing camera is reported,
    /// otherwise the full camera row is handed back for URL resolution.
    pub fn start_recording_preflight(&self, camera_id: i32) -> (r: Result<Camera, VmsError>)
        requires
            core_wf(*self),
        ensures
            match r {
                Ok(c) => {
                    &&& !self.recorders@.contains_key(camera_id)
                    &&& find_cam(cams_view(self.registry.cameras@), camera_id as int) == Some(c@)
                },
                Err(e) => {
                    &&& (e == VmsError::AlreadyActive <==> self.recorders@.contains_key(camera_id))
                    &&& (e == VmsError::NotFound <==> !self.recorders@.contains_key(camera_id)
                        && find_cam(cams_view(self.registry.cameras@), camera_id as int) is None)
                    &&& (e == VmsError::AlreadyActive || e == VmsError::NotFound)
                },
            },
    {
        if self.recorders.contains(camera_id) {
            return Err(VmsError::AlreadyActive);
        }
        match self.registry.find_camera(camera_id) {
            Some(c) => Ok(c),
            None => Err(VmsError::NotFound),
        }
    }

    /// Commit a successfully spawned recording child: the child enters the
    /// recorder table and the pending row is inserted, in that order, as
    /// one step. A failed spawn never reaches this point, so no row can
    /// exist without its child.
    pub fn start_recording_commit(
        &mut self,
        camera_id: i32,
        pid: u32,
        temp_filename: String,
        now: String,
    ) -> (r: Result<i32, VmsError>)
        requires
            core_wf(*old(self)),
            !old(self).recorders@.contains_key(camera_id),
        ensures
            core_wf(*final(self)),
            final(self).streams == old(self).streams,
            final(self).active_scheduled == old(self).active_scheduled,
            final(self).registry.cameras@ == old(self).registry.cameras@,
            final(self).registry.schedules@ == old(self).registry.schedules@,
            final(self).registry.settings == old(self).registry.settings,
            match r {
                Ok(rec_id) => {
                    &&& rec_id == old(self).registry.next_recording_id
                    &&& ({
                        let t = spec_start_recording(
                            recs_view(old(self).registry.recordings@),
                            old(self).recorders@,
                            camera_id,
                            Some(pid),
                            rec_id as int,
                            temp_filename@,
                            now@,
                        );
                        recs_view(final(self).registry.recordings@) == t.0
                            && final(self).recorders@ == t.1
                    })
                },
                Err(e) => {
                    &&& e == VmsError::Persistence
                    &&& old(self).registry.next_recording_id == i32::MAX
                    &&& recs_view(final(self).registry.recordings@) == recs_view(
                        old(self).registry.recordings@,
                    )
                    &&& final(self).recorders == old(self).recorders
                },
            },
    {
        let rec_id = match self.registry.insert_pending_recording(camera_id, temp_filename, now) {
            Ok(id) => id,
            Err(e) => {
                return Err(e);
            },
        };
        self.recorders.insert(camera_id, pid);
        Ok(rec_id)
    }

    /// Remove the recording child of one camera from the table, handing its
    /// pid back for termination; the rows are settled afterwards by the
    /// finalizer steps.
    pub fn take_recorder(&mut self, id: i32) -> (r: Option<u32>)
        requires
            core_wf(*old(self)),
        ensures
            core_wf(*final(self)),
            final(self).recorders@ == old(self).recorders@.remove(id),
            final(self).streams == old(self).streams,
            final(self).registry == old(self).registry,
            final(self).active_scheduled == old(self).active_scheduled,
            r matches Some(p) ==> old(self).recorders@.contains_key(id) && old(self).recorders@[id]
                == p,
            r is None ==> !old(self).recorders@.contains_key(id),
    {
        self.recorders.remove(id)
    }

    /// The camera ids with a live recording child, each exactly once.
    pub fn get_recording_cameras(&self) -> (r: Vec<i32>)
        requires
            core_wf(*self),
        ensures
            forall|i: int| 0 <= i < r@.len() ==> self.recorders@.contains_key(#[trigger] r@[i]),
            forall|k: i32|
                self.recorders@.contains_key(k) ==> exists|i: int|
                    0 <= i < r@.len() && #[trigger] r@[i] == k,
            forall|i: int, j: int| 0 <= i < j < r@.len() ==> #[trigger] r@[i] != #[trigger] r@[j],
    {
        self.recorders.keys_list()
    }

    /// Shutdown drain: both process tables are emptied and every tracked
    /// child is handed back, so the caller can terminate and reap each one.
    /// Afterwards no child is attached to the core.
    pub fn drain(&mut self) -> (r: Vec<(i32, u32)>)
        requires
            core_wf(*old(self)),
        ensures
            core_wf(*final(self)),
            final(self).streams@ == Map::<i32, u32>::empty(),
            final(self).recorders@ == Map::<i32, u32>::empty(),
            final(self).registry == old(self).registry,
            final(self).active_scheduled == old(self).active_scheduled,
            r@.len() == old(self).streams.spec_len() + old(self).recorders.spec_len(),
            forall|k: i32|
                old(self).streams@.contains_key(k) ==> exists|i: int|
                    0 <= i < r@.len() && #[trigger] r@[i] == (k, old(self).streams@[k]),
            forall|k: i32|
                old(self).recorders@.contains_key(k) ==> exists|i: int|
                    0 <= i < r@.len() && #[trigger] r@[i] == (k, old(self).recorders@[k]),
            forall|i: int|
                0 <= i < r@.len() ==> {
                    let e = #[trigger] r@[i];
                    (old(self).streams@.contains_key(e.0) && old(self).streams@[e.0] == e.1) || (old(
                        self,
                    ).recorders@.contains_key(e.0) && old(self).recorders@[e.0] == e.1)
                },
    {
        let mut out = self.streams.take_all();
        let ghost streams_part = out@;
        let mut rest = self.recorders.take_all();
        proof {
            assert forall|k: i32| old(self).streams@.contains_key(k) implies exists|i: int|
                0 <= i < streams_part.len() && #[trigger] streams_part[i] == (
                k,
                old(self).streams@[k],
            ) by {
                let i = choose|i: int|
                    0 <= i < streams_part.len() && (#[trigger] streams_part[i]).0 == k;
                assert(streams_part[i] == (k, old(self).streams@[k]));
            }
        }
        let ghost rec_part = rest@;
        proof {
            assert forall|k: i32| old(self).recorders@.contains_key(k) implies exists|j: int|
                0 <= j < rec_part.len() && #[trigger] rec_part[j] == (
                k,
                old(self).recorders@[k],
            ) by {
                let j = choose|j: int| 0 <= j < rec_part.len() && (#[trigger] rec_part[j]).0 == k;
                assert(rec_part[j] == (k, old(self).recorders@[k]));
            }
        }
        out.append(&mut rest);
        proof {
            assert forall|k: i32| old(self).streams@.contains_key(k) implies exists|i: int|
                0 <= i < out@.len() && #[trigger] out@[i] == (k, old(self).streams@[k]) by {
                let i = choose|i: int|
                    0 <= i < streams_part.len() && #[trigger] streams_part[i] == (
                    k,
                    old(self).streams@[k],
                );
                assert(out@[i] == (k, old(self).streams@[k]));
            }
            assert forall|k: i32| old(self).recorders@.contains_key(k) implies exists|i: int|
                0 <= i < out@.len() && #[trigger] out@[i] == (k, old(self).recorders@[k]) by {
                let j = choose|j: int|
                    0 <= j < rec_part.len() && #[trigger] rec_part[j] == (
                    k,
                    old(self).recorders@[k],
                );
                assert(out@[streams_part.len() + j] == (k, old(self).recorders@[k]));
            }
        }
        out
    }
}

/// The static capability summary the control surface reports.
pub fn get_camera_capabilities() -> (r: CameraCapabilities)
    ensures
        r.streaming && r.recording && r.ptz,
        !r.thumbnails && !r.discovery && !r.time_sync && !r.remote_access,
{
    CameraCapabilities {
        streaming: true,
        recording: true,
        thumbnails: false,
        ptz: true,
        discovery: false,
        time_sync: false,
        remote_access: false,
    }
}

/// The PTZ capability answer for one camera: a resolved PTZ service means
/// full pan/tilt/zoom support, anything else means none.
pub fn check_ptz_capabilities(ptz_service_resolved: bool) -> (r: PTZCapabilities)
    ensures
        r.supported == ptz_service_resolved,
        ptz_service_resolved ==> (r.capabilities matches Some(d) && d.has_pan_tilt && d.has_zoom),
        !ptz_service_resolved ==> r.capabilities is None,
{
    if ptz_service_resolved {
        PTZCapabilities {
            supported: true,
            capabilities: Some(PTZCapabilitiesDetails { has_pan_tilt: true, has_zoom: true }),
        }
    } else {
        PTZCapabilities { supported: false, capabilities: None }
    }
}

/// The answer of an accepted PTZ move command.
pub fn ptz_move_result() -> (r: PTZResult)
    ensures
        r.success,
        r.message@ == "Moving"@,
{
    PTZResult { success: true, message: String::from_str("Moving") }
}

/// The answer of an accepted PTZ stop command.
pub fn ptz_stop_result() -> (r: PTZResult)
    ensures
        r.success,
        r.message@ == "Stopped"@,
{
    PTZResult { success: true, message: String::from_str("Stopped") }
}

} // verus!
