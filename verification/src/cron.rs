//! Cron schedules: canonicalization of 5-field expressions to the 6-field
//! form the engine takes, validation through the engine's own parser, the
//! scheduler's job-id bookkeeping, and the schedule operations of the
//! control surface.

use vstd::prelude::*;
use crate::assoc::AssocMap;
use crate::errors::VmsError;
use crate::facade::{AppCore, core_wf};
use crate::models::{NewRecordingSchedule, RecordingSchedule, UpdateRecordingSchedule};
use crate::outside::{cron_accepted, cron_parses, new_job_id};
use crate::registry::{
    scheds_view, find_sched, new_schedule_model, patched_schedule, joined_sched, cams_view,
    ScheduleModel,
};
use crate::strutil::split_ws;

verus! {

use vstd::string::StringSliceAdditionalSpecFns;
use vstd::string::StringExecFns;

/// The canonical form of a cron expression: a 5-field expression gains a
/// leading seconds field of `0`; anything else is kept verbatim.
pub open spec fn canonical_cron_spec(e: Seq<char>, e_bytes: Seq<u8>) -> Seq<char> {
    if split_ws(e_bytes).len() == 5 {
        "0 "@ + e
    } else {
        e
    }
}

/// Canonicalize a cron expression.
pub fn canonical_cron(expr: &str) -> (r: String)
    ensures
        r@ == canonical_cron_spec(expr@, expr.spec_bytes()),
{
    let bytes = expr.as_bytes_vec();
    let fields = crate::strutil::bytes_split_ws(&bytes);
    if fields.len() == 5 {
        let mut s = String::from_str("0 ");
        s.append(expr);
        s
    } else {
        String::from_str(expr)
    }
}

/// Canonicalization is exactly the written law: a 5-field expression is
/// stored with `0 ` prepended, an expression of any other field count is
/// stored verbatim.
pub proof fn lemma_cron_canonicalization(e: Seq<char>, e_bytes: Seq<u8>)
    ensures
        split_ws(e_bytes).len() == 5 ==> canonical_cron_spec(e, e_bytes) == "0 "@ + e,
        split_ws(e_bytes).len() != 5 ==> canonical_cron_spec(e, e_bytes) == e,
{
}

/// Canonicalize and validate a cron expression against the engine's
/// parser. The canonical form comes back on success; rejection is a
/// validation error, exactly when the engine refuses the canonical form.
pub fn validate_cron_expression(expr: &str) -> (r: Result<String, VmsError>)
    ensures
        match r {
            Ok(c) => {
                &&& c@ == canonical_cron_spec(expr@, expr.spec_bytes())
                &&& cron_accepted(canonical_cron_spec(expr@, expr.spec_bytes()))
            },
            Err(e) => {
                &&& e == VmsError::Validation
                &&& !cron_accepted(canonical_cron_spec(expr@, expr.spec_bytes()))
            },
        },
{
    let canonical = canonical_cron(expr);
    if cron_parses(canonical.as_str()) {
        Ok(canonical)
    } else {
        Err(VmsError::Validation)
    }
}

/// The scheduler's job table: schedule id to engine job id.
pub struct SchedulerManager {
    jobs: AssocMap<u128>,
}

impl SchedulerManager {
    /// The table's map view.
    pub closed spec fn view(&self) -> Map<i32, u128> {
        self.jobs@
    }

    /// Key uniqueness of the underlying table.
    pub closed spec fn wf(&self) -> bool {
        self.jobs.wf()
    }

    /// A fresh, empty table.
    pub fn new() -> (r: SchedulerManager)
        ensures
            r@ == Map::<i32, u128>::empty(),
            r.wf(),
    {
        SchedulerManager { jobs: AssocMap::new() }
    }

    /// Bind a fresh engine job id to a schedule, replacing any stale one.
    pub fn add_schedule(&mut self, schedule_id: i32) -> (r: u128)
        requires
            old(self).wf(),
        ensures
            final(self).wf(),
            final(self)@ == old(self)@.insert(schedule_id, r),
    {
        let job_id = new_job_id();
        let _ = self.jobs.remove(schedule_id);
        proof {
            assert(old(self)@.remove(schedule_id).insert(schedule_id, job_id) =~= old(
                self,
            )@.insert(schedule_id, job_id));
        }
        self.jobs.insert(schedule_id, job_id);
        job_id
    }

    /// Unbind a schedule, handing back the engine job id to cancel.
    pub fn remove_schedule(&mut self, schedule_id: i32) -> (r: Result<u128, VmsError>)
        requires
            old(self).wf(),
        ensures
            final(self).wf(),
            final(self)@ == old(self)@.remove(schedule_id),
            match r {
                Ok(job) => old(self)@.contains_key(schedule_id) && old(self)@[schedule_id] == job,
                Err(e) => e == VmsError::NotFound && !old(self)@.contains_key(schedule_id),
            },
    {
        match self.jobs.remove(schedule_id) {
            Some(job) => Ok(job),
            None => {
                proof {
                    assert(old(self)@.remove(schedule_id) =~= old(self)@);
                }
                Err(VmsError::NotFound)
            },
        }
    }

    /// The engine job id bound to a schedule, if any.
    pub fn get_job_id(&self, schedule_id: i32) -> (r: Option<u128>)
        requires
            self.wf(),
        ensures
            match r {
                Some(job) => self@.contains_key(schedule_id) && self@[schedule_id] == job,
                None => !self@.contains_key(schedule_id),
            },
    {
        self.jobs.get(schedule_id)
    }
}

/// What one schedule firing does: which camera to record, at which
/// frame rate, and for how many seconds before the automatic stop.
pub struct JobPlan {
    pub camera_id: i32,
    pub fps: Option<i32>,
    pub duration_seconds: u64,
}

/// The run time of one firing: the configured minutes in seconds, zero
/// for a non-positive configuration.
pub open spec fn duration_seconds_spec(duration_minutes: int) -> int {
    if duration_minutes <= 0 {
        0
    } else {
        duration_minutes * 60
    }
}

/// Plan one firing of a schedule.
pub fn plan_schedule_job(s: &RecordingSchedule) -> (r: JobPlan)
    ensures
        r.camera_id == s.camera_id,
        r.fps == s.fps,
        r.duration_seconds as int == duration_seconds_spec(s.duration_minutes as int),
{
    let secs: u64 = if s.duration_minutes <= 0 {
        0
    } else {
        (s.duration_minutes as u64) * 60
    };
    JobPlan { camera_id: s.camera_id, fps: s.fps, duration_seconds: secs }
}

impl AppCore {
    /// Create a recording schedule: the cron expression is canonicalized
    /// and validated, then the row is stored with the canonical form.
    pub fn add_recording_schedule(&mut self, ns: NewRecordingSchedule, now: &str) -> (r: Result<
        RecordingSchedule,
        VmsError,
    >)
        requires
            core_wf(*old(self)),
        ensures
            core_wf(*final(self)),
            final(self).streams == old(self).streams,
            final(self).recorders == old(self).recorders,
            final(self).registry.cameras@ == old(self).registry.cameras@,
            final(self).registry.recordings@ == old(self).registry.recordings@,
            final(self).registry.settings == old(self).registry.settings,
            match r {
                Ok(s) => {
                    &&& cron_accepted(
                        canonical_cron_spec(
                            ns.cron_expression@,
                            vstd::utf8::encode_utf8(ns.cron_expression@),
                        ),
                    )
                    &&& scheds_view(final(self).registry.schedules@) == scheds_view(
                        old(self).registry.schedules@,
                    ).push(
                        new_schedule_model(
                            ns,
                            canonical_cron_spec(
                                ns.cron_expression@,
                                vstd::utf8::encode_utf8(ns.cron_expression@),
                            ),
                            old(self).registry.next_schedule_id as int,
                            now@,
                        ),
                    )
                    &&& s@ == joined_sched(
                        new_schedule_model(
                            ns,
                            canonical_cron_spec(
                                ns.cron_expression@,
                                vstd::utf8::encode_utf8(ns.cron_expression@),
                            ),
                            old(self).registry.next_schedule_id as int,
                            now@,
                        ),
                        cams_view(old(self).registry.cameras@),
                    )
                },
                Err(e) => {
                    &&& (e == VmsError::Validation <==> !cron_accepted(
                        canonical_cron_spec(
                            ns.cron_expression@,
                            vstd::utf8::encode_utf8(ns.cron_expression@),
                        ),
                    ))
                    &&& (e == VmsError::Validation ==> final(self).registry.schedules@ == old(
                        self,
                    ).registry.schedules@)
                    &&& (e == VmsError::Validation || e == VmsError::Persistence)
                },
            },
    {
        let cron = match validate_cron_expression(ns.cron_expression.as_str()) {
            Ok(c) => c,
            Err(e) => {
                return Err(e);
            },
        };
        self.registry.add_schedule(ns, cron, now)
    }

    /// Patch a recording schedule: the cron expression, when present, is
    /// canonicalized and validated first; `updated_at` is refreshed. The
    /// returned pair carries the patched row and whether the schedule was
    /// enabled before, so the caller can rearm the engine.
    pub fn update_recording_schedule(
        &mut self,
        id: i32,
        patch: UpdateRecordingSchedule,
        now: &str,
    ) -> (r: Result<(RecordingSchedule, bool), VmsError>)
        requires
            core_wf(*old(self)),
        ensures
            core_wf(*final(self)),
            final(self).streams == old(self).streams,
            final(self).recorders == old(self).recorders,
            final(self).registry.cameras@ == old(self).registry.cameras@,
            final(self).registry.recordings@ == old(self).registry.recordings@,
            final(self).registry.settings == old(self).registry.settings,
            match r {
                Ok((s, was_enabled)) => {
                    &&& find_sched(scheds_view(old(self).registry.schedules@), id as int) is Some
                    &&& ({
                        let cron = match patch.cron_expression {
                            Some(e) => Some(
                                canonical_cron_spec(e@, vstd::utf8::encode_utf8(e@)),
                            ),
                            None => None,
                        };
                        let before = find_sched(
                            scheds_view(old(self).registry.schedules@),
                            id as int,
                        ).unwrap();
                        &&& scheds_view(final(self).registry.schedules@) == scheds_view(
                            old(self).registry.schedules@,
                        ).map_values(
                            |m: ScheduleModel|
                                if m.id == id as int {
                                    patched_schedule(m, patch, cron, now@)
                                } else {
                                    m
                                },
                        )
                        &&& s@ == joined_sched(
                            patched_schedule(before, patch, cron, now@),
                            cams_view(old(self).registry.cameras@),
                        )
                        &&& was_enabled == before.is_enabled
                    })
                },
                Err(e) => {
                    &&& (e == VmsError::Validation ==> (patch.cron_expression matches Some(ex)
                        && !cron_accepted(
                        canonical_cron_spec(ex@, vstd::utf8::encode_utf8(ex@)),
                    )) && final(self).registry.schedules@ == old(self).registry.schedules@)
                    &&& (e == VmsError::NotFound ==> find_sched(
                        scheds_view(old(self).registry.schedules@),
                        id as int,
                    ) is None && *final(self) == *old(self))
                    &&& (e == VmsError::Validation || e == VmsError::NotFound)
                },
            },
    {
        let cron: Option<String> = match &patch.cron_expression {
            Some(e) => {
                match validate_cron_expression(e.as_str()) {
                    Ok(c) => Some(c),
                    Err(err) => {
                        return Err(err);
                    },
                }
            },
            None => None,
        };
        let was_enabled = match self.registry.find_schedule(id) {
            Some(s) => s.is_enabled,
            None => {
                return Err(VmsError::NotFound);
            },
        };
        match self.registry.update_schedule(id, patch, cron, now) {
            Ok(s) => Ok((s, was_enabled)),
            Err(e) => Err(e),
        }
    }

    /// Enable or disable one schedule: exactly the patch of the enabled
    /// flag alone, every other field kept, `updated_at` refreshed.
    pub fn toggle_schedule(&mut self, id: i32, enabled: bool, now: &str) -> (r: Result<
        (RecordingSchedule, bool),
        VmsError,
    >)
        requires
            core_wf(*old(self)),
        ensures
            core_wf(*final(self)),
            final(self).streams == old(self).streams,
            final(self).recorders == old(self).recorders,
            final(self).registry.cameras@ == old(self).registry.cameras@,
            final(self).registry.recordings@ == old(self).registry.recordings@,
            final(self).registry.settings == old(self).registry.settings,
            match r {
                Ok((s, was_enabled)) => {
                    &&& find_sched(scheds_view(old(self).registry.schedules@), id as int) is Some
                    &&& ({
                        let patch = (UpdateRecordingSchedule {
                            name: None,
                            cron_expression: None,
                            duration_minutes: None,
                            fps: None,
                            is_enabled: Some(enabled),
                        });
                        let before = find_sched(
                            scheds_view(old(self).registry.schedules@),
                            id as int,
                        ).unwrap();
                        &&& scheds_view(final(self).registry.schedules@) == scheds_view(
                            old(self).registry.schedules@,
                        ).map_values(
                            |m: ScheduleModel|
                                if m.id == id as int {
                                    patched_schedule(m, patch, None, now@)
                                } else {
                                    m
                                },
                        )
                        &&& s@ == joined_sched(
                            patched_schedule(before, patch, None, now@),
                            cams_view(old(self).registry.cameras@),
                        )
                        &&& was_enabled == before.is_enabled
                    })
                    &&& s@.is_enabled == enabled
                },
                Err(e) => e == VmsError::NotFound && find_sched(
                    scheds_view(old(self).registry.schedules@),
                    id as int,
                ) is None,
            },
    {
        let patch = UpdateRecordingSchedule {
            name: None,
            cron_expression: None,
            duration_minutes: None,
            fps: None,
            is_enabled: Some(enabled),
        };
        self.update_recording_schedule(id, patch, now)
    }
}

} // verus!
