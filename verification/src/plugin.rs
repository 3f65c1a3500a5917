//! The camera plugin registry: a closed set of backends (ONVIF, UVC)
//! behind one capability surface. Capability queries gate the optional
//! operations; a plugin without a capability answers `NotSupported` and
//! does nothing else.

use vstd::prelude::*;
use crate::errors::VmsError;
use crate::models::{Camera, CameraInfo, PtzDirection, PtzVector};
use crate::percent::percent_encode_str;
use crate::registry::CameraModel;
use crate::strutil::{chars_of_bytes, dec_str, dec_str_signed, i64_to_string, u64_to_string, str_eq};

verus! {

use vstd::string::StringSliceAdditionalSpecFns;
use vstd::string::StringExecFns;

/// The ONVIF backend.
#[derive(Clone, Copy, Debug, PartialEq, Eq, Structural)]
pub struct OnvifPlugin;

impl OnvifPlugin {
    /// The ONVIF backend value.
    pub fn new() -> (r: OnvifPlugin) {
        OnvifPlugin
    }
}

/// The UVC (local camera) backend.
#[derive(Clone, Copy, Debug, PartialEq, Eq, Structural)]
pub struct UvcPlugin;

impl UvcPlugin {
    /// The UVC backend value.
    pub fn new() -> (r: UvcPlugin) {
        UvcPlugin
    }
}

/// One registered backend.
#[derive(Clone, Copy, Debug, PartialEq, Eq, Structural)]
pub enum PluginKind {
    Onvif(OnvifPlugin),
    Uvc(UvcPlugin),
}

/// The backend tag a plugin registers under.
pub open spec fn plugin_tag(p: PluginKind) -> Seq<char> {
    match p {
        PluginKind::Onvif(_) => "onvif"@,
        PluginKind::Uvc(_) => "uvc"@,
    }
}

/// Whether a plugin drives PTZ.
pub open spec fn spec_supports_ptz(p: PluginKind) -> bool {
    p is Onvif
}

/// Whether a plugin synchronizes camera clocks.
pub open spec fn spec_supports_time_sync(p: PluginKind) -> bool {
    p is Onvif
}

impl PluginKind {
    /// The backend tag.
    pub fn plugin_type(&self) -> (r: &'static str)
        ensures
            r@ == plugin_tag(*self),
    {
        match self {
            PluginKind::Onvif(_) => "onvif",
            PluginKind::Uvc(_) => "uvc",
        }
    }

    /// PTZ capability query; consult before any PTZ operation.
    pub fn supports_ptz(&self) -> (r: bool)
        ensures
            r == spec_supports_ptz(*self),
    {
        match self {
            PluginKind::Onvif(_) => true,
            PluginKind::Uvc(_) => false,
        }
    }

    /// Time-sync capability query; consult before any clock operation.
    pub fn supports_time_sync(&self) -> (r: bool)
        ensures
            r == spec_supports_time_sync(*self),
    {
        match self {
            PluginKind::Onvif(_) => true,
            PluginKind::Uvc(_) => false,
        }
    }
}

/// The velocity of one direction step: half speed on the moved axis.
pub open spec fn direction_vector_spec(d: PtzDirection) -> PtzVector {
    match d {
        PtzDirection::Up => PtzVector { x_milli: 0, y_milli: 500, zoom_milli: 0 },
        PtzDirection::Down => PtzVector { x_milli: 0, y_milli: -500i32, zoom_milli: 0 },
        PtzDirection::Left => PtzVector { x_milli: -500i32, y_milli: 0, zoom_milli: 0 },
        PtzDirection::Right => PtzVector { x_milli: 500, y_milli: 0, zoom_milli: 0 },
        PtzDirection::ZoomIn => PtzVector { x_milli: 0, y_milli: 0, zoom_milli: 500 },
        PtzDirection::ZoomOut => PtzVector { x_milli: 0, y_milli: 0, zoom_milli: -500i32 },
    }
}

/// The PTZ-move outcome of a plugin: the velocity to send, or refusal.
pub open spec fn ptz_move_outcome(p: PluginKind, d: PtzDirection) -> Result<PtzVector, VmsError> {
    if spec_supports_ptz(p) {
        Ok(direction_vector_spec(d))
    } else {
        Err(VmsError::NotSupported)
    }
}

/// The PTZ-stop outcome of a plugin.
pub open spec fn ptz_stop_outcome(p: PluginKind) -> Result<(), VmsError> {
    if spec_supports_ptz(p) {
        Ok(())
    } else {
        Err(VmsError::NotSupported)
    }
}

/// The clock-read and clock-set outcomes of a plugin.
pub open spec fn time_op_outcome(p: PluginKind) -> Result<(), VmsError> {
    if spec_supports_time_sync(p) {
        Ok(())
    } else {
        Err(VmsError::NotSupported)
    }
}

/// Begin a PTZ move: the velocity the protocol client is to send, or
/// `NotSupported` with no further effect.
pub fn plugin_ptz_move(p: &PluginKind, d: PtzDirection) -> (r: Result<PtzVector, VmsError>)
    ensures
        r == ptz_move_outcome(*p, d),
{
    if p.supports_ptz() {
        let v = match d {
            PtzDirection::Up => PtzVector { x_milli: 0, y_milli: 500, zoom_milli: 0 },
            PtzDirection::Down => PtzVector { x_milli: 0, y_milli: -500i32, zoom_milli: 0 },
            PtzDirection::Left => PtzVector { x_milli: -500i32, y_milli: 0, zoom_milli: 0 },
            PtzDirection::Right => PtzVector { x_milli: 500, y_milli: 0, zoom_milli: 0 },
            PtzDirection::ZoomIn => PtzVector { x_milli: 0, y_milli: 0, zoom_milli: 500 },
            PtzDirection::ZoomOut => PtzVector { x_milli: 0, y_milli: 0, zoom_milli: -500i32 },
        };
        Ok(v)
    } else {
        Err(VmsError::NotSupported)
    }
}

/// Begin a PTZ stop, or refuse it.
pub fn plugin_ptz_stop(p: &PluginKind) -> (r: Result<(), VmsError>)
    ensures
        r == ptz_stop_outcome(*p),
{
    if p.supports_ptz() {
        Ok(())
    } else {
        Err(VmsError::NotSupported)
    }
}

/// Begin a clock read, or refuse it.
pub fn plugin_get_camera_time(p: &PluginKind) -> (r: Result<(), VmsError>)
    ensures
        r == time_op_outcome(*p),
{
    if p.supports_time_sync() {
        Ok(())
    } else {
        Err(VmsError::NotSupported)
    }
}

/// Begin a clock set, or refuse it.
pub fn plugin_set_camera_time(p: &PluginKind) -> (r: Result<(), VmsError>)
    ensures
        r == time_op_outcome(*p),
{
    if p.supports_time_sync() {
        Ok(())
    } else {
        Err(VmsError::NotSupported)
    }
}

/// The capability gate: for every plugin, each optional operation answers
/// `NotSupported` whenever the matching capability query is false — and,
/// being pure, has no other effect.
pub proof fn lemma_capability_gate(p: PluginKind, d: PtzDirection)
    ensures
        !spec_supports_ptz(p) ==> ptz_move_outcome(p, d) == Err::<PtzVector, VmsError>(
            VmsError::NotSupported,
        ),
        !spec_supports_ptz(p) ==> ptz_stop_outcome(p) == Err::<(), VmsError>(
            VmsError::NotSupported,
        ),
        !spec_supports_time_sync(p) ==> time_op_outcome(p) == Err::<(), VmsError>(
            VmsError::NotSupported,
        ),
{
}

/// The first registered plugin carrying a tag.
pub open spec fn find_plugin(s: Seq<PluginKind>, tag: Seq<char>) -> Option<PluginKind>
    decreases s.len(),
{
    if s.len() == 0 {
        None
    } else if plugin_tag(s[0]) == tag {
        Some(s[0])
    } else {
        find_plugin(s.drop_first(), tag)
    }
}

/// The registry of camera backends, keyed by tag.
pub struct PluginManager {
    plugins: Vec<PluginKind>,
}

impl PluginManager {
    /// The registered plugins, in registration order.
    pub closed spec fn view(&self) -> Seq<PluginKind> {
        self.plugins@
    }

    /// An empty registry.
    pub fn new() -> (r: PluginManager)
        ensures
            r@ == Seq::<PluginKind>::empty(),
    {
        PluginManager { plugins: Vec::new() }
    }

    /// Register one backend.
    pub fn register_plugin(&mut self, p: PluginKind)
        ensures
            final(self)@ == old(self)@.push(p),
    {
        self.plugins.push(p);
    }

    /// Look a backend up by tag.
    pub fn get_plugin(&self, camera_type: &str) -> (r: Option<PluginKind>)
        ensures
            match r {
                Some(p) => find_plugin(self@, camera_type@) == Some(p),
                None => find_plugin(self@, camera_type@) is None,
            },
    {
        let mut i: usize = 0;
        proof {
            assert(self@.skip(0) =~= self@);
        }
        while i < self.plugins.len()
            invariant
                i <= self@.len(),
                find_plugin(self@, camera_type@) == find_plugin(self@.skip(i as int), camera_type@),
            decreases self@.len() - i,
        {
            proof {
                assert(self@.skip(i as int)[0] == self@[i as int]);
                assert(self@.skip(i as int).drop_first() =~= self@.skip(i + 1));
            }
            if str_eq(self.plugins[i].plugin_type(), camera_type) {
                return Some(self.plugins[i]);
            }
            i = i + 1;
        }
        proof {
            assert(self@.skip(i as int).len() == 0);
        }
        None
    }

    /// The registered tags, in order.
    pub fn get_plugin_types(&self) -> (r: Vec<String>)
        ensures
            r@.len() == self@.len(),
            forall|i: int| 0 <= i < r@.len() ==> (#[trigger] r@[i])@ == plugin_tag(self@[i]),
    {
        let mut out: Vec<String> = Vec::new();
        let mut i: usize = 0;
        while i < self.plugins.len()
            invariant
                i <= self@.len(),
                out@.len() == i,
                forall|k: int| 0 <= k < i ==> (#[trigger] out@[k])@ == plugin_tag(self@[k]),
            decreases self@.len() - i,
        {
            out.push(String::from_str(self.plugins[i].plugin_type()));
            i = i + 1;
        }
        out
    }
}

/// Flattening of per-plugin discovery results: failures are skipped,
/// successes are concatenated in plugin order.
pub open spec fn flatten_ok(s: Seq<Result<Vec<CameraInfo>, VmsError>>) -> Seq<CameraInfo>
    decreases s.len(),
{
    if s.len() == 0 {
        Seq::empty()
    } else {
        (match s[0] {
            Ok(v) => v@,
            Err(_) => Seq::empty(),
        }) + flatten_ok(s.drop_first())
    }
}

/// Merge the per-plugin discovery results: one plugin's failure never
/// fails the whole discovery; its cameras are simply absent.
pub fn discover_all(results: Vec<Result<Vec<CameraInfo>, VmsError>>) -> (r: Vec<CameraInfo>)
    ensures
        r@ == flatten_ok(results@),
{
    let mut rest = results;
    let mut out: Vec<CameraInfo> = Vec::new();
    proof {
        assert(out@ + flatten_ok(rest@) =~= flatten_ok(rest@));
    }
    loop
        invariant
            out@ + flatten_ok(rest@) == flatten_ok(results@),
        decreases rest@.len(),
    {
        if rest.len() == 0 {
            proof {
                assert(out@ + flatten_ok(rest@) =~= out@);
            }
            return out;
        }
        let ghost prev = rest@;
        let head = rest.remove(0);
        proof {
            assert(rest@ =~= prev.drop_first());
        }
        match head {
            Ok(mut v) => {
                let ghost found = v@;
                out.append(&mut v);
                proof {
                    assert(out@ + flatten_ok(rest@) =~= flatten_ok(results@));
                }
            },
            Err(_) => {
                proof {
                    assert(out@ + flatten_ok(rest@) =~= flatten_ok(results@));
                }
            },
        }
    }
}

/// The platforms the local enumerator distinguishes.
#[derive(Clone, Copy, Debug, PartialEq, Eq, Structural)]
pub enum Platform {
    Linux,
    Windows,
    MacOs,
}

/// The transcoder input locator of a UVC camera on one platform: the
/// device path on Linux, the device name on Windows, the decimal device
/// index on macOS.
pub open spec fn uvc_locator_spec(cam: CameraModel, platform: Platform) -> Result<
    Seq<char>,
    VmsError,
> {
    match platform {
        Platform::Linux => match cam.device_path {
            Some(p) => Ok(p),
            None => Err(VmsError::Validation),
        },
        Platform::Windows => match cam.device_id {
            Some(d) => Ok(d),
            None => Err(VmsError::Validation),
        },
        Platform::MacOs => match cam.device_index {
            Some(i) => Ok(dec_str(i as nat)),
            None => Err(VmsError::Validation),
        },
    }
}

/// Resolve a UVC camera's transcoder input locator.
pub fn uvc_stream_locator(camera: &Camera, platform: Platform) -> (r: Result<String, VmsError>)
    ensures
        match r {
            Ok(s) => uvc_locator_spec(camera@, platform) == Ok::<Seq<char>, VmsError>(s@),
            Err(e) => uvc_locator_spec(camera@, platform) == Err::<Seq<char>, VmsError>(e),
        },
{
    match platform {
        Platform::Linux => match &camera.device_path {
            Some(p) => Ok(p.clone()),
            None => Err(VmsError::Validation),
        },
        Platform::Windows => match &camera.device_id {
            Some(d) => Ok(d.clone()),
            None => Err(VmsError::Validation),
        },
        Platform::MacOs => match camera.device_index {
            Some(i) => Ok(u64_to_string(i as u64)),
            None => Err(VmsError::Validation),
        },
    }
}

/// Gate an operation that only the ONVIF backend carries: any other
/// backend tag is a mismatch.
pub fn require_onvif(camera: &Camera) -> (r: Result<(), VmsError>)
    ensures
        r is Ok <==> camera.camera_type@ == "onvif"@,
        r is Err ==> r->Err_0 == VmsError::BackendMismatch,
{
    if str_eq(camera.camera_type.as_str(), "onvif") {
        Ok(())
    } else {
        Err(VmsError::BackendMismatch)
    }
}

/// The fallback RTSP URL of a plain-RTSP camera: host, port and the stored
/// path (or `/`), with `user:percent-encoded-password@` injected when a
/// nonempty user name is configured together with a password.
pub open spec fn rtsp_url_spec(cam: CameraModel) -> Seq<char> {
    let path: Seq<char> = match cam.stream_path {
        Some(p) => p,
        None => "/"@,
    };
    let auth: Seq<char> = match (cam.user, cam.pass) {
        (Some(u), Some(pw)) => if u.len() > 0 {
            u + ":"@ + chars_of_bytes(
                crate::percent::percent_encoded(vstd::utf8::encode_utf8(pw)),
            ) + "@"@
        } else {
            Seq::empty()
        },
        _ => Seq::empty(),
    };
    "rtsp://"@ + auth + cam.host + ":"@ + dec_str_signed(cam.port) + path
}

/// Build the fallback RTSP URL of a plain-RTSP camera.
pub fn rtsp_fallback_url(camera: &Camera) -> (r: String)
    ensures
        r@ == rtsp_url_spec(camera@),
{
    let mut s = String::from_str("rtsp://");
    match (&camera.user, &camera.pass) {
        (Some(u), Some(pw)) => {
            if u.as_str().unicode_len() > 0 {
                s.append(u.as_str());
                s.append(":");
                s.append(percent_encode_str(pw.as_str()).as_str());
                s.append("@");
            }
        },
        _ => {},
    }
    s.append(camera.host.as_str());
    s.append(":");
    s.append(i64_to_string(camera.port as i64).as_str());
    match &camera.stream_path {
        Some(p) => {
            s.append(p.as_str());
        },
        None => {
            s.append("/");
        },
    }
    proof {
        assert(s@ =~= rtsp_url_spec(camera@));
    }
    s
}

} // verus!
