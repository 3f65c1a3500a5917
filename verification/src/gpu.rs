//! GPU probe logic: which hardware encoders the transcoder offers, which GPU
//! vendor the host has, which encoder to prefer, and how a candidate encoder
//! is functionally tested. The probe's outside work (running the transcoder,
//! `nvidia-smi`, `lspci`) happens in the surrounding application; the
//! decisions on those outputs are verified here.

use vstd::prelude::*;
use crate::strutil::{
    has_sub, bytes_contains, ascii_lower_seq, to_ascii_lower, split_lines, bytes_lines, trim_ws,
    trim_bytes, find_spec, find_sub_from, string_from_bytes_lossy, all_ascii, chars_of_bytes,
    seq_contains_str, vec_contains_str, str_eq, bytes_subrange, lemma_find_some_bounds,
};

verus! {

use vstd::string::StringSliceAdditionalSpecFns;
use vstd::string::StrSliceExecFns;

/// What the GPU probe found.
#[derive(Clone, Debug)]
pub struct GpuCapabilities {
    /// Hardware encoder names the transcoder lists.
    pub available_encoders: Vec<String>,
    /// The encoder chosen for this host's GPU, when it is also available.
    pub preferred_encoder: Option<String>,
    /// Display name of the detected GPU vendor.
    pub gpu_type: String,
    /// Model name of the detected GPU.
    pub gpu_name: Option<String>,
}

/// The GPU vendor classes the probe distinguishes.
#[derive(Clone, Copy, Debug, PartialEq, Eq, Structural)]
pub enum GpuType {
    Nvidia,
    Amd,
    Intel,
    VaApi,
    VideoToolbox,
    NoGpu,
}

impl GpuType {
    /// Display name of the vendor class.
    pub fn to_string(&self) -> (r: String)
        ensures
            r@ == gpu_type_name(*self),
    {
        let r = match self {
            GpuType::Nvidia => String::from_str("NVIDIA"),
            GpuType::Amd => String::from_str("AMD"),
            GpuType::Intel => String::from_str("Intel"),
            GpuType::VaApi => String::from_str("VA-API"),
            GpuType::VideoToolbox => String::from_str("VideoToolbox"),
            GpuType::NoGpu => String::from_str("None"),
        };
        r
    }
}

/// Display name of a vendor class.
pub open spec fn gpu_type_name(t: GpuType) -> Seq<char> {
    match t {
        GpuType::Nvidia => "NVIDIA"@,
        GpuType::Amd => "AMD"@,
        GpuType::Intel => "Intel"@,
        GpuType::VaApi => "VA-API"@,
        GpuType::VideoToolbox => "VideoToolbox"@,
        GpuType::NoGpu => "None"@,
    }
}

/// The ten hardware encoder names the probe looks for.
pub open spec fn target_encoders() -> Seq<Seq<char>> {
    seq![
        "h264_nvenc"@,
        "hevc_nvenc"@,
        "h264_qsv"@,
        "hevc_qsv"@,
        "h264_amf"@,
        "hevc_amf"@,
        "h264_vaapi"@,
        "hevc_vaapi"@,
        "h264_videotoolbox"@,
        "hevc_videotoolbox"@,
    ]
}

fn target_encoder_list() -> (r: Vec<&'static str>)
    ensures
        r.deep_view() == target_encoders(),
        r@.len() == 10,
{
    let mut v: Vec<&'static str> = Vec::new();
    v.push("h264_nvenc");
    v.push("hevc_nvenc");
    v.push("h264_qsv");
    v.push("hevc_qsv");
    v.push("h264_amf");
    v.push("hevc_amf");
    v.push("h264_vaapi");
    v.push("hevc_vaapi");
    v.push("h264_videotoolbox");
    v.push("hevc_videotoolbox");
    proof {
        assert(v.deep_view() =~= target_encoders());
    }
    v
}

/// The target encoders whose names occur in the transcoder's encoder listing.
pub open spec fn available_encoders_spec(listing: Seq<u8>) -> Seq<Seq<char>> {
    target_encoders().filter(|e: Seq<char>| has_sub(listing, vstd::utf8::encode_utf8(e)))
}

/// Scan the transcoder's `-encoders` listing for the ten hardware encoder
/// names, in the fixed probe order.
pub fn parse_available_encoders(listing: &Vec<u8>) -> (r: Vec<String>)
    ensures
        r.deep_view() == available_encoders_spec(listing@),
{
    let targets = target_encoder_list();
    let mut out: Vec<String> = Vec::new();
    let mut i: usize = 0;
    proof {
        assert(target_encoders().take(0) =~= Seq::<Seq<char>>::empty());
        assert(out.deep_view() =~= target_encoders().take(0).filter(
            |e: Seq<char>| has_sub(listing@, vstd::utf8::encode_utf8(e)),
        ));
    }
    while i < targets.len()
        invariant
            targets.deep_view() == target_encoders(),
            targets@.len() == 10,
            i <= 10,
            out.deep_view() == target_encoders().take(i as int).filter(
                |e: Seq<char>| has_sub(listing@, vstd::utf8::encode_utf8(e)),
            ),
        decreases 10 - i,
    {
        let name = targets[i];
        proof {
            assert(targets.deep_view()[i as int] == targets@[i as int]@);
            assert(target_encoders().take(i + 1).drop_last() =~= target_encoders().take(i as int));
            assert(target_encoders().take(i + 1).last() == target_encoders()[i as int]);
            reveal_with_fuel(Seq::filter, 2);
        }
        let nb = name.as_bytes_vec();
        if bytes_contains(listing, &nb) {
            out.push(String::from_str(name));
            proof {
                assert(out.deep_view() =~~= target_encoders().take(i + 1).filter(
                    |e: Seq<char>| has_sub(listing@, vstd::utf8::encode_utf8(e)),
                ));
            }
        } else {
            proof {
                assert(out.deep_view() =~~= target_encoders().take(i + 1).filter(
                    |e: Seq<char>| has_sub(listing@, vstd::utf8::encode_utf8(e)),
                ));
            }
        }
        i = i + 1;
    }
    proof {
        assert(target_encoders().take(10) =~= target_encoders());
    }
    out
}

/// The encoder preferred for each vendor class.
pub open spec fn preferred_name(t: GpuType) -> Option<Seq<char>> {
    match t {
        GpuType::Nvidia => Some("h264_nvenc"@),
        GpuType::Intel => Some("h264_qsv"@),
        GpuType::Amd => Some("h264_amf"@),
        GpuType::VaApi => Some("h264_vaapi"@),
        GpuType::VideoToolbox => Some("h264_videotoolbox"@),
        GpuType::NoGpu => None,
    }
}

/// Pick the preferred encoder for the detected vendor, when the transcoder
/// also offers it.
pub fn select_preferred_encoder(gpu_type: &GpuType, available_encoders: &Vec<String>) -> (r: Option<
    String,
>)
    ensures
        match r {
            Some(name) => {
                &&& preferred_name(*gpu_type) == Some(name@)
                &&& seq_contains_str(available_encoders.deep_view(), name@)
            },
            None => preferred_name(*gpu_type) is None || !seq_contains_str(
                available_encoders.deep_view(),
                preferred_name(*gpu_type).unwrap(),
            ),
        },
{
    let candidate: Option<&'static str> = match gpu_type {
        GpuType::Nvidia => Some("h264_nvenc"),
        GpuType::Intel => Some("h264_qsv"),
        GpuType::Amd => Some("h264_amf"),
        GpuType::VaApi => Some("h264_vaapi"),
        GpuType::VideoToolbox => Some("h264_videotoolbox"),
        GpuType::NoGpu => None,
    };
    match candidate {
        Some(name) => {
            if vec_contains_str(available_encoders, name) {
                Some(String::from_str(name))
            } else {
                None
            }
        },
        None => None,
    }
}

/// Vendor classification from the probe results, in the probe's priority
/// order: NVIDIA, Intel, AMD, then the platform fallbacks.
pub open spec fn classify_gpu_spec(
    nvidia: Option<Seq<char>>,
    intel: Option<Seq<char>>,
    amd: Option<Seq<char>>,
    is_macos: bool,
    has_render_node: bool,
) -> (GpuType, Option<Seq<char>>) {
    if nvidia is Some {
        (GpuType::Nvidia, nvidia)
    } else if intel is Some {
        (GpuType::Intel, intel)
    } else if amd is Some {
        (GpuType::Amd, amd)
    } else if is_macos {
        (GpuType::VideoToolbox, Some("Apple GPU"@))
    } else if has_render_node {
        (GpuType::VaApi, Some("VA-API Device"@))
    } else {
        (GpuType::NoGpu, None)
    }
}

/// Classify the host GPU from the per-vendor probe results.
pub fn classify_gpu(
    nvidia: Option<String>,
    intel: Option<String>,
    amd: Option<String>,
    is_macos: bool,
    has_render_node: bool,
) -> (r: (GpuType, Option<String>))
    ensures
        ({
            let s = classify_gpu_spec(
                nvidia.deep_view(),
                intel.deep_view(),
                amd.deep_view(),
                is_macos,
                has_render_node,
            );
            r.0 == s.0 && r.1.deep_view() == s.1
        }),
{
    if let Some(n) = nvidia {
        (GpuType::Nvidia, Some(n))
    } else if let Some(n) = intel {
        (GpuType::Intel, Some(n))
    } else if let Some(n) = amd {
        (GpuType::Amd, Some(n))
    } else if is_macos {
        (GpuType::VideoToolbox, Some(String::from_str("Apple GPU")))
    } else if has_render_node {
        (GpuType::VaApi, Some(String::from_str("VA-API Device")))
    } else {
        (GpuType::NoGpu, None)
    }
}

/// A vendor name line scan: the first line whose ASCII lower-casing contains
/// every pattern, with the text after its second colon, trimmed; the default
/// when that text is missing.
pub open spec fn vendor_line_matches(line: Seq<u8>, pat1: Seq<u8>, pat2: Seq<u8>) -> bool {
    has_sub(ascii_lower_seq(line), pat1) && has_sub(ascii_lower_seq(line), pat2)
}

/// The device name carried by a matching `lspci` line: the text after the
/// second colon, trimmed.
pub open spec fn lspci_device_name(line: Seq<u8>) -> Option<Seq<u8>> {
    match find_spec(line, seq![58u8], 0) {
        Some(c1) => match find_spec(line, seq![58u8], c1 + 1) {
            Some(c2) => Some(trim_ws(line.skip(c2 + 1))),
            None => None,
        },
        None => None,
    }
}

/// The first line matching both vendor patterns, at or after `i`.
pub open spec fn first_vendor_match(
    lines: Seq<Seq<u8>>,
    pat1: Seq<u8>,
    pat2: Seq<u8>,
    i: int,
) -> Option<int>
    decreases lines.len() - i,
{
    if i < 0 || i >= lines.len() {
        None
    } else if vendor_line_matches(lines[i], pat1, pat2) {
        Some(i)
    } else {
        first_vendor_match(lines, pat1, pat2, i + 1)
    }
}

/// Scan `lspci` output for a VGA line of one vendor (two lower-case
/// patterns), returning the device name after the second colon of the
/// first matching line, or the given default for a matching line
/// without one.
pub fn scan_vendor_lines(output: &Vec<u8>, pat1: &Vec<u8>, pat2: &Vec<u8>, default_name: &str) -> (r:
    Option<String>)
    ensures
        ({
            let lines = split_lines(output@);
            match r {
                Some(name) => first_vendor_match(lines, pat1@, pat2@, 0) matches Some(m) && {
                    match lspci_device_name(lines[m]) {
                        Some(b) => all_ascii(b) ==> name@ == chars_of_bytes(b),
                        None => name@ == default_name@,
                    }
                },
                None => first_vendor_match(lines, pat1@, pat2@, 0) is None,
            }
        }),
{
    let lines = bytes_lines(output);
    let mut i: usize = 0;
    while i < lines.len()
        invariant
            lines.deep_view() == split_lines(output@),
            i <= lines@.len(),
            lines@.len() == lines.deep_view().len(),
            first_vendor_match(lines.deep_view(), pat1@, pat2@, 0) == first_vendor_match(
                lines.deep_view(),
                pat1@,
                pat2@,
                i as int,
            ),
        decreases lines@.len() - i,
    {
        let line = &lines[i];
        proof {
            assert(lines.deep_view()[i as int] =~= lines@[i as int]@.map_values(|x: u8| x));
            assert(lines.deep_view()[i as int] =~= lines@[i as int]@);
        }
        let lower = to_ascii_lower(line);
        if bytes_contains(&lower, pat1) && bytes_contains(&lower, pat2) {
            proof {
                assert(vendor_line_matches(lines.deep_view()[i as int], pat1@, pat2@));
                assert(first_vendor_match(lines.deep_view(), pat1@, pat2@, 0) == Some(i as int));
            }
            let colon: Vec<u8> = {
                let mut t: Vec<u8> = Vec::new();
                t.push(58);
                t
            };
            proof {
                assert(colon@ =~= seq![58u8]);
            }
            match find_sub_from(line, &colon, 0) {
                Some(c1) => {
                    proof {
                        crate::strutil::lemma_find_some_bounds(line@, colon@, 0, c1 as int);
                    }
                    match find_sub_from(line, &colon, c1 + 1) {
                        Some(c2) => {
                            proof {
                                crate::strutil::lemma_find_some_bounds(
                                    line@,
                                    colon@,
                                    c1 + 1,
                                    c2 as int,
                                );
                            }
                            let rest = bytes_subrange(line, c2 + 1, line.len());
                            proof {
                                assert(line@.subrange(c2 + 1, line@.len() as int) =~= line@.skip(
                                    c2 + 1,
                                ));
                            }
                            let trimmed = trim_bytes(&rest);
                            return Some(string_from_bytes_lossy(&trimmed));
                        },
                        None => {
                            return Some(String::from_str(default_name));
                        },
                    }
                },
                None => {
                    return Some(String::from_str(default_name));
                },
            }
        }
        proof {
            assert(!vendor_line_matches(lines.deep_view()[i as int], pat1@, pat2@));
            assert(first_vendor_match(lines.deep_view(), pat1@, pat2@, i as int)
                == first_vendor_match(lines.deep_view(), pat1@, pat2@, i + 1));
        }
        i = i + 1;
    }
    None
}

/// Scan `lspci` output for an Intel VGA adapter.
pub fn find_intel_gpu(output: &Vec<u8>) -> (r: Option<String>)
    ensures
        r is Some <==> first_vendor_match(
            split_lines(output@),
            "vga".spec_bytes(),
            "intel".spec_bytes(),
            0,
        ) is Some,
{
    let vga = ascii_bytes_of("vga");
    let intel = ascii_bytes_of("intel");
    scan_vendor_lines(output, &vga, &intel, "Intel GPU")
}

/// Scan `lspci` output for an AMD VGA adapter. A line matches on either
/// vendor string; the scan runs once per pattern, AMD first.
pub fn find_amd_gpu(output: &Vec<u8>) -> (r: Option<String>)
    ensures
        r is Some <==> first_vendor_match(
            split_lines(output@),
            "vga".spec_bytes(),
            "amd".spec_bytes(),
            0,
        ) is Some || first_vendor_match(
            split_lines(output@),
            "vga".spec_bytes(),
            "radeon".spec_bytes(),
            0,
        ) is Some,
{
    let vga = ascii_bytes_of("vga");
    let amd = ascii_bytes_of("amd");
    let radeon = ascii_bytes_of("radeon");
    match scan_vendor_lines(output, &vga, &amd, "AMD GPU") {
        Some(n) => Some(n),
        None => scan_vendor_lines(output, &vga, &radeon, "AMD GPU"),
    }
}

/// The bytes of an ASCII string literal, one byte per character.
pub fn ascii_bytes_of(s: &str) -> (r: Vec<u8>)
    ensures
        r@ == s.spec_bytes(),
{
    s.as_bytes_vec()
}

/// Argv for the functional encoder test: one second of synthetic video,
/// ten frames, to null output, with the hardware-device initialization the
/// encoder family needs.
pub open spec fn encoder_test_args_spec(enc: Seq<char>) -> Seq<Seq<char>> {
    let head = seq!["-f"@, "lavfi"@, "-i"@, "testsrc=duration=1:size=320x240:rate=30"@];
    let hw = if enc == "h264_qsv"@ || enc == "hevc_qsv"@ {
        seq!["-init_hw_device"@, "qsv=hw"@, "-filter_hw_device"@, "hw"@]
    } else if enc == "h264_vaapi"@ || enc == "hevc_vaapi"@ {
        seq!["-init_hw_device"@, "vaapi=va:/dev/dri/renderD128"@, "-filter_hw_device"@, "va"@]
    } else {
        Seq::empty()
    };
    head + hw + seq!["-c:v"@, enc, "-frames:v"@, "10"@, "-f"@, "null"@, "-"@]
}

/// Build the functional-test argv for one encoder.
pub fn encoder_test_args(encoder: &str) -> (r: Vec<String>)
    ensures
        r.deep_view() == encoder_test_args_spec(encoder@),
{
    let mut args: Vec<String> = Vec::new();
    args.push(String::from_str("-f"));
    args.push(String::from_str("lavfi"));
    args.push(String::from_str("-i"));
    args.push(String::from_str("testsrc=duration=1:size=320x240:rate=30"));
    if str_eq(encoder, "h264_qsv") || str_eq(encoder, "hevc_qsv") {
        args.push(String::from_str("-init_hw_device"));
        args.push(String::from_str("qsv=hw"));
        args.push(String::from_str("-filter_hw_device"));
        args.push(String::from_str("hw"));
    } else if str_eq(encoder, "h264_vaapi") || str_eq(encoder, "hevc_vaapi") {
        args.push(String::from_str("-init_hw_device"));
        args.push(String::from_str("vaapi=va:/dev/dri/renderD128"));
        args.push(String::from_str("-filter_hw_device"));
        args.push(String::from_str("va"));
    }
    args.push(String::from_str("-c:v"));
    args.push(String::from_str(encoder));
    args.push(String::from_str("-frames:v"));
    args.push(String::from_str("10"));
    args.push(String::from_str("-f"));
    args.push(String::from_str("null"));
    args.push(String::from_str("-"));
    proof {
        assert(args.deep_view() =~~= encoder_test_args_spec(encoder@));
    }
    args
}

/// Verdict of a functional encoder test: the run must exit cleanly and its
/// diagnostic stream must show encoded frames.
pub open spec fn encoder_test_passed(exit_ok: bool, stderr: Seq<u8>) -> bool {
    exit_ok && has_sub(stderr, "frame=".spec_bytes())
}

/// Judge a functional encoder test from its exit status and diagnostics.
pub fn judge_encoder_test(exit_ok: bool, stderr: &Vec<u8>) -> (r: bool)
    ensures
        r == encoder_test_passed(exit_ok, stderr@),
{
    if !exit_ok {
        return false;
    }
    let needle = ascii_bytes_of("frame=");
    bytes_contains(stderr, &needle)
}

} // verus!
