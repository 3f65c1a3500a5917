//! Local-camera enumeration: the parsers over the control utility's and
//! the transcoder's listing output. The platform scanners run the tools;
//! every decision on their text is made and proved here.

use vstd::prelude::*;
use crate::models::CameraInfo;
use crate::strutil::{
    has_sub, bytes_contains, find_spec, find_sub_from, rfind_spec, rfind_sub, split_lines,
    bytes_lines, trim_ws, trim_bytes, all_digits, digits_val, all_ascii, chars_of_bytes,
    string_from_bytes_lossy, bytes_subrange, lemma_find_some_bounds, dec_str,
};

verus! {

use vstd::string::StringSliceAdditionalSpecFns;
use vstd::string::StrSliceExecFns;
use vstd::string::StringExecFns;

/// The two pixel formats the selector distinguishes.
#[derive(Clone, Copy, Debug, PartialEq, Eq, Structural)]
pub enum PixFormat {
    Mjpeg,
    Yuyv,
}

/// The running state of the best-format scan.
#[derive(Clone, Copy, Debug, PartialEq, Eq, Structural)]
pub struct FmtScan {
    pub cur_format: Option<PixFormat>,
    pub cur_w: Option<i32>,
    pub cur_h: Option<i32>,
    pub best_format: Option<PixFormat>,
    pub best_w: Option<i32>,
    pub best_h: Option<i32>,
    pub best_fps: Option<i32>,
    pub best_score: i64,
}

/// The scan's starting state.
pub open spec fn fmt_scan_init() -> FmtScan {
    FmtScan {
        cur_format: None,
        cur_w: None,
        cur_h: None,
        best_format: None,
        best_w: None,
        best_h: None,
        best_fps: None,
        best_score: 0,
    }
}

/// The `WxH` pair of a `Size: Discrete` line: the text after the marker,
/// trimmed, split at its single `x`; each side parses independently.
pub open spec fn size_line_spec(l: Seq<u8>) -> Option<(Option<i32>, Option<i32>)> {
    match find_spec(l, "Size: Discrete".spec_bytes(), 0) {
        Some(i) => {
            let rest = trim_ws(l.skip(i + 14));
            match find_spec(rest, seq![120u8], 0) {
                Some(j) => if find_spec(rest, seq![120u8], j + 1) is None {
                    Some((int_field(rest.take(j)), int_field(rest.skip(j + 1))))
                } else {
                    None
                },
                None => None,
            }
        },
        None => None,
    }
}

/// A whole field parsed as a non-negative 32-bit integer.
pub open spec fn int_field(s: Seq<u8>) -> Option<i32> {
    if s.len() > 0 && all_digits(s) && digits_val(s) <= i32::MAX {
        Some(digits_val(s) as i32)
    } else {
        None
    }
}

/// The frame rate of an `Interval: Discrete … fps` line: the digits
/// between the first `(` and the next `.` (or the line's end), trimmed.
pub open spec fn fps_line_spec(l: Seq<u8>) -> Option<i32> {
    if has_sub(l, "Interval: Discrete".spec_bytes()) && has_sub(l, "fps".spec_bytes()) {
        match find_spec(l, seq![40u8], 0) {
            Some(i) => {
                let seg = match find_spec(l, seq![46u8], i + 1) {
                    Some(j) => l.subrange(i + 1, j),
                    None => l.skip(i + 1),
                };
                int_field(trim_ws(seg))
            },
            None => None,
        }
    } else {
        None
    }
}

/// The score of a candidate: format preference, resolution, frame rate.
pub open spec fn score_spec(st: FmtScan, fps: int) -> int {
    let fmt: int = if st.cur_format == Some(PixFormat::Mjpeg) {
        10000
    } else {
        0
    };
    let w: int = match st.cur_w {
        Some(w) => w as int,
        None => 0,
    };
    let h: int = match st.cur_h {
        Some(h) => h as int,
        None => 0,
    };
    fmt + (w * h) / 1000 + fps
}

/// One line's effect on the scan state.
pub open spec fn fmt_step(st: FmtScan, l: Seq<u8>) -> FmtScan {
    let st1 = if has_sub(l, "'MJPG'".spec_bytes()) || has_sub(l, "Motion-JPEG".spec_bytes()) {
        FmtScan { cur_format: Some(PixFormat::Mjpeg), ..st }
    } else if has_sub(l, "'YUYV'".spec_bytes()) {
        FmtScan { cur_format: Some(PixFormat::Yuyv), ..st }
    } else {
        st
    };
    let st2 = match size_line_spec(l) {
        Some((w, h)) => FmtScan { cur_w: w, cur_h: h, ..st1 },
        None => st1,
    };
    match fps_line_spec(l) {
        Some(f) => {
            let score = score_spec(st2, f as int);
            if score > st2.best_score {
                FmtScan {
                    best_format: st2.cur_format,
                    best_w: st2.cur_w,
                    best_h: st2.cur_h,
                    best_fps: Some(f),
                    best_score: score as i64,
                    ..st2
                }
            } else {
                st2
            }
        },
        None => st2,
    }
}

/// The scan state after the first `i` lines.
pub open spec fn fmt_fold(lines: Seq<Seq<u8>>, i: int) -> FmtScan
    decreases i,
{
    if i <= 0 {
        fmt_scan_init()
    } else {
        fmt_step(fmt_fold(lines, i - 1), lines[i - 1])
    }
}

fn parse_size_line(l: &Vec<u8>) -> (r: Option<(Option<i32>, Option<i32>)>)
    ensures
        r == size_line_spec(l@),
{
    let llen = l.len();
    let marker = "Size: Discrete".as_bytes_vec();
    proof {
        reveal_strlit("Size: Discrete");
        vstd::string::is_ascii_spec_bytes("Size: Discrete");
        assert(vstd::utf8::is_ascii_chars("Size: Discrete"@));
        assert("Size: Discrete".spec_bytes().len() == 14);
    }
    match find_sub_from(l, &marker, 0) {
        Some(i) => {
            proof {
                lemma_find_some_bounds(l@, marker@, 0, i as int);
                assert(l@.subrange(i + 14, l@.len() as int) =~= l@.skip(i + 14));
            }
            let rest = trim_bytes(&bytes_subrange(l, i + 14, l.len()));
            let x: Vec<u8> = {
                let mut t: Vec<u8> = Vec::new();
                t.push(120);
                t
            };
            proof {
                assert(x@ =~= seq![120u8]);
            }
            match find_sub_from(&rest, &x, 0) {
                Some(j) => {
                    proof {
                        lemma_find_some_bounds(rest@, x@, 0, j as int);
                    }
                    match find_sub_from(&rest, &x, j + 1) {
                        Some(_) => None,
                        None => {
                            proof {
                                assert(rest@.subrange(0, j as int) =~= rest@.take(j as int));
                                assert(rest@.subrange(j + 1, rest@.len() as int) =~= rest@.skip(
                                    j + 1,
                                ));
                            }
                            let left = bytes_subrange(&rest, 0, j);
                            let right = bytes_subrange(&rest, j + 1, rest.len());
                            Some((parse_int_field(&left), parse_int_field(&right)))
                        },
                    }
                },
                None => None,
            }
        },
        None => None,
    }
}

fn parse_int_field(s: &Vec<u8>) -> (r: Option<i32>)
    ensures
        r == int_field(s@),
{
    if s.len() == 0 {
        return None;
    }
    match crate::strutil::parse_digit_run(s, 0) {
        Some((v, end)) => {
            if end == s.len() {
                proof {
                    lemma_digit_run_all(s@);
                    assert(s@.subrange(0, end as int) =~= s@);
                }
                Some(v as i32)
            } else {
                proof {
                    lemma_digit_run_partial(s@);
                }
                None
            }
        },
        None => {
            proof {
                lemma_digit_run_none(s@);
            }
            None
        },
    }
}

/// A full digit run over the whole field means the field is all digits.
proof fn lemma_digit_run_all(s: Seq<u8>)
    requires
        crate::strutil::digit_run_end(s, 0) == s.len(),
        s.len() > 0,
    ensures
        all_digits(s),
{
    lemma_run_digits(s, 0);
}

proof fn lemma_run_digits(s: Seq<u8>, i: int)
    requires
        0 <= i <= s.len(),
        crate::strutil::digit_run_end(s, i) == s.len(),
    ensures
        forall|k: int| i <= k < s.len() ==> 48 <= #[trigger] s[k] <= 57,
    decreases s.len() - i,
{
    if i < s.len() {
        assert(crate::strutil::digit_run_end(s, i) != i);
        lemma_run_digits(s, i + 1);
    }
}

/// A digit run stopping early means some byte is not a digit.
proof fn lemma_digit_run_partial(s: Seq<u8>)
    requires
        0 <= crate::strutil::digit_run_end(s, 0) < s.len(),
    ensures
        !all_digits(s),
{
    let e = crate::strutil::digit_run_end(s, 0);
    lemma_run_stop(s, 0);
}

proof fn lemma_run_end_ge(s: Seq<u8>, i: int)
    requires
        0 <= i <= s.len(),
    ensures
        i <= crate::strutil::digit_run_end(s, i) <= s.len(),
    decreases s.len() - i,
{
    if i < s.len() && 48 <= s[i] <= 57 {
        lemma_run_end_ge(s, i + 1);
    }
}

proof fn lemma_run_stop(s: Seq<u8>, i: int)
    requires
        0 <= i <= s.len(),
        i <= crate::strutil::digit_run_end(s, i) < s.len(),
    ensures
        !(48 <= s[crate::strutil::digit_run_end(s, i)] <= 57),
    decreases s.len() - i,
{
    let e = crate::strutil::digit_run_end(s, i);
    if i < s.len() && 48 <= s[i] <= 57 {
        lemma_run_end_ge(s, i + 1);
        lemma_run_stop(s, i + 1);
    }
}

/// A failed digit-run parse on a nonempty field: either a non-digit stops
/// the run, or the value overflows the field's integer range.
proof fn lemma_digit_run_none(s: Seq<u8>)
    requires
        s.len() > 0,
        crate::strutil::digit_run_end(s, 0) == 0 || digits_val(
            s.subrange(0, crate::strutil::digit_run_end(s, 0)),
        ) > i32::MAX,
    ensures
        int_field(s) is None,
{
    if crate::strutil::digit_run_end(s, 0) == 0 {
        if 48 <= s[0] <= 57 {
            lemma_run_end_ge(s, 1);
        }
        assert(!(48 <= s[0] <= 57));
    } else {
        if all_digits(s) {
            lemma_digits_run_full(s, 0);
            assert(s.subrange(0, crate::strutil::digit_run_end(s, 0)) =~= s);
        }
    }
}

proof fn lemma_digits_run_full(s: Seq<u8>, i: int)
    requires
        0 <= i <= s.len(),
        all_digits(s),
    ensures
        crate::strutil::digit_run_end(s, i) == s.len(),
    decreases s.len() - i,
{
    if i < s.len() {
        lemma_digits_run_full(s, i + 1);
    }
}

fn parse_fps_line(l: &Vec<u8>) -> (r: Option<i32>)
    ensures
        r == fps_line_spec(l@),
{
    let llen = l.len();
    let interval = "Interval: Discrete".as_bytes_vec();
    let fps_m = "fps".as_bytes_vec();
    if !(bytes_contains(l, &interval) && bytes_contains(l, &fps_m)) {
        return None;
    }
    let paren: Vec<u8> = {
        let mut t: Vec<u8> = Vec::new();
        t.push(40);
        t
    };
    let dot: Vec<u8> = {
        let mut t: Vec<u8> = Vec::new();
        t.push(46);
        t
    };
    proof {
        assert(paren@ =~= seq![40u8]);
        assert(dot@ =~= seq![46u8]);
    }
    match find_sub_from(l, &paren, 0) {
        Some(i) => {
            proof {
                lemma_find_some_bounds(l@, paren@, 0, i as int);
            }
            let seg = match find_sub_from(l, &dot, i + 1) {
                Some(j) => {
                    proof {
                        lemma_find_some_bounds(l@, dot@, i + 1, j as int);
                    }
                    bytes_subrange(l, i + 1, j)
                },
                None => {
                    proof {
                        assert(l@.subrange(i + 1, l@.len() as int) =~= l@.skip(i + 1));
                    }
                    bytes_subrange(l, i + 1, l.len())
                },
            };
            parse_int_field(&trim_bytes(&seg))
        },
        None => None,
    }
}

/// Run the best-format scan over the listing and hand back
/// (format tag, width, height, frame rate) of the best candidate.
pub fn get_best_video_format(output: &Vec<u8>) -> (r: (
    Option<String>,
    Option<i32>,
    Option<i32>,
    Option<i32>,
))
    ensures
        ({
            let st = fmt_fold(split_lines(output@), split_lines(output@).len() as int);
            &&& (match (r.0, st.best_format) {
                (Some(s), Some(PixFormat::Mjpeg)) => s@ == "mjpeg"@,
                (Some(s), Some(PixFormat::Yuyv)) => s@ == "yuyv"@,
                (None, None) => true,
                _ => false,
            })
            &&& r.1 == st.best_w
            &&& r.2 == st.best_h
            &&& r.3 == st.best_fps
        }),
{
    let lines = bytes_lines(output);
    let mut st = FmtScan {
        cur_format: None,
        cur_w: None,
        cur_h: None,
        best_format: None,
        best_w: None,
        best_h: None,
        best_fps: None,
        best_score: 0,
    };
    let mut i: usize = 0;
    let mjpg = "'MJPG'".as_bytes_vec();
    let mjpeg_long = "Motion-JPEG".as_bytes_vec();
    let yuyv = "'YUYV'".as_bytes_vec();
    while i < lines.len()
        invariant
            lines.deep_view() == split_lines(output@),
            i <= lines@.len(),
            lines@.len() == lines.deep_view().len(),
            mjpg@ == "'MJPG'".spec_bytes(),
            mjpeg_long@ == "Motion-JPEG".spec_bytes(),
            yuyv@ == "'YUYV'".spec_bytes(),
            st == fmt_fold(lines.deep_view(), i as int),
            (st.cur_w matches Some(w) ==> w >= 0),
            (st.cur_h matches Some(h) ==> h >= 0),
        decreases lines@.len() - i,
    {
        let line = &lines[i];
        proof {
            assert(lines.deep_view()[i as int] =~= lines@[i as int]@);
        }
        let st_in = st;
        let st1 = if bytes_contains(line, &mjpg) || bytes_contains(line, &mjpeg_long) {
            FmtScan { cur_format: Some(PixFormat::Mjpeg), ..st_in }
        } else if bytes_contains(line, &yuyv) {
            FmtScan { cur_format: Some(PixFormat::Yuyv), ..st_in }
        } else {
            st_in
        };
        let st2 = match parse_size_line(line) {
            Some((w, h)) => FmtScan { cur_w: w, cur_h: h, ..st1 },
            None => st1,
        };
        let st3 = match parse_fps_line(line) {
            Some(f) => {
                let fmt_score: i64 = if st2.cur_format == Some(PixFormat::Mjpeg) {
                    10000
                } else {
                    0
                };
                let w: i64 = match st2.cur_w {
                    Some(w) => w as i64,
                    None => 0,
                };
                let h: i64 = match st2.cur_h {
                    Some(h) => h as i64,
                    None => 0,
                };
                proof {
                    assert(w * h <= 0x4000000000000000 && w * h >= 0) by (nonlinear_arith)
                        requires
                            0 <= w < 0x80000000,
                            0 <= h < 0x80000000,
                    ;
                }
                let score: i64 = fmt_score + (w * h) / 1000 + (f as i64);
                if score > st2.best_score {
                    FmtScan {
                        best_format: st2.cur_format,
                        best_w: st2.cur_w,
                        best_h: st2.cur_h,
                        best_fps: Some(f),
                        best_score: score,
                        ..st2
                    }
                } else {
                    st2
                }
            },
            None => st2,
        };
        st = st3;
        proof {
            assert(st == fmt_step(fmt_fold(lines.deep_view(), i as int), lines.deep_view()[i as int]));
            assert(st == fmt_fold(lines.deep_view(), i + 1));
        }
        i = i + 1;
    }
    let fmt: Option<String> = match st.best_format {
        Some(PixFormat::Mjpeg) => Some(String::from_str("mjpeg")),
        Some(PixFormat::Yuyv) => Some(String::from_str("yuyv")),
        None => None,
    };
    (fmt, st.best_w, st.best_h, st.best_fps)
}

/// Whether a `--all` dump shows a video-capture device: inside the
/// `Device Caps` block, a `Video Capture` line that is not
/// `Metadata Capture`; a non-indented, nonempty line without
/// `Video Capture` ends the block with a negative verdict.
pub open spec fn caps_scan_from(lines: Seq<Seq<u8>>, i: int, in_caps: bool) -> bool
    decreases lines.len() - i,
{
    if i < 0 || i >= lines.len() {
        false
    } else {
        let l = lines[i];
        if has_sub(l, "Device Caps".spec_bytes()) {
            caps_scan_from(lines, i + 1, true)
        } else if in_caps {
            if !(l.len() > 0 && l[0] == 9) && trim_ws(l).len() > 0 && !has_sub(
                l,
                "Video Capture".spec_bytes(),
            ) {
                false
            } else if has_sub(l, "Video Capture".spec_bytes()) && !has_sub(
                l,
                "Metadata Capture".spec_bytes(),
            ) {
                true
            } else {
                caps_scan_from(lines, i + 1, true)
            }
        } else {
            caps_scan_from(lines, i + 1, false)
        }
    }
}

/// Check a `--all` dump for video-capture capability.
pub fn check_v4l2_video_capture(output: &Vec<u8>) -> (r: bool)
    ensures
        r == caps_scan_from(split_lines(output@), 0, false),
{
    let lines = bytes_lines(output);
    let caps_m = "Device Caps".as_bytes_vec();
    let video_m = "Video Capture".as_bytes_vec();
    let meta_m = "Metadata Capture".as_bytes_vec();
    let mut i: usize = 0;
    let mut in_caps = false;
    while i < lines.len()
        invariant
            lines.deep_view() == split_lines(output@),
            i <= lines@.len(),
            lines@.len() == lines.deep_view().len(),
            caps_m@ == "Device Caps".spec_bytes(),
            video_m@ == "Video Capture".spec_bytes(),
            meta_m@ == "Metadata Capture".spec_bytes(),
            caps_scan_from(lines.deep_view(), 0, false) == caps_scan_from(
                lines.deep_view(),
                i as int,
                in_caps,
            ),
        decreases lines@.len() - i,
    {
        let line = &lines[i];
        proof {
            assert(lines.deep_view()[i as int] =~= lines@[i as int]@);
        }
        if bytes_contains(line, &caps_m) {
            in_caps = true;
        } else if in_caps {
            let tabbed = line.len() > 0 && line[0] == 9;
            let trimmed = trim_bytes(line);
            if !tabbed && trimmed.len() > 0 && !bytes_contains(line, &video_m) {
                return false;
            }
            if bytes_contains(line, &video_m) && !bytes_contains(line, &meta_m) {
                return true;
            }
        }
        i = i + 1;
    }
    false
}

/// The card name of an `--info` dump: the first `Card type` line's text
/// after its first colon, trimmed.
pub open spec fn card_name_from(lines: Seq<Seq<u8>>, i: int) -> Option<Seq<u8>>
    decreases lines.len() - i,
{
    if i < 0 || i >= lines.len() {
        None
    } else {
        let l = lines[i];
        if has_sub(l, "Card type".spec_bytes()) {
            match find_spec(l, seq![58u8], 0) {
                Some(j) => Some(trim_ws(l.skip(j + 1))),
                None => card_name_from(lines, i + 1),
            }
        } else {
            card_name_from(lines, i + 1)
        }
    }
}

/// Read the card name out of an `--info` dump.
pub fn get_v4l2_device_name(output: &Vec<u8>) -> (r: Option<String>)
    ensures
        match r {
            Some(name) => {
                &&& card_name_from(split_lines(output@), 0) is Some
                &&& (all_ascii(card_name_from(split_lines(output@), 0).unwrap()) ==> name@
                    == chars_of_bytes(card_name_from(split_lines(output@), 0).unwrap()))
            },
            None => card_name_from(split_lines(output@), 0) is None,
        },
{
    let lines = bytes_lines(output);
    let card_m = "Card type".as_bytes_vec();
    let colon: Vec<u8> = {
        let mut t: Vec<u8> = Vec::new();
        t.push(58);
        t
    };
    proof {
        assert(colon@ =~= seq![58u8]);
    }
    let mut i: usize = 0;
    while i < lines.len()
        invariant
            lines.deep_view() == split_lines(output@),
            i <= lines@.len(),
            lines@.len() == lines.deep_view().len(),
            card_m@ == "Card type".spec_bytes(),
            colon@ == seq![58u8],
            card_name_from(lines.deep_view(), 0) == card_name_from(lines.deep_view(), i as int),
        decreases lines@.len() - i,
    {
        let line = &lines[i];
        proof {
            assert(lines.deep_view()[i as int] =~= lines@[i as int]@);
        }
        if bytes_contains(line, &card_m) {
            match find_sub_from(line, &colon, 0) {
                Some(j) => {
                    proof {
                        lemma_find_some_bounds(line@, colon@, 0, j as int);
                        assert(line@.subrange(j + 1, line@.len() as int) =~= line@.skip(j + 1));
                    }
                    let name = trim_bytes(&bytes_subrange(line, j + 1, line.len()));
                    return Some(string_from_bytes_lossy(&name));
                },
                None => {},
            }
        }
        i = i + 1;
    }
    None
}

/// The quoted device name of a DirectShow listing line: the text between
/// the first and the last quote, when they differ.
pub open spec fn dshow_line_name(l: Seq<u8>) -> Option<Seq<u8>> {
    match (find_spec(l, seq![34u8], 0), rfind_spec(l, seq![34u8])) {
        (Some(a), Some(b)) => if b > a {
            Some(l.subrange(a + 1, b))
        } else {
            None
        },
        _ => None,
    }
}

/// Extract the quoted device name of one DirectShow listing line.
pub fn parse_dshow_device_line(line: &str) -> (r: Option<String>)
    ensures
        match r {
            Some(name) => {
                &&& dshow_line_name(line.spec_bytes()) is Some
                &&& (all_ascii(dshow_line_name(line.spec_bytes()).unwrap()) ==> name@
                    == chars_of_bytes(dshow_line_name(line.spec_bytes()).unwrap()))
            },
            None => dshow_line_name(line.spec_bytes()) is None,
        },
{
    let l = line.as_bytes_vec();
    let quote: Vec<u8> = {
        let mut t: Vec<u8> = Vec::new();
        t.push(34);
        t
    };
    proof {
        assert(quote@ =~= seq![34u8]);
    }
    match (find_sub_from(&l, &quote, 0), rfind_sub(&l, &quote)) {
        (Some(a), Some(b)) => {
            if b > a {
                proof {
                    lemma_find_some_bounds(l@, quote@, 0, a as int);
                }
                let name = bytes_subrange(&l, a + 1, b);
                Some(string_from_bytes_lossy(&name))
            } else {
                None
            }
        },
        _ => None,
    }
}

/// The device name of an AVFoundation listing line: the text after the
/// second `]`, up to the third `]` or the line's end, trimmed. Lines with
/// fewer than two `]` carry no device.
pub open spec fn avf_line_name(l: Seq<u8>) -> Option<Seq<u8>> {
    match find_spec(l, seq![93u8], 0) {
        Some(a) => match find_spec(l, seq![93u8], a + 1) {
            Some(b) => {
                let end = match find_spec(l, seq![93u8], b + 1) {
                    Some(c) => c,
                    None => l.len() as int,
                };
                Some(trim_ws(l.subrange(b + 1, end)))
            },
            None => None,
        },
        None => None,
    }
}

/// Extract the device name of one AVFoundation listing line.
pub fn parse_avfoundation_device_line(line: &str) -> (r: Option<String>)
    ensures
        match r {
            Some(name) => {
                &&& avf_line_name(line.spec_bytes()) is Some
                &&& (all_ascii(avf_line_name(line.spec_bytes()).unwrap()) ==> name@
                    == chars_of_bytes(avf_line_name(line.spec_bytes()).unwrap()))
            },
            None => avf_line_name(line.spec_bytes()) is None,
        },
{
    let l = line.as_bytes_vec();
    let br: Vec<u8> = {
        let mut t: Vec<u8> = Vec::new();
        t.push(93);
        t
    };
    proof {
        assert(br@ =~= seq![93u8]);
    }
    match find_sub_from(&l, &br, 0) {
        Some(a) => {
            proof {
                lemma_find_some_bounds(l@, br@, 0, a as int);
            }
            match find_sub_from(&l, &br, a + 1) {
                Some(b) => {
                    proof {
                        lemma_find_some_bounds(l@, br@, a + 1, b as int);
                    }
                    let end = match find_sub_from(&l, &br, b + 1) {
                        Some(c) => {
                            proof {
                                lemma_find_some_bounds(l@, br@, b + 1, c as int);
                            }
                            c
                        },
                        None => l.len(),
                    };
                    let name = trim_bytes(&bytes_subrange(&l, b + 1, end));
                    Some(string_from_bytes_lossy(&name))
                },
                None => None,
            }
        },
        None => None,
    }
}

/// Build the camera record of one detected v4l2 device: its node path,
/// its card name (or the fallback built from the node number), and the
/// best capture format.
pub fn v4l2_camera_info(
    device_path: String,
    num: &str,
    name: Option<String>,
    video_format: Option<String>,
    video_width: Option<i32>,
    video_height: Option<i32>,
    video_fps: Option<i32>,
) -> (r: CameraInfo)
    ensures
        r.host@ == "localhost"@,
        r.port == 0,
        r.camera_type@ == "uvc"@,
        r.user is None && r.pass is None,
        r.device_path matches Some(p) && p@ == device_path@,
        r.device_id is None && r.device_index is None,
        match name {
            Some(n) => r.name@ == n@,
            None => r.name@ == "USB Camera ("@ + num@ + ")"@,
        },
        r.video_format.deep_view() == video_format.deep_view(),
        r.video_width == video_width,
        r.video_height == video_height,
        r.video_fps == video_fps,
{
    let display = match name {
        Some(n) => n,
        None => {
            let mut s = String::from_str("USB Camera (");
            s.append(num);
            s.append(")");
            s
        },
    };
    CameraInfo {
        name: display,
        host: String::from_str("localhost"),
        port: 0,
        camera_type: String::from_str("uvc"),
        user: None,
        pass: None,
        device_path: Some(device_path),
        device_id: None,
        device_index: None,
        video_format,
        video_width,
        video_height,
        video_fps,
    }
}

/// Build the camera record of one DirectShow device: the quoted name is
/// both the display name and the device locator.
pub fn dshow_camera_info(name: String) -> (r: CameraInfo)
    ensures
        r.name@ == name@,
        r.host@ == "localhost"@,
        r.port == 0,
        r.camera_type@ == "uvc"@,
        r.device_id matches Some(d) && d@ == name@,
        r.device_path is None && r.device_index is None,
{
    let id = name.clone();
    CameraInfo {
        name,
        host: String::from_str("localhost"),
        port: 0,
        camera_type: String::from_str("uvc"),
        user: None,
        pass: None,
        device_path: None,
        device_id: Some(id),
        device_index: None,
        video_format: None,
        video_width: None,
        video_height: None,
        video_fps: None,
    }
}

/// Build the camera record of one AVFoundation device at its listing
/// position.
pub fn avfoundation_camera_info(name: String, index: u32) -> (r: CameraInfo)
    ensures
        r.name@ == name@,
        r.camera_type@ == "uvc"@,
        r.device_index == Some(index),
        r.device_path is None && r.device_id is None,
{
    CameraInfo {
        name,
        host: String::from_str("localhost"),
        port: 0,
        camera_type: String::from_str("uvc"),
        user: None,
        pass: None,
        device_path: None,
        device_id: None,
        device_index: Some(index),
        video_format: None,
        video_width: None,
        video_height: None,
        video_fps: None,
    }
}

} // verus!
