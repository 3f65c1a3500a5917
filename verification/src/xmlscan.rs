//! Namespace-tolerant scanners over SOAP/XML response text. Elements are
//! matched by local-name suffix (a marker such as `Uri>` preceded by `<` or
//! `:`), exactly the tolerance the protocol needs across camera vendors.

use vstd::prelude::*;
use crate::models::{DiscoveredDevice, OnvifDateTime};
use crate::percent::{percent_decoded, percent_decode_bytes};
use crate::strutil::{
    find_spec, find_sub_from, lemma_find_some_bounds, rfind_spec, rfind_sub, digit_run_end,
    digits_val, parse_digit_run, trim_ws, trim_bytes, first_token, bytes_first_token, split_ws,
    bytes_split_ws, has_sub, bytes_contains, bytes_subrange, string_from_bytes_lossy, all_ascii,
    chars_of_bytes,
};

verus! {

use vstd::string::StringSliceAdditionalSpecFns;
use vstd::string::StrSliceExecFns;

/// First occurrence of `marker` that opens an element: the byte before it
/// is `<` or `:` (so `Uri>` matches `<Uri>` and `<tt:Uri>` alike).
pub open spec fn find_tag_spec(x: Seq<u8>, marker: Seq<u8>, from: int) -> Option<int>
    decreases x.len() + 1 - from,
    via find_tag_decreases
{
    match find_spec(x, marker, from) {
        Some(i) => if i > 0 && (x[i - 1] == 60 || x[i - 1] == 58) {
            Some(i)
        } else {
            find_tag_spec(x, marker, i + 1)
        },
        None => None,
    }
}

#[via_fn]
proof fn find_tag_decreases(x: Seq<u8>, marker: Seq<u8>, from: int) {
    match find_spec(x, marker, from) {
        Some(i) => {
            lemma_find_some_bounds(x, marker, from, i);
        },
        None => {},
    }
}

/// Find the first element-opening occurrence of `marker`.
pub fn find_tag(x: &Vec<u8>, marker: &Vec<u8>, from: usize) -> (r: Option<usize>)
    requires
        marker@.len() > 0,
    ensures
        match r {
            Some(i) => find_tag_spec(x@, marker@, from as int) == Some(i as int) && i
                + marker@.len() <= x@.len(),
            None => find_tag_spec(x@, marker@, from as int) is None,
        },
{
    let xlen = x.len();
    let mut pos = from;
    loop
        invariant
            from <= pos,
            xlen == x@.len(),
            marker@.len() > 0,
            find_tag_spec(x@, marker@, from as int) == find_tag_spec(x@, marker@, pos as int),
        decreases x@.len() + 1 - pos,
    {
        match find_sub_from(x, marker, pos) {
            Some(i) => {
                proof {
                    lemma_find_some_bounds(x@, marker@, pos as int, i as int);
                }
                if i > 0 && (x[i - 1] == 60 || x[i - 1] == 58) {
                    return Some(i);
                }
                pos = i + 1;
            },
            None => {
                return None;
            },
        }
    }
}

/// The text of the first element whose tag ends with `marker`: the bytes
/// between the marker's `>` and the next `<`.
pub open spec fn elem_text_spec(x: Seq<u8>, marker: Seq<u8>) -> Option<Seq<u8>> {
    match find_tag_spec(x, marker, 0) {
        Some(i) => {
            let start = i + marker.len();
            match find_spec(x, seq![60u8], start) {
                Some(j) => Some(x.subrange(start, j)),
                None => None,
            }
        },
        None => None,
    }
}

/// Extract the text of the first element whose tag ends with `marker`.
pub fn elem_text(x: &Vec<u8>, marker: &Vec<u8>) -> (r: Option<Vec<u8>>)
    requires
        marker@.len() > 0,
    ensures
        match r {
            Some(t) => elem_text_spec(x@, marker@) == Some(t@),
            None => elem_text_spec(x@, marker@) is None,
        },
{
    let lt: Vec<u8> = {
        let mut t: Vec<u8> = Vec::new();
        t.push(60);
        t
    };
    proof {
        assert(lt@ =~= seq![60u8]);
    }
    let xlen = x.len();
    match find_tag(x, marker, 0) {
        Some(i) => {
            let start = i + marker.len();
            match find_sub_from(x, &lt, start) {
                Some(j) => {
                    proof {
                        lemma_find_some_bounds(x@, lt@, start as int, j as int);
                    }
                    Some(bytes_subrange(x, start, j))
                },
                None => None,
            }
        },
        None => None,
    }
}

/// The integer text of the first element whose tag ends with `marker`:
/// a nonempty digit run immediately followed by the closing `<`, with a
/// value no greater than `i32::MAX`.
pub open spec fn elem_int_spec(x: Seq<u8>, marker: Seq<u8>) -> Option<int> {
    match find_tag_spec(x, marker, 0) {
        Some(i) => {
            let start = i + marker.len();
            let end = digit_run_end(x, start);
            if end > start && end < x.len() && x[end] == 60 && digits_val(x.subrange(start, end))
                <= i32::MAX {
                Some(digits_val(x.subrange(start, end)) as int)
            } else {
                None
            }
        },
        None => None,
    }
}

/// Parse the integer text of the first element whose tag ends with `marker`.
pub fn elem_int(x: &Vec<u8>, marker: &Vec<u8>) -> (r: Option<i32>)
    requires
        marker@.len() > 0,
    ensures
        match r {
            Some(v) => elem_int_spec(x@, marker@) == Some(v as int),
            None => elem_int_spec(x@, marker@) is None,
        },
{
    let xlen = x.len();
    match find_tag(x, marker, 0) {
        Some(i) => {
            let start = i + marker.len();
            match parse_digit_run(x, start) {
                Some((v, end)) => {
                    if end < x.len() && x[end] == 60 {
                        Some(v as i32)
                    } else {
                        None
                    }
                },
                None => None,
            }
        },
        None => None,
    }
}

/// The six UTC clock fields of a `GetSystemDateAndTime` reply.
pub open spec fn system_date_time_spec(x: Seq<u8>) -> Option<OnvifDateTime> {
    let year = elem_int_spec(x, "Year>".spec_bytes());
    let month = elem_int_spec(x, "Month>".spec_bytes());
    let day = elem_int_spec(x, "Day>".spec_bytes());
    let hour = elem_int_spec(x, "Hour>".spec_bytes());
    let minute = elem_int_spec(x, "Minute>".spec_bytes());
    let second = elem_int_spec(x, "Second>".spec_bytes());
    if year is Some && month is Some && day is Some && hour is Some && minute is Some && second
        is Some {
        Some(
            OnvifDateTime {
                year: year.unwrap() as i32,
                month: month.unwrap() as i32,
                day: day.unwrap() as i32,
                hour: hour.unwrap() as i32,
                minute: minute.unwrap() as i32,
                second: second.unwrap() as i32,
            },
        )
    } else {
        None
    }
}

/// Parse the UTC clock reading out of a `GetSystemDateAndTime` reply.
/// Fails with a protocol error exactly when one of the six fields is
/// missing or malformed.
pub fn parse_system_date_time(x: &Vec<u8>) -> (r: Option<OnvifDateTime>)
    ensures
        r == system_date_time_spec(x@),
{
    proof {
        reveal_strlit("Year>");
        reveal_strlit("Month>");
        reveal_strlit("Day>");
        reveal_strlit("Hour>");
        reveal_strlit("Minute>");
        reveal_strlit("Second>");
        lemma_marker_nonempty("Year>");
        lemma_marker_nonempty("Month>");
        lemma_marker_nonempty("Day>");
        lemma_marker_nonempty("Hour>");
        lemma_marker_nonempty("Minute>");
        lemma_marker_nonempty("Second>");
    }
    let year = elem_int(x, &marker_bytes("Year>"));
    let month = elem_int(x, &marker_bytes("Month>"));
    let day = elem_int(x, &marker_bytes("Day>"));
    let hour = elem_int(x, &marker_bytes("Hour>"));
    let minute = elem_int(x, &marker_bytes("Minute>"));
    let second = elem_int(x, &marker_bytes("Second>"));
    match (year, month, day, hour, minute, second) {
        (Some(y), Some(mo), Some(d), Some(h), Some(mi), Some(s)) => Some(
            OnvifDateTime { year: y, month: mo, day: d, hour: h, minute: mi, second: s },
        ),
        _ => None,
    }
}

/// The bytes of a marker literal.
fn marker_bytes(s: &str) -> (r: Vec<u8>)
    ensures
        r@ == s.spec_bytes(),
{
    s.as_bytes_vec()
}

/// A nonempty literal has a nonempty byte encoding.
proof fn lemma_marker_nonempty(s: &str)
    requires
        s@.len() > 0,
    ensures
        s.spec_bytes().len() > 0,
{
    assert(s.spec_bytes() == vstd::utf8::encode_utf8(s@));
    assert(vstd::utf8::encode_utf8(s@) == vstd::utf8::encode_scalar(s@[0] as u32)
        + vstd::utf8::encode_utf8(s@.drop_first()));
    assert(vstd::utf8::encode_scalar(s@[0] as u32).len() > 0);
}

/// The first profile token of a `GetProfiles` reply: inside the first tag
/// whose name ends with `:Profiles`, the nonempty text of its
/// ` token="..."` attribute, which must come before the tag's closing `>`.
pub open spec fn profile_token_spec(x: Seq<u8>) -> Option<Seq<u8>> {
    match find_spec(x, ":Profiles".spec_bytes(), 0) {
        Some(i) => {
            let gt = find_spec(x, seq![62u8], i);
            let t = find_spec(x, " token=\"".spec_bytes(), i);
            if t is Some && gt is Some && t.unwrap() < gt.unwrap() {
                let vstart = t.unwrap() + 8;
                match find_spec(x, seq![34u8], vstart) {
                    Some(end) => if end > vstart {
                        Some(x.subrange(vstart, end))
                    } else {
                        None
                    },
                    None => None,
                }
            } else {
                None
            }
        },
        None => None,
    }
}

/// Extract the first profile token of a `GetProfiles` reply.
pub fn parse_first_profile_token(x: &Vec<u8>) -> (r: Option<Vec<u8>>)
    ensures
        match r {
            Some(t) => profile_token_spec(x@) == Some(t@) && t@.len() > 0,
            None => profile_token_spec(x@) is None,
        },
{
    let profiles = marker_bytes(":Profiles");
    let token_attr = marker_bytes(" token=\"");
    let gt_v: Vec<u8> = {
        let mut t: Vec<u8> = Vec::new();
        t.push(62);
        t
    };
    let quote: Vec<u8> = {
        let mut t: Vec<u8> = Vec::new();
        t.push(34);
        t
    };
    proof {
        assert(gt_v@ =~= seq![62u8]);
        assert(quote@ =~= seq![34u8]);
        reveal_strlit(" token=\"");
        assert(" token=\""@.len() == 8);
        vstd::string::is_ascii_spec_bytes(" token=\"");
        assert(vstd::utf8::is_ascii_chars(" token=\""@));
        assert(" token=\"".spec_bytes().len() == 8);
    }
    let xlen = x.len();
    match find_sub_from(x, &profiles, 0) {
        Some(i) => {
            let gt = find_sub_from(x, &gt_v, i);
            let t = find_sub_from(x, &token_attr, i);
            match (t, gt) {
                (Some(tv), Some(gv)) => {
                    if tv < gv {
                        let vstart = tv + 8;
                        match find_sub_from(x, &quote, vstart) {
                            Some(end) => {
                                if end > vstart {
                                    proof {
                                        lemma_find_some_bounds(x@, quote@, vstart as int, end as int);
                                    }
                                    Some(bytes_subrange(x, vstart, end))
                                } else {
                                    None
                                }
                            },
                            None => None,
                        }
                    } else {
                        None
                    }
                },
                _ => None,
            }
        },
        None => None,
    }
}

/// The first stream URI of a `GetStreamUri` reply: the text of the first
/// element whose tag ends with `Uri`, trimmed.
pub open spec fn stream_uri_spec(x: Seq<u8>) -> Option<Seq<u8>> {
    match elem_text_spec(x, "Uri>".spec_bytes()) {
        Some(t) => Some(trim_ws(t)),
        None => None,
    }
}

/// Extract the stream URI of a `GetStreamUri` reply.
pub fn parse_stream_uri(x: &Vec<u8>) -> (r: Option<Vec<u8>>)
    ensures
        match r {
            Some(t) => stream_uri_spec(x@) == Some(t@),
            None => stream_uri_spec(x@) is None,
        },
{
    proof {
        reveal_strlit("Uri>");
        lemma_marker_nonempty("Uri>");
    }
    match elem_text(x, &marker_bytes("Uri>")) {
        Some(t) => Some(trim_bytes(&t)),
        None => None,
    }
}

/// The PTZ service URL of a `GetCapabilities` reply: after the first
/// `:PTZ>` tag, the text of the next `:XAddr>` element up to its closing
/// tag, trimmed.
pub open spec fn ptz_xaddr_spec(x: Seq<u8>) -> Option<Seq<u8>> {
    match find_spec(x, ":PTZ>".spec_bytes(), 0) {
        Some(i) => match find_spec(x, ":XAddr>".spec_bytes(), i) {
            Some(j) => {
                let start = j + 7;
                match find_spec(x, "</".spec_bytes(), start) {
                    Some(k) => Some(trim_ws(x.subrange(start, k))),
                    None => None,
                }
            },
            None => None,
        },
        None => None,
    }
}

/// Extract the PTZ service URL of a `GetCapabilities` reply.
pub fn parse_ptz_xaddr(x: &Vec<u8>) -> (r: Option<Vec<u8>>)
    ensures
        match r {
            Some(t) => ptz_xaddr_spec(x@) == Some(t@),
            None => ptz_xaddr_spec(x@) is None,
        },
{
    let ptz = marker_bytes(":PTZ>");
    let xaddr = marker_bytes(":XAddr>");
    let close = marker_bytes("</");
    proof {
        reveal_strlit(":XAddr>");
        vstd::string::is_ascii_spec_bytes(":XAddr>");
        assert(vstd::utf8::is_ascii_chars(":XAddr>"@));
        assert(":XAddr>".spec_bytes().len() == 7);
    }
    let xlen = x.len();
    match find_sub_from(x, &ptz, 0) {
        Some(i) => {
            match find_sub_from(x, &xaddr, i) {
                Some(j) => {
                    let start = j + 7;
                    match find_sub_from(x, &close, start) {
                        Some(k) => {
                            proof {
                                lemma_find_some_bounds(x@, close@, start as int, k as int);
                            }
                            Some(trim_bytes(&bytes_subrange(x, start, k)))
                        },
                        None => None,
                    }
                },
                None => None,
            }
        },
        None => None,
    }
}

/// The explicit port of a URL's authority: the digits between the last `:`
/// of the authority and its end, when they parse and fit a port; 80
/// otherwise.
pub open spec fn url_port_spec(u: Seq<u8>) -> int {
    match find_spec(u, "://".spec_bytes(), 0) {
        Some(i) => {
            let auth_start = i + 3;
            let auth_end = match find_spec(u, seq![47u8], auth_start) {
                Some(p) => p,
                None => u.len() as int,
            };
            match find_spec(u, seq![58u8], auth_start) {
                Some(c) => if c < auth_end && digit_run_end(u, c + 1) == auth_end && auth_end > c
                    + 1 && digits_val(u.subrange(c + 1, auth_end)) <= 65535 {
                    digits_val(u.subrange(c + 1, auth_end)) as int
                } else {
                    80
                },
                None => 80,
            }
        },
        None => 80,
    }
}

/// Read the explicit port out of a URL, defaulting to 80.
pub fn parse_url_port(u: &Vec<u8>) -> (r: i32)
    ensures
        r as int == url_port_spec(u@),
        0 <= r <= 65535,
{
    let scheme = marker_bytes("://");
    let slash: Vec<u8> = {
        let mut t: Vec<u8> = Vec::new();
        t.push(47);
        t
    };
    let colon: Vec<u8> = {
        let mut t: Vec<u8> = Vec::new();
        t.push(58);
        t
    };
    proof {
        assert(slash@ =~= seq![47u8]);
        assert(colon@ =~= seq![58u8]);
        reveal_strlit("://");
        vstd::string::is_ascii_spec_bytes("://");
        assert(vstd::utf8::is_ascii_chars("://"@));
        assert("://".spec_bytes().len() == 3);
    }
    let ulen = u.len();
    match find_sub_from(u, &scheme, 0) {
        Some(i) => {
            let auth_start = i + 3;
            let auth_end = match find_sub_from(u, &slash, auth_start) {
                Some(p) => p,
                None => u.len(),
            };
            proof {
                if find_spec(u@, slash@, auth_start as int) is Some {
                    lemma_find_some_bounds(
                        u@,
                        slash@,
                        auth_start as int,
                        auth_end as int,
                    );
                }
            }
            match find_sub_from(u, &colon, auth_start) {
                Some(c) => {
                    if c < auth_end {
                        match parse_digit_run(u, c + 1) {
                            Some((v, end)) => {
                                if end == auth_end && v <= 65535 {
                                    v as i32
                                } else {
                                    80
                                }
                            },
                            None => {
                                proof {
                                    lemma_port_run_too_large(u@, c as int, auth_end as int);
                                }
                                80
                            },
                        }
                    } else {
                        80
                    }
                },
                None => 80,
            }
        },
        None => 80,
    }
}

proof fn lemma_port_run_too_large(u: Seq<u8>, c: int, auth_end: int)
    requires
        c + 1 == digit_run_end(u, c + 1) || digits_val(
            u.subrange(c + 1, digit_run_end(u, c + 1)),
        ) > i32::MAX,
    ensures
        !(c < auth_end && digit_run_end(u, c + 1) == auth_end && auth_end > c + 1 && digits_val(
            u.subrange(c + 1, auth_end),
        ) <= 65535),
{
}

/// What the scope walk of a discovery reply yields: the last `/name/`
/// suffix and the last `/hardware/` suffix among the percent-decoded
/// scope tokens.
pub open spec fn scan_scopes_spec(tokens: Seq<Seq<u8>>) -> (Option<Seq<u8>>, Option<Seq<u8>>)
    decreases tokens.len(),
{
    if tokens.len() == 0 {
        (None, None)
    } else {
        let prev = scan_scopes_spec(tokens.drop_last());
        let d = percent_decoded(tokens.last());
        let name = match rfind_spec(d, "/name/".spec_bytes()) {
            Some(i) => Some(d.skip(i + 6)),
            None => prev.0,
        };
        let hardware = match rfind_spec(d, "/hardware/".spec_bytes()) {
            Some(i) => Some(d.skip(i + 10)),
            None => prev.1,
        };
        (name, hardware)
    }
}

/// Walk the scope tokens, keeping the last display-name and hardware
/// fragments (percent-decoded).
pub fn scan_scopes(tokens: &Vec<Vec<u8>>) -> (r: (Option<Vec<u8>>, Option<Vec<u8>>))
    ensures
        ({
            let s = scan_scopes_spec(tokens.deep_view());
            &&& r.0.deep_view() == s.0
            &&& r.1.deep_view() == s.1
        }),
{
    let name_marker = marker_bytes("/name/");
    let hw_marker = marker_bytes("/hardware/");
    proof {
        reveal_strlit("/name/");
        reveal_strlit("/hardware/");
        vstd::string::is_ascii_spec_bytes("/name/");
        vstd::string::is_ascii_spec_bytes("/hardware/");
        assert(vstd::utf8::is_ascii_chars("/name/"@));
        assert(vstd::utf8::is_ascii_chars("/hardware/"@));
        assert("/name/".spec_bytes().len() == 6);
        assert("/hardware/".spec_bytes().len() == 10);
    }
    let mut name: Option<Vec<u8>> = None;
    let mut hardware: Option<Vec<u8>> = None;
    let mut i: usize = 0;
    proof {
        assert(tokens.deep_view().take(0) =~= Seq::<Seq<u8>>::empty());
    }
    while i < tokens.len()
        invariant
            i <= tokens@.len(),
            tokens.deep_view().len() == tokens@.len(),
            name_marker@ == "/name/".spec_bytes(),
            hw_marker@ == "/hardware/".spec_bytes(),
            "/name/".spec_bytes().len() == 6,
            "/hardware/".spec_bytes().len() == 10,
            ({
                let s = scan_scopes_spec(tokens.deep_view().take(i as int));
                name.deep_view() == s.0 && hardware.deep_view() == s.1
            }),
        decreases tokens@.len() - i,
    {
        proof {
            assert(tokens.deep_view().take(i + 1).drop_last() =~= tokens.deep_view().take(i as int));
            assert(tokens.deep_view().take(i + 1).last() =~= tokens@[i as int]@);
        }
        let decoded = percent_decode_bytes(&tokens[i]);
        let dlen = decoded.len();
        match rfind_sub(&decoded, &name_marker) {
            Some(p) => {
                name = Some(bytes_subrange(&decoded, p + 6, decoded.len()));
                proof {
                    assert(decoded@.subrange(p + 6, decoded@.len() as int) =~= decoded@.skip(p + 6));
                }
            },
            None => {},
        }
        match rfind_sub(&decoded, &hw_marker) {
            Some(p) => {
                hardware = Some(bytes_subrange(&decoded, p + 10, decoded.len()));
                proof {
                    assert(decoded@.subrange(p + 10, decoded@.len() as int) =~= decoded@.skip(
                        p + 10,
                    ));
                }
            },
            None => {},
        }
        i = i + 1;
    }
    proof {
        assert(tokens.deep_view().take(tokens@.len() as int) =~= tokens.deep_view());
    }
    (name, hardware)
}

} // verus!
