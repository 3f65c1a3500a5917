//! Transcoder command lines: the exact argv the supervisor hands to the
//! external transcoder for live streaming, recording, the finalizer's
//! remux, and thumbnail generation. Paths arrive as plain strings; the
//! caller only spawns what is composed here.

use vstd::prelude::*;
use crate::models::Camera;
use crate::plugin::Platform;
use crate::registry::CameraModel;
use crate::strutil::{dec_str_signed, i64_to_string, str_eq};

verus! {

use vstd::string::StringExecFns;

/// The `WxH` size argument of a UVC input.
pub open spec fn size_arg_spec(w: int, h: int) -> Seq<char> {
    dec_str_signed(w) + "x"@ + dec_str_signed(h)
}

/// The detected capture parameters of a local camera, as input arguments.
pub open spec fn uvc_capture_args_spec(cam: CameraModel) -> Seq<Seq<char>> {
    let fmt: Seq<Seq<char>> = match cam.video_format {
        Some(f) => seq!["-input_format"@, f],
        None => Seq::empty(),
    };
    let size: Seq<Seq<char>> = if cam.video_width is Some && cam.video_height is Some {
        seq![
            "-video_size"@,
            size_arg_spec(cam.video_width.unwrap() as int, cam.video_height.unwrap() as int),
        ]
    } else {
        Seq::empty()
    };
    let rate: Seq<Seq<char>> = match cam.video_fps {
        Some(f) => seq!["-framerate"@, dec_str_signed(f as int)],
        None => Seq::empty(),
    };
    fmt + size + rate
}

/// The input block of a streaming command: per-platform device input with
/// low-latency flags for a local camera (capture parameters only where the
/// capture backend takes them), TCP RTSP transport for a network camera.
pub open spec fn stream_input_args_spec(
    cam: CameraModel,
    url: Seq<char>,
    platform: Platform,
) -> Seq<Seq<char>> {
    if cam.camera_type == "uvc"@ {
        match platform {
            Platform::Linux => seq![
                "-err_detect"@,
                "ignore_err"@,
                "-fflags"@,
                "nobuffer+genpts"@,
                "-flags"@,
                "low_delay"@,
                "-avoid_negative_ts"@,
                "make_zero"@,
            ] + uvc_capture_args_spec(cam) + seq!["-f"@, "v4l2"@, "-i"@, url],
            Platform::Windows => seq![
                "-fflags"@,
                "nobuffer"@,
                "-flags"@,
                "low_delay"@,
                "-f"@,
                "dshow"@,
                "-i"@,
                "video="@ + url,
            ],
            Platform::MacOs => seq![
                "-fflags"@,
                "nobuffer"@,
                "-flags"@,
                "low_delay"@,
                "-f"@,
                "avfoundation"@,
                "-i"@,
                url,
            ],
        }
    } else {
        seq!["-fflags"@, "nobuffer"@, "-rtsp_transport"@, "tcp"@, "-i"@, url]
    }
}

/// The input block of a recording command: like streaming, without the
/// low-latency flags.
pub open spec fn record_input_args_spec(
    cam: CameraModel,
    url: Seq<char>,
    platform: Platform,
) -> Seq<Seq<char>> {
    if cam.camera_type == "uvc"@ {
        match platform {
            Platform::Linux => seq![
                "-err_detect"@,
                "ignore_err"@,
                "-fflags"@,
                "+genpts"@,
                "-avoid_negative_ts"@,
                "make_zero"@,
            ] + uvc_capture_args_spec(cam) + seq!["-f"@, "v4l2"@, "-i"@, url],
            Platform::Windows => seq!["-f"@, "dshow"@, "-i"@, "video="@ + url],
            Platform::MacOs => seq!["-f"@, "avfoundation"@, "-i"@, url],
        }
    } else {
        seq!["-rtsp_transport"@, "tcp"@, "-i"@, url]
    }
}

/// The HLS output block: two-second segments, a fifteen-entry sliding
/// window, segment deletion past a threshold of three, program timestamps.
pub open spec fn hls_output_args_spec(segment_path: Seq<char>, playlist_path: Seq<char>) -> Seq<
    Seq<char>,
> {
    seq![
        "-an"@,
        "-f"@,
        "hls"@,
        "-hls_time"@,
        "2"@,
        "-hls_list_size"@,
        "15"@,
        "-hls_delete_threshold"@,
        "3"@,
        "-hls_flags"@,
        "delete_segments+omit_endlist+program_date_time"@,
        "-hls_segment_type"@,
        "mpegts"@,
        "-hls_segment_filename"@,
        segment_path,
        playlist_path,
    ]
}

/// The whole streaming argv: overwrite flag, input block, encoder
/// fragment, HLS output.
pub open spec fn stream_argv_spec(
    cam: CameraModel,
    url: Seq<char>,
    platform: Platform,
    enc: Seq<Seq<char>>,
    segment_path: Seq<char>,
    playlist_path: Seq<char>,
) -> Seq<Seq<char>> {
    seq!["-y"@] + stream_input_args_spec(cam, url, platform) + enc + hls_output_args_spec(
        segment_path,
        playlist_path,
    )
}

/// The whole recording argv: overwrite flag, input block, optional frame
/// rate override, encoder fragment, audio kept, transport stream output.
pub open spec fn record_argv_spec(
    cam: CameraModel,
    url: Seq<char>,
    platform: Platform,
    fps_override: Option<i32>,
    enc: Seq<Seq<char>>,
    temp_path: Seq<char>,
) -> Seq<Seq<char>> {
    let rate: Seq<Seq<char>> = match fps_override {
        Some(f) => seq!["-r"@, dec_str_signed(f as int)],
        None => Seq::empty(),
    };
    seq!["-y"@] + record_input_args_spec(cam, url, platform) + rate + enc + seq![
        "-c:a"@,
        "aac"@,
        "-f"@,
        "mpegts"@,
        temp_path,
    ]
}

/// The finalizer's remux argv: stream copy into a fragmented MP4 with the
/// index moved to the front.
pub open spec fn remux_argv_spec(temp_path: Seq<char>, final_path: Seq<char>) -> Seq<Seq<char>> {
    seq!["-y"@, "-i"@, temp_path, "-c"@, "copy"@, "-movflags"@, "+faststart"@, final_path]
}

/// The thumbnail argv: one frame at two seconds, 320 pixels wide, high
/// quality.
pub open spec fn thumbnail_argv_spec(video_path: Seq<char>, thumb_path: Seq<char>) -> Seq<
    Seq<char>,
> {
    seq![
        "-y"@,
        "-ss"@,
        "00:00:02"@,
        "-i"@,
        video_path,
        "-vframes"@,
        "1"@,
        "-vf"@,
        "scale=320:-1"@,
        "-q:v"@,
        "2"@,
        thumb_path,
    ]
}

fn push_input_args(
    args: &mut Vec<String>,
    camera: &Camera,
    url: &str,
    platform: Platform,
    streaming: bool,
)
    ensures
        streaming ==> final(args).deep_view() == old(args).deep_view() + stream_input_args_spec(
            camera@,
            url@,
            platform,
        ),
        !streaming ==> final(args).deep_view() == old(args).deep_view() + record_input_args_spec(
            camera@,
            url@,
            platform,
        ),
{
    let ghost base = args.deep_view();
    if str_eq(camera.camera_type.as_str(), "uvc") {
        match platform {
            Platform::Linux => {
                args.push(String::from_str("-err_detect"));
                args.push(String::from_str("ignore_err"));
                args.push(String::from_str("-fflags"));
                if streaming {
                    args.push(String::from_str("nobuffer+genpts"));
                    args.push(String::from_str("-flags"));
                    args.push(String::from_str("low_delay"));
                } else {
                    args.push(String::from_str("+genpts"));
                }
                args.push(String::from_str("-avoid_negative_ts"));
                args.push(String::from_str("make_zero"));
                match &camera.video_format {
                    Some(f) => {
                        args.push(String::from_str("-input_format"));
                        args.push(f.clone());
                    },
                    None => {},
                }
                match (camera.video_width, camera.video_height) {
                    (Some(w), Some(h)) => {
                        args.push(String::from_str("-video_size"));
                        let mut size = i64_to_string(w as i64);
                        size.append("x");
                        size.append(i64_to_string(h as i64).as_str());
                        proof {
                            assert(size@ =~= size_arg_spec(w as int, h as int));
                        }
                        args.push(size);
                    },
                    _ => {},
                }
                match camera.video_fps {
                    Some(f) => {
                        args.push(String::from_str("-framerate"));
                        args.push(i64_to_string(f as i64));
                    },
                    None => {},
                }
                args.push(String::from_str("-f"));
                args.push(String::from_str("v4l2"));
                args.push(String::from_str("-i"));
                args.push(String::from_str(url));
            },
            Platform::Windows => {
                if streaming {
                    args.push(String::from_str("-fflags"));
                    args.push(String::from_str("nobuffer"));
                    args.push(String::from_str("-flags"));
                    args.push(String::from_str("low_delay"));
                }
                args.push(String::from_str("-f"));
                args.push(String::from_str("dshow"));
                args.push(String::from_str("-i"));
                let mut input = String::from_str("video=");
                input.append(url);
                args.push(input);
            },
            Platform::MacOs => {
                if streaming {
                    args.push(String::from_str("-fflags"));
                    args.push(String::from_str("nobuffer"));
                    args.push(String::from_str("-flags"));
                    args.push(String::from_str("low_delay"));
                }
                args.push(String::from_str("-f"));
                args.push(String::from_str("avfoundation"));
                args.push(String::from_str("-i"));
                args.push(String::from_str(url));
            },
        }
        proof {
            if streaming {
                assert(args.deep_view() =~~= base + stream_input_args_spec(
                    camera@,
                    url@,
                    platform,
                ));
            } else {
                assert(args.deep_view() =~~= base + record_input_args_spec(
                    camera@,
                    url@,
                    platform,
                ));
            }
        }
    } else {
        if streaming {
            args.push(String::from_str("-fflags"));
            args.push(String::from_str("nobuffer"));
        }
        args.push(String::from_str("-rtsp_transport"));
        args.push(String::from_str("tcp"));
        args.push(String::from_str("-i"));
        args.push(String::from_str(url));
        proof {
            if streaming {
                assert(args.deep_view() =~~= base + stream_input_args_spec(
                    camera@,
                    url@,
                    platform,
                ));
            } else {
                assert(args.deep_view() =~~= base + record_input_args_spec(
                    camera@,
                    url@,
                    platform,
                ));
            }
        }
    }
}

/// Compose the live-streaming argv for one camera.
pub fn stream_argv(
    camera: &Camera,
    url: &str,
    platform: Platform,
    enc_args: &Vec<String>,
    segment_path: &str,
    playlist_path: &str,
) -> (r: Vec<String>)
    ensures
        r.deep_view() == stream_argv_spec(
            camera@,
            url@,
            platform,
            enc_args.deep_view(),
            segment_path@,
            playlist_path@,
        ),
{
    let mut args: Vec<String> = Vec::new();
    args.push(String::from_str("-y"));
    proof {
        assert(args.deep_view() =~~= seq!["-y"@]);
    }
    push_input_args(&mut args, camera, url, platform, true);
    let mut i: usize = 0;
    let ghost mid = args.deep_view();
    proof {
        assert(mid =~~= seq!["-y"@] + stream_input_args_spec(camera@, url@, platform));
    }
    while i < enc_args.len()
        invariant
            i <= enc_args@.len(),
            args.deep_view() == mid + enc_args.deep_view().take(i as int),
        decreases enc_args@.len() - i,
    {
        let item = enc_args[i].clone();
        proof {
            assert(enc_args.deep_view()[i as int] == enc_args@[i as int]@);
            assert(item@ == enc_args.deep_view()[i as int]);
        }
        let ghost before = args.deep_view();
        args.push(item);
        proof {
            assert(args.deep_view() =~~= before.push(enc_args.deep_view()[i as int]));
            assert(enc_args.deep_view().take(i + 1) =~= enc_args.deep_view().take(
                i as int,
            ).push(enc_args.deep_view()[i as int]));
            assert(args.deep_view() =~~= mid + enc_args.deep_view().take(i + 1));
        }
        i = i + 1;
    }
    proof {
        assert(enc_args.deep_view().take(enc_args@.len() as int) =~= enc_args.deep_view());
    }
    let ghost with_enc = args.deep_view();
    args.push(String::from_str("-an"));
    args.push(String::from_str("-f"));
    args.push(String::from_str("hls"));
    args.push(String::from_str("-hls_time"));
    args.push(String::from_str("2"));
    args.push(String::from_str("-hls_list_size"));
    args.push(String::from_str("15"));
    args.push(String::from_str("-hls_delete_threshold"));
    args.push(String::from_str("3"));
    args.push(String::from_str("-hls_flags"));
    args.push(String::from_str("delete_segments+omit_endlist+program_date_time"));
    args.push(String::from_str("-hls_segment_type"));
    args.push(String::from_str("mpegts"));
    args.push(String::from_str("-hls_segment_filename"));
    args.push(String::from_str(segment_path));
    args.push(String::from_str(playlist_path));
    proof {
        assert(args.deep_view() =~~= with_enc + hls_output_args_spec(
            segment_path@,
            playlist_path@,
        ));
        assert(args.deep_view() =~~= stream_argv_spec(
            camera@,
            url@,
            platform,
            enc_args.deep_view(),
            segment_path@,
            playlist_path@,
        ));
    }
    args
}

/// Compose the recording argv for one camera: output is a temporary
/// transport stream, audio kept.
pub fn record_argv(
    camera: &Camera,
    url: &str,
    platform: Platform,
    fps_override: Option<i32>,
    enc_args: &Vec<String>,
    temp_path: &str,
) -> (r: Vec<String>)
    ensures
        r.deep_view() == record_argv_spec(
            camera@,
            url@,
            platform,
            fps_override,
            enc_args.deep_view(),
            temp_path@,
        ),
{
    let mut args: Vec<String> = Vec::new();
    args.push(String::from_str("-y"));
    proof {
        assert(args.deep_view() =~~= seq!["-y"@]);
    }
    push_input_args(&mut args, camera, url, platform, false);
    proof {
        assert(args.deep_view() =~~= seq!["-y"@] + record_input_args_spec(
            camera@,
            url@,
            platform,
        ));
    }
    match fps_override {
        Some(f) => {
            args.push(String::from_str("-r"));
            args.push(i64_to_string(f as i64));
        },
        None => {},
    }
    let mut i: usize = 0;
    let ghost mid = args.deep_view();
    while i < enc_args.len()
        invariant
            i <= enc_args@.len(),
            args.deep_view() == mid + enc_args.deep_view().take(i as int),
        decreases enc_args@.len() - i,
    {
        let item = enc_args[i].clone();
        proof {
            assert(enc_args.deep_view()[i as int] == enc_args@[i as int]@);
            assert(item@ == enc_args.deep_view()[i as int]);
        }
        let ghost before = args.deep_view();
        args.push(item);
        proof {
            assert(args.deep_view() =~~= before.push(enc_args.deep_view()[i as int]));
            assert(enc_args.deep_view().take(i + 1) =~= enc_args.deep_view().take(
                i as int,
            ).push(enc_args.deep_view()[i as int]));
            assert(args.deep_view() =~~= mid + enc_args.deep_view().take(i + 1));
        }
        i = i + 1;
    }
    proof {
        assert(enc_args.deep_view().take(enc_args@.len() as int) =~= enc_args.deep_view());
    }
    let ghost with_enc = args.deep_view();
    args.push(String::from_str("-c:a"));
    args.push(String::from_str("aac"));
    args.push(String::from_str("-f"));
    args.push(String::from_str("mpegts"));
    args.push(String::from_str(temp_path));
    proof {
        assert(args.deep_view() =~~= with_enc + seq![
            "-c:a"@,
            "aac"@,
            "-f"@,
            "mpegts"@,
            temp_path@,
        ]);
        assert(args.deep_view() =~~= record_argv_spec(
            camera@,
            url@,
            platform,
            fps_override,
            enc_args.deep_view(),
            temp_path@,
        ));
    }
    args
}

/// Compose the finalizer's remux argv.
pub fn remux_argv(temp_path: &str, final_path: &str) -> (r: Vec<String>)
    ensures
        r.deep_view() == remux_argv_spec(temp_path@, final_path@),
{
    let mut args: Vec<String> = Vec::new();
    args.push(String::from_str("-y"));
    args.push(String::from_str("-i"));
    args.push(String::from_str(temp_path));
    args.push(String::from_str("-c"));
    args.push(String::from_str("copy"));
    args.push(String::from_str("-movflags"));
    args.push(String::from_str("+faststart"));
    args.push(String::from_str(final_path));
    proof {
        assert(args.deep_view() =~~= remux_argv_spec(temp_path@, final_path@));
    }
    args
}

/// Compose the thumbnail argv.
pub fn thumbnail_argv(video_path: &str, thumb_path: &str) -> (r: Vec<String>)
    ensures
        r.deep_view() == thumbnail_argv_spec(video_path@, thumb_path@),
{
    let mut args: Vec<String> = Vec::new();
    args.push(String::from_str("-y"));
    args.push(String::from_str("-ss"));
    args.push(String::from_str("00:00:02"));
    args.push(String::from_str("-i"));
    args.push(String::from_str(video_path));
    args.push(String::from_str("-vframes"));
    args.push(String::from_str("1"));
    args.push(String::from_str("-vf"));
    args.push(String::from_str("scale=320:-1"));
    args.push(String::from_str("-q:v"));
    args.push(String::from_str("2"));
    args.push(String::from_str(thumb_path));
    proof {
        assert(args.deep_view() =~~= thumbnail_argv_spec(video_path@, thumb_path@));
    }
    args
}

} // verus!
