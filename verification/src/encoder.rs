//! Encoder selection: the pure policy from (detected GPU capabilities,
//! configured settings, stream-or-record intent, source frame rate, and the
//! functional-test verdict) to the transcoder's encoder argv fragment.
//! Streaming configs target low latency, recording configs target quality.

use vstd::prelude::*;
use crate::errors::VmsError;
use crate::gpu::GpuCapabilities;
use crate::models::EncoderSettings;
use crate::strutil::{dec_str_signed, i64_to_string, seq_contains_str, str_eq, vec_contains_str};

verus! {

/// One selected encoder: its name, its argv fragment, and whether it is a
/// hardware encoder.
#[derive(Clone, Debug)]
pub struct EncoderConfig {
    pub codec: String,
    pub args: Vec<String>,
    pub is_gpu: bool,
}

/// The selector: detected capabilities plus the configured settings.
#[derive(Clone, Debug)]
pub struct EncoderSelector {
    pub capabilities: GpuCapabilities,
    pub settings: EncoderSettings,
}

/// Keyframe interval: two seconds of frames, 60 when the rate is unknown.
pub open spec fn keyframe_interval(fps: Option<i32>) -> int {
    match fps {
        Some(f) => 2 * f,
        None => 60,
    }
}

/// The streaming argv fragment for one hardware encoder family.
pub open spec fn gpu_stream_args(enc: Seq<char>, quality: int, fps: Option<i32>) -> Seq<Seq<char>> {
    let g = dec_str_signed(keyframe_interval(fps));
    let q = dec_str_signed(quality);
    if enc == "h264_nvenc"@ || enc == "hevc_nvenc"@ {
        seq![
            "-c:v"@,
            enc,
            "-preset"@,
            "p1"@,
            "-tune"@,
            "ll"@,
            "-zerolatency"@,
            "1"@,
            "-rc"@,
            "cbr"@,
            "-b:v"@,
            "4M"@,
            "-maxrate"@,
            "4M"@,
            "-bufsize"@,
            "2M"@,
            "-g"@,
            g,
            "-force_key_frames"@,
            "expr:gte(t,n_forced*2)"@,
            "-bf"@,
            "0"@,
        ]
    } else if enc == "h264_qsv"@ || enc == "hevc_qsv"@ {
        seq![
            "-init_hw_device"@,
            "qsv=hw"@,
            "-filter_hw_device"@,
            "hw"@,
            "-c:v"@,
            enc,
            "-preset"@,
            "veryfast"@,
            "-global_quality"@,
            q,
            "-look_ahead"@,
            "0"@,
            "-b:v"@,
            "4M"@,
            "-maxrate"@,
            "4M"@,
            "-bufsize"@,
            "2M"@,
            "-g"@,
            g,
            "-sc_threshold"@,
            "0"@,
        ]
    } else if enc == "h264_amf"@ || enc == "hevc_amf"@ {
        seq![
            "-c:v"@,
            enc,
            "-quality"@,
            "speed"@,
            "-rc"@,
            "cbr"@,
            "-b:v"@,
            "4M"@,
            "-maxrate"@,
            "4M"@,
            "-bufsize"@,
            "2M"@,
            "-g"@,
            g,
            "-force_key_frames"@,
            "expr:gte(t,n_forced*2)"@,
        ]
    } else if enc == "h264_vaapi"@ || enc == "hevc_vaapi"@ {
        seq![
            "-init_hw_device"@,
            "vaapi=va:/dev/dri/renderD128"@,
            "-filter_hw_device"@,
            "va"@,
            "-c:v"@,
            enc,
            "-qp"@,
            q,
            "-quality"@,
            "1"@,
            "-b:v"@,
            "4M"@,
            "-maxrate"@,
            "4M"@,
            "-g"@,
            g,
            "-force_key_frames"@,
            "expr:gte(t,n_forced*2)"@,
        ]
    } else if enc == "h264_videotoolbox"@ || enc == "hevc_videotoolbox"@ {
        seq![
            "-c:v"@,
            enc,
            "-b:v"@,
            "4M"@,
            "-maxrate"@,
            "4M"@,
            "-bufsize"@,
            "2M"@,
            "-realtime"@,
            "1"@,
            "-g"@,
            g,
            "-force_key_frames"@,
            "expr:gte(t,n_forced*2)"@,
        ]
    } else {
        seq!["-c:v"@, enc, "-b:v"@, "4M"@, "-g"@, g, "-force_key_frames"@, "expr:gte(t,n_forced*2)"@]
    }
}

/// The recording argv fragment for one hardware encoder family.
pub open spec fn gpu_record_args(enc: Seq<char>, quality: int) -> Seq<Seq<char>> {
    let q = dec_str_signed(quality);
    if enc == "h264_nvenc"@ || enc == "hevc_nvenc"@ {
        seq![
            "-c:v"@,
            enc,
            "-preset"@,
            "p4"@,
            "-rc"@,
            "vbr"@,
            "-cq"@,
            q,
            "-b:v"@,
            "8M"@,
            "-maxrate"@,
            "10M"@,
            "-bufsize"@,
            "8M"@,
            "-g"@,
            "120"@,
            "-force_key_frames"@,
            "expr:gte(t,n_forced*2)"@,
        ]
    } else if enc == "h264_qsv"@ || enc == "hevc_qsv"@ {
        seq![
            "-init_hw_device"@,
            "qsv=hw"@,
            "-filter_hw_device"@,
            "hw"@,
            "-c:v"@,
            enc,
            "-preset"@,
            "medium"@,
            "-global_quality"@,
            q,
            "-b:v"@,
            "8M"@,
            "-maxrate"@,
            "10M"@,
            "-g"@,
            "120"@,
            "-sc_threshold"@,
            "0"@,
        ]
    } else if enc == "h264_amf"@ || enc == "hevc_amf"@ {
        seq![
            "-c:v"@,
            enc,
            "-quality"@,
            "balanced"@,
            "-rc"@,
            "vbr_latency"@,
            "-b:v"@,
            "8M"@,
            "-maxrate"@,
            "10M"@,
            "-g"@,
            "120"@,
            "-force_key_frames"@,
            "expr:gte(t,n_forced*2)"@,
        ]
    } else if enc == "h264_vaapi"@ || enc == "hevc_vaapi"@ {
        seq![
            "-init_hw_device"@,
            "vaapi=va:/dev/dri/renderD128"@,
            "-filter_hw_device"@,
            "va"@,
            "-c:v"@,
            enc,
            "-qp"@,
            q,
            "-quality"@,
            "2"@,
            "-b:v"@,
            "8M"@,
            "-maxrate"@,
            "10M"@,
            "-g"@,
            "120"@,
            "-force_key_frames"@,
            "expr:gte(t,n_forced*2)"@,
        ]
    } else if enc == "h264_videotoolbox"@ || enc == "hevc_videotoolbox"@ {
        seq![
            "-c:v"@,
            enc,
            "-b:v"@,
            "8M"@,
            "-maxrate"@,
            "10M"@,
            "-g"@,
            "120"@,
            "-force_key_frames"@,
            "expr:gte(t,n_forced*2)"@,
        ]
    } else {
        seq![
            "-c:v"@,
            enc,
            "-b:v"@,
            "8M"@,
            "-g"@,
            "120"@,
            "-force_key_frames"@,
            "expr:gte(t,n_forced*2)"@,
        ]
    }
}

/// The streaming argv fragment of the software encoder.
pub open spec fn cpu_stream_args(cpu: Seq<char>, preset: Seq<char>, fps: Option<i32>) -> Seq<
    Seq<char>,
> {
    let g = dec_str_signed(keyframe_interval(fps));
    seq![
        "-c:v"@,
        cpu,
        "-preset"@,
        preset,
        "-tune"@,
        "zerolatency"@,
        "-g"@,
        g,
        "-keyint_min"@,
        g,
        "-sc_threshold"@,
        "0"@,
        "-force_key_frames"@,
        "expr:gte(t,n_forced*2)"@,
    ]
}

/// The recording argv fragment of the software encoder.
pub open spec fn cpu_record_args(cpu: Seq<char>, preset: Seq<char>) -> Seq<Seq<char>> {
    seq!["-c:v"@, cpu, "-preset"@, preset]
}

/// The Auto policy takes the GPU path exactly when a GPU encoder is
/// configured, the transcoder offers it, and the functional test passed.
pub open spec fn auto_uses_gpu(
    settings: EncoderSettings,
    available: Seq<Seq<char>>,
    test_passed: bool,
) -> bool {
    &&& settings.encoder_mode@ == "Auto"@
    &&& settings.gpu_encoder is Some
    &&& seq_contains_str(available, settings.gpu_encoder.unwrap()@)
    &&& test_passed
}

/// The whole streaming selection policy: codec, argv fragment, and GPU flag;
/// `None` is the hard error of GpuOnly mode without a configured GPU encoder.
pub open spec fn stream_config_spec(
    settings: EncoderSettings,
    available: Seq<Seq<char>>,
    test_passed: bool,
    fps: Option<i32>,
) -> Option<(Seq<char>, Seq<Seq<char>>, bool)> {
    if settings.encoder_mode@ == "GpuOnly"@ {
        match settings.gpu_encoder {
            Some(g) => Some((g@, gpu_stream_args(g@, settings.quality as int, fps), true)),
            None => None,
        }
    } else if auto_uses_gpu(settings, available, test_passed) {
        let g = settings.gpu_encoder.unwrap();
        Some((g@, gpu_stream_args(g@, settings.quality as int, fps), true))
    } else {
        Some(
            (
                settings.cpu_encoder@,
                cpu_stream_args(settings.cpu_encoder@, settings.preset@, fps),
                false,
            ),
        )
    }
}

/// The whole recording selection policy.
pub open spec fn record_config_spec(
    settings: EncoderSettings,
    available: Seq<Seq<char>>,
    test_passed: bool,
) -> Option<(Seq<char>, Seq<Seq<char>>, bool)> {
    if settings.encoder_mode@ == "GpuOnly"@ {
        match settings.gpu_encoder {
            Some(g) => Some((g@, gpu_record_args(g@, settings.quality as int), true)),
            None => None,
        }
    } else if auto_uses_gpu(settings, available, test_passed) {
        let g = settings.gpu_encoder.unwrap();
        Some((g@, gpu_record_args(g@, settings.quality as int), true))
    } else {
        Some(
            (settings.cpu_encoder@, cpu_record_args(settings.cpu_encoder@, settings.preset@), false),
        )
    }
}

/// A config value realizes one policy outcome.
pub open spec fn config_matches(c: EncoderConfig, out: (Seq<char>, Seq<Seq<char>>, bool)) -> bool {
    c.codec@ == out.0 && c.args.deep_view() == out.1 && c.is_gpu == out.2
}

impl EncoderSelector {
    /// Pair detected capabilities with the configured settings.
    pub fn new(capabilities: GpuCapabilities, settings: EncoderSettings) -> (r: EncoderSelector)
        ensures
            r.capabilities == capabilities,
            r.settings == settings,
    {
        EncoderSelector { capabilities, settings }
    }

    /// The encoder the Auto policy would functionally test before use:
    /// the configured GPU encoder, when the transcoder offers it.
    pub fn encoder_test_candidate(&self) -> (r: Option<String>)
        ensures
            match r {
                Some(g) => {
                    &&& self.settings.encoder_mode@ == "Auto"@
                    &&& self.settings.gpu_encoder is Some
                    &&& g@ == self.settings.gpu_encoder.unwrap()@
                    &&& seq_contains_str(self.capabilities.available_encoders.deep_view(), g@)
                },
                None => !(self.settings.encoder_mode@ == "Auto"@ && self.settings.gpu_encoder
                    is Some && seq_contains_str(
                    self.capabilities.available_encoders.deep_view(),
                    self.settings.gpu_encoder.unwrap()@,
                )),
            },
    {
        if str_eq(self.settings.encoder_mode.as_str(), "Auto") {
            match &self.settings.gpu_encoder {
                Some(g) => {
                    if vec_contains_str(&self.capabilities.available_encoders, g.as_str()) {
                        Some(g.clone())
                    } else {
                        None
                    }
                },
                None => None,
            }
        } else {
            None
        }
    }

    /// Select the streaming encoder. `gpu_test_passed` is the verdict of the
    /// functional test on the configured GPU encoder (see
    /// [`Self::encoder_test_candidate`]); it only matters in Auto mode.
    pub fn select_encoder_for_streaming(&self, fps: Option<i32>, gpu_test_passed: bool) -> (r:
        Result<EncoderConfig, VmsError>)
        ensures
            ({
                let spec_out = stream_config_spec(
                    self.settings,
                    self.capabilities.available_encoders.deep_view(),
                    gpu_test_passed,
                    fps,
                );
                match r {
                    Ok(c) => spec_out is Some && config_matches(c, spec_out.unwrap()),
                    Err(e) => spec_out is None && e == VmsError::Validation,
                }
            }),
    {
        if str_eq(self.settings.encoder_mode.as_str(), "GpuOnly") {
            match &self.settings.gpu_encoder {
                Some(g) => Ok(self.build_gpu_config_streaming(g.as_str(), fps)),
                None => Err(VmsError::Validation),
            }
        } else if str_eq(self.settings.encoder_mode.as_str(), "Auto") {
            match &self.settings.gpu_encoder {
                Some(g) => {
                    if vec_contains_str(&self.capabilities.available_encoders, g.as_str())
                        && gpu_test_passed {
                        Ok(self.build_gpu_config_streaming(g.as_str(), fps))
                    } else {
                        Ok(self.build_cpu_config_streaming(fps))
                    }
                },
                None => Ok(self.build_cpu_config_streaming(fps)),
            }
        } else {
            Ok(self.build_cpu_config_streaming(fps))
        }
    }

    /// Select the recording encoder; same policy, quality-oriented argv.
    pub fn select_encoder_for_recording(&self, gpu_test_passed: bool) -> (r: Result<
        EncoderConfig,
        VmsError,
    >)
        ensures
            ({
                let spec_out = record_config_spec(
                    self.settings,
                    self.capabilities.available_encoders.deep_view(),
                    gpu_test_passed,
                );
                match r {
                    Ok(c) => spec_out is Some && config_matches(c, spec_out.unwrap()),
                    Err(e) => spec_out is None && e == VmsError::Validation,
                }
            }),
    {
        if str_eq(self.settings.encoder_mode.as_str(), "GpuOnly") {
            match &self.settings.gpu_encoder {
                Some(g) => Ok(self.build_gpu_config_recording(g.as_str())),
                None => Err(VmsError::Validation),
            }
        } else if str_eq(self.settings.encoder_mode.as_str(), "Auto") {
            match &self.settings.gpu_encoder {
                Some(g) => {
                    if vec_contains_str(&self.capabilities.available_encoders, g.as_str())
                        && gpu_test_passed {
                        Ok(self.build_gpu_config_recording(g.as_str()))
                    } else {
                        Ok(self.build_cpu_config_recording())
                    }
                },
                None => Ok(self.build_cpu_config_recording()),
            }
        } else {
            Ok(self.build_cpu_config_recording())
        }
    }

    /// Build the low-latency streaming argv for one hardware encoder.
    pub fn build_gpu_config_streaming(&self, encoder: &str, fps: Option<i32>) -> (r: EncoderConfig)
        ensures
            r.codec@ == encoder@,
            r.is_gpu == true,
            r.args.deep_view() == gpu_stream_args(encoder@, self.settings.quality as int, fps),
    {
        let g = interval_string(fps);
        let q = i64_to_string(self.settings.quality as i64);
        let mut args: Vec<String> = Vec::new();
        if str_eq(encoder, "h264_nvenc") || str_eq(encoder, "hevc_nvenc") {
            args.push(String::from_str("-c:v"));
            args.push(String::from_str(encoder));
            args.push(String::from_str("-preset"));
            args.push(String::from_str("p1"));
            args.push(String::from_str("-tune"));
            args.push(String::from_str("ll"));
            args.push(String::from_str("-zerolatency"));
            args.push(String::from_str("1"));
            args.push(String::from_str("-rc"));
            args.push(String::from_str("cbr"));
            args.push(String::from_str("-b:v"));
            args.push(String::from_str("4M"));
            args.push(String::from_str("-maxrate"));
            args.push(String::from_str("4M"));
            args.push(String::from_str("-bufsize"));
            args.push(String::from_str("2M"));
            args.push(String::from_str("-g"));
            args.push(g);
            args.push(String::from_str("-force_key_frames"));
            args.push(String::from_str("expr:gte(t,n_forced*2)"));
            args.push(String::from_str("-bf"));
            args.push(String::from_str("0"));
        } else if str_eq(encoder, "h264_qsv") || str_eq(encoder, "hevc_qsv") {
            args.push(String::from_str("-init_hw_device"));
            args.push(String::from_str("qsv=hw"));
            args.push(String::from_str("-filter_hw_device"));
            args.push(String::from_str("hw"));
            args.push(String::from_str("-c:v"));
            args.push(String::from_str(encoder));
            args.push(String::from_str("-preset"));
            args.push(String::from_str("veryfast"));
            args.push(String::from_str("-global_quality"));
            args.push(q);
            args.push(String::from_str("-look_ahead"));
            args.push(String::from_str("0"));
            args.push(String::from_str("-b:v"));
            args.push(String::from_str("4M"));
            args.push(String::from_str("-maxrate"));
            args.push(String::from_str("4M"));
            args.push(String::from_str("-bufsize"));
            args.push(String::from_str("2M"));
            args.push(String::from_str("-g"));
            args.push(g);
            args.push(String::from_str("-sc_threshold"));
            args.push(String::from_str("0"));
        } else if str_eq(encoder, "h264_amf") || str_eq(encoder, "hevc_amf") {
            args.push(String::from_str("-c:v"));
            args.push(String::from_str(encoder));
            args.push(String::from_str("-quality"));
            args.push(String::from_str("speed"));
            args.push(String::from_str("-rc"));
            args.push(String::from_str("cbr"));
            args.push(String::from_str("-b:v"));
            args.push(String::from_str("4M"));
            args.push(String::from_str("-maxrate"));
            args.push(String::from_str("4M"));
            args.push(String::from_str("-bufsize"));
            args.push(String::from_str("2M"));
            args.push(String::from_str("-g"));
            args.push(g);
            args.push(String::from_str("-force_key_frames"));
            args.push(String::from_str("expr:gte(t,n_forced*2)"));
        } else if str_eq(encoder, "h264_vaapi") || str_eq(encoder, "hevc_vaapi") {
            args.push(String::from_str("-init_hw_device"));
            args.push(String::from_str("vaapi=va:/dev/dri/renderD128"));
            args.push(String::from_str("-filter_hw_device"));
            args.push(String::from_str("va"));
            args.push(String::from_str("-c:v"));
            args.push(String::from_str(encoder));
            args.push(String::from_str("-qp"));
            args.push(q);
            args.push(String::from_str("-quality"));
            args.push(String::from_str("1"));
            args.push(String::from_str("-b:v"));
            args.push(String::from_str("4M"));
            args.push(String::from_str("-maxrate"));
            args.push(String::from_str("4M"));
            args.push(String::from_str("-g"));
            args.push(g);
            args.push(String::from_str("-force_key_frames"));
            args.push(String::from_str("expr:gte(t,n_forced*2)"));
        } else if str_eq(encoder, "h264_videotoolbox") || str_eq(encoder, "hevc_videotoolbox") {
            args.push(String::from_str("-c:v"));
            args.push(String::from_str(encoder));
            args.push(String::from_str("-b:v"));
            args.push(String::from_str("4M"));
            args.push(String::from_str("-maxrate"));
            args.push(String::from_str("4M"));
            args.push(String::from_str("-bufsize"));
            args.push(String::from_str("2M"));
            args.push(String::from_str("-realtime"));
            args.push(String::from_str("1"));
            args.push(String::from_str("-g"));
            args.push(g);
            args.push(String::from_str("-force_key_frames"));
            args.push(String::from_str("expr:gte(t,n_forced*2)"));
        } else {
            args.push(String::from_str("-c:v"));
            args.push(String::from_str(encoder));
            args.push(String::from_str("-b:v"));
            args.push(String::from_str("4M"));
            args.push(String::from_str("-g"));
            args.push(g);
            args.push(String::from_str("-force_key_frames"));
            args.push(String::from_str("expr:gte(t,n_forced*2)"));
        }
        proof {
            assert(args.deep_view() =~~= gpu_stream_args(
                encoder@,
                self.settings.quality as int,
                fps,
            ));
        }
        EncoderConfig { codec: String::from_str(encoder), args, is_gpu: true }
    }

    /// Build the low-latency streaming argv for the software encoder.
    pub fn build_cpu_config_streaming(&self, fps: Option<i32>) -> (r: EncoderConfig)
        ensures
            r.codec@ == self.settings.cpu_encoder@,
            r.is_gpu == false,
            r.args.deep_view() == cpu_stream_args(
                self.settings.cpu_encoder@,
                self.settings.preset@,
                fps,
            ),
    {
        let g = interval_string(fps);
        let mut args: Vec<String> = Vec::new();
        args.push(String::from_str("-c:v"));
        args.push(self.settings.cpu_encoder.clone());
        args.push(String::from_str("-preset"));
        args.push(self.settings.preset.clone());
        args.push(String::from_str("-tune"));
        args.push(String::from_str("zerolatency"));
        args.push(String::from_str("-g"));
        args.push(g.clone());
        args.push(String::from_str("-keyint_min"));
        args.push(g);
        args.push(String::from_str("-sc_threshold"));
        args.push(String::from_str("0"));
        args.push(String::from_str("-force_key_frames"));
        args.push(String::from_str("expr:gte(t,n_forced*2)"));
        proof {
            assert(args.deep_view() =~~= cpu_stream_args(
                self.settings.cpu_encoder@,
                self.settings.preset@,
                fps,
            ));
        }
        EncoderConfig { codec: self.settings.cpu_encoder.clone(), args, is_gpu: false }
    }

    /// Build the quality-oriented recording argv for one hardware encoder.
    pub fn build_gpu_config_recording(&self, encoder: &str) -> (r: EncoderConfig)
        ensures
            r.codec@ == encoder@,
            r.is_gpu == true,
            r.args.deep_view() == gpu_record_args(encoder@, self.settings.quality as int),
    {
        let q = i64_to_string(self.settings.quality as i64);
        let mut args: Vec<String> = Vec::new();
        if str_eq(encoder, "h264_nvenc") || str_eq(encoder, "hevc_nvenc") {
            args.push(String::from_str("-c:v"));
            args.push(String::from_str(encoder));
            args.push(String::from_str("-preset"));
            args.push(String::from_str("p4"));
            args.push(String::from_str("-rc"));
            args.push(String::from_str("vbr"));
            args.push(String::from_str("-cq"));
            args.push(q);
            args.push(String::from_str("-b:v"));
            args.push(String::from_str("8M"));
            args.push(String::from_str("-maxrate"));
            args.push(String::from_str("10M"));
            args.push(String::from_str("-bufsize"));
            args.push(String::from_str("8M"));
            args.push(String::from_str("-g"));
            args.push(String::from_str("120"));
            args.push(String::from_str("-force_key_frames"));
            args.push(String::from_str("expr:gte(t,n_forced*2)"));
        } else if str_eq(encoder, "h264_qsv") || str_eq(encoder, "hevc_qsv") {
            args.push(String::from_str("-init_hw_device"));
            args.push(String::from_str("qsv=hw"));
            args.push(String::from_str("-filter_hw_device"));
            args.push(String::from_str("hw"));
            args.push(String::from_str("-c:v"));
            args.push(String::from_str(encoder));
            args.push(String::from_str("-preset"));
            args.push(String::from_str("medium"));
            args.push(String::from_str("-global_quality"));
            args.push(q);
            args.push(String::from_str("-b:v"));
            args.push(String::from_str("8M"));
            args.push(String::from_str("-maxrate"));
            args.push(String::from_str("10M"));
            args.push(String::from_str("-g"));
            args.push(String::from_str("120"));
            args.push(String::from_str("-sc_threshold"));
            args.push(String::from_str("0"));
        } else if str_eq(encoder, "h264_amf") || str_eq(encoder, "hevc_amf") {
            args.push(String::from_str("-c:v"));
            args.push(String::from_str(encoder));
            args.push(String::from_str("-quality"));
            args.push(String::from_str("balanced"));
            args.push(String::from_str("-rc"));
            args.push(String::from_str("vbr_latency"));
            args.push(String::from_str("-b:v"));
            args.push(String::from_str("8M"));
            args.push(String::from_str("-maxrate"));
            args.push(String::from_str("10M"));
            args.push(String::from_str("-g"));
            args.push(String::from_str("120"));
            args.push(String::from_str("-force_key_frames"));
            args.push(String::from_str("expr:gte(t,n_forced*2)"));
        } else if str_eq(encoder, "h264_vaapi") || str_eq(encoder, "hevc_vaapi") {
            args.push(String::from_str("-init_hw_device"));
            args.push(String::from_str("vaapi=va:/dev/dri/renderD128"));
            args.push(String::from_str("-filter_hw_device"));
            args.push(String::from_str("va"));
            args.push(String::from_str("-c:v"));
            args.push(String::from_str(encoder));
            args.push(String::from_str("-qp"));
            args.push(q);
            args.push(String::from_str("-quality"));
            args.push(String::from_str("2"));
            args.push(String::from_str("-b:v"));
            args.push(String::from_str("8M"));
            args.push(String::from_str("-maxrate"));
            args.push(String::from_str("10M"));
            args.push(String::from_str("-g"));
            args.push(String::from_str("120"));
            args.push(String::from_str("-force_key_frames"));
            args.push(String::from_str("expr:gte(t,n_forced*2)"));
        } else if str_eq(encoder, "h264_videotoolbox") || str_eq(encoder, "hevc_videotoolbox") {
            args.push(String::from_str("-c:v"));
            args.push(String::from_str(encoder));
            args.push(String::from_str("-b:v"));
            args.push(String::from_str("8M"));
            args.push(String::from_str("-maxrate"));
            args.push(String::from_str("10M"));
            args.push(String::from_str("-g"));
            args.push(String::from_str("120"));
            args.push(String::from_str("-force_key_frames"));
            args.push(String::from_str("expr:gte(t,n_forced*2)"));
        } else {
            args.push(String::from_str("-c:v"));
            args.push(String::from_str(encoder));
            args.push(String::from_str("-b:v"));
            args.push(String::from_str("8M"));
            args.push(String::from_str("-g"));
            args.push(String::from_str("120"));
            args.push(String::from_str("-force_key_frames"));
            args.push(String::from_str("expr:gte(t,n_forced*2)"));
        }
        proof {
            assert(args.deep_view() =~~= gpu_record_args(encoder@, self.settings.quality as int));
        }
        EncoderConfig { codec: String::from_str(encoder), args, is_gpu: true }
    }

    /// Build the recording argv for the software encoder.
    pub fn build_cpu_config_recording(&self) -> (r: EncoderConfig)
        ensures
            r.codec@ == self.settings.cpu_encoder@,
            r.is_gpu == false,
            r.args.deep_view() == cpu_record_args(self.settings.cpu_encoder@, self.settings.preset@),
    {
        let mut args: Vec<String> = Vec::new();
        args.push(String::from_str("-c:v"));
        args.push(self.settings.cpu_encoder.clone());
        args.push(String::from_str("-preset"));
        args.push(self.settings.preset.clone());
        proof {
            assert(args.deep_view() =~~= cpu_record_args(
                self.settings.cpu_encoder@,
                self.settings.preset@,
            ));
        }
        EncoderConfig { codec: self.settings.cpu_encoder.clone(), args, is_gpu: false }
    }
}

/// The keyframe interval rendered in decimal.
fn interval_string(fps: Option<i32>) -> (r: String)
    ensures
        r@ == dec_str_signed(keyframe_interval(fps)),
{
    match fps {
        Some(f) => i64_to_string(2 * (f as i64)),
        None => i64_to_string(60),
    }
}

/// Encoder selection is a pure function of its stated inputs: for equal
/// settings, equal available-encoder views, the same test verdict and the
/// same frame rate, both selection policies give the same outcome.
pub proof fn lemma_encoder_selection_deterministic(
    a: EncoderSettings,
    b: EncoderSettings,
    avail_a: Seq<Seq<char>>,
    avail_b: Seq<Seq<char>>,
    test_passed: bool,
    fps: Option<i32>,
)
    requires
        a == b,
        avail_a == avail_b,
    ensures
        stream_config_spec(a, avail_a, test_passed, fps) == stream_config_spec(
            b,
            avail_b,
            test_passed,
            fps,
        ),
        record_config_spec(a, avail_a, test_passed) == record_config_spec(
            b,
            avail_b,
            test_passed,
        ),
{
}

/// In Auto mode a failed functional test always selects the software
/// encoder, whatever the capabilities say.
pub proof fn lemma_auto_test_failure_falls_back_to_cpu(
    settings: EncoderSettings,
    available: Seq<Seq<char>>,
    fps: Option<i32>,
)
    requires
        settings.encoder_mode@ == "Auto"@,
    ensures
        stream_config_spec(settings, available, false, fps) == Some(
            (
                settings.cpu_encoder@,
                cpu_stream_args(settings.cpu_encoder@, settings.preset@, fps),
                false,
            ),
        ),
        record_config_spec(settings, available, false) == Some(
            (settings.cpu_encoder@, cpu_record_args(settings.cpu_encoder@, settings.preset@), false),
        ),
{
    proof_distinct_modes();
}

/// In GpuOnly mode the functional-test verdict is irrelevant: the configured
/// GPU encoder is used whenever one is configured.
pub proof fn lemma_gpu_only_ignores_test(
    settings: EncoderSettings,
    available: Seq<Seq<char>>,
    t1: bool,
    t2: bool,
    fps: Option<i32>,
)
    requires
        settings.encoder_mode@ == "GpuOnly"@,
    ensures
        stream_config_spec(settings, available, t1, fps) == stream_config_spec(
            settings,
            available,
            t2,
            fps,
        ),
        settings.gpu_encoder matches Some(g) ==> stream_config_spec(settings, available, t1, fps)
            == Some((g@, gpu_stream_args(g@, settings.quality as int, fps), true)),
{
}

proof fn proof_distinct_modes()
    ensures
        "Auto"@ != "GpuOnly"@,
{
    reveal_strlit("Auto");
    reveal_strlit("GpuOnly");
    assert("Auto"@.len() == 4);
    assert("GpuOnly"@.len() == 7);
}

} // verus!
