//! Helpers of the smaller tools: option values of the JPEG encoding and
//! partial-update tools, the target format of the JPEG sender, the address
//! pairs seen in captures, and the one-line timing description of the
//! probe.
use vstd::prelude::*;

use crate::cli::JpegSubsampling;
use crate::edid::EdidDetailedTiming;
use crate::text::{decimal, push_decimal, push_str, str_eq};
use crate::{VIDEO_COLOR_NV12, VIDEO_COLOR_YV12};

verus! {

/// The encoder of the JPEG encoding tool.
#[derive(Clone, Copy, Debug, PartialEq, Eq)]
pub enum Encoder {
    TurboRgb,
    T6Yuv420,
}

/// The surface format the JPEG sender asks the adapter to decode into.
#[derive(Clone, Copy, Debug, PartialEq, Eq)]
pub enum TargetFormat {
    Nv12,
    Yv12,
}

impl TargetFormat {
    /// The video colour code of the target format.
    pub fn video_color(self) -> (code: u32)
        ensures
            code == (match self {
                TargetFormat::Nv12 => VIDEO_COLOR_NV12,
                TargetFormat::Yv12 => VIDEO_COLOR_YV12,
            }),
    {
        match self {
            TargetFormat::Nv12 => VIDEO_COLOR_NV12,
            TargetFormat::Yv12 => VIDEO_COLOR_YV12,
        }
    }
}

/// The command and payload addresses of the partial updates seen in
/// captures, as (command, payload) pairs.
pub open spec fn address_pairs() -> Seq<(u32, u32)> {
    seq![
        (0x0000_0030u32, 0x001f_e030u32),
        (0x018a_aaf0u32, 0x01aa_8af0u32),
        (0x018a_b210u32, 0x01aa_9210u32),
        (0x018a_ab10u32, 0x01aa_8b10u32),
        (0x018c_8af0u32, 0x01ab_7af0u32),
        (0x00ca_fcd0u32, 0x00e8_0cd0u32),
        (0x0193_2190u32, 0x01ae_c990u32),
        (0x00c5_5590u32, 0x00e5_3590u32),
        (0x00d4_5cb0u32, 0x00ec_bcb0u32),
    ]
}

/// The address pairs seen in captures.
pub fn known_address_pairs() -> (v: Vec<(u32, u32)>)
    ensures
        v@ == address_pairs(),
{
    let v: Vec<(u32, u32)> = vec![
        (0x0000_0030u32, 0x001f_e030u32),
        (0x018a_aaf0u32, 0x01aa_8af0u32),
        (0x018a_b210u32, 0x01aa_9210u32),
        (0x018a_ab10u32, 0x01aa_8b10u32),
        (0x018c_8af0u32, 0x01ab_7af0u32),
        (0x00ca_fcd0u32, 0x00e8_0cd0u32),
        (0x0193_2190u32, 0x01ae_c990u32),
        (0x00c5_5590u32, 0x00e5_3590u32),
        (0x00d4_5cb0u32, 0x00ec_bcb0u32),
    ];
    assert(v@ =~= address_pairs());
    v
}

/// A timing as "<width>x<height>@<refresh>Hz" ("?" for an unknown
/// refresh rate), or "-" for none.
pub open spec fn timing_text(t: Option<EdidDetailedTiming>) -> Seq<char> {
    match t {
        None => "-"@,
        Some(t) => decimal(t.horizontal_active as nat) + "x"@ + decimal(t.vertical_active as nat)
            + "@"@ + match t.refresh_hz {
            Some(r) => decimal(r as nat),
            None => "?"@,
        } + "Hz"@,
    }
}

/// Describes a timing in one line.
pub fn format_timing(timing: Option<EdidDetailedTiming>) -> (s: String)
    ensures
        s@ == timing_text(timing),
{
    match timing {
        None => String::from_str("-"),
        Some(t) => {
            let mut out = String::new();
            push_decimal(&mut out, t.horizontal_active as u64);
            push_str(&mut out, "x");
            push_decimal(&mut out, t.vertical_active as u64);
            push_str(&mut out, "@");
            match t.refresh_hz {
                Some(r) => push_decimal(&mut out, r as u64),
                None => push_str(&mut out, "?"),
            }
            push_str(&mut out, "Hz");
            out
        },
    }
}

/// The encoder of the JPEG encoding tool that a command-line value names, if any.
pub open spec fn encoder_named(value: Seq<char>) -> Option<Encoder> {
    if value == "turbo-rgb"@ {
        Some(Encoder::TurboRgb)
    } else if value == "t6-yuv420"@ {
        Some(Encoder::T6Yuv420)
    } else {
        None
    }
}

/// Reads the encoder of the JPEG encoding tool from a command-line value.
pub fn parse_encoder(value: &str) -> (out: Result<Encoder, String>)
    ensures
        match encoder_named(value@) {
            Some(v) => out == Ok::<Encoder, String>(v),
            None => (out matches Err(e) && e@ == "--encoder must be one of turbo-rgb, t6-yuv420"@),
        },
{
    if str_eq(value, "turbo-rgb") {
        Ok(Encoder::TurboRgb)
    } else if str_eq(value, "t6-yuv420") {
        Ok(Encoder::T6Yuv420)
    } else {
        Err(String::from_str("--encoder must be one of turbo-rgb, t6-yuv420"))
    }
}

/// The JPEG chroma subsampling, as the encoding tool names it that a command-line value names, if any.
pub open spec fn subsamp_named(value: Seq<char>) -> Option<JpegSubsampling> {
    if value == "420"@ || value == "4:2:0"@ {
        Some(JpegSubsampling::Yuv420)
    } else if value == "422"@ || value == "4:2:2"@ {
        Some(JpegSubsampling::Yuv422)
    } else if value == "444"@ || value == "4:4:4"@ {
        Some(JpegSubsampling::Yuv444)
    } else {
        None
    }
}

/// Reads a JPEG chroma subsampling, as the encoding tool names it from a command-line value.
pub fn parse_subsamp(value: &str) -> (out: Result<JpegSubsampling, String>)
    ensures
        match subsamp_named(value@) {
            Some(v) => out == Ok::<JpegSubsampling, String>(v),
            None => (out matches Err(e) && e@ == "--subsamp must be one of 420, 422, 444"@),
        },
{
    if str_eq(value, "420") || str_eq(value, "4:2:0") {
        Ok(JpegSubsampling::Yuv420)
    } else if str_eq(value, "422") || str_eq(value, "4:2:2") {
        Ok(JpegSubsampling::Yuv422)
    } else if str_eq(value, "444") || str_eq(value, "4:4:4") {
        Ok(JpegSubsampling::Yuv444)
    } else {
        Err(String::from_str("--subsamp must be one of 420, 422, 444"))
    }
}

/// The JPEG chroma subsampling, as the partial-update tool names it that a command-line value names, if any.
pub open spec fn subsampling_digits_named(value: Seq<char>) -> Option<JpegSubsampling> {
    if value == "420"@ {
        Some(JpegSubsampling::Yuv420)
    } else if value == "422"@ {
        Some(JpegSubsampling::Yuv422)
    } else if value == "444"@ {
        Some(JpegSubsampling::Yuv444)
    } else {
        None
    }
}

/// Reads a JPEG chroma subsampling, as the partial-update tool names it from a command-line value.
pub fn parse_subsampling(value: &str) -> (out: Result<JpegSubsampling, String>)
    ensures
        match subsampling_digits_named(value@) {
            Some(v) => out == Ok::<JpegSubsampling, String>(v),
            None => (out matches Err(e) && e@ == "--subsamp must be one of 420, 422, 444"@),
        },
{
    if str_eq(value, "420") {
        Ok(JpegSubsampling::Yuv420)
    } else if str_eq(value, "422") {
        Ok(JpegSubsampling::Yuv422)
    } else if str_eq(value, "444") {
        Ok(JpegSubsampling::Yuv444)
    } else {
        Err(String::from_str("--subsamp must be one of 420, 422, 444"))
    }
}

} // verus!
