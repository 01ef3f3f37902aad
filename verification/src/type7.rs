//! Per-frame decisions of the display sender: whether a captured frame is
//! usable, whether a frame goes as a full JPEG or as a partial update, the
//! dirty region a partial update covers, and the rotation through the
//! adapter's three surface slots.
use vstd::prelude::*;

use crate::cli::{Transport, Type7SetupMode};
use crate::geometry::{spec_union_bbox, union_bbox, Rect};
use crate::text::{decimal, push_decimal, push_str};

verus! {

/// The pixel format code of BGRA captures ("BGRA" read big-endian).
pub const PIXEL_FORMAT_BGRA: u32 = 0x4247_5241;

/// Fails unless the capture is BGRA.
pub fn ensure_bgra_capture(pixel_format: u32) -> (out: Result<(), String>)
    ensures
        pixel_format == PIXEL_FORMAT_BGRA <==> out is Ok,
        out matches Err(e) ==> e@ == "this transport currently requires --capture-format bgra"@,
{
    if pixel_format != PIXEL_FORMAT_BGRA {
        return Err(String::from_str("this transport currently requires --capture-format bgra"));
    }
    Ok(())
}

/// The message for a frame of the wrong size.
pub open spec fn frame_size_text(width: usize, height: usize, expected_width: usize, expected_height: usize) -> Seq<char> {
    "unexpected frame size: got "@ + decimal(width as nat) + "x"@ + decimal(height as nat)
        + ", expected "@ + decimal(expected_width as nat) + "x"@ + decimal(expected_height as nat)
}

/// Checks a captured frame against the configured size and, for BGRA,
/// that its rows and bytes cover the frame.
pub fn check_frame_shape(
    width: usize,
    height: usize,
    expected_width: usize,
    expected_height: usize,
    pixel_format: u32,
    stride: usize,
    byte_count: usize,
) -> (out: Result<(), String>)
    requires
        expected_width * 4 <= usize::MAX,
        stride * expected_height <= usize::MAX,
    ensures
        (width != expected_width || height != expected_height) ==> (out matches Err(e) && e@
            == frame_size_text(width, height, expected_width, expected_height)),
        (width == expected_width && height == expected_height && pixel_format == PIXEL_FORMAT_BGRA
            && (stride < expected_width * 4 || byte_count < stride * expected_height)) ==> (out matches Err(e)
            && e@ == "invalid BGRA frame stride or byte count"@),
        (width == expected_width && height == expected_height && !(pixel_format
            == PIXEL_FORMAT_BGRA && (stride < expected_width * 4 || byte_count < stride
            * expected_height))) ==> out is Ok,
{
    if width != expected_width || height != expected_height {
        let mut msg = String::from_str("unexpected frame size: got ");
        push_decimal(&mut msg, width as u64);
        push_str(&mut msg, "x");
        push_decimal(&mut msg, height as u64);
        push_str(&mut msg, ", expected ");
        push_decimal(&mut msg, expected_width as u64);
        push_str(&mut msg, "x");
        push_decimal(&mut msg, expected_height as u64);
        return Err(msg);
    }
    if pixel_format == PIXEL_FORMAT_BGRA && (stride < expected_width * 4 || byte_count < stride
        * expected_height) {
        return Err(String::from_str("invalid BGRA frame stride or byte count"));
    }
    Ok(())
}

/// Whether a full JPEG frame is sent as a surface setup for partial
/// updates: the partial-update transport, with generated updates enabled
/// and a synthetic or paired setup mode.
pub open spec fn spec_uses_type4_setup(transport: Transport, generated: bool, setup: Type7SetupMode) -> bool {
    transport is JpegType7 && generated && (setup is SyntheticType4 || setup is PairedType4Type7)
}

/// Whether a full JPEG frame is sent as a surface setup.
pub fn uses_type4_setup(transport: Transport, generated: bool, setup: Type7SetupMode) -> (b: bool)
    ensures
        b == spec_uses_type4_setup(transport, generated, setup),
{
    match transport {
        Transport::JpegType7 => generated && match setup {
            Type7SetupMode::SyntheticType4 | Type7SetupMode::PairedType4Type7 => true,
            Type7SetupMode::LegacyFullJpeg => false,
        },
        _ => false,
    }
}

/// Whether partial updates are off altogether, so that every frame of the
/// partial-update transport goes as a full JPEG.
pub fn type7_always_full(generated: bool, setup: Type7SetupMode) -> (b: bool)
    ensures
        b == (!generated || setup is LegacyFullJpeg),
{
    !generated || match setup {
        Type7SetupMode::LegacyFullJpeg => true,
        _ => false,
    }
}

/// Whether a frame refreshes the whole surface: the first frame, and
/// every `refresh_frames`-th after it when that is set.
pub fn type7_refresh_due(sent_frames: u32, refresh_frames: u32) -> (b: bool)
    ensures
        b == (sent_frames == 0 || (refresh_frames > 0 && sent_frames % refresh_frames == 0)),
{
    sent_frames == 0 || (refresh_frames > 0 && sent_frames % refresh_frames == 0)
}

/// The region a partial update covers: this frame's dirty box, grown to
/// take in the previous one so that what the last update changed is
/// redrawn too; none without a dirty box.
pub open spec fn spec_type7_dirty_bbox(current: Option<Rect>, last: Option<Rect>, width: usize, height: usize) -> Option<Rect> {
    match current {
        None => None,
        Some(b) => match last {
            Some(p) => Some(spec_union_bbox(b, p, width, height)),
            None => Some(b),
        },
    }
}

/// The region a partial update covers.
pub fn type7_dirty_bbox(current: Option<Rect>, last: Option<Rect>, width: usize, height: usize) -> (out: Option<Rect>)
    ensures
        out == spec_type7_dirty_bbox(current, last, width, height),
{
    match current {
        None => None,
        Some(b) => match last {
            Some(p) => Some(union_bbox(b, p, width, height)),
            None => Some(b),
        },
    }
}

/// Why a frame goes as a full JPEG rather than a partial update, checked
/// in this order: no surface on screen yet, nothing dirty, most of the
/// frame dirty, a refresh frame; none when a partial update may go.
pub open spec fn spec_type7_full_reason(
    current_fb: Option<u32>,
    dirty: Option<Rect>,
    fullish: bool,
    refresh: bool,
) -> Option<Seq<char>> {
    if current_fb is None {
        Some("no-current-fb"@)
    } else if dirty is None {
        Some("no-dirty-bbox"@)
    } else if fullish {
        Some("fullish"@)
    } else if refresh {
        Some("refresh"@)
    } else {
        None
    }
}

/// Why a frame goes as a full JPEG, if it does.
pub fn type7_full_reason(current_fb: Option<u32>, dirty: Option<Rect>, fullish: bool, refresh: bool) -> (out: Option<&'static str>)
    ensures
        match spec_type7_full_reason(current_fb, dirty, fullish, refresh) {
            Some(r) => out matches Some(s) && s@ == r,
            None => out is None,
        },
{
    if current_fb.is_none() {
        Some("no-current-fb")
    } else if dirty.is_none() {
        Some("no-dirty-bbox")
    } else if fullish {
        Some("fullish")
    } else if refresh {
        Some("refresh")
    } else {
        None
    }
}

/// What the sender decides for a frame of the partial-update transport
/// before it looks at the tile: why it goes as a full JPEG (none when a
/// partial update may go), the region a partial update would cover, and
/// the dirty box to remember for the next frame.
#[derive(Clone, Copy, Debug, PartialEq, Eq)]
pub struct Type7Plan {
    pub full_reason: Option<&'static str>,
    pub dirty_bbox: Option<Rect>,
    pub last_dirty_bbox: Option<Rect>,
}

/// Whether an optional reason is the given text.
pub open spec fn reason_is(out: Option<&'static str>, r: Option<Seq<char>>) -> bool {
    match r {
        Some(t) => out matches Some(s) && s@ == t,
        None => out is None,
    }
}

/// Plans a frame of the partial-update transport: the dirty region is this
/// frame's dirty box grown by the remembered one; the frame goes as a full
/// JPEG for the first reason of `type7_full_reason`, with `fullish` the
/// sender's "most of the frame is dirty" and the refresh due by
/// `type7_refresh_due`; a full frame forgets the remembered box, a partial
/// update remembers this frame's own dirty box.
pub fn plan_type7_frame(
    current_fb: Option<u32>,
    current_dirty: Option<Rect>,
    last_dirty: Option<Rect>,
    width: usize,
    height: usize,
    fullish: bool,
    sent_frames: u32,
    refresh_frames: u32,
) -> (plan: Type7Plan)
    ensures
        plan.dirty_bbox == spec_type7_dirty_bbox(current_dirty, last_dirty, width, height),
        reason_is(
            plan.full_reason,
            spec_type7_full_reason(
                current_fb,
                plan.dirty_bbox,
                fullish,
                sent_frames == 0 || (refresh_frames > 0 && sent_frames % refresh_frames == 0),
            ),
        ),
        plan.last_dirty_bbox == (if plan.full_reason is Some {
            None
        } else {
            current_dirty
        }),
{
    let dirty_bbox = type7_dirty_bbox(current_dirty, last_dirty, width, height);
    let refresh = type7_refresh_due(sent_frames, refresh_frames);
    let full_reason = type7_full_reason(current_fb, dirty_bbox, fullish, refresh);
    let last_dirty_bbox = if full_reason.is_some() {
        None
    } else {
        current_dirty
    };
    Type7Plan { full_reason, dirty_bbox, last_dirty_bbox }
}

/// Why a planned tile falls back to a full JPEG, checked in this order:
/// the tile covers too much of the frame, a horizontal band too thin, a
/// vertical band too thin, a local tile too small; none when it may go.
pub open spec fn spec_tile_fallback_reason(
    too_large: bool,
    thin_horizontal: bool,
    thin_vertical: bool,
    small_local: bool,
) -> Option<Seq<char>> {
    if too_large {
        Some("tile-ratio"@)
    } else if thin_horizontal {
        Some("min-horizontal-band"@)
    } else if thin_vertical {
        Some("min-vertical-band"@)
    } else if small_local {
        Some("min-local-area"@)
    } else {
        None
    }
}

/// The tile check of a partial update: the reason it falls back to a full
/// JPEG, if it does, and the dirty box to remember, which a fallback
/// forgets.
pub fn type7_tile_fallback(
    too_large: bool,
    thin_horizontal: bool,
    thin_vertical: bool,
    small_local: bool,
    last_dirty: Option<Rect>,
) -> (out: (Option<&'static str>, Option<Rect>))
    ensures
        reason_is(
            out.0,
            spec_tile_fallback_reason(too_large, thin_horizontal, thin_vertical, small_local),
        ),
        out.1 == (if out.0 is Some {
            None
        } else {
            last_dirty
        }),
{
    let reason: Option<&'static str> = if too_large {
        Some("tile-ratio")
    } else if thin_horizontal {
        Some("min-horizontal-band")
    } else if thin_vertical {
        Some("min-vertical-band")
    } else if small_local {
        Some("min-local-area")
    } else {
        None
    };
    let last = if reason.is_some() {
        None
    } else {
        last_dirty
    };
    (reason, last)
}

/// A partial update whose command slot made the ring wrap (the scheduler
/// asked for a JPEG engine reset) goes as a full JPEG instead, for the
/// reason "cmd-wrap", and forgets the remembered dirty box.
pub fn type7_wrap_fallback(reset_jpeg: bool, last_dirty: Option<Rect>) -> (out: (
    Option<&'static str>,
    Option<Rect>,
))
    ensures
        reason_is(out.0, if reset_jpeg { Some("cmd-wrap"@) } else { None }),
        out.1 == (if reset_jpeg {
            None
        } else {
            last_dirty
        }),
{
    if reset_jpeg {
        (Some("cmd-wrap"), None)
    } else {
        (None, last_dirty)
    }
}

/// The adapter's three surface slots for partial updates, by slot number.
pub open spec fn allocated_base(slot: int) -> u32 {
    if slot == 0 {
        0x0250_0400
    } else if slot == 1 {
        0x0295_56c0
    } else {
        0x02da_a980
    }
}

/// The order the slots are set up in, by turn: 2, 0, 1.
pub open spec fn slot_in_turn(turn: int) -> int {
    if turn == 0 {
        2
    } else if turn == 1 {
        0
    } else {
        1
    }
}

/// The surface slot of this turn: its base address, and the next turn.
pub fn next_type7_slot(turn: usize) -> (out: (u32, usize))
    requires
        turn < 3,
    ensures
        out.0 == allocated_base(slot_in_turn(turn as int)),
        out.1 == (turn + 1) % 3,
{
    let slot: usize = if turn == 0 {
        2
    } else if turn == 1 {
        0
    } else {
        1
    };
    let base: u32 = if slot == 0 {
        0x0250_0400
    } else if slot == 1 {
        0x0295_56c0
    } else {
        0x02da_a980
    };
    (base, (turn + 1) % 3)
}

/// Three setups in a row use the three slots, each once, and come back to
/// the turn they started from.
pub proof fn lemma_slots_cycle(turn: int)
    requires
        0 <= turn < 3,
    ensures
        ({
            let t1 = (turn + 1) % 3;
            let t2 = (t1 + 1) % 3;
            &&& (t2 + 1) % 3 == turn
            &&& allocated_base(slot_in_turn(turn)) != allocated_base(slot_in_turn(t1))
            &&& allocated_base(slot_in_turn(t1)) != allocated_base(slot_in_turn(t2))
            &&& allocated_base(slot_in_turn(turn)) != allocated_base(slot_in_turn(t2))
        }),
{
}

} // verus!
