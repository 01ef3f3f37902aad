//! Where frames go in the adapter's video RAM: the fixed layouts, and the
//! scheduler that rotates framebuffers and advances the command ring.
use vstd::prelude::*;

use crate::{JPEG_PADDING_SIZE, VIDEO_FLAG_RESET_JPEG, VIDEO_FLIP_HEADER_SIZE};

verus! {

/// Command area and the three framebuffers of one display.
#[derive(Clone, Copy, Debug, PartialEq, Eq)]
pub struct VramLayout {
    pub cmd_addr: u32,
    pub fb_addrs: [u32; 3],
}

/// `mb` mebibytes, in bytes.
pub open spec fn mib(mb: int) -> int {
    mb * 1024 * 1024
}

impl VramLayout {
    /// Single-display layout: commands at 0, framebuffers 12, 8 and 4 MiB
    /// below the end of RAM.
    pub fn one_port_1080p(ram_size_mb: u8) -> (layout: Self)
        requires
            ram_size_mb >= 12,
        ensures
            layout.cmd_addr == 0,
            layout.fb_addrs@ == seq![
                mib(ram_size_mb - 12) as u32,
                mib(ram_size_mb - 8) as u32,
                mib(ram_size_mb - 4) as u32,
            ],
    {
        let ram_size_mb = ram_size_mb as u32;
        let layout = Self {
            cmd_addr: 0,
            fb_addrs: [
                (ram_size_mb - 12) * 1024 * 1024,
                (ram_size_mb - 8) * 1024 * 1024,
                (ram_size_mb - 4) * 1024 * 1024,
            ],
        };
        assert(layout.fb_addrs@ =~= seq![
            mib(ram_size_mb - 12) as u32,
            mib(ram_size_mb - 8) as u32,
            mib(ram_size_mb - 4) as u32,
        ]);
        layout
    }

    /// Secondary display of a two-display layout: commands 18 MiB below the
    /// end of RAM, framebuffers 12, 8 and 4 MiB below it.
    pub fn two_port_1080p_secondary(ram_size_mb: u8) -> (layout: Self)
        requires
            ram_size_mb >= 18,
        ensures
            layout.cmd_addr == mib(ram_size_mb - 18),
            layout.fb_addrs@ == seq![
                mib(ram_size_mb - 12) as u32,
                mib(ram_size_mb - 8) as u32,
                mib(ram_size_mb - 4) as u32,
            ],
    {
        let ram_size_mb = ram_size_mb as u32;
        let cmd_base_mb = ram_size_mb - 18;
        let layout = Self {
            cmd_addr: cmd_base_mb * 1024 * 1024,
            fb_addrs: [
                (ram_size_mb - 12) * 1024 * 1024,
                (ram_size_mb - 8) * 1024 * 1024,
                (ram_size_mb - 4) * 1024 * 1024,
            ],
        };
        assert(layout.fb_addrs@ =~= seq![
            mib(ram_size_mb - 12) as u32,
            mib(ram_size_mb - 8) as u32,
            mib(ram_size_mb - 4) as u32,
        ]);
        layout
    }
}

/// Rotates among a layout's framebuffers and advances the command address
/// by one slot per frame, wrapping back to the start before it would reach
/// the first framebuffer.
#[derive(Clone, Debug, PartialEq, Eq)]
pub struct FrameScheduler {
    initial_cmd_addr: u32,
    cmd_addr: u32,
    fb_addrs: [u32; 3],
    fb_index: usize,
    reset_frames_remaining: u32,
}

/// Where one frame goes, and whether the adapter should reset its JPEG
/// engine for it.
#[derive(Clone, Copy, Debug, PartialEq, Eq)]
pub struct FrameAddresses {
    pub cmd_addr: u32,
    pub fb_addr: u32,
    pub reset_jpeg: bool,
    pub cmd_offset: u32,
}

/// The video flip flags of a frame: the JPEG engine reset flag when a
/// reset is asked for, no flag otherwise.
pub fn reset_jpeg_flags(reset_jpeg: bool) -> (flags: u8)
    ensures
        flags == (if reset_jpeg {
            VIDEO_FLAG_RESET_JPEG
        } else {
            0u8
        }),
{
    if reset_jpeg {
        VIDEO_FLAG_RESET_JPEG
    } else {
        0
    }
}

impl FrameAddresses {
    /// The video flip flags this frame goes with.
    pub fn video_flags(&self) -> (flags: u8)
        ensures
            flags == (if self.reset_jpeg {
                VIDEO_FLAG_RESET_JPEG
            } else {
                0u8
            }),
    {
        reset_jpeg_flags(self.reset_jpeg)
    }
}

/// The state of a [`FrameScheduler`].
pub struct SchedulerState {
    pub initial_cmd_addr: u32,
    pub cmd_addr: u32,
    pub fb_addrs: [u32; 3],
    pub fb_index: usize,
    pub reset_frames_remaining: u32,
}

/// Size of the command slot for a payload of `payload_len` bytes: 1, 2 or
/// 3 MiB.
pub open spec fn spec_jpeg_cmd_offset(payload_len: int) -> u32 {
    if payload_len < 0x100000 {
        0x100000
    } else if payload_len < 0x200000 {
        0x200000
    } else {
        0x300000
    }
}

/// Command slot size for a JPEG of `jpeg_len` bytes, counting the header
/// and padding.
pub open spec fn frame_cmd_offset(jpeg_len: int) -> u32 {
    spec_jpeg_cmd_offset(jpeg_len + JPEG_PADDING_SIZE + VIDEO_FLIP_HEADER_SIZE)
}

/// Whether the command slot of the next frame starts over at the initial
/// command address.
pub open spec fn next_wraps(s: SchedulerState, jpeg_len: int) -> bool {
    s.cmd_addr + frame_cmd_offset(jpeg_len) > s.fb_addrs[0]
}

/// Where the next frame goes.
pub open spec fn spec_next_addresses(s: SchedulerState, jpeg_len: int) -> FrameAddresses {
    let index = (s.fb_index + 1) % 3;
    FrameAddresses {
        cmd_addr: if next_wraps(s, jpeg_len) {
            s.initial_cmd_addr
        } else {
            s.cmd_addr
        },
        fb_addr: s.fb_addrs[index],
        reset_jpeg: next_wraps(s, jpeg_len) || s.reset_frames_remaining > 0,
        cmd_offset: frame_cmd_offset(jpeg_len),
    }
}

/// The scheduler's state after the next frame.
pub open spec fn spec_next_state(s: SchedulerState, jpeg_len: int) -> SchedulerState {
    let addresses = spec_next_addresses(s, jpeg_len);
    SchedulerState {
        initial_cmd_addr: s.initial_cmd_addr,
        cmd_addr: (addresses.cmd_addr + addresses.cmd_offset) as u32,
        fb_addrs: s.fb_addrs,
        fb_index: ((s.fb_index + 1) % 3) as usize,
        reset_frames_remaining: if s.reset_frames_remaining > 0 {
            (s.reset_frames_remaining - 1) as u32
        } else {
            0
        },
    }
}

/// Whether scheduling the next frame stays within 32-bit addresses.
pub open spec fn next_fits(s: SchedulerState, jpeg_len: int) -> bool {
    &&& s.cmd_addr + frame_cmd_offset(jpeg_len) <= u32::MAX
    &&& s.initial_cmd_addr + frame_cmd_offset(jpeg_len) <= u32::MAX
}

/// A state from which any number of frames can be scheduled without
/// leaving 32-bit addresses.
pub open spec fn scheduler_wf(s: SchedulerState) -> bool {
    &&& s.fb_index < 3
    &&& s.initial_cmd_addr + 0x600000 <= u32::MAX
    &&& s.fb_addrs[0] + 0x300000 <= u32::MAX
    &&& (s.cmd_addr <= s.fb_addrs[0] || s.cmd_addr <= s.initial_cmd_addr + 0x300000)
}

/// Whether a layout's addresses leave room for the scheduler to run.
pub open spec fn layout_fits(layout: VramLayout) -> bool {
    layout.cmd_addr + 0x600000 <= u32::MAX && layout.fb_addrs[0] + 0x300000 <= u32::MAX
}

/// The state of a fresh scheduler for `layout`.
pub open spec fn initial_state(layout: VramLayout) -> SchedulerState {
    SchedulerState {
        initial_cmd_addr: layout.cmd_addr,
        cmd_addr: layout.cmd_addr,
        fb_addrs: layout.fb_addrs,
        fb_index: 1,
        reset_frames_remaining: 10,
    }
}

/// The state of a fresh scheduler for `layout` after it has scheduled
/// frames of the lengths `lens`, in order.
pub open spec fn state_after(layout: VramLayout, lens: Seq<usize>) -> SchedulerState
    decreases lens.len(),
{
    if lens.len() == 0 {
        initial_state(layout)
    } else {
        spec_next_state(state_after(layout, lens.drop_last()), lens.last() as int)
    }
}

/// Where frame `i` (counting from 0) of a fresh scheduler for `layout`
/// goes, when the frames have the lengths `lens`.
pub open spec fn frame_at(layout: VramLayout, lens: Seq<usize>, i: int) -> FrameAddresses {
    spec_next_addresses(state_after(layout, lens.take(i)), lens[i] as int)
}

/// The command address that frame `i` would start at if the ring did not
/// wrap: the start of the ring for the first frame, and right after the
/// previous frame's slot otherwise.
pub open spec fn slot_candidate(layout: VramLayout, lens: Seq<usize>, i: int) -> int {
    if i == 0 {
        layout.cmd_addr as int
    } else {
        frame_at(layout, lens, i - 1).cmd_addr + frame_at(layout, lens, i - 1).cmd_offset
    }
}

impl View for FrameScheduler {
    type V = SchedulerState;

    closed spec fn view(&self) -> SchedulerState {
        SchedulerState {
            initial_cmd_addr: self.initial_cmd_addr,
            cmd_addr: self.cmd_addr,
            fb_addrs: self.fb_addrs,
            fb_index: self.fb_index,
            reset_frames_remaining: self.reset_frames_remaining,
        }
    }
}

impl FrameScheduler {
    /// A scheduler at the start of `layout`: framebuffer index 1, and a JPEG
    /// engine reset requested for the first ten frames.
    pub fn new(layout: VramLayout) -> (scheduler: Self)
        ensures
            scheduler@.initial_cmd_addr == layout.cmd_addr,
            scheduler@.cmd_addr == layout.cmd_addr,
            scheduler@.fb_addrs == layout.fb_addrs,
            scheduler@.fb_index == 1,
            scheduler@.reset_frames_remaining == 10,
            scheduler@ == initial_state(layout),
            layout_fits(layout) ==> scheduler_wf(scheduler@),
    {
        Self {
            initial_cmd_addr: layout.cmd_addr,
            cmd_addr: layout.cmd_addr,
            fb_addrs: layout.fb_addrs,
            fb_index: 1,
            reset_frames_remaining: 10,
        }
    }

    /// Whether the next frame of `jpeg_len` bytes can be scheduled without
    /// its addresses leaving 32 bits.
    pub fn can_schedule(&self, jpeg_len: usize) -> (b: bool)
        ensures
            b == (jpeg_len + JPEG_PADDING_SIZE + VIDEO_FLIP_HEADER_SIZE <= usize::MAX
                && self@.fb_index < 3 && next_fits(self@, jpeg_len as int)),
    {
        if jpeg_len > usize::MAX - JPEG_PADDING_SIZE - VIDEO_FLIP_HEADER_SIZE || self.fb_index >= 3 {
            return false;
        }
        let offset = jpeg_cmd_offset(jpeg_len + JPEG_PADDING_SIZE + VIDEO_FLIP_HEADER_SIZE);
        self.cmd_addr as u64 + offset as u64 <= u32::MAX as u64 && self.initial_cmd_addr as u64
            + offset as u64 <= u32::MAX as u64
    }

    /// Addresses for the next JPEG frame of `jpeg_len` bytes: the next
    /// framebuffer in turn, and the current command slot, which starts over
    /// at the initial address when the slot would pass the first
    /// framebuffer.
    pub fn next_jpeg_frame(&mut self, jpeg_len: usize) -> (addresses: FrameAddresses)
        requires
            jpeg_len + JPEG_PADDING_SIZE + VIDEO_FLIP_HEADER_SIZE <= usize::MAX,
            old(self)@.fb_index < 3,
            next_fits(old(self)@, jpeg_len as int),
        ensures
            addresses == spec_next_addresses(old(self)@, jpeg_len as int),
            final(self)@ == spec_next_state(old(self)@, jpeg_len as int),
    {
        self.fb_index = (self.fb_index + 1) % 3;
        let fb_addr = self.fb_addrs[self.fb_index];
        let cmd_offset = jpeg_cmd_offset(jpeg_len + JPEG_PADDING_SIZE + VIDEO_FLIP_HEADER_SIZE);
        let mut reset_jpeg = false;

        if self.cmd_addr + cmd_offset > self.fb_addrs[0] {
            self.cmd_addr = self.initial_cmd_addr;
            reset_jpeg = true;
        }
        if self.reset_frames_remaining > 0 {
            self.reset_frames_remaining = self.reset_frames_remaining - 1;
            reset_jpeg = true;
        }
        let addresses = FrameAddresses {
            cmd_addr: self.cmd_addr,
            fb_addr,
            reset_jpeg,
            cmd_offset,
        };
        self.cmd_addr = self.cmd_addr + cmd_offset;
        addresses
    }
}

/// Size of the command slot for a payload of `payload_len` bytes.
pub fn jpeg_cmd_offset(payload_len: usize) -> (offset: u32)
    ensures
        offset == spec_jpeg_cmd_offset(payload_len as int),
{
    if payload_len < 0x100000 {
        0x100000
    } else if payload_len < 0x200000 {
        0x200000
    } else {
        0x300000
    }
}

/// A well-formed scheduler can always take the next frame, and stays
/// well-formed after it.
pub proof fn lemma_scheduler_wf_preserved(s: SchedulerState, jpeg_len: int)
    requires
        scheduler_wf(s),
    ensures
        next_fits(s, jpeg_len),
        scheduler_wf(spec_next_state(s, jpeg_len)),
{
}

/// The command slot handed out for a frame never reaches into the first
/// framebuffer unless it is the initial slot, and the next frame's slot
/// follows it directly unless the ring starts over.
pub proof fn lemma_command_slots_are_consecutive(s: SchedulerState, jpeg_len: int, next_len: int)
    requires
        scheduler_wf(s),
    ensures
        ({
            let first = spec_next_addresses(s, jpeg_len);
            let second = spec_next_addresses(spec_next_state(s, jpeg_len), next_len);
            &&& (first.cmd_addr + first.cmd_offset <= s.fb_addrs[0] || first.cmd_addr
                == s.initial_cmd_addr)
            &&& (second.cmd_addr == first.cmd_addr + first.cmd_offset || second.cmd_addr
                == s.initial_cmd_addr)
        }),
{
}

/// Framebuffers are used in strict rotation: three frames later the same
/// framebuffer comes round again, and consecutive frames use the slots in
/// turn.
pub proof fn lemma_framebuffers_rotate(s: SchedulerState, a: int, b: int, c: int, d: int)
    requires
        scheduler_wf(s),
    ensures
        ({
            let s1 = spec_next_state(s, a);
            let s2 = spec_next_state(s1, b);
            let s3 = spec_next_state(s2, c);
            &&& spec_next_addresses(s3, d).fb_addr == spec_next_addresses(s, a).fb_addr
            &&& s1.fb_index != s2.fb_index && s2.fb_index != s3.fb_index && s1.fb_index
                != s3.fb_index
        }),
{
}

/// While resets remain to be requested, every frame asks for a JPEG engine
/// reset; a fresh scheduler does so for its first ten frames.
pub proof fn lemma_initial_frames_reset(s: SchedulerState, jpeg_len: int)
    requires
        s.reset_frames_remaining > 0,
    ensures
        spec_next_addresses(s, jpeg_len).reset_jpeg,
        spec_next_state(s, jpeg_len).reset_frames_remaining == s.reset_frames_remaining - 1,
{
}

/// What `n` frames of a fresh scheduler leave behind: the layout's
/// addresses, the framebuffer index `(1 + n) % 3`, the resets still owed,
/// and, when the ring has room for the largest slot, a command address
/// within the ring.
proof fn lemma_state_after(layout: VramLayout, lens: Seq<usize>)
    ensures
        ({
            let s = state_after(layout, lens);
            &&& s.initial_cmd_addr == layout.cmd_addr
            &&& s.fb_addrs == layout.fb_addrs
            &&& s.fb_index == (1 + lens.len()) % 3
            &&& s.reset_frames_remaining == (if lens.len() < 10 {
                10 - lens.len()
            } else {
                0
            })
            &&& layout.cmd_addr + 0x300000 <= layout.fb_addrs[0] ==> layout.cmd_addr <= s.cmd_addr
                <= layout.fb_addrs[0]
        }),
    decreases lens.len(),
{
    if lens.len() > 0 {
        lemma_state_after(layout, lens.drop_last());
    }
}

/// Frame `i` is scheduled from the state its earlier frames leave, and
/// that state's command address is where frame `i` would start without a
/// wrap.
proof fn lemma_frame_at_state(layout: VramLayout, lens: Seq<usize>, i: int)
    requires
        0 <= i < lens.len(),
        layout.cmd_addr + 0x300000 <= layout.fb_addrs[0],
    ensures
        state_after(layout, lens.take(i)).cmd_addr == slot_candidate(layout, lens, i),
{
    if i > 0 {
        let prev = lens.take(i - 1);
        assert(lens.take(i).drop_last() =~= prev);
        assert(lens.take(i).last() == lens[i - 1]);
        assert(lens.take(i - 1) =~= prev);
        lemma_state_after(layout, prev);
        let s = state_after(layout, prev);
        let a = spec_next_addresses(s, lens[i - 1] as int);
        assert(a == frame_at(layout, lens, i - 1));
        assert(a.cmd_addr + a.cmd_offset <= layout.fb_addrs[0]);
    }
}

/// Command slots over any number of frames from a fresh scheduler whose
/// ring has room for the largest slot: each frame's slot has its payload's
/// size class, starts right after the previous slot (or at the ring start
/// for the first frame) unless that would pass the first framebuffer, in
/// which case it starts over at the ring start, and never reaches into the
/// first framebuffer.
pub proof fn lemma_command_slots_over_frames(layout: VramLayout, lens: Seq<usize>, i: int)
    requires
        0 <= i < lens.len(),
        layout.cmd_addr + 0x300000 <= layout.fb_addrs[0],
    ensures
        ({
            let a = frame_at(layout, lens, i);
            let c = slot_candidate(layout, lens, i);
            &&& a.cmd_offset == frame_cmd_offset(lens[i] as int)
            &&& a.cmd_addr == (if c + a.cmd_offset > layout.fb_addrs[0] {
                layout.cmd_addr as int
            } else {
                c
            })
            &&& layout.cmd_addr <= a.cmd_addr
            &&& a.cmd_addr + a.cmd_offset <= layout.fb_addrs[0]
        }),
{
    lemma_state_after(layout, lens.take(i));
    lemma_frame_at_state(layout, lens, i);
}

/// Framebuffers and JPEG engine resets over any number of frames from a
/// fresh scheduler: frame `i` (counting from 0) uses framebuffer
/// `(i + 2) % 3` (2, 0, 1, 2, ...); the first ten frames ask for a reset;
/// after them a frame asks for one exactly when the command ring wraps,
/// and a wrapped frame's slot is at the ring start.
pub proof fn lemma_frame_rotation_and_resets(layout: VramLayout, lens: Seq<usize>, i: int)
    requires
        0 <= i < lens.len(),
    ensures
        ({
            let a = frame_at(layout, lens, i);
            let c = slot_candidate(layout, lens, i);
            &&& a.fb_addr == layout.fb_addrs[(i + 2) % 3]
            &&& i < 10 ==> a.reset_jpeg
            &&& i >= 10 && layout.cmd_addr + 0x300000 <= layout.fb_addrs[0] ==> (a.reset_jpeg
                <==> c + a.cmd_offset > layout.fb_addrs[0])
            &&& (c + a.cmd_offset > layout.fb_addrs[0] && layout.cmd_addr + 0x300000
                <= layout.fb_addrs[0]) ==> a.cmd_addr == layout.cmd_addr
        }),
{
    lemma_state_after(layout, lens.take(i));
    if layout.cmd_addr + 0x300000 <= layout.fb_addrs[0] {
        lemma_frame_at_state(layout, lens, i);
    }
}


/// A command slot always holds its payload and is the smallest that does:
/// for a payload of at most 3 MiB the slot is 1, 2 or 3 MiB, at least the
/// payload (larger, below 3 MiB), and less than 1 MiB more than it;
/// larger payloads get the 3 MiB slot. So a scheduled frame's slot holds
/// its JPEG with the flip header and padding whenever those fit in 3 MiB.
pub proof fn lemma_cmd_slot_holds_payload(payload_len: int, jpeg_len: int, s: SchedulerState)
    requires
        0 <= payload_len,
        0 <= jpeg_len,
    ensures
        ({
            let slot = spec_jpeg_cmd_offset(payload_len) as int;
            &&& slot == 0x100000 || slot == 0x200000 || slot == 0x300000
            &&& payload_len <= 0x300000 ==> payload_len <= slot
            &&& payload_len < 0x300000 ==> payload_len < slot
            &&& slot - 0x100000 <= payload_len
            &&& payload_len >= 0x200000 ==> slot == 0x300000
        }),
        jpeg_len + 1024 + 48 <= 0x300000 ==> spec_next_addresses(s, jpeg_len).cmd_offset >= jpeg_len
            + 1024 + 48,
{
}

} // verus!
