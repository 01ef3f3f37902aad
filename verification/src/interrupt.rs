//! Interrupt packets from the adapter, and the bookkeeping of a wait for a
//! fence acknowledgement.
use vstd::prelude::*;

use crate::bytes::read_le_u32;
use crate::text::{decimal, hex_fixed, push_decimal, push_hex, push_str};
use crate::{
    INTERRUPT_PACKET_SIZE, INT_DISPLAY_EVENT_FENCE_ID, INT_DISPLAY_EVENT_JPEG_ERROR,
    INT_FUNC_DISPLAY,
};

verus! {

/// The display-related content of one interrupt packet.
#[derive(Clone, Copy, Debug, PartialEq, Eq)]
pub struct DisplayInterrupt {
    pub is_display: bool,
    pub display_data: u32,
    pub display_event: u8,
    pub has_fence_id: bool,
    pub has_jpeg_error: bool,
}

/// What a packet says: the display function bit of byte 0, the
/// little-endian word at 12..16, and the event byte at 19, whose fence and
/// JPEG-error bits count only for display interrupts.
pub open spec fn spec_parse_interrupt(packet: Seq<u8>) -> DisplayInterrupt {
    let is_display = packet[0] & INT_FUNC_DISPLAY != 0;
    let display_event = packet[19];
    DisplayInterrupt {
        is_display,
        display_data: read_le_u32(packet, 12) as u32,
        display_event,
        has_fence_id: is_display && display_event & INT_DISPLAY_EVENT_FENCE_ID != 0,
        has_jpeg_error: is_display && display_event & INT_DISPLAY_EVENT_JPEG_ERROR != 0,
    }
}

impl DisplayInterrupt {
    /// Decodes an interrupt packet.
    pub fn parse(packet: &[u8; INTERRUPT_PACKET_SIZE]) -> (interrupt: Self)
        ensures
            interrupt == spec_parse_interrupt(packet@),
    {
        let is_display = packet[0] & INT_FUNC_DISPLAY != 0;
        let display_data = packet[12] as u32 + 256 * (packet[13] as u32) + 65536 * (
        packet[14] as u32) + 16777216 * (packet[15] as u32);
        let display_event = packet[19];
        Self {
            is_display,
            display_data,
            display_event,
            has_fence_id: is_display && display_event & INT_DISPLAY_EVENT_FENCE_ID != 0,
            has_jpeg_error: is_display && display_event & INT_DISPLAY_EVENT_JPEG_ERROR != 0,
        }
    }
}

/// Counts kept while waiting for the adapter to acknowledge a fence.
#[derive(Clone, Copy, Debug, Default, PartialEq, Eq)]
pub struct InterruptWaitSummary {
    pub packets: u32,
    pub fences: u32,
    pub matched_fences: u32,
    pub jpeg_errors: u32,
    pub target_data: u32,
    pub last_event: u8,
    pub last_data: u32,
}

/// The summary after one more interrupt: every packet is counted and
/// remembered, a fence is counted, a fence carrying the target is counted
/// as matched (and ends the wait before any JPEG error in it is counted),
/// and otherwise a JPEG error is counted. Counters saturate.
pub open spec fn spec_record_interrupt(s: InterruptWaitSummary, interrupt: DisplayInterrupt) -> (
    InterruptWaitSummary,
    bool,
) {
    let matched = interrupt.has_fence_id && interrupt.display_data == s.target_data;
    let next = InterruptWaitSummary {
        packets: s.packets.saturating_add(1),
        fences: if interrupt.has_fence_id {
            s.fences.saturating_add(1)
        } else {
            s.fences
        },
        matched_fences: if matched {
            s.matched_fences.saturating_add(1)
        } else {
            s.matched_fences
        },
        jpeg_errors: if !matched && interrupt.has_jpeg_error {
            s.jpeg_errors.saturating_add(1)
        } else {
            s.jpeg_errors
        },
        target_data: s.target_data,
        last_event: interrupt.display_event,
        last_data: interrupt.display_data,
    };
    (next, matched)
}

/// Counters that are consistent: no more fences than packets, no more
/// matches than fences, no more JPEG errors than packets.
pub open spec fn summary_consistent(s: InterruptWaitSummary) -> bool {
    s.matched_fences <= s.fences <= s.packets && s.jpeg_errors <= s.packets
}

impl InterruptWaitSummary {
    /// An empty summary of a wait for the fence carrying `target_data`.
    pub fn new(target_data: u32) -> (summary: Self)
        ensures
            summary == (InterruptWaitSummary {
                packets: 0,
                fences: 0,
                matched_fences: 0,
                jpeg_errors: 0,
                target_data,
                last_event: 0,
                last_data: 0,
            }),
            summary_consistent(summary),
    {
        Self {
            packets: 0,
            fences: 0,
            matched_fences: 0,
            jpeg_errors: 0,
            target_data,
            last_event: 0,
            last_data: 0,
        }
    }

    /// How far the last acknowledged data lags behind the target, zero when
    /// it has caught up.
    pub fn ack_lag(self) -> (lag: u32)
        ensures
            lag == self.target_data.saturating_sub(self.last_data),
    {
        self.target_data.saturating_sub(self.last_data)
    }

    /// Records one interrupt; returns whether the wait is over because the
    /// target fence was acknowledged.
    pub fn record(&mut self, interrupt: DisplayInterrupt) -> (done: bool)
        ensures
            (*final(self), done) == spec_record_interrupt(*old(self), interrupt),
            summary_consistent(*old(self)) ==> summary_consistent(*final(self)),
    {
        self.packets = self.packets.saturating_add(1);
        self.last_event = interrupt.display_event;
        self.last_data = interrupt.display_data;
        if interrupt.has_fence_id {
            self.fences = self.fences.saturating_add(1);
            if interrupt.display_data == self.target_data {
                self.matched_fences = self.matched_fences.saturating_add(1);
                return true;
            }
        }
        if interrupt.has_jpeg_error {
            self.jpeg_errors = self.jpeg_errors.saturating_add(1);
        }
        false
    }
}

/// Decoding reads the fields from where the adapter puts them: the data
/// word is the little-endian value at 12..16, and the fence and JPEG-error
/// flags are never set for a packet without the display function bit.
pub proof fn lemma_interrupt_flags_need_display(packet: Seq<u8>)
    requires
        packet.len() == INTERRUPT_PACKET_SIZE,
    ensures
        !spec_parse_interrupt(packet).is_display ==> !spec_parse_interrupt(packet).has_fence_id
            && !spec_parse_interrupt(packet).has_jpeg_error,
        spec_parse_interrupt(packet).display_data == read_le_u32(packet, 12),
{
}

} // verus!

verus! {

/// The report line suffix of a wait, or nothing without one.
pub open spec fn interrupt_summary_text(s: Option<InterruptWaitSummary>) -> Seq<char> {
    match s {
        None => Seq::empty(),
        Some(s) => " interrupts="@ + decimal(s.packets as nat) + " fences="@ + decimal(
            s.fences as nat,
        ) + " matched="@ + decimal(s.matched_fences as nat) + " target_data=0x"@ + hex_fixed(
            s.target_data as nat,
            8,
        ) + " ack_lag="@ + decimal(s.target_data.saturating_sub(s.last_data) as nat)
            + " jpeg_errors="@ + decimal(s.jpeg_errors as nat) + " last_event=0x"@ + hex_fixed(
            s.last_event as nat,
            2,
        ) + " last_data=0x"@ + hex_fixed(s.last_data as nat, 8),
    }
}

/// Describes a wait for the frame report line.
pub fn format_interrupt_summary(summary: Option<InterruptWaitSummary>) -> (out: String)
    ensures
        out@ == interrupt_summary_text(summary),
{
    match summary {
        None => String::new(),
        Some(s) => {
            let mut out = String::new();
            push_str(&mut out, " interrupts=");
            push_decimal(&mut out, s.packets as u64);
            push_str(&mut out, " fences=");
            push_decimal(&mut out, s.fences as u64);
            push_str(&mut out, " matched=");
            push_decimal(&mut out, s.matched_fences as u64);
            push_str(&mut out, " target_data=0x");
            push_hex(&mut out, s.target_data as u64, 8);
            push_str(&mut out, " ack_lag=");
            push_decimal(&mut out, s.ack_lag() as u64);
            push_str(&mut out, " jpeg_errors=");
            push_decimal(&mut out, s.jpeg_errors as u64);
            push_str(&mut out, " last_event=0x");
            push_hex(&mut out, s.last_event as u64, 2);
            push_str(&mut out, " last_data=0x");
            push_hex(&mut out, s.last_data as u64, 8);
            out
        },
    }
}

/// The report line suffix of a wait for a setup acknowledgement, or
/// nothing without one.
pub open spec fn setup_ack_text(s: Option<InterruptWaitSummary>) -> Seq<char> {
    match s {
        None => Seq::empty(),
        Some(s) => " setup_ack_packets="@ + decimal(s.packets as nat) + " setup_ack_fences="@
            + decimal(s.fences as nat) + " setup_ack_matched="@ + decimal(s.matched_fences as nat)
            + " setup_ack_lag="@ + decimal(s.target_data.saturating_sub(s.last_data) as nat)
            + " setup_ack_last=0x"@ + hex_fixed(s.last_data as nat, 8),
    }
}

/// Describes a wait for a setup acknowledgement for the report line.
pub fn format_setup_ack_summary(summary: Option<InterruptWaitSummary>) -> (out: String)
    ensures
        out@ == setup_ack_text(summary),
{
    match summary {
        None => String::new(),
        Some(s) => {
            let mut out = String::new();
            push_str(&mut out, " setup_ack_packets=");
            push_decimal(&mut out, s.packets as u64);
            push_str(&mut out, " setup_ack_fences=");
            push_decimal(&mut out, s.fences as u64);
            push_str(&mut out, " setup_ack_matched=");
            push_decimal(&mut out, s.matched_fences as u64);
            push_str(&mut out, " setup_ack_lag=");
            push_decimal(&mut out, s.ack_lag() as u64);
            push_str(&mut out, " setup_ack_last=0x");
            push_hex(&mut out, s.last_data as u64, 8);
            out
        },
    }
}


/// A parsed packet reports a fence acknowledgement exactly when byte 0 has
/// the display function bit (value 4) and the event byte 19 has the fence
/// bit (value 4), and a JPEG decode error exactly when byte 0 has the
/// display bit and byte 19 has the error bit (value 8); no other event bit
/// makes a fence or an error. The event byte and the little-endian data
/// word at bytes 12..16 are carried over as they are.
pub proof fn lemma_interrupt_events(packet: Seq<u8>)
    requires
        packet.len() == INTERRUPT_PACKET_SIZE,
    ensures
        ({
            let i = spec_parse_interrupt(packet);
            &&& i.is_display <==> (packet[0] / 4) % 2 == 1
            &&& i.has_fence_id <==> ((packet[0] / 4) % 2 == 1 && (packet[19] / 4) % 2 == 1)
            &&& i.has_jpeg_error <==> ((packet[0] / 4) % 2 == 1 && (packet[19] / 8) % 2 == 1)
            &&& i.display_event == packet[19]
            &&& i.display_data == packet[12] + 256 * packet[13] + 65536 * packet[14]
                + 16777216 * packet[15]
        }),
{
    let b0 = packet[0];
    let e = packet[19];
    assert((b0 & 4u8 != 0) == ((b0 / 4) % 2 == 1)) by (bit_vector);
    assert((e & 4u8 != 0) == ((e / 4) % 2 == 1)) by (bit_vector);
    assert((e & 8u8 != 0) == ((e / 8) % 2 == 1)) by (bit_vector);
}

} // verus!
