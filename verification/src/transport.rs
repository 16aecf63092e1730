//! The device-side session: stamps every outgoing frame with the session's
//! identity and a per-session sequence number.

use vstd::prelude::*;
use crate::bus::BusProfile;
use crate::protocol::{
    bus_fits, descriptor_fits, BusDescriptor, ErrorFrame, HeartbeatFrame, HelloFrame, ProbeResultFrame, SampleFrame,
    TopologyFrame, WireFormat, WireFrame, WireHeader, MAX_BUSES_PER_SYSTEM, MAX_IMUS_PER_SYSTEM,
    MAX_LABEL_LEN, MAX_MESSAGE_LEN, PROTOCOL_VERSION,
};
use crate::sample::RawSample;
use crate::text::{bounded_copy, fits_prefix};
use crate::types::{ImuDescriptor, ImuError, ImuId, ImuKind};

verus! {

pub struct SessionRuntime {
    system_id: u16,
    session_id: u32,
    format: WireFormat,
    seq: u32,
}

/// `seq + 1`, wrapping around at `u32::MAX`.
pub open spec fn next_seq(seq: u32) -> u32 {
    if seq == u32::MAX {
        0
    } else {
        (seq + 1) as u32
    }
}

/// The abstract state of a session: its identity and the sequence number
/// the next frame will carry.
pub struct SessionState {
    pub system_id: u16,
    pub session_id: u32,
    pub format: WireFormat,
    pub seq: u32,
}

/// The header the next frame sent at `uptime_ms` will carry.
pub open spec fn next_header(state: SessionState, uptime_ms: u32) -> WireHeader {
    WireHeader {
        protocol_version: PROTOCOL_VERSION,
        format: state.format,
        system_id: state.system_id,
        session_id: state.session_id,
        seq: state.seq,
        uptime_ms,
    }
}

/// `after` is `before` having issued one frame: same session, sequence
/// number advanced by one (wrapping).
pub open spec fn advanced(before: SessionState, after: SessionState) -> bool {
    &&& after.system_id == before.system_id
    &&& after.session_id == before.session_id
    &&& after.format == before.format
    &&& after.seq == next_seq(before.seq)
}

impl View for SessionRuntime {
    type V = SessionState;

    closed spec fn view(&self) -> SessionState {
        SessionState {
            system_id: self.system_id,
            session_id: self.session_id,
            format: self.format,
            seq: self.seq,
        }
    }
}

impl SessionRuntime {
    /// The system the session belongs to.
    pub fn system_id(&self) -> (id: u16)
        ensures
            id == self@.system_id,
    {
        self.system_id
    }

    /// The session's id.
    pub fn session_id(&self) -> (id: u32)
        ensures
            id == self@.session_id,
    {
        self.session_id
    }

    /// The wire format the session sends in.
    pub fn format(&self) -> (format: WireFormat)
        ensures
            format == self@.format,
    {
        self.format
    }

    /// A session that will number its first frame 0.
    pub fn new(system_id: u16, session_id: u32, format: WireFormat) -> (runtime: Self)
        ensures
            runtime@ == (SessionState { system_id, session_id, format, seq: 0 }),
    {
        SessionRuntime { system_id, session_id, format, seq: 0 }
    }

    /// The header for the next frame; advances the sequence number.
    pub fn header(&mut self, uptime_ms: u32) -> (header: WireHeader)
        ensures
            header == next_header(old(self)@, uptime_ms),
            advanced(old(self)@, final(self)@),
    {
        let header = WireHeader {
            protocol_version: PROTOCOL_VERSION,
            format: self.format,
            system_id: self.system_id,
            session_id: self.session_id,
            seq: self.seq,
            uptime_ms,
        };
        self.seq = self.seq.wrapping_add(1);
        header
    }

    pub fn hello(&mut self, uptime_ms: u32, system_label: &str) -> (frame: WireFrame)
        ensures
            advanced(old(self)@, final(self)@),
            frame.spec_header() == next_header(old(self)@, uptime_ms),
            frame.wf(),
            frame matches WireFrame::Hello(f) && fits_prefix(
                system_label@,
                MAX_LABEL_LEN as nat,
                f.system_label@,
            ),
    {
        let header = self.header(uptime_ms);
        WireFrame::Hello(
            HelloFrame { header, system_label: heapless_string::<32>(system_label) },
        )
    }

    /// The topology frame; buses beyond `MAX_BUSES_PER_SYSTEM` and sensors
    /// beyond `MAX_IMUS_PER_SYSTEM` are dropped. The frame fits the wire
    /// limits when every label given does.
    pub fn topology(
        &mut self,
        uptime_ms: u32,
        buses: Vec<BusDescriptor>,
        imus: Vec<ImuDescriptor>,
    ) -> (frame: WireFrame)
        ensures
            advanced(old(self)@, final(self)@),
            frame.spec_header() == next_header(old(self)@, uptime_ms),
            (forall|i: int| 0 <= i < buses@.len() ==> #[trigger] bus_fits(buses@[i])) && (forall|
                i: int,
            |
                0 <= i < imus@.len() ==> #[trigger] descriptor_fits(imus@[i])) ==> frame.wf(),
            frame matches WireFrame::Topology(f) && f.buses@ == buses@.take(
                min_len(buses@.len(), MAX_BUSES_PER_SYSTEM as nat) as int,
            ) && f.imus@ == imus@.take(min_len(imus@.len(), MAX_IMUS_PER_SYSTEM as nat) as int),
    {
        let bus_vec = take_front(buses, MAX_BUSES_PER_SYSTEM);
        let imu_vec = take_front(imus, MAX_IMUS_PER_SYSTEM);
        let header = self.header(uptime_ms);
        WireFrame::Topology(TopologyFrame { header, buses: bus_vec, imus: imu_vec })
    }

    pub fn probe_result(
        &mut self,
        uptime_ms: u32,
        imu_id: ImuId,
        driver_name: &str,
        detected_kind: ImuKind,
        success: bool,
        error: Option<ImuError>,
        profile: Option<BusProfile>,
    ) -> (frame: WireFrame)
        ensures
            advanced(old(self)@, final(self)@),
            frame.spec_header() == next_header(old(self)@, uptime_ms),
            frame.wf(),
            frame matches WireFrame::ProbeResult(f) && f.imu_id == imu_id && f.detected_kind
                == detected_kind && f.success == success && f.error == error && f.profile == profile
                && fits_prefix(driver_name@, MAX_LABEL_LEN as nat, f.driver_name@),
    {
        let header = self.header(uptime_ms);
        WireFrame::ProbeResult(
            ProbeResultFrame {
                header,
                imu_id,
                driver_name: heapless_string::<32>(driver_name),
                detected_kind,
                success,
                error,
                profile,
            },
        )
    }

    pub fn sample(
        &mut self,
        uptime_ms: u32,
        imu_id: ImuId,
        imu_kind: ImuKind,
        sample_index: u32,
        timestamp_us: u64,
        sample: RawSample,
        status_bits: u16,
    ) -> (frame: WireFrame)
        ensures
            advanced(old(self)@, final(self)@),
            frame == WireFrame::Sample(
                SampleFrame {
                    header: next_header(old(self)@, uptime_ms),
                    imu_id,
                    imu_kind,
                    sample_index,
                    timestamp_us,
                    sample,
                    status_bits,
                },
            ),
    {
        let header = self.header(uptime_ms);
        WireFrame::Sample(
            SampleFrame { header, imu_id, imu_kind, sample_index, timestamp_us, sample, status_bits },
        )
    }

    pub fn error(&mut self, uptime_ms: u32, imu_id: Option<ImuId>, error: ImuError, message: &str) -> (frame:
        WireFrame)
        ensures
            advanced(old(self)@, final(self)@),
            frame.spec_header() == next_header(old(self)@, uptime_ms),
            frame.wf(),
            frame matches WireFrame::Error(f) && f.imu_id == imu_id && f.error == error
                && fits_prefix(message@, MAX_MESSAGE_LEN as nat, f.message@),
    {
        let header = self.header(uptime_ms);
        WireFrame::Error(
            ErrorFrame { header, imu_id, error, message: heapless_string::<96>(message) },
        )
    }

    pub fn heartbeat(&mut self, uptime_ms: u32, active_imus: u16) -> (frame: WireFrame)
        ensures
            advanced(old(self)@, final(self)@),
            frame == WireFrame::Heartbeat(
                HeartbeatFrame { header: next_header(old(self)@, uptime_ms), active_imus },
            ),
    {
        let header = self.header(uptime_ms);
        WireFrame::Heartbeat(HeartbeatFrame { header, active_imus })
    }
}

pub open spec fn min_len(a: nat, b: nat) -> nat {
    if a <= b {
        a
    } else {
        b
    }
}

/// The first `max` elements of `items` (all of them when there are fewer).
pub fn take_front<T>(items: Vec<T>, max: usize) -> (out: Vec<T>)
    ensures
        out@ == items@.take(min_len(items@.len(), max as nat) as int),
{
    let mut out = items;
    out.truncate(max);
    out
}

/// `value` truncated to the longest prefix that fits in `N` UTF-8 bytes.
pub fn heapless_string<const N: usize>(value: &str) -> (out: String)
    ensures
        fits_prefix(value@, N as nat, out@),
{
    bounded_copy(value, N)
}

/// Two frames issued one after the other by the same session carry the
/// same session identity and consecutive sequence numbers.
pub proof fn lemma_consecutive_frames(
    s0: SessionState,
    s1: SessionState,
    s2: SessionState,
    first: WireFrame,
    second: WireFrame,
    uptime1: u32,
    uptime2: u32,
)
    requires
        advanced(s0, s1),
        first.spec_header() == next_header(s0, uptime1),
        advanced(s1, s2),
        second.spec_header() == next_header(s1, uptime2),
    ensures
        second.spec_header().seq == next_seq(first.spec_header().seq),
        second.spec_header().session_id == first.spec_header().session_id,
        second.spec_header().system_id == first.spec_header().system_id,
        second.spec_header().format == first.spec_header().format,
{
}

} // verus!
