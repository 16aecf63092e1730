//! The wire protocol: frame types shared by the binary and the JSON
//! representation, and the binary packet framing
//! `COBS(payload ++ CRC-32 little-endian) ++ 0x00`.

use vstd::prelude::*;
use crate::bus::{BusId, BusProfile};
use crate::codec::{
    cobs_decode, cobs_encode, crc32, max_encoding_length, spec_cobs_decode, spec_cobs_encode,
    spec_crc32, spec_max_encoding_length,
};
use crate::sample::RawSample;
use crate::text::utf8_len;
use crate::types::{ImuDescriptor, ImuError, ImuId, ImuKind, ImuLocation, Quaternion};

verus! {

pub const PROTOCOL_VERSION: u8 = 1;
pub const MAX_IMUS_PER_SYSTEM: usize = 16;
pub const MAX_BUSES_PER_SYSTEM: usize = 8;
pub const MAX_LABEL_LEN: usize = 32;
pub const MAX_MESSAGE_LEN: usize = 96;

#[derive(Clone, Copy, Debug, PartialEq, Eq, Structural)]
pub enum BinaryCodecError {
    BufferTooSmall,
    Postcard,
    CobsDecode,
    CrcMismatch,
    Truncated,
}

#[derive(Clone, Copy, Debug, PartialEq, Eq, Structural)]
pub enum WireFormat {
    Binary,
    Json,
}

/// Carried by every frame.
#[derive(Clone, Copy, Debug, PartialEq, Eq, Structural)]
pub struct WireHeader {
    pub protocol_version: u8,
    pub format: WireFormat,
    pub system_id: u16,
    pub session_id: u32,
    pub seq: u32,
    pub uptime_ms: u32,
}

#[derive(Clone, Debug, PartialEq, Eq)]
pub struct BusDescriptor {
    pub bus_id: BusId,
    /// At most `MAX_LABEL_LEN` UTF-8 bytes.
    pub label: String,
}

#[derive(Clone, Debug, PartialEq, Eq)]
pub struct HelloFrame {
    pub header: WireHeader,
    /// At most `MAX_LABEL_LEN` UTF-8 bytes.
    pub system_label: String,
}

#[derive(Clone, Debug, PartialEq, Eq)]
pub struct TopologyFrame {
    pub header: WireHeader,
    /// At most `MAX_BUSES_PER_SYSTEM` entries.
    pub buses: Vec<BusDescriptor>,
    /// At most `MAX_IMUS_PER_SYSTEM` entries.
    pub imus: Vec<ImuDescriptor>,
}

#[derive(Clone, Debug, PartialEq, Eq)]
pub struct ProbeResultFrame {
    pub header: WireHeader,
    pub imu_id: ImuId,
    /// At most `MAX_LABEL_LEN` UTF-8 bytes.
    pub driver_name: String,
    pub detected_kind: ImuKind,
    pub success: bool,
    pub error: Option<ImuError>,
    pub profile: Option<BusProfile>,
}

#[derive(Clone, Debug, PartialEq, Eq)]
pub struct SampleFrame {
    pub header: WireHeader,
    pub imu_id: ImuId,
    pub imu_kind: ImuKind,
    pub sample_index: u32,
    pub timestamp_us: u64,
    pub sample: RawSample,
    pub status_bits: u16,
}

#[derive(Clone, Debug, PartialEq, Eq)]
pub struct OrientationFrame {
    pub header: WireHeader,
    pub imu_id: ImuId,
    pub imu_kind: ImuKind,
    pub sample_index: u32,
    pub timestamp_us: u64,
    pub quaternion: Quaternion,
}

#[derive(Clone, Debug, PartialEq, Eq)]
pub struct ErrorFrame {
    pub header: WireHeader,
    pub imu_id: Option<ImuId>,
    pub error: ImuError,
    /// At most `MAX_MESSAGE_LEN` UTF-8 bytes.
    pub message: String,
}

#[derive(Clone, Debug, PartialEq, Eq)]
pub struct HeartbeatFrame {
    pub header: WireHeader,
    pub active_imus: u16,
}

#[derive(Clone, Debug, PartialEq, Eq)]
pub enum WireFrame {
    Hello(HelloFrame),
    Topology(TopologyFrame),
    ProbeResult(ProbeResultFrame),
    Sample(SampleFrame),
    Orientation(OrientationFrame),
    Error(ErrorFrame),
    Heartbeat(HeartbeatFrame),
}

/// A bus descriptor fits the wire limits: a label of at most
/// `MAX_LABEL_LEN` bytes.
pub open spec fn bus_fits(b: BusDescriptor) -> bool {
    utf8_len(b.label@) <= MAX_LABEL_LEN
}

/// A sensor descriptor fits the wire limits: a label, and a location name
/// if it has one, of at most `MAX_LABEL_LEN` bytes.
pub open spec fn descriptor_fits(d: ImuDescriptor) -> bool {
    &&& utf8_len(d.label@) <= MAX_LABEL_LEN
    &&& d.location matches ImuLocation::Named(name) ==> utf8_len(name@) <= MAX_LABEL_LEN
}

impl WireFrame {
    /// The header every frame carries.
    pub open spec fn spec_header(self) -> WireHeader {
        match self {
            WireFrame::Hello(f) => f.header,
            WireFrame::Topology(f) => f.header,
            WireFrame::ProbeResult(f) => f.header,
            WireFrame::Sample(f) => f.header,
            WireFrame::Orientation(f) => f.header,
            WireFrame::Error(f) => f.header,
            WireFrame::Heartbeat(f) => f.header,
        }
    }

    /// The frame fits the wire limits: labels (of the system, the driver,
    /// every bus and every sensor, and sensor location names) of at most
    /// `MAX_LABEL_LEN` bytes, messages of at most `MAX_MESSAGE_LEN` bytes, at
    /// most `MAX_BUSES_PER_SYSTEM` buses and `MAX_IMUS_PER_SYSTEM` sensors.
    pub open spec fn wf(self) -> bool {
        match self {
            WireFrame::Hello(f) => utf8_len(f.system_label@) <= MAX_LABEL_LEN,
            WireFrame::Topology(f) => {
                &&& f.buses@.len() <= MAX_BUSES_PER_SYSTEM
                &&& f.imus@.len() <= MAX_IMUS_PER_SYSTEM
                &&& forall|i: int| 0 <= i < f.buses@.len() ==> #[trigger] bus_fits(f.buses@[i])
                &&& forall|i: int| 0 <= i < f.imus@.len() ==> #[trigger] descriptor_fits(f.imus@[i])
            },
            WireFrame::ProbeResult(f) => utf8_len(f.driver_name@) <= MAX_LABEL_LEN,
            WireFrame::Error(f) => utf8_len(f.message@) <= MAX_MESSAGE_LEN,
            _ => true,
        }
    }

    /// Returns the frame's header.
    pub fn header(&self) -> (h: WireHeader)
        ensures
            h == self.spec_header(),
    {
        match self {
            WireFrame::Hello(f) => f.header,
            WireFrame::Topology(f) => f.header,
            WireFrame::ProbeResult(f) => f.header,
            WireFrame::Sample(f) => f.header,
            WireFrame::Orientation(f) => f.header,
            WireFrame::Error(f) => f.header,
            WireFrame::Heartbeat(f) => f.header,
        }
    }
}

impl BusDescriptor {
    /// A copy of this descriptor.
    pub fn duplicate(&self) -> (copy: Self)
        ensures
            copy == *self,
    {
        BusDescriptor { bus_id: self.bus_id, label: self.label.clone() }
    }
}

/// A copy of a list of bus descriptors.
pub fn duplicate_buses(buses: &Vec<BusDescriptor>) -> (copy: Vec<BusDescriptor>)
    ensures
        copy@ == buses@,
{
    let mut out: Vec<BusDescriptor> = Vec::new();
    let mut i: usize = 0;
    while i < buses.len()
        invariant
            i <= buses@.len(),
            out@ == buses@.take(i as int),
        decreases buses@.len() - i,
    {
        out.push(buses[i].duplicate());
        assert(out@ =~= buses@.take(i + 1));
        i = i + 1;
    }
    assert(buses@.take(buses@.len() as int) =~= buses@);
    out
}

/// A copy of a list of sensor descriptors.
pub fn duplicate_imus(imus: &Vec<ImuDescriptor>) -> (copy: Vec<ImuDescriptor>)
    ensures
        copy@ == imus@,
{
    let mut out: Vec<ImuDescriptor> = Vec::new();
    let mut i: usize = 0;
    while i < imus.len()
        invariant
            i <= imus@.len(),
            out@ == imus@.take(i as int),
        decreases imus@.len() - i,
    {
        out.push(imus[i].duplicate());
        assert(out@ =~= imus@.take(i + 1));
        i = i + 1;
    }
    assert(imus@.take(imus@.len() as int) =~= imus@);
    out
}

impl SampleFrame {
    pub fn duplicate(&self) -> (copy: Self)
        ensures
            copy == *self,
    {
        SampleFrame {
            header: self.header,
            imu_id: self.imu_id,
            imu_kind: self.imu_kind,
            sample_index: self.sample_index,
            timestamp_us: self.timestamp_us,
            sample: self.sample,
            status_bits: self.status_bits,
        }
    }
}

impl OrientationFrame {
    pub fn duplicate(&self) -> (copy: Self)
        ensures
            copy == *self,
    {
        OrientationFrame {
            header: self.header,
            imu_id: self.imu_id,
            imu_kind: self.imu_kind,
            sample_index: self.sample_index,
            timestamp_us: self.timestamp_us,
            quaternion: self.quaternion,
        }
    }
}

/// `a` and `b` hold the same frame: equal, except that lists are compared
/// by their contents.
pub open spec fn same_frame(a: WireFrame, b: WireFrame) -> bool {
    match (a, b) {
        (WireFrame::Topology(x), WireFrame::Topology(y)) => x.header == y.header && x.buses@
            == y.buses@ && x.imus@ == y.imus@,
        _ => a == b,
    }
}

impl WireFrame {
    /// A copy of this frame.
    pub fn duplicate(&self) -> (copy: Self)
        ensures
            same_frame(copy, *self),
    {
        match self {
            WireFrame::Hello(f) => WireFrame::Hello(
                HelloFrame { header: f.header, system_label: f.system_label.clone() },
            ),
            WireFrame::Topology(f) => WireFrame::Topology(
                TopologyFrame {
                    header: f.header,
                    buses: duplicate_buses(&f.buses),
                    imus: duplicate_imus(&f.imus),
                },
            ),
            WireFrame::ProbeResult(f) => WireFrame::ProbeResult(
                ProbeResultFrame {
                    header: f.header,
                    imu_id: f.imu_id,
                    driver_name: f.driver_name.clone(),
                    detected_kind: f.detected_kind,
                    success: f.success,
                    error: f.error,
                    profile: f.profile,
                },
            ),
            WireFrame::Sample(f) => WireFrame::Sample(f.duplicate()),
            WireFrame::Orientation(f) => WireFrame::Orientation(f.duplicate()),
            WireFrame::Error(f) => WireFrame::Error(
                ErrorFrame {
                    header: f.header,
                    imu_id: f.imu_id,
                    error: f.error,
                    message: f.message.clone(),
                },
            ),
            WireFrame::Heartbeat(f) => WireFrame::Heartbeat(
                HeartbeatFrame { header: f.header, active_imus: f.active_imus },
            ),
        }
    }
}

/// The four little-endian bytes of `v`.
pub open spec fn le_bytes(v: u32) -> Seq<u8> {
    seq![
        (v % 256) as u8,
        ((v / 256) % 256) as u8,
        ((v / 65536) % 256) as u8,
        ((v / 16777216) % 256) as u8,
    ]
}

/// The value of four little-endian bytes.
pub open spec fn le_value(b: Seq<u8>) -> int {
    b[0] as int + 256 * b[1] as int + 65536 * b[2] as int + 16777216 * b[3] as int
}

/// What is COBS-encoded for a payload: the payload followed by its CRC-32
/// in little-endian order.
pub open spec fn checked_payload(payload: Seq<u8>) -> Seq<u8> {
    payload + le_bytes(spec_crc32(payload))
}

/// The packet framed for `payload` with room for `capacity` bytes: an
/// error when the payload alone exceeds the capacity (`Postcard`, the
/// serializer's own limit) or when the worst-case COBS encoding of the
/// checked payload plus its delimiter does not fit (`BufferTooSmall`).
pub open spec fn spec_encode_packet(capacity: nat, payload: Seq<u8>) -> Result<
    Seq<u8>,
    BinaryCodecError,
> {
    if payload.len() > capacity {
        Err(BinaryCodecError::Postcard)
    } else if spec_max_encoding_length(payload.len() + 4) + 1 > capacity {
        Err(BinaryCodecError::BufferTooSmall)
    } else {
        Ok(spec_cobs_encode(checked_payload(payload)).push(0u8))
    }
}

/// The payload a received packet carries, decoding into `capacity` bytes:
/// one trailing zero delimiter is dropped; an empty packet or body is
/// `Truncated`; the body must COBS-decode (`CobsDecode`) to at least four
/// bytes (`Truncated`) whose last four are the little-endian CRC-32 of the
/// rest (`CrcMismatch`).
pub open spec fn spec_decode_packet(capacity: nat, packet: Seq<u8>) -> Result<
    Seq<u8>,
    BinaryCodecError,
> {
    if packet.len() == 0 {
        Err(BinaryCodecError::Truncated)
    } else {
        let body = if packet.last() == 0 {
            packet.drop_last()
        } else {
            packet
        };
        if body.len() == 0 {
            Err(BinaryCodecError::Truncated)
        } else {
            match spec_cobs_decode(body, capacity) {
                None => Err(BinaryCodecError::CobsDecode),
                Some(decoded) => if decoded.len() < 4 {
                    Err(BinaryCodecError::Truncated)
                } else {
                    let payload = decoded.take(decoded.len() - 4);
                    let crc = decoded.skip(decoded.len() - 4);
                    if le_value(crc) != spec_crc32(payload) as int {
                        Err(BinaryCodecError::CrcMismatch)
                    } else {
                        Ok(payload)
                    }
                },
            }
        }
    }
}

pub open spec fn packet_view(r: Result<Vec<u8>, BinaryCodecError>) -> Result<Seq<u8>, BinaryCodecError> {
    match r {
        Ok(v) => Ok(v@),
        Err(e) => Err(e),
    }
}

/// Frames a serialized frame for the binary link: appends the payload's
/// CRC-32 (little-endian), COBS-encodes the result and terminates it with
/// a zero byte, all within a buffer of `N` bytes.
pub fn encode_binary_packet<const N: usize>(payload: &[u8]) -> (result: Result<
    Vec<u8>,
    BinaryCodecError,
>)
    ensures
        packet_view(result) == spec_encode_packet(N as nat, payload@),
        result matches Ok(packet) ==> {
            &&& 1 <= packet@.len() <= N
            &&& packet@.last() == 0u8
            &&& forall|i: int| 0 <= i < packet@.len() - 1 ==> packet@[i] != 0u8
            &&& forall|m: nat|
                m >= N ==> spec_decode_packet(m, packet@) == Ok::<Seq<u8>, BinaryCodecError>(
                    payload@,
                ) && spec_decode_packet(m, packet@.drop_last()) == Ok::<
                    Seq<u8>,
                    BinaryCodecError,
                >(payload@)
        },
{
    if payload.len() > N {
        return Err(BinaryCodecError::Postcard);
    }
    if N - payload.len() < 4 {
        return Err(BinaryCodecError::BufferTooSmall);
    }
    let raw_len = payload.len() + 4;
    let overhead: usize = raw_len / 254 + if raw_len % 254 != 0 { 1 } else { 0 };
    assert(overhead == (raw_len + 253) / 254) by (nonlinear_arith)
        requires
            overhead == raw_len / 254 + if raw_len % 254 != 0 { 1int } else { 0int },
    ;
    if overhead >= N - raw_len {
        return Err(BinaryCodecError::BufferTooSmall);
    }
    let encoded_len = max_encoding_length(raw_len);
    if encoded_len + 1 > N {
        return Err(BinaryCodecError::BufferTooSmall);
    }
    let crc = crc32(payload);
    let mut raw: Vec<u8> = slice_to_vec_u8(payload);
    raw.push((crc % 256) as u8);
    raw.push(((crc / 256) % 256) as u8);
    raw.push(((crc / 65536) % 256) as u8);
    raw.push(((crc / 16777216) % 256) as u8);
    assert(raw@ =~= checked_payload(payload@));
    let mut scratch: Vec<u8> = zeros(N);
    let used = cobs_encode(raw.as_slice(), scratch.as_mut_slice());
    let mut framed: Vec<u8> = Vec::new();
    let mut i: usize = 0;
    while i < used
        invariant
            i <= used,
            used <= scratch@.len(),
            framed@ == scratch@.take(i as int),
        decreases used - i,
    {
        framed.push(scratch[i]);
        assert(framed@ =~= scratch@.take(i + 1));
        i = i + 1;
    }
    let ghost body = framed@;
    framed.push(0u8);
    proof {
        let raw_s = checked_payload(payload@);
        assert(body == spec_cobs_encode(raw_s));
        assert(framed@.drop_last() =~= body);
        assert(body.len() > 0);
        assert(body.last() != 0u8);
        let d = raw_s;
        assert(d.take(d.len() - 4) =~= payload@);
        assert(d.skip(d.len() - 4) =~= le_bytes(spec_crc32(payload@)));
        let c = spec_crc32(payload@);
        assert(le_value(le_bytes(c)) == c as int) by (nonlinear_arith)
            requires
                le_bytes(c) == seq![
                    (c % 256) as u8,
                    ((c / 256) % 256) as u8,
                    ((c / 65536) % 256) as u8,
                    ((c / 16777216) % 256) as u8,
                ],
        {
            assert(le_bytes(c)[0] == c % 256);
            assert(le_bytes(c)[1] == (c / 256) % 256);
            assert(le_bytes(c)[2] == (c / 65536) % 256);
            assert(le_bytes(c)[3] == (c / 16777216) % 256);
        }
    }
    Ok(framed)
}

/// Recovers the serialized frame a received packet carries, decoding into a
/// buffer of `N` bytes and checking the CRC-32.
pub fn decode_binary_packet<const N: usize>(packet: &[u8]) -> (result: Result<
    Vec<u8>,
    BinaryCodecError,
>)
    ensures
        packet_view(result) == spec_decode_packet(N as nat, packet@),
{
    if packet.len() == 0 {
        return Err(BinaryCodecError::Truncated);
    }
    let last = packet[packet.len() - 1];
    let body: Vec<u8> = if last == 0 {
        let mut b: Vec<u8> = Vec::new();
        let mut i: usize = 0;
        while i < packet.len() - 1
            invariant
                packet@.len() >= 1,
                i <= packet@.len() - 1,
                b@ == packet@.take(i as int),
            decreases packet@.len() - 1 - i,
        {
            b.push(packet[i]);
            assert(b@ =~= packet@.take(i + 1));
            i = i + 1;
        }
        assert(b@ =~= packet@.drop_last());
        b
    } else {
        slice_to_vec_u8(packet)
    };
    if body.len() == 0 {
        return Err(BinaryCodecError::Truncated);
    }
    let mut decoded: Vec<u8> = zeros(N);
    let used = match cobs_decode(body.as_slice(), decoded.as_mut_slice()) {
        Ok(n) => n,
        Err(_) => {
            return Err(BinaryCodecError::CobsDecode);
        },
    };
    if used < 4 {
        return Err(BinaryCodecError::Truncated);
    }
    let payload_len = used - 4;
    let expected: u64 = decoded[payload_len] as u64 + 256 * (decoded[payload_len + 1] as u64)
        + 65536 * (decoded[payload_len + 2] as u64) + 16777216 * (decoded[payload_len + 3] as u64);
    let mut payload: Vec<u8> = Vec::new();
    let mut i: usize = 0;
    while i < payload_len
        invariant
            i <= payload_len,
            payload_len < used,
            used <= decoded@.len(),
            payload@ == decoded@.take(i as int),
        decreases payload_len - i,
    {
        payload.push(decoded[i]);
        assert(payload@ =~= decoded@.take(i + 1));
        i = i + 1;
    }
    let actual = crc32(payload.as_slice());
    proof {
        let d = decoded@.take(used as int);
        assert(payload@ =~= d.take(d.len() - 4));
        assert(d.skip(d.len() - 4)[0] == decoded@[payload_len as int]);
        assert(d.skip(d.len() - 4)[1] == decoded@[payload_len + 1]);
        assert(d.skip(d.len() - 4)[2] == decoded@[payload_len + 2]);
        assert(d.skip(d.len() - 4)[3] == decoded@[payload_len + 3]);
    }
    if expected != actual as u64 {
        return Err(BinaryCodecError::CrcMismatch);
    }
    Ok(payload)
}

/// `len` zero bytes.
pub fn zeros(len: usize) -> (v: Vec<u8>)
    ensures
        v@.len() == len,
        forall|i: int| 0 <= i < len ==> v@[i] == 0u8,
{
    let mut v: Vec<u8> = Vec::new();
    let mut i: usize = 0;
    while i < len
        invariant
            i <= len,
            v@.len() == i,
            forall|j: int| 0 <= j < i ==> v@[j] == 0u8,
        decreases len - i,
    {
        v.push(0u8);
        i = i + 1;
    }
    v
}

/// A copy of `s`.
pub fn slice_to_vec_u8(s: &[u8]) -> (v: Vec<u8>)
    ensures
        v@ == s@,
{
    let mut v: Vec<u8> = Vec::new();
    let mut i: usize = 0;
    while i < s.len()
        invariant
            i <= s@.len(),
            v@ == s@.take(i as int),
        decreases s@.len() - i,
    {
        v.push(s[i]);
        assert(v@ =~= s@.take(i + 1));
        i = i + 1;
    }
    assert(s@.take(s@.len() as int) =~= s@);
    v
}

} // verus!
