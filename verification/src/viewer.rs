//! Host-side bookkeeping of a received frame stream: the topology, the
//! latest sample and orientation of each sensor, recent errors, recording
//! and replay, and the capped histories a display keeps.

use vstd::prelude::*;
use crate::bus::BusId;
use crate::protocol::{same_frame, OrientationFrame, SampleFrame, WireFormat, WireFrame};
use crate::text::{decimal, push_decimal, push_str};
use crate::types::{
    DescriptorView, ImuCapabilities, ImuDescriptor, ImuError, ImuId, ImuLocation, LocationView,
};

verus! {

/// Points of plot history kept per sensor.
pub const HISTORY_LIMIT: usize = 256;
/// Recent errors kept.
pub const ERROR_LIMIT: usize = 32;
/// Replayed frames handled per display refresh.
pub const REPLAY_BATCH: usize = 4;

/// An error shown in the error list.
#[derive(Debug, PartialEq, Eq)]
pub enum ErrorEntry {
    /// The device reported an error.
    Device { error: ImuError, message: String },
    /// A driver failed to identify its sensor.
    Probe { driver_name: String, error: Option<ImuError> },
}

/// An error entry as a value: text as characters.
pub enum ErrorView {
    Device { error: ImuError, message: Seq<char> },
    Probe { driver_name: Seq<char>, error: Option<ImuError> },
}

impl View for ErrorEntry {
    type V = ErrorView;

    open spec fn view(&self) -> ErrorView {
        match self {
            ErrorEntry::Device { error, message } => ErrorView::Device {
                error: *error,
                message: message@,
            },
            ErrorEntry::Probe { driver_name, error } => ErrorView::Probe {
                driver_name: driver_name@,
                error: *error,
            },
        }
    }
}

/// A change of the stream status line caused by a frame.
#[derive(Clone, Copy, Debug, PartialEq, Eq, Structural)]
pub enum StatusChange {
    /// A hello frame: the device streams in `format`.
    Streaming { format: WireFormat, session_id: u32, uptime_ms: u32 },
    /// The device reported an error.
    DeviceError(ImuError),
    /// The replay reached its last frame.
    ReplayFinished,
}

/// The status change a frame causes, if any.
pub open spec fn frame_status(frame: WireFrame) -> Option<StatusChange> {
    match frame {
        WireFrame::Hello(f) => Some(
            StatusChange::Streaming {
                format: f.header.format,
                session_id: f.header.session_id,
                uptime_ms: f.header.uptime_ms,
            },
        ),
        WireFrame::Error(f) => Some(StatusChange::DeviceError(f.error)),
        _ => None,
    }
}

/// The state a frame stream builds up, as values.
pub struct SessionModel {
    /// The known sensors, one entry per sensor id.
    pub topology: Seq<DescriptorView>,
    /// The latest sample of each sensor, one entry per sensor id.
    pub samples: Seq<SampleFrame>,
    /// The latest orientation of each sensor, one entry per sensor id.
    pub orientations: Seq<OrientationFrame>,
    /// Recent errors, oldest first.
    pub errors: Seq<ErrorView>,
    /// The sensor count of the last heartbeat.
    pub active_imus: u16,
    /// The sequence number of the last frame handled.
    pub last_seq: Option<u32>,
    /// The sensor shown in the plots.
    pub selected_imu: Option<ImuId>,
    pub recording: bool,
    /// The frames recorded, in the order they were handled.
    pub recorded: Seq<WireFrame>,
    /// The frames to replay, and the index of the next one.
    pub replay: Seq<WireFrame>,
    pub replay_cursor: nat,
    pub replaying: bool,
}

/// The sensor a descriptor is filed under.
pub open spec fn descriptor_key(d: DescriptorView) -> ImuId {
    d.id
}

/// The sensor a sample is filed under.
pub open spec fn sample_key(f: SampleFrame) -> ImuId {
    f.imu_id
}

/// The sensor an orientation is filed under.
pub open spec fn orientation_key(f: OrientationFrame) -> ImuId {
    f.imu_id
}

/// No two entries share a key.
pub open spec fn unique_keys<T>(s: Seq<T>, key: spec_fn(T) -> ImuId) -> bool {
    forall|i: int, j: int| 0 <= i < j < s.len() ==> key(s[i]) != key(s[j])
}

/// Some entry has key `k`.
pub open spec fn has_key<T>(s: Seq<T>, key: spec_fn(T) -> ImuId, k: ImuId) -> bool {
    exists|i: int| 0 <= i < s.len() && key(s[i]) == k
}

/// `s` with `item` stored under its key: replacing the entry with that key,
/// or appended when there is none.
pub open spec fn upsert<T>(s: Seq<T>, key: spec_fn(T) -> ImuId, item: T) -> Seq<T> {
    if has_key(s, key, key(item)) {
        s.update(choose|i: int| 0 <= i < s.len() && key(s[i]) == key(item), item)
    } else {
        s.push(item)
    }
}

/// `s` with each of `items` stored in turn.
pub open spec fn upsert_all<T>(s: Seq<T>, key: spec_fn(T) -> ImuId, items: Seq<T>) -> Seq<T>
    decreases items.len(),
{
    if items.len() == 0 {
        s
    } else {
        upsert(upsert_all(s, key, items.drop_last()), key, items.last())
    }
}

/// The last `ERROR_LIMIT` entries of `s`.
pub open spec fn capped(s: Seq<ErrorView>) -> Seq<ErrorView> {
    if s.len() > ERROR_LIMIT {
        s.skip(s.len() - ERROR_LIMIT)
    } else {
        s
    }
}

/// The label a sensor gets when samples arrive before any topology lists
/// it: `imu-<sensor id>`.
pub open spec fn default_label(sensor_id: u16) -> Seq<char> {
    seq!['i', 'm', 'u', '-'] + decimal(sensor_id as nat)
}

/// The descriptor made up for a sensor known only from its samples.
pub open spec fn default_descriptor(f: SampleFrame) -> DescriptorView {
    DescriptorView {
        id: f.imu_id,
        bus_id: BusId(0),
        kind: f.imu_kind,
        location: LocationView::Index(f.imu_id.sensor_id),
        label: default_label(f.imu_id.sensor_id),
        capabilities: ImuCapabilities {
            has_temp: false,
            supports_fifo: false,
            supports_data_ready_interrupt: false,
            supported_accel_ranges: [None, None, None, None],
            supported_gyro_ranges: [None, None, None, None],
        },
    }
}

/// The state after handling `frame`. Every frame sets the last sequence
/// number and is recorded when recording is on and allowed; a topology
/// frame replaces the topology; a sample registers its sensor if unknown,
/// selects it if nothing is selected, and becomes that sensor's latest
/// sample; an orientation becomes its sensor's latest orientation; device
/// errors and failed probes are appended to the error list, which keeps
/// the last `ERROR_LIMIT`; a heartbeat sets the active sensor count.
pub open spec fn apply_frame(s: SessionModel, frame: WireFrame, allow_recording: bool) -> SessionModel {
    let recorded = if allow_recording && s.recording {
        s.recorded.push(frame)
    } else {
        s.recorded
    };
    let last_seq = Some(frame.spec_header().seq);
    match frame {
        WireFrame::Topology(f) => SessionModel {
            topology: upsert_all(
                Seq::empty(),
                |d: DescriptorView| descriptor_key(d),
                f.imus@.map_values(|d: ImuDescriptor| d@),
            ),
            last_seq,
            recorded,
            ..s
        },
        WireFrame::Sample(f) => SessionModel {
            topology: if has_key(s.topology, |d: DescriptorView| descriptor_key(d), f.imu_id) {
                s.topology
            } else {
                s.topology.push(default_descriptor(f))
            },
            samples: upsert(s.samples, |x: SampleFrame| sample_key(x), f),
            selected_imu: if s.selected_imu is None {
                Some(f.imu_id)
            } else {
                s.selected_imu
            },
            last_seq,
            recorded,
            ..s
        },
        WireFrame::Orientation(f) => SessionModel {
            orientations: upsert(s.orientations, |x: OrientationFrame| orientation_key(x), f),
            last_seq,
            recorded,
            ..s
        },
        WireFrame::Error(f) => SessionModel {
            errors: capped(s.errors.push(ErrorView::Device { error: f.error, message: f.message@ })),
            last_seq,
            recorded,
            ..s
        },
        WireFrame::ProbeResult(f) => SessionModel {
            errors: if f.success {
                s.errors
            } else {
                capped(
                    s.errors.push(ErrorView::Probe { driver_name: f.driver_name@, error: f.error }),
                )
            },
            last_seq,
            recorded,
            ..s
        },
        WireFrame::Heartbeat(f) => SessionModel {
            active_imus: f.active_imus,
            last_seq,
            recorded,
            ..s
        },
        WireFrame::Hello(f) => SessionModel { last_seq, recorded, ..s },
    }
}

/// The model is consistent: one entry per sensor in each table, and at
/// most `ERROR_LIMIT` errors.
pub open spec fn model_wf(s: SessionModel) -> bool {
    &&& unique_keys(s.topology, |d: DescriptorView| descriptor_key(d))
    &&& unique_keys(s.samples, |x: SampleFrame| sample_key(x))
    &&& unique_keys(s.orientations, |x: OrientationFrame| orientation_key(x))
    &&& s.errors.len() <= ERROR_LIMIT
    &&& s.replay_cursor <= s.replay.len()
}

/// The viewer's session state: the stream bookkeeping plus the recording
/// and replay buffers.
pub struct ViewerSession {
    topology: Vec<ImuDescriptor>,
    latest_samples: Vec<SampleFrame>,
    latest_orientation: Vec<OrientationFrame>,
    errors: Vec<ErrorEntry>,
    active_imus: u16,
    last_seq: Option<u32>,
    selected_imu: Option<ImuId>,
    recording: bool,
    recorded_frames: Vec<WireFrame>,
    replay_frames: Vec<WireFrame>,
    replay_cursor: usize,
    replaying: bool,
}

impl View for ViewerSession {
    type V = SessionModel;

    closed spec fn view(&self) -> SessionModel {
        SessionModel {
            topology: self.topology@.map_values(|d: ImuDescriptor| d@),
            samples: self.latest_samples@,
            orientations: self.latest_orientation@,
            errors: self.errors@.map_values(|e: ErrorEntry| e@),
            active_imus: self.active_imus,
            last_seq: self.last_seq,
            selected_imu: self.selected_imu,
            recording: self.recording,
            recorded: self.recorded_frames@,
            replay: self.replay_frames@,
            replay_cursor: self.replay_cursor as nat,
            replaying: self.replaying,
        }
    }
}

/// Storing an entry keeps keys unique and leaves the entry findable.
pub proof fn lemma_upsert_unique<T>(s: Seq<T>, key: spec_fn(T) -> ImuId, item: T)
    requires
        unique_keys(s, key),
    ensures
        unique_keys(upsert(s, key, item), key),
        has_key(upsert(s, key, item), key, key(item)),
        upsert(s, key, item).len() == if has_key(s, key, key(item)) {
            s.len()
        } else {
            s.len() + 1
        },
{
    let r = upsert(s, key, item);
    if has_key(s, key, key(item)) {
        let i = choose|i: int| 0 <= i < s.len() && key(s[i]) == key(item);
        assert(key(r[i]) == key(item));
    } else {
        assert(key(r[s.len() as int]) == key(item));
    }
}

/// Storing under a key found at `i` replaces entry `i`.
pub proof fn lemma_upsert_at<T>(s: Seq<T>, key: spec_fn(T) -> ImuId, item: T, i: int)
    requires
        unique_keys(s, key),
        0 <= i < s.len(),
        key(s[i]) == key(item),
    ensures
        upsert(s, key, item) == s.update(i, item),
{
    let j = choose|j: int| 0 <= j < s.len() && key(s[j]) == key(item);
    if j != i {
        if j < i {
            assert(key(s[j]) != key(s[i]));
        } else {
            assert(key(s[i]) != key(s[j]));
        }
    }
}

/// Storing entries one after the other keeps keys unique.
pub proof fn lemma_upsert_all_unique<T>(s: Seq<T>, key: spec_fn(T) -> ImuId, items: Seq<T>)
    requires
        unique_keys(s, key),
    ensures
        unique_keys(upsert_all(s, key, items), key),
    decreases items.len(),
{
    if items.len() > 0 {
        lemma_upsert_all_unique(s, key, items.drop_last());
        lemma_upsert_unique(upsert_all(s, key, items.drop_last()), key, items.last());
    }
}

/// Stores a descriptor under its sensor id.
fn upsert_descriptor(v: &mut Vec<ImuDescriptor>, d: ImuDescriptor)
    requires
        unique_keys(old(v)@.map_values(|x: ImuDescriptor| x@), |x: DescriptorView| descriptor_key(x)),
    ensures
        final(v)@.map_values(|x: ImuDescriptor| x@) == upsert(
            old(v)@.map_values(|x: ImuDescriptor| x@),
            |x: DescriptorView| descriptor_key(x),
            d@,
        ),
{
    let ghost m = old(v)@.map_values(|x: ImuDescriptor| x@);
    let ghost key = |x: DescriptorView| descriptor_key(x);
    let mut i: usize = 0;
    while i < v.len()
        invariant
            v@ == old(v)@,
            m == v@.map_values(|x: ImuDescriptor| x@),
            key == (|x: DescriptorView| descriptor_key(x)),
            unique_keys(m, key),
            i <= v@.len(),
            forall|j: int| 0 <= j < i ==> key(m[j]) != d.id,
        decreases v@.len() - i,
    {
        if v[i].id == d.id {
            proof {
                lemma_upsert_at(m, key, d@, i as int);
            }
            v.set(i, d);
            assert(v@.map_values(|x: ImuDescriptor| x@) =~= m.update(i as int, d@));
            return;
        }
        i = i + 1;
    }
    assert(!has_key(m, key, d.id));
    v.push(d);
    assert(v@.map_values(|x: ImuDescriptor| x@) =~= m.push(d@));
}

/// Whether some descriptor has sensor id `id`.
fn has_descriptor(v: &Vec<ImuDescriptor>, id: ImuId) -> (found: bool)
    ensures
        found == has_key(v@.map_values(|x: ImuDescriptor| x@), |x: DescriptorView| descriptor_key(x), id),
{
    let ghost m = v@.map_values(|x: ImuDescriptor| x@);
    let mut i: usize = 0;
    while i < v.len()
        invariant
            m == v@.map_values(|x: ImuDescriptor| x@),
            i <= v@.len(),
            forall|j: int| 0 <= j < i ==> descriptor_key(m[j]) != id,
        decreases v@.len() - i,
    {
        if v[i].id == id {
            assert(descriptor_key(m[i as int]) == id);
            return true;
        }
        i = i + 1;
    }
    false
}

/// Stores a sample as its sensor's latest.
fn upsert_sample(v: &mut Vec<SampleFrame>, f: SampleFrame)
    requires
        unique_keys(old(v)@, |x: SampleFrame| sample_key(x)),
    ensures
        final(v)@ == upsert(old(v)@, |x: SampleFrame| sample_key(x), f),
{
    let ghost key = |x: SampleFrame| sample_key(x);
    let mut i: usize = 0;
    while i < v.len()
        invariant
            v@ == old(v)@,
            key == (|x: SampleFrame| sample_key(x)),
            unique_keys(v@, key),
            i <= v@.len(),
            forall|j: int| 0 <= j < i ==> key(v@[j]) != f.imu_id,
        decreases v@.len() - i,
    {
        if v[i].imu_id == f.imu_id {
            proof {
                lemma_upsert_at(v@, key, f, i as int);
            }
            v.set(i, f);
            return;
        }
        i = i + 1;
    }
    assert(!has_key(v@, key, f.imu_id));
    v.push(f);
}

/// Stores an orientation as its sensor's latest.
fn upsert_orientation(v: &mut Vec<OrientationFrame>, f: OrientationFrame)
    requires
        unique_keys(old(v)@, |x: OrientationFrame| orientation_key(x)),
    ensures
        final(v)@ == upsert(old(v)@, |x: OrientationFrame| orientation_key(x), f),
{
    let ghost key = |x: OrientationFrame| orientation_key(x);
    let mut i: usize = 0;
    while i < v.len()
        invariant
            v@ == old(v)@,
            key == (|x: OrientationFrame| orientation_key(x)),
            unique_keys(v@, key),
            i <= v@.len(),
            forall|j: int| 0 <= j < i ==> key(v@[j]) != f.imu_id,
        decreases v@.len() - i,
    {
        if v[i].imu_id == f.imu_id {
            proof {
                lemma_upsert_at(v@, key, f, i as int);
            }
            v.set(i, f);
            return;
        }
        i = i + 1;
    }
    assert(!has_key(v@, key, f.imu_id));
    v.push(f);
}

/// Appends an error, dropping the oldest beyond `ERROR_LIMIT`.
fn push_error(v: &mut Vec<ErrorEntry>, e: ErrorEntry)
    requires
        old(v)@.len() <= ERROR_LIMIT,
    ensures
        final(v)@.map_values(|x: ErrorEntry| x@) == capped(
            old(v)@.map_values(|x: ErrorEntry| x@).push(e@),
        ),
        final(v)@.len() <= ERROR_LIMIT,
{
    let ghost pushed = old(v)@.map_values(|x: ErrorEntry| x@).push(e@);
    v.push(e);
    assert(v@.map_values(|x: ErrorEntry| x@) =~= pushed);
    if v.len() > ERROR_LIMIT {
        let _ = v.remove(0);
        assert(v@.map_values(|x: ErrorEntry| x@) =~= pushed.skip(1));
    }
}

/// The label `imu-<sensor id>`.
pub fn default_label_string(sensor_id: u16) -> (label: String)
    ensures
        label@ == default_label(sensor_id),
{
    let mut s = String::new();
    push_str(&mut s, "imu-");
    proof {
        reveal_strlit("imu-");
    }
    push_decimal(&mut s, sensor_id as u64);
    assert(s@ =~= default_label(sensor_id));
    s
}

/// How recording changed.
#[derive(Clone, Copy, Debug, PartialEq, Eq, Structural)]
pub enum RecordingChange {
    Started,
    Stopped { frames: usize },
}

/// How a replay toggle went.
#[derive(Clone, Copy, Debug, PartialEq, Eq, Structural)]
pub enum ReplayChange {
    Stopped,
    NothingLoaded,
    Started,
}

/// `s` with everything the stream built up forgotten.
pub open spec fn cleared(s: SessionModel) -> SessionModel {
    SessionModel {
        topology: Seq::empty(),
        samples: Seq::empty(),
        orientations: Seq::empty(),
        errors: Seq::empty(),
        active_imus: 0,
        last_seq: None,
        selected_imu: None,
        ..s
    }
}

/// The state after replaying the frame under the replay cursor.
pub open spec fn replay_step(s: SessionModel) -> SessionModel {
    SessionModel {
        replay_cursor: s.replay_cursor + 1,
        ..apply_frame(s, s.replay[s.replay_cursor as int], false)
    }
}

/// The state after `n` replay steps.
pub open spec fn replay_steps(s: SessionModel, n: nat) -> SessionModel
    decreases n,
{
    if n == 0 {
        s
    } else {
        replay_step(replay_steps(s, (n - 1) as nat))
    }
}

/// The last status change among the first `n` replayed frames.
pub open spec fn steps_status(s: SessionModel, n: nat) -> Option<StatusChange>
    decreases n,
{
    if n == 0 {
        None
    } else {
        match frame_status(s.replay[s.replay_cursor + n - 1]) {
            Some(st) => Some(st),
            None => steps_status(s, (n - 1) as nat),
        }
    }
}

/// How many frames one replay batch handles.
pub open spec fn batch_len(s: SessionModel) -> nat {
    let left = s.replay.len() - s.replay_cursor;
    if left < REPLAY_BATCH {
        if left < 0 {
            0
        } else {
            left as nat
        }
    } else {
        REPLAY_BATCH as nat
    }
}

/// The state after one replay batch: nothing happens unless replaying;
/// after the last frame the replay stops.
pub open spec fn replay_batch(s: SessionModel) -> SessionModel {
    if !s.replaying {
        s
    } else {
        let after = replay_steps(s, batch_len(s));
        if after.replay_cursor >= after.replay.len() {
            SessionModel { replaying: false, ..after }
        } else {
            after
        }
    }
}

/// The status change one replay batch reports.
pub open spec fn replay_batch_status(s: SessionModel) -> Option<StatusChange> {
    if !s.replaying {
        None
    } else if s.replay_cursor + batch_len(s) >= s.replay.len() {
        Some(StatusChange::ReplayFinished)
    } else {
        steps_status(s, batch_len(s))
    }
}

/// Replay steps move the cursor and leave the replay and the replay flag
/// alone.
pub proof fn lemma_replay_steps_keep(s: SessionModel, n: nat)
    ensures
        replay_steps(s, n).replay == s.replay,
        replay_steps(s, n).replaying == s.replaying,
        replay_steps(s, n).replay_cursor == s.replay_cursor + n,
    decreases n,
{
    if n > 0 {
        lemma_replay_steps_keep(s, (n - 1) as nat);
    }
}

/// The frames handled in turn.
pub open spec fn apply_all(s: SessionModel, frames: Seq<WireFrame>, allow_recording: bool) -> SessionModel
    decreases frames.len(),
{
    if frames.len() == 0 {
        s
    } else {
        apply_frame(apply_all(s, frames.drop_last(), allow_recording), frames.last(), allow_recording)
    }
}

/// Two states show the same: topology, latest samples and orientations,
/// errors, counters and selection agree.
pub open spec fn same_display(a: SessionModel, b: SessionModel) -> bool {
    &&& a.topology == b.topology
    &&& a.samples == b.samples
    &&& a.orientations == b.orientations
    &&& a.errors == b.errors
    &&& a.active_imus == b.active_imus
    &&& a.last_seq == b.last_seq
    &&& a.selected_imu == b.selected_imu
}

/// Handling any frame keeps the session consistent: one entry per sensor
/// in each table, at most `ERROR_LIMIT` errors.
pub proof fn lemma_apply_frame_wf(s: SessionModel, frame: WireFrame, allow_recording: bool)
    requires
        model_wf(s),
    ensures
        model_wf(apply_frame(s, frame, allow_recording)),
{
    let t = apply_frame(s, frame, allow_recording);
    match frame {
        WireFrame::Topology(f) => {
            lemma_upsert_all_unique(
                Seq::empty(),
                |d: DescriptorView| descriptor_key(d),
                f.imus@.map_values(|d: ImuDescriptor| d@),
            );
        },
        WireFrame::Sample(f) => {
            let key = |d: DescriptorView| descriptor_key(d);
            if !has_key(s.topology, key, f.imu_id) {
                let m = s.topology.push(default_descriptor(f));
                assert forall|i: int, j: int| 0 <= i < j < m.len() implies key(m[i]) != key(
                    m[j],
                ) by {
                    if j == s.topology.len() {
                        assert(key(s.topology[i]) != f.imu_id);
                    }
                }
            }
            lemma_upsert_unique(s.samples, |x: SampleFrame| sample_key(x), f);
        },
        WireFrame::Orientation(f) => {
            lemma_upsert_unique(s.orientations, |x: OrientationFrame| orientation_key(x), f);
        },
        _ => {},
    }
}

/// Recording does not change what is shown: with recording allowed a frame
/// shows the same as without, and it is appended to the recording exactly
/// when recording is on.
pub proof fn lemma_recording_transparent(s: SessionModel, frame: WireFrame)
    ensures
        same_display(apply_frame(s, frame, true), apply_frame(s, frame, false)),
        apply_frame(s, frame, true).recorded == if s.recording {
            s.recorded.push(frame)
        } else {
            s.recorded
        },
        apply_frame(s, frame, false).recorded == s.recorded,
{
}

/// What a frame shows depends only on what was shown before.
pub proof fn lemma_display_congruent(
    a: SessionModel,
    b: SessionModel,
    frame: WireFrame,
    allow_a: bool,
    allow_b: bool,
)
    requires
        same_display(a, b),
    ensures
        same_display(apply_frame(a, frame, allow_a), apply_frame(b, frame, allow_b)),
{
}

/// A recording holds exactly the frames handled while it runs, in order.
pub proof fn lemma_recording_captures(s: SessionModel, frames: Seq<WireFrame>)
    requires
        s.recording,
    ensures
        apply_all(s, frames, true).recording,
        apply_all(s, frames, true).recorded == s.recorded + frames,
    decreases frames.len(),
{
    if frames.len() > 0 {
        lemma_recording_captures(s, frames.drop_last());
        assert(s.recorded + frames =~= (s.recorded + frames.drop_last()).push(frames.last()));
    }
}

/// Replaying frames shows what handling the same frames live showed.
pub proof fn lemma_replay_matches_live(s: SessionModel, n: nat)
    requires
        s.replay_cursor + n <= s.replay.len(),
    ensures
        same_display(
            replay_steps(s, n),
            apply_all(
                s,
                s.replay.subrange(s.replay_cursor as int, (s.replay_cursor + n) as int),
                true,
            ),
        ),
    decreases n,
{
    if n > 0 {
        let m = (n - 1) as nat;
        lemma_replay_matches_live(s, m);
        lemma_replay_steps_keep(s, m);
        let frames = s.replay.subrange(s.replay_cursor as int, (s.replay_cursor + n) as int);
        assert(frames.drop_last() =~= s.replay.subrange(
            s.replay_cursor as int,
            (s.replay_cursor + m) as int,
        ));
        let t = replay_steps(s, m);
        lemma_display_congruent(
            t,
            apply_all(s, frames.drop_last(), true),
            frames.last(),
            false,
            true,
        );
    }
}

/// A sample makes its sensor known and becomes that sensor's latest
/// sample; a sensor is selected afterwards.
pub proof fn lemma_sample_registers(s: SessionModel, f: SampleFrame, allow_recording: bool)
    requires
        model_wf(s),
    ensures
        has_key(
            apply_frame(s, WireFrame::Sample(f), allow_recording).topology,
            |d: DescriptorView| descriptor_key(d),
            f.imu_id,
        ),
        apply_frame(s, WireFrame::Sample(f), allow_recording).samples.contains(f),
        apply_frame(s, WireFrame::Sample(f), allow_recording).selected_imu is Some,
        apply_frame(s, WireFrame::Sample(f), allow_recording).last_seq == Some(f.header.seq),
{
    let t = apply_frame(s, WireFrame::Sample(f), allow_recording);
    let key = |d: DescriptorView| descriptor_key(d);
    if !has_key(s.topology, key, f.imu_id) {
        assert(key(t.topology[s.topology.len() as int]) == f.imu_id);
    }
    lemma_upsert_unique(s.samples, |x: SampleFrame| sample_key(x), f);
    let skey = |x: SampleFrame| sample_key(x);
    if has_key(s.samples, skey, f.imu_id) {
        let i = choose|i: int| 0 <= i < s.samples.len() && skey(s.samples[i]) == skey(f);
        assert(t.samples[i] == f);
    } else {
        assert(t.samples[s.samples.len() as int] == f);
    }
}

/// Latest orientations are kept per sensor: handling the orientation of
/// sensor B stores it, keeps the latest orientation of every other sensor,
/// and drops nothing else but B's earlier one.
pub proof fn lemma_orientation_kept_per_sensor(s: SessionModel, f: OrientationFrame, allow_recording: bool)
    requires
        model_wf(s),
    ensures
        apply_frame(s, WireFrame::Orientation(f), allow_recording).orientations.contains(f),
        forall|o: OrientationFrame|
            s.orientations.contains(o) && o.imu_id != f.imu_id ==> apply_frame(
                s,
                WireFrame::Orientation(f),
                allow_recording,
            ).orientations.contains(o),
        forall|o: OrientationFrame|
            apply_frame(s, WireFrame::Orientation(f), allow_recording).orientations.contains(o)
                ==> o == f || (s.orientations.contains(o) && o.imu_id != f.imu_id),
{
    let key = |x: OrientationFrame| orientation_key(x);
    let old_s = s.orientations;
    let t = apply_frame(s, WireFrame::Orientation(f), allow_recording).orientations;
    assert(t == upsert(old_s, key, f));
    if has_key(old_s, key, f.imu_id) {
        let i = choose|i: int| 0 <= i < old_s.len() && key(old_s[i]) == key(f);
        assert(t == old_s.update(i, f));
        assert(t[i] == f);
        assert forall|o: OrientationFrame|
            old_s.contains(o) && o.imu_id != f.imu_id implies t.contains(o) by {
            let j = choose|j: int| 0 <= j < old_s.len() && old_s[j] == o;
            assert(j != i);
            assert(t[j] == o);
        }
        assert forall|o: OrientationFrame| t.contains(o) implies o == f || (old_s.contains(o)
            && o.imu_id != f.imu_id) by {
            let k = choose|k: int| 0 <= k < t.len() && t[k] == o;
            if k != i {
                assert(old_s[k] == o);
                if k < i {
                    assert(key(old_s[k]) != key(old_s[i]));
                } else {
                    assert(key(old_s[i]) != key(old_s[k]));
                }
            }
        }
    } else {
        assert(t == old_s.push(f));
        assert(t[old_s.len() as int] == f);
        assert forall|o: OrientationFrame|
            old_s.contains(o) && o.imu_id != f.imu_id implies t.contains(o) by {
            let j = choose|j: int| 0 <= j < old_s.len() && old_s[j] == o;
            assert(t[j] == o);
        }
        assert forall|o: OrientationFrame| t.contains(o) implies o == f || (old_s.contains(o)
            && o.imu_id != f.imu_id) by {
            let k = choose|k: int| 0 <= k < t.len() && t[k] == o;
            if k < old_s.len() {
                assert(old_s[k] == o);
                if o.imu_id == f.imu_id {
                    assert(key(old_s[k]) == f.imu_id);
                    assert(has_key(old_s, key, f.imu_id));
                }
            }
        }
    }
}

/// A cleared view shows nothing: no sensor, sample, orientation or error,
/// no heartbeat count, sequence number or selection; recording and replay
/// are left as they were.
pub proof fn lemma_cleared_view_is_empty(s: SessionModel)
    ensures
        cleared(s).topology.len() == 0,
        cleared(s).samples.len() == 0,
        cleared(s).orientations.len() == 0,
        cleared(s).errors.len() == 0,
        cleared(s).active_imus == 0,
        cleared(s).last_seq is None,
        cleared(s).selected_imu is None,
        cleared(s).recording == s.recording,
        cleared(s).recorded == s.recorded,
        cleared(s).replay == s.replay,
        cleared(s).replay_cursor == s.replay_cursor,
        cleared(s).replaying == s.replaying,
{
}

/// Handling two copies of one frame gives the same state, as long as
/// neither is recorded.
pub proof fn lemma_apply_same_frame(s: SessionModel, a: WireFrame, b: WireFrame)
    requires
        same_frame(a, b),
    ensures
        apply_frame(s, a, false) == apply_frame(s, b, false),
        frame_status(a) == frame_status(b),
{
    match (a, b) {
        (WireFrame::Topology(x), WireFrame::Topology(y)) => {
            assert(x.imus@.map_values(|d: ImuDescriptor| d@) == y.imus@.map_values(
                |d: ImuDescriptor| d@,
            ));
        },
        _ => {},
    }
}

impl ViewerSession {
    /// The session is consistent: one table entry per sensor, at most
    /// `ERROR_LIMIT` errors, and the replay cursor within the replay.
    pub closed spec fn wf(&self) -> bool {
        model_wf(self@)
    }

    /// An empty session: nothing known, not recording, nothing to replay.
    pub fn new() -> (session: Self)
        ensures
            session.wf(),
            session@ == (SessionModel {
                topology: Seq::empty(),
                samples: Seq::empty(),
                orientations: Seq::empty(),
                errors: Seq::empty(),
                active_imus: 0,
                last_seq: None,
                selected_imu: None,
                recording: false,
                recorded: Seq::empty(),
                replay: Seq::empty(),
                replay_cursor: 0,
                replaying: false,
            }),
    {
        let session = ViewerSession {
            topology: Vec::new(),
            latest_samples: Vec::new(),
            latest_orientation: Vec::new(),
            errors: Vec::new(),
            active_imus: 0,
            last_seq: None,
            selected_imu: None,
            recording: false,
            recorded_frames: Vec::new(),
            replay_frames: Vec::new(),
            replay_cursor: 0,
            replaying: false,
        };
        assert(session@.topology =~= Seq::<DescriptorView>::empty());
        assert(session@.errors =~= Seq::<ErrorView>::empty());
        session
    }

    /// Replaces the topology by the sensors of a topology frame, one entry
    /// per sensor id, a later entry winning over an earlier one.
    fn set_topology(&mut self, imus: &Vec<ImuDescriptor>)
        requires
            old(self).wf(),
        ensures
            final(self).wf(),
            final(self)@ == (SessionModel {
                topology: upsert_all(
                    Seq::empty(),
                    |d: DescriptorView| descriptor_key(d),
                    imus@.map_values(|d: ImuDescriptor| d@),
                ),
                ..old(self)@
            }),
    {
        let ghost items = imus@.map_values(|d: ImuDescriptor| d@);
        let ghost key = |d: DescriptorView| descriptor_key(d);
        let mut topo: Vec<ImuDescriptor> = Vec::new();
        let mut i: usize = 0;
        assert(topo@.map_values(|x: ImuDescriptor| x@) =~= upsert_all(
            Seq::empty(),
            key,
            items.take(0),
        ));
        while i < imus.len()
            invariant
                i <= imus@.len(),
                items == imus@.map_values(|d: ImuDescriptor| d@),
                key == (|d: DescriptorView| descriptor_key(d)),
                topo@.map_values(|x: ImuDescriptor| x@) == upsert_all(
                    Seq::empty(),
                    key,
                    items.take(i as int),
                ),
            decreases imus@.len() - i,
        {
            proof {
                lemma_upsert_all_unique(Seq::empty(), key, items.take(i as int));
                assert(items.take(i + 1).drop_last() =~= items.take(i as int));
            }
            upsert_descriptor(&mut topo, imus[i].duplicate());
            i = i + 1;
        }
        assert(items.take(imus@.len() as int) =~= items);
        proof {
            lemma_upsert_all_unique(Seq::empty(), key, items);
        }
        self.topology = topo;
    }

    /// Updates the session with one received frame: records it when
    /// `allow_recording` is set and recording is on, then applies it.
    /// Returns the status change it causes.
    pub fn handle_frame(&mut self, frame: WireFrame, allow_recording: bool) -> (status: Option<
        StatusChange,
    >)
        requires
            old(self).wf(),
        ensures
            final(self).wf(),
            final(self)@ == apply_frame(old(self)@, frame, allow_recording),
            status == frame_status(frame),
    {
        let copy = frame.duplicate();
        if allow_recording && self.recording {
            self.recorded_frames.push(frame);
        }
        match copy {
            WireFrame::Hello(f) => {
                self.last_seq = Some(f.header.seq);
                Some(
                    StatusChange::Streaming {
                        format: f.header.format,
                        session_id: f.header.session_id,
                        uptime_ms: f.header.uptime_ms,
                    },
                )
            },
            WireFrame::Topology(f) => {
                self.last_seq = Some(f.header.seq);
                self.set_topology(&f.imus);
                None
            },
            WireFrame::Sample(f) => {
                self.last_seq = Some(f.header.seq);
                if !has_descriptor(&self.topology, f.imu_id) {
                    let d = ImuDescriptor {
                        id: f.imu_id,
                        bus_id: BusId(0),
                        kind: f.imu_kind,
                        location: ImuLocation::Index(f.imu_id.sensor_id),
                        label: default_label_string(f.imu_id.sensor_id),
                        capabilities: ImuCapabilities {
                            has_temp: false,
                            supports_fifo: false,
                            supports_data_ready_interrupt: false,
                            supported_accel_ranges: [None, None, None, None],
                            supported_gyro_ranges: [None, None, None, None],
                        },
                    };
                    let ghost before = self.topology@;
                    self.topology.push(d);
                    proof {
                        let key = |x: DescriptorView| descriptor_key(x);
                        let m = before.map_values(|x: ImuDescriptor| x@);
                        assert(self.topology@.map_values(|x: ImuDescriptor| x@) =~= m.push(
                            default_descriptor(f),
                        ));
                        assert(unique_keys(m.push(default_descriptor(f)), key)) by {
                            assert forall|i: int, j: int|
                                0 <= i < j < m.len() + 1 implies key(
                                m.push(default_descriptor(f))[i],
                            ) != key(m.push(default_descriptor(f))[j]) by {
                                if j == m.len() {
                                    assert(key(m[i]) != f.imu_id);
                                }
                            }
                        }
                    }
                }
                if self.selected_imu.is_none() {
                    self.selected_imu = Some(f.imu_id);
                }
                proof {
                    lemma_upsert_unique(
                        self.latest_samples@,
                        |x: SampleFrame| sample_key(x),
                        f,
                    );
                }
                upsert_sample(&mut self.latest_samples, f);
                None
            },
            WireFrame::Orientation(f) => {
                self.last_seq = Some(f.header.seq);
                proof {
                    lemma_upsert_unique(
                        self.latest_orientation@,
                        |x: OrientationFrame| orientation_key(x),
                        f,
                    );
                }
                upsert_orientation(&mut self.latest_orientation, f);
                None
            },
            WireFrame::Error(f) => {
                self.last_seq = Some(f.header.seq);
                let error = f.error;
                push_error(&mut self.errors, ErrorEntry::Device { error, message: f.message });
                Some(StatusChange::DeviceError(error))
            },
            WireFrame::ProbeResult(f) => {
                self.last_seq = Some(f.header.seq);
                if !f.success {
                    push_error(
                        &mut self.errors,
                        ErrorEntry::Probe { driver_name: f.driver_name, error: f.error },
                    );
                }
                None
            },
            WireFrame::Heartbeat(f) => {
                self.last_seq = Some(f.header.seq);
                self.active_imus = f.active_imus;
                None
            },
        }
    }

    /// Turns recording on or off. Turning it on starts a fresh recording.
    pub fn toggle_recording(&mut self) -> (change: RecordingChange)
        requires
            old(self).wf(),
        ensures
            final(self).wf(),
            final(self)@ == (SessionModel {
                recording: !old(self)@.recording,
                recorded: if old(self)@.recording {
                    old(self)@.recorded
                } else {
                    Seq::empty()
                },
                ..old(self)@
            }),
            change == if old(self)@.recording {
                RecordingChange::Stopped { frames: old(self)@.recorded.len() as usize }
            } else {
                RecordingChange::Started
            },
    {
        self.recording = !self.recording;
        if self.recording {
            self.recorded_frames.clear();
            RecordingChange::Started
        } else {
            RecordingChange::Stopped { frames: self.recorded_frames.len() }
        }
    }

    /// Forgets what the stream built up: topology, latest samples and
    /// orientations, errors, counters and selection.
    pub fn reset_session_view(&mut self)
        requires
            old(self).wf(),
        ensures
            final(self).wf(),
            final(self)@ == cleared(old(self)@),
    {
        self.topology.clear();
        self.latest_samples.clear();
        self.latest_orientation.clear();
        self.errors.clear();
        self.active_imus = 0;
        self.last_seq = None;
        self.selected_imu = None;
        assert(self@.topology =~= Seq::<DescriptorView>::empty());
        assert(self@.errors =~= Seq::<ErrorView>::empty());
    }

    /// Takes the frames to replay and rewinds the replay to its start.
    /// Returns how many frames were loaded.
    pub fn load_replay(&mut self, frames: Vec<WireFrame>) -> (count: usize)
        requires
            old(self).wf(),
        ensures
            final(self).wf(),
            final(self)@ == (SessionModel { replay: frames@, replay_cursor: 0, ..old(self)@ }),
            count == frames@.len(),
    {
        self.replay_frames = frames;
        self.replay_cursor = 0;
        self.replay_frames.len()
    }

    /// Stops a running replay, or starts the loaded one from its first
    /// frame on a cleared view.
    pub fn toggle_replay(&mut self) -> (change: ReplayChange)
        requires
            old(self).wf(),
        ensures
            final(self).wf(),
            old(self)@.replaying ==> change == ReplayChange::Stopped && final(self)@ == (
            SessionModel { replaying: false, ..old(self)@ }),
            !old(self)@.replaying && old(self)@.replay.len() == 0 ==> change
                == ReplayChange::NothingLoaded && final(self)@ == old(self)@,
            !old(self)@.replaying && old(self)@.replay.len() > 0 ==> change
                == ReplayChange::Started && final(self)@ == (SessionModel {
                replay_cursor: 0,
                replaying: true,
                ..cleared(old(self)@)
            }),
    {
        if self.replaying {
            self.replaying = false;
            return ReplayChange::Stopped;
        }
        if self.replay_frames.len() == 0 {
            return ReplayChange::NothingLoaded;
        }
        self.reset_session_view();
        self.replay_cursor = 0;
        self.replaying = true;
        ReplayChange::Started
    }

    /// Handles the next replayed frames, at most `REPLAY_BATCH` of them,
    /// without recording them; the replay stops after its last frame.
    /// Returns the last status change: the end of the replay, else that of
    /// the last frame that caused one.
    pub fn step_replay(&mut self) -> (status: Option<StatusChange>)
        requires
            old(self).wf(),
        ensures
            final(self).wf(),
            final(self)@ == replay_batch(old(self)@),
            status == replay_batch_status(old(self)@),
    {
        if !self.replaying {
            return None;
        }
        let ghost start = self@;
        let mut budget: usize = REPLAY_BATCH;
        let mut status: Option<StatusChange> = None;
        while budget > 0 && self.replay_cursor < self.replay_frames.len()
            invariant
                self.wf(),
                start.replaying,
                model_wf(start),
                budget <= REPLAY_BATCH,
                self@ == replay_steps(start, (REPLAY_BATCH - budget) as nat),
                status == steps_status(start, (REPLAY_BATCH - budget) as nat),
                self.replay_cursor == start.replay_cursor + (REPLAY_BATCH - budget),
                self@.replay == start.replay,
            decreases budget,
        {
            let ghost before = self@;
            let ghost n = (REPLAY_BATCH - budget) as nat;
            let frame = self.replay_frames[self.replay_cursor].duplicate();
            proof {
                lemma_apply_same_frame(before, frame, before.replay[before.replay_cursor as int]);
            }
            let st = self.handle_frame(frame, false);
            if st.is_some() {
                status = st;
            }
            self.replay_cursor = self.replay_cursor + 1;
            budget = budget - 1;
            proof {
                lemma_replay_steps_keep(start, n);
            }
        }
        if self.replay_cursor >= self.replay_frames.len() {
            self.replaying = false;
            status = Some(StatusChange::ReplayFinished);
        }
        status
    }

    /// The known sensors.
    pub fn topology(&self) -> (t: &Vec<ImuDescriptor>)
        ensures
            t@.map_values(|d: ImuDescriptor| d@) == self@.topology,
    {
        &self.topology
    }

    /// The latest sample of each sensor.
    pub fn latest_samples(&self) -> (t: &Vec<SampleFrame>)
        ensures
            t@ == self@.samples,
    {
        &self.latest_samples
    }

    /// The latest orientation of each sensor.
    pub fn latest_orientations(&self) -> (t: &Vec<OrientationFrame>)
        ensures
            t@ == self@.orientations,
    {
        &self.latest_orientation
    }

    /// The recent errors, oldest first.
    pub fn errors(&self) -> (t: &Vec<ErrorEntry>)
        ensures
            t@.map_values(|e: ErrorEntry| e@) == self@.errors,
    {
        &self.errors
    }

    /// The sensor count of the last heartbeat.
    pub fn active_imus(&self) -> (n: u16)
        ensures
            n == self@.active_imus,
    {
        self.active_imus
    }

    /// The sequence number of the last frame handled.
    pub fn last_seq(&self) -> (seq: Option<u32>)
        ensures
            seq == self@.last_seq,
    {
        self.last_seq
    }

    /// The sensor shown in the plots.
    pub fn selected_imu(&self) -> (id: Option<ImuId>)
        ensures
            id == self@.selected_imu,
    {
        self.selected_imu
    }

    /// Chooses the sensor shown in the plots.
    pub fn select_imu(&mut self, id: Option<ImuId>)
        requires
            old(self).wf(),
        ensures
            final(self).wf(),
            final(self)@ == (SessionModel { selected_imu: id, ..old(self)@ }),
    {
        self.selected_imu = id;
    }

    /// Whether frames are being recorded.
    pub fn is_recording(&self) -> (on: bool)
        ensures
            on == self@.recording,
    {
        self.recording
    }

    /// The frames recorded so far.
    pub fn recorded_frames(&self) -> (t: &Vec<WireFrame>)
        ensures
            t@ == self@.recorded,
    {
        &self.recorded_frames
    }

    /// How many frames the loaded replay holds.
    pub fn replay_len(&self) -> (n: usize)
        ensures
            n == self@.replay.len(),
    {
        self.replay_frames.len()
    }

    /// The loaded replay.
    pub fn replay_frames(&self) -> (frames: &Vec<WireFrame>)
        ensures
            frames@ == self@.replay,
    {
        &self.replay_frames
    }

    /// The positions `[start, end)` of the replay frames the next
    /// `step_replay` handles: none unless replaying.
    pub fn next_replay_batch(&self) -> (range: (usize, usize))
        requires
            self.wf(),
        ensures
            range.0 == self@.replay_cursor,
            range.1 == if self@.replaying {
                self@.replay_cursor + batch_len(self@)
            } else {
                self@.replay_cursor
            },
    {
        let start = self.replay_cursor;
        if !self.replaying {
            return (start, start);
        }
        let left = self.replay_frames.len() - start;
        let n = if left < REPLAY_BATCH {
            left
        } else {
            REPLAY_BATCH
        };
        (start, start + n)
    }

    /// The index of the next frame to replay.
    pub fn replay_cursor(&self) -> (n: usize)
        ensures
            n == self@.replay_cursor,
    {
        self.replay_cursor
    }

    /// Whether a replay is running.
    pub fn is_replaying(&self) -> (on: bool)
        ensures
            on == self@.replaying,
    {
        self.replaying
    }
}

/// The last `limit` entries of `s` (all of them when there are fewer).
pub open spec fn keep_last<T>(s: Seq<T>, limit: nat) -> Seq<T> {
    if s.len() > limit {
        s.skip(s.len() - limit)
    } else {
        s
    }
}

/// Appends `item`, then drops the oldest entries until at most `limit`
/// are left.
pub fn push_capped<T>(v: &mut Vec<T>, item: T, limit: usize)
    ensures
        final(v)@ == keep_last(old(v)@.push(item), limit as nat),
{
    let ghost pushed = old(v)@.push(item);
    v.push(item);
    let ghost mut dropped: int = 0;
    while v.len() > limit
        invariant
            0 <= dropped <= pushed.len(),
            v@ == pushed.skip(dropped),
            dropped > 0 ==> pushed.len() - dropped >= limit,
        decreases v@.len(),
    {
        let _ = v.remove(0);
        proof {
            assert(v@ =~= pushed.skip(dropped + 1));
            dropped = dropped + 1;
        }
    }
    proof {
        if dropped == 0 {
            assert(pushed.skip(0) =~= pushed);
        }
    }
}

} // verus!
