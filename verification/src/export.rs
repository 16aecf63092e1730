//! Text exports of a recording: its samples and orientations as CSV, and
//! the names of the exported files.

use vstd::prelude::*;
use crate::protocol::{OrientationFrame, SampleFrame, WireFrame};
use crate::serial::{digits_value, is_ascii_digit};
use crate::text::{decimal, digit_char, push_char, push_decimal, push_str};

verus! {

/// The header line of the CSV export: identity and timing columns, the
/// raw sample columns, then the quaternion columns.
pub open spec fn csv_header() -> Seq<char> {
    "system_id,sensor_id,seq,sample_index,timestamp_us,ax,ay,az,gx,gy,gz,status_bits,qw,qx,qy,qz\n"@
}

/// The decimal rendering of a signed value: a minus sign before the
/// digits of a negative one.
pub open spec fn signed_decimal(n: int) -> Seq<char> {
    if n < 0 {
        seq!['-'] + decimal((-n) as nat)
    } else {
        decimal(n as nat)
    }
}

/// The first five CSV fields of a frame, each followed by a comma: sensor
/// id, sequence number, sample index and timestamp.
pub open spec fn id_fields(
    system_id: u16,
    sensor_id: u16,
    seq: u32,
    sample_index: u32,
    timestamp_us: u64,
) -> Seq<char> {
    decimal(system_id as nat) + seq![','] + decimal(sensor_id as nat) + seq![','] + decimal(
        seq as nat,
    ) + seq![','] + decimal(sample_index as nat) + seq![','] + decimal(timestamp_us as nat) + seq![
        ',',
    ]
}

/// The identity and timing fields of a sample frame.
pub open spec fn csv_ids(f: SampleFrame) -> Seq<char> {
    id_fields(f.imu_id.system_id, f.imu_id.sensor_id, f.header.seq, f.sample_index, f.timestamp_us)
}

/// The raw sample fields of a sample frame: the six axes and the status
/// bits, separated by commas.
pub open spec fn csv_axes(f: SampleFrame) -> Seq<char> {
    signed_decimal(f.sample.accel[0] as int) + seq![','] + signed_decimal(
        f.sample.accel[1] as int,
    ) + seq![','] + signed_decimal(f.sample.accel[2] as int) + seq![','] + signed_decimal(
        f.sample.gyro[0] as int,
    ) + seq![','] + signed_decimal(f.sample.gyro[1] as int) + seq![','] + signed_decimal(
        f.sample.gyro[2] as int,
    ) + seq![','] + decimal(f.status_bits as nat)
}

/// The CSV line of a sample frame; its quaternion columns are empty.
pub open spec fn csv_row(f: SampleFrame) -> Seq<char> {
    csv_ids(f) + csv_axes(f) + seq![',', ',', ',', ',', '\n']
}

/// Cell `k` of the rendered quaternion components, or nothing when there
/// is no such cell.
pub open spec fn cell(cells: Seq<Seq<char>>, k: int) -> Seq<char> {
    if 0 <= k < cells.len() {
        cells[k]
    } else {
        Seq::empty()
    }
}

/// The CSV line of the `k`-th orientation frame of a recording: its
/// identity and timing, empty raw sample columns, then its quaternion
/// components w, x, y, z as rendered in cells `4k` to `4k + 3`.
pub open spec fn csv_orientation_row(f: OrientationFrame, cells: Seq<Seq<char>>, k: int) -> Seq<
    char,
> {
    id_fields(f.imu_id.system_id, f.imu_id.sensor_id, f.header.seq, f.sample_index, f.timestamp_us)
        + seq![',', ',', ',', ',', ',', ',', ','] + cell(cells, 4 * k) + seq![','] + cell(
        cells,
        4 * k + 1,
    ) + seq![','] + cell(cells, 4 * k + 2) + seq![','] + cell(cells, 4 * k + 3) + seq!['\n']
}

/// How many of `frames` are orientation frames.
pub open spec fn orientation_count(frames: Seq<WireFrame>) -> nat
    decreases frames.len(),
{
    if frames.len() == 0 {
        0
    } else {
        orientation_count(frames.drop_last()) + if frames.last() is Orientation {
            1nat
        } else {
            0nat
        }
    }
}

/// The CSV lines of the sample and orientation frames among `frames`, in
/// order; other frames give no line.
pub open spec fn csv_rows(frames: Seq<WireFrame>, cells: Seq<Seq<char>>) -> Seq<char>
    decreases frames.len(),
{
    if frames.len() == 0 {
        Seq::empty()
    } else {
        csv_rows(frames.drop_last(), cells) + match frames.last() {
            WireFrame::Sample(f) => csv_row(f),
            WireFrame::Orientation(f) => csv_orientation_row(
                f,
                cells,
                orientation_count(frames.drop_last()) as int,
            ),
            _ => Seq::empty(),
        }
    }
}

/// How many of `frames` are sample frames.
pub open spec fn sample_count(frames: Seq<WireFrame>) -> nat
    decreases frames.len(),
{
    if frames.len() == 0 {
        0
    } else {
        sample_count(frames.drop_last()) + if frames.last() is Sample {
            1nat
        } else {
            0nat
        }
    }
}

/// The name of an export file: `<prefix>-<stamp>.<extension>`.
pub open spec fn export_name(prefix: Seq<char>, stamp: u64, extension: Seq<char>) -> Seq<char> {
    prefix + seq!['-'] + decimal(stamp as nat) + seq!['.'] + extension
}

/// Appends the decimal rendering of a signed value.
pub fn push_signed(s: &mut String, n: i16)
    ensures
        final(s)@ == old(s)@ + signed_decimal(n as int),
{
    if n < 0 {
        push_char(s, '-');
        let magnitude: u64 = (0i32 - n as i32) as u64;
        push_decimal(s, magnitude);
        assert(final(s)@ =~= old(s)@ + signed_decimal(n as int));
    } else {
        push_decimal(s, n as u64);
    }
}

fn push_id_fields(
    s: &mut String,
    system_id: u16,
    sensor_id: u16,
    seq: u32,
    sample_index: u32,
    timestamp_us: u64,
)
    ensures
        final(s)@ == old(s)@ + id_fields(system_id, sensor_id, seq, sample_index, timestamp_us),
{
    push_decimal(s, system_id as u64);
    push_char(s, ',');
    push_decimal(s, sensor_id as u64);
    push_char(s, ',');
    push_decimal(s, seq as u64);
    push_char(s, ',');
    push_decimal(s, sample_index as u64);
    push_char(s, ',');
    push_decimal(s, timestamp_us);
    push_char(s, ',');
    assert(final(s)@ =~= old(s)@ + id_fields(system_id, sensor_id, seq, sample_index, timestamp_us));
}

fn push_csv_axes(s: &mut String, f: &SampleFrame)
    ensures
        final(s)@ == old(s)@ + csv_axes(*f),
{
    push_signed(s, f.sample.accel[0]);
    push_char(s, ',');
    push_signed(s, f.sample.accel[1]);
    push_char(s, ',');
    push_signed(s, f.sample.accel[2]);
    push_char(s, ',');
    push_signed(s, f.sample.gyro[0]);
    push_char(s, ',');
    push_signed(s, f.sample.gyro[1]);
    push_char(s, ',');
    push_signed(s, f.sample.gyro[2]);
    push_char(s, ',');
    push_decimal(s, f.status_bits as u64);
    assert(final(s)@ =~= old(s)@ + csv_axes(*f));
}

/// Appends the CSV line of one sample frame.
pub fn push_csv_row(s: &mut String, f: &SampleFrame)
    ensures
        final(s)@ == old(s)@ + csv_row(*f),
{
    push_id_fields(
        s,
        f.imu_id.system_id,
        f.imu_id.sensor_id,
        f.header.seq,
        f.sample_index,
        f.timestamp_us,
    );
    push_csv_axes(s, f);
    push_str(s, ",,,,\n");
    proof {
        reveal_strlit(",,,,\n");
    }
    assert(final(s)@ =~= old(s)@ + csv_row(*f));
}

/// Appends cell `4k + j`, if there is one.
fn push_cell(s: &mut String, cells: &Vec<String>, k: usize, j: usize)
    requires
        j < 4,
    ensures
        final(s)@ == old(s)@ + cell(cells@.map_values(|c: String| c@), 4 * k + j),
{
    let n = cells.len();
    if n >= j + 1 && k <= (n - j - 1) / 4 {
        assert(4 * k + j < n) by (nonlinear_arith)
            requires
                n >= j + 1,
                k <= (n - j - 1) / 4,
        ;
        let idx = 4 * k + j;
        push_str(s, cells[idx].as_str());
    } else {
        assert(4 * k + j >= n) by (nonlinear_arith)
            requires
                n < j + 1 || k > (n - j - 1) / 4,
                j < 4,
        ;
        assert(final(s)@ =~= old(s)@ + Seq::<char>::empty());
    }
}

/// Appends the CSV line of the `k`-th orientation frame, whose quaternion
/// components are rendered in `cells`.
pub fn push_orientation_row(s: &mut String, f: &OrientationFrame, cells: &Vec<String>, k: usize)
    ensures
        final(s)@ == old(s)@ + csv_orientation_row(*f, cells@.map_values(|c: String| c@), k as int),
{
    push_id_fields(
        s,
        f.imu_id.system_id,
        f.imu_id.sensor_id,
        f.header.seq,
        f.sample_index,
        f.timestamp_us,
    );
    push_str(s, ",,,,,,,");
    proof {
        reveal_strlit(",,,,,,,");
    }
    push_cell(s, cells, k, 0);
    push_char(s, ',');
    push_cell(s, cells, k, 1);
    push_char(s, ',');
    push_cell(s, cells, k, 2);
    push_char(s, ',');
    push_cell(s, cells, k, 3);
    push_char(s, '\n');
    assert(final(s)@ =~= old(s)@ + csv_orientation_row(
        *f,
        cells@.map_values(|c: String| c@),
        k as int,
    ));
}

/// A recording as CSV: the header line, then one line per sample frame and
/// per orientation frame, in order; `None` when it holds neither. The
/// quaternion components of the orientation frames are given already
/// rendered, four cells per orientation frame in order (w, x, y, z); a
/// missing cell is left empty.
pub fn samples_csv(frames: &Vec<WireFrame>, quaternion_cells: &Vec<String>) -> (csv: Option<String>)
    ensures
        match csv {
            None => sample_count(frames@) + orientation_count(frames@) == 0,
            Some(text) => sample_count(frames@) + orientation_count(frames@) > 0 && text@
                == csv_header() + csv_rows(frames@, quaternion_cells@.map_values(|c: String| c@)),
        },
{
    let ghost cells = quaternion_cells@.map_values(|c: String| c@);
    let mut content = String::new();
    push_str(
        &mut content,
        "system_id,sensor_id,seq,sample_index,timestamp_us,ax,ay,az,gx,gy,gz,status_bits,qw,qx,qy,qz\n",
    );
    let mut samples: usize = 0;
    let mut orientations: usize = 0;
    let mut i: usize = 0;
    while i < frames.len()
        invariant
            i <= frames@.len(),
            cells == quaternion_cells@.map_values(|c: String| c@),
            samples == sample_count(frames@.take(i as int)),
            orientations == orientation_count(frames@.take(i as int)),
            samples + orientations <= i,
            content@ == csv_header() + csv_rows(frames@.take(i as int), cells),
        decreases frames@.len() - i,
    {
        assert(frames@.take(i + 1).drop_last() =~= frames@.take(i as int));
        match &frames[i] {
            WireFrame::Sample(f) => {
                push_csv_row(&mut content, f);
                samples = samples + 1;
            },
            WireFrame::Orientation(f) => {
                push_orientation_row(&mut content, f, quaternion_cells, orientations);
                orientations = orientations + 1;
            },
            _ => {},
        }
        i = i + 1;
        assert(content@ =~= csv_header() + csv_rows(frames@.take(i as int), cells));
    }
    assert(frames@.take(frames@.len() as int) =~= frames@);
    if samples == 0 && orientations == 0 {
        None
    } else {
        Some(content)
    }
}

/// The name of an export file: `<prefix>-<stamp>.<extension>`.
pub fn export_file_name(prefix: &str, stamp: u64, extension: &str) -> (name: String)
    ensures
        name@ == export_name(prefix@, stamp, extension@),
{
    let mut name = String::new();
    push_str(&mut name, prefix);
    push_char(&mut name, '-');
    push_decimal(&mut name, stamp);
    push_char(&mut name, '.');
    push_str(&mut name, extension);
    assert(name@ =~= export_name(prefix@, stamp, extension@));
    name
}

#[verifier::external_type_specification]
#[verifier::external_body]
pub struct ExSystemTime(std::time::SystemTime);

/// `SystemTime::now`: the reading of the system clock. Nothing is claimed
/// of it: it is the time.
#[verifier::external_body]
fn system_now() -> std::time::SystemTime {
    std::time::SystemTime::now()
}

/// `SystemTime::duration_since` the Unix epoch: the time elapsed since
/// then, `None` when `t` lies before it. Nothing is claimed of the value.
#[verifier::external_body]
fn since_unix_epoch(t: std::time::SystemTime) -> Option<std::time::Duration> {
    t.duration_since(std::time::UNIX_EPOCH).ok()
}

/// `Duration::as_secs`: the whole seconds of `d`. Nothing is claimed of the
/// value, as a duration is opaque here.
#[verifier::external_body]
fn whole_seconds(d: std::time::Duration) -> u64 {
    d.as_secs()
}

/// The name of a new export file, stamped with the whole seconds since the
/// Unix epoch by the system clock (zero for a clock set before it).
pub fn export_path(prefix: &str, extension: &str) -> (path: String)
    ensures
        exists|stamp: u64| path@ == export_name(prefix@, stamp, extension@),
{
    let stamp = match since_unix_epoch(system_now()) {
        Some(elapsed) => whole_seconds(elapsed),
        None => 0,
    };
    export_file_name(prefix, stamp, extension)
}

/// The decimal rendering of `n` is a non-empty run of digits whose value
/// is `n`.
pub proof fn lemma_decimal_digits(n: nat)
    ensures
        decimal(n).len() > 0,
        forall|i: int| 0 <= i < decimal(n).len() ==> is_ascii_digit(#[trigger] decimal(n)[i]),
        digits_value(decimal(n)) == n,
    decreases n,
{
    let d = n % 10;
    assert(((d + 48) as u32) as char as u32 == d + 48);
    if n >= 10 {
        lemma_decimal_digits(n / 10);
        let head = decimal(n / 10);
        let c = digit_char(d);
        assert(decimal(n) == head.push(c));
        assert(decimal(n).drop_last() =~= head);
        assert(decimal(n).last() == c);
        assert(c as u32 == d + 48);
        assert(digits_value(decimal(n)) == digits_value(head) * 10 + ((c as u32) - 48) as nat);
        assert(n == (n / 10) * 10 + d);
        assert forall|i: int| 0 <= i < decimal(n).len() implies is_ascii_digit(
            #[trigger] decimal(n)[i],
        ) by {
            if i < head.len() {
                assert(decimal(n)[i] == head[i]);
            }
        }
    } else {
        assert(decimal(n).drop_last() =~= Seq::<char>::empty());
        assert(decimal(n).last() == digit_char(n));
        assert(digit_char(n) as u32 == n + 48);
        assert(digits_value(decimal(n)) == digits_value(Seq::<char>::empty()) * 10 + ((
        digit_char(n) as u32) - 48) as nat);
    }
}

/// Export names tell their stamps apart: two names with the same prefix and
/// extension are equal only when their stamps are, so exports made at
/// different seconds get different files.
pub proof fn lemma_export_names_distinct(prefix: Seq<char>, a: u64, b: u64, extension: Seq<char>)
    requires
        export_name(prefix, a, extension) == export_name(prefix, b, extension),
    ensures
        a == b,
{
    lemma_decimal_digits(a as nat);
    lemma_decimal_digits(b as nat);
    let da = decimal(a as nat);
    let db = decimal(b as nat);
    let x = export_name(prefix, a, extension);
    let y = export_name(prefix, b, extension);
    let base: int = prefix.len() as int + 1;
    assert(forall|i: int| 0 <= i < da.len() ==> x[base + i] == da[i]);
    assert(forall|i: int| 0 <= i < db.len() ==> y[base + i] == db[i]);
    assert(x[base + da.len()] == '.');
    assert(y[base + db.len()] == '.');
    if da.len() < db.len() {
        assert(is_ascii_digit(db[da.len() as int]));
        assert(y[base + da.len()] == db[da.len() as int]);
    } else if db.len() < da.len() {
        assert(is_ascii_digit(da[db.len() as int]));
        assert(x[base + db.len()] == da[db.len() as int]);
    } else {
        assert(da =~= db) by {
            assert forall|i: int| 0 <= i < da.len() implies da[i] == db[i] by {
                assert(x[base + i] == y[base + i]);
            }
        }
    }
}

} // verus!
