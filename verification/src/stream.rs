//! Splitting a serial byte stream into frame candidates: newline-terminated
//! JSON lines and zero-terminated binary packets, with automatic detection
//! of which of the two the device sends.

use vstd::prelude::*;

verus! {

/// Longest line or packet kept while waiting for its terminator; a buffer
/// that reaches it is discarded before the next byte is stored.
pub const STREAM_BUFFER_LIMIT: usize = 4096;

/// Consecutive empty reads after which a port that never delivered a
/// frame is reported as silent.
pub const IDLE_REPORT_AFTER: u32 = 20;

/// `buffer` after storing `byte`, discarding its contents first when it
/// already holds `max` bytes or more.
pub open spec fn bounded_push(buffer: Seq<u8>, byte: u8, max: nat) -> Seq<u8> {
    if buffer.len() >= max {
        seq![byte]
    } else {
        buffer.push(byte)
    }
}

pub fn push_bounded(buffer: &mut Vec<u8>, byte: u8, max: usize)
    ensures
        final(buffer)@ == bounded_push(old(buffer)@, byte, max as nat),
{
    if buffer.len() >= max {
        buffer.clear();
    }
    buffer.push(byte);
    assert(old(buffer)@.len() >= max ==> final(buffer)@ =~= seq![byte]);
}

#[derive(Clone, Copy, Debug, PartialEq, Eq, Structural)]
pub enum InputMode {
    Auto,
    Json,
    Binary,
}

/// A completed unit of input to try to parse.
#[derive(Clone, Debug, PartialEq, Eq)]
pub enum Candidate {
    /// A line, without its newline.
    Line(Vec<u8>),
    /// A packet, with its zero terminator.
    Packet(Vec<u8>),
}

/// The two buffers of the splitter, the format it has settled on, and the
/// silence bookkeeping.
pub struct StreamSplitter {
    pub mode: InputMode,
    pub line: Vec<u8>,
    pub packet: Vec<u8>,
    pub saw_frame: bool,
    pub idle_count: u32,
}

impl StreamSplitter {
    pub fn new(mode: InputMode) -> (s: Self)
        ensures
            s.mode == mode,
            s.line@.len() == 0,
            s.packet@.len() == 0,
            !s.saw_frame,
            s.idle_count == 0,
    {
        StreamSplitter { mode, line: Vec::new(), packet: Vec::new(), saw_frame: false, idle_count: 0 }
    }

    /// Takes one received byte. A newline completes the pending line (in
    /// JSON and auto mode), a zero byte completes the pending packet (in
    /// binary and auto mode); any other byte is stored, in auto mode in
    /// both buffers.
    pub fn feed(&mut self, byte: u8) -> (completed: Option<Candidate>)
        ensures
            final(self).mode == old(self).mode,
            final(self).saw_frame == old(self).saw_frame,
            final(self).idle_count == old(self).idle_count,
            match old(self).mode {
                InputMode::Json => if byte == 10 {
                    completed == Some(Candidate::Line(old(self).line)) && final(self).line@.len()
                        == 0 && final(self).packet@ == old(self).packet@
                } else {
                    completed is None && final(self).line@ == bounded_push(
                        old(self).line@,
                        byte,
                        STREAM_BUFFER_LIMIT as nat,
                    ) && final(self).packet@ == old(self).packet@
                },
                InputMode::Binary => if byte == 0 {
                    completed matches Some(Candidate::Packet(p)) && p@ == old(self).packet@.push(0)
                        && final(self).packet@.len() == 0 && final(self).line@ == old(self).line@
                } else {
                    completed is None && final(self).packet@ == bounded_push(
                        old(self).packet@,
                        byte,
                        STREAM_BUFFER_LIMIT as nat,
                    ) && final(self).line@ == old(self).line@
                },
                InputMode::Auto => if byte == 10 {
                    completed == Some(Candidate::Line(old(self).line)) && final(self).line@.len()
                        == 0 && final(self).packet@ == old(self).packet@
                } else if byte == 0 {
                    completed matches Some(Candidate::Packet(p)) && p@ == old(self).packet@.push(0)
                        && final(self).packet@.len() == 0 && final(self).line@ == old(self).line@
                } else {
                    completed is None && final(self).line@ == bounded_push(
                        old(self).line@,
                        byte,
                        STREAM_BUFFER_LIMIT as nat,
                    ) && final(self).packet@ == bounded_push(
                        old(self).packet@,
                        byte,
                        STREAM_BUFFER_LIMIT as nat,
                    )
                },
            },
    {
        let takes_line = byte == 10 && (self.mode == InputMode::Json || self.mode == InputMode::Auto);
        let takes_packet = byte == 0 && (self.mode == InputMode::Binary || self.mode
            == InputMode::Auto);
        if takes_line {
            let mut line: Vec<u8> = Vec::new();
            std::mem::swap(&mut line, &mut self.line);
            Some(Candidate::Line(line))
        } else if takes_packet {
            let mut packet: Vec<u8> = Vec::new();
            std::mem::swap(&mut packet, &mut self.packet);
            packet.push(0);
            Some(Candidate::Packet(packet))
        } else {
            match self.mode {
                InputMode::Json => push_bounded(&mut self.line, byte, STREAM_BUFFER_LIMIT),
                InputMode::Binary => push_bounded(&mut self.packet, byte, STREAM_BUFFER_LIMIT),
                InputMode::Auto => {
                    push_bounded(&mut self.line, byte, STREAM_BUFFER_LIMIT);
                    push_bounded(&mut self.packet, byte, STREAM_BUFFER_LIMIT);
                },
            }
            None
        }
    }

    /// Records that a candidate parsed into a frame. In auto mode the
    /// stream is from then on taken to be of that candidate's format.
    /// Returns the status line to show.
    pub fn parsed(&mut self, was_packet: bool) -> (status: &'static str)
        ensures
            final(self).saw_frame,
            final(self).line@ == old(self).line@,
            final(self).packet@ == old(self).packet@,
            final(self).idle_count == old(self).idle_count,
            final(self).mode == match old(self).mode {
                InputMode::Auto => if was_packet {
                    InputMode::Binary
                } else {
                    InputMode::Json
                },
                m => m,
            },
            status@ == match old(self).mode {
                InputMode::Json => "json stream"@,
                InputMode::Binary => "binary stream"@,
                InputMode::Auto => if was_packet {
                    "auto -> binary"@
                } else {
                    "auto -> json"@
                },
            },
    {
        self.saw_frame = true;
        match self.mode {
            InputMode::Json => "json stream",
            InputMode::Binary => "binary stream",
            InputMode::Auto => if was_packet {
                self.mode = InputMode::Binary;
                "auto -> binary"
            } else {
                self.mode = InputMode::Json;
                "auto -> json"
            },
        }
    }

    /// Counts an empty read; true exactly when this is the
    /// `IDLE_REPORT_AFTER`-th one in a row and no frame was seen yet.
    pub fn idle(&mut self) -> (report: bool)
        ensures
            final(self).idle_count == if old(self).idle_count == u32::MAX {
                u32::MAX
            } else {
                (old(self).idle_count + 1) as u32
            },
            report == (final(self).idle_count == IDLE_REPORT_AFTER && !old(self).saw_frame),
            final(self).mode == old(self).mode,
            final(self).saw_frame == old(self).saw_frame,
            final(self).line@ == old(self).line@,
            final(self).packet@ == old(self).packet@,
    {
        self.idle_count = self.idle_count.saturating_add(1);
        self.idle_count == IDLE_REPORT_AFTER && !self.saw_frame
    }

    /// Data arrived: the silence count starts over.
    pub fn data_received(&mut self)
        ensures
            final(self).idle_count == 0,
            final(self).mode == old(self).mode,
            final(self).saw_frame == old(self).saw_frame,
            final(self).line@ == old(self).line@,
            final(self).packet@ == old(self).packet@,
    {
        self.idle_count = 0;
    }
}

/// The position of the first `{` in `s`, or -1 when it has none.
pub open spec fn first_brace(s: Seq<char>) -> int
    decreases s.len(),
{
    if s.len() == 0 {
        -1
    } else if s[0] == '{' {
        0
    } else {
        let rest = first_brace(s.drop_first());
        if rest < 0 {
            -1
        } else {
            rest + 1
        }
    }
}

/// `first_brace` finds the first `{` in its place, or none when there is
/// none up to the end.
pub proof fn lemma_first_brace(s: Seq<char>, i: int)
    requires
        0 <= i <= s.len(),
        forall|j: int| 0 <= j < i ==> s[j] != '{',
        i < s.len() ==> s[i] == '{',
    ensures
        first_brace(s) == if i < s.len() {
            i
        } else {
            -1
        },
    decreases i,
{
    if i > 0 {
        let rest = s.drop_first();
        assert forall|j: int| 0 <= j < i - 1 implies rest[j] != '{' by {
            assert(rest[j] == s[j + 1]);
        }
        assert(s[0] != '{');
        lemma_first_brace(rest, i - 1);
    }
}

/// The part of a received line a JSON frame is parsed from: from its first
/// `{` on, or `None` when it holds no `{`.
pub fn json_candidate(line: &str) -> (candidate: Option<String>)
    ensures
        match candidate {
            None => first_brace(line@) < 0,
            Some(text) => first_brace(line@) >= 0 && text@ == line@.skip(first_brace(line@)),
        },
{
    let n = line.unicode_len();
    let mut i: usize = 0;
    while i < n
        invariant
            n == line@.len(),
            i <= n,
            forall|j: int| 0 <= j < i ==> line@[j] != '{',
        decreases n - i,
    {
        if line.get_char(i) == '{' {
            proof {
                lemma_first_brace(line@, i as int);
            }
            let rest = line.substring_char(i, n);
            assert(rest@ =~= line@.skip(i as int));
            return Some(rest.to_string());
        }
        i = i + 1;
    }
    proof {
        lemma_first_brace(line@, n as int);
    }
    None
}

} // verus!
