//! Splits the byte stream from the device into SysEx frames.
//!
//! A `COMMAND_START` byte begins a frame; bytes are collected while a frame
//! is open and the buffer has room; `TERMINATOR` closes the frame. A byte
//! that arrives while no frame is open, or when the buffer is full, closes
//! the frame and is dropped.
use vstd::prelude::*;
use crate::protocol::{
    has_vendor_header, COMMAND_BYTE, COMMAND_START, DIRECT_COMMAND, PARAM_COUNT_BYTE, PART_0_LENGTH,
    TERMINATOR,
};

verus! {

/// The state of the frame splitter.
#[verifier::ext_equal]
pub struct Framing {
    /// A frame is open.
    pub reading_command: bool,
    /// How many bytes of the open (or last) frame are in the buffer.
    pub serial_read: usize,
    /// The bytes of the frame; positions at or past `serial_read` hold
    /// bytes of earlier frames.
    pub serial_buffer: Seq<u8>,
}

impl Framing {
    /// The buffer has its fixed length and the count lies inside it.
    pub open spec fn wf(self) -> bool {
        &&& self.serial_buffer.len() == PART_0_LENGTH
        &&& self.serial_read <= PART_0_LENGTH
    }
}

/// The splitter before any byte arrived.
pub open spec fn initial_framing() -> Framing {
    Framing {
        reading_command: false,
        serial_read: 0,
        serial_buffer: Seq::new(PART_0_LENGTH as nat, |i: int| 0u8),
    }
}

/// The splitter after byte `b`.
pub open spec fn frame_step(f: Framing, b: u8) -> Framing {
    let f1 = if b == COMMAND_START {
        Framing { reading_command: true, serial_read: 0, ..f }
    } else {
        f
    };
    if f1.reading_command && f1.serial_read < PART_0_LENGTH {
        let f2 = Framing {
            serial_buffer: f1.serial_buffer.update(f1.serial_read as int, b),
            serial_read: (f1.serial_read + 1) as usize,
            ..f1
        };
        if b == TERMINATOR {
            Framing { reading_command: false, ..f2 }
        } else {
            f2
        }
    } else {
        Framing { reading_command: false, serial_read: 0, ..f1 }
    }
}

/// Byte `b` closes a frame that is then in the buffer.
pub open spec fn frame_completes(f: Framing, b: u8) -> bool {
    b == TERMINATOR && f.reading_command && f.serial_read < PART_0_LENGTH
}

/// The parameter changes of a direct command with `count` changes all lie
/// inside a frame of `len` bytes: the last one ends at `4 * count + 7`.
pub open spec fn direct_fits(len: int, count: u8) -> bool {
    count == 0 || 4 * count + 7 < len
}

/// A frame whose handling would read past the end of the buffer: a vendor
/// direct command that announces more changes than the buffer holds.
pub open spec fn frame_faults(f: Framing) -> bool {
    &&& f.serial_read >= 5
    &&& has_vendor_header(f.serial_buffer)
    &&& f.serial_buffer[COMMAND_BYTE as int] == DIRECT_COMMAND
    &&& !direct_fits(f.serial_buffer.len() as int, f.serial_buffer[PARAM_COUNT_BYTE as int])
}

/// Byte `b` closes a frame whose handling would read past the buffer.
pub open spec fn byte_faults(f: Framing, b: u8) -> bool {
    frame_completes(f, b) && frame_faults(frame_step(f, b))
}

/// The splitter after every byte of `bytes`, in order.
pub open spec fn framing_after(f: Framing, bytes: Seq<u8>) -> Framing
    decreases bytes.len(),
{
    if bytes.len() == 0 {
        f
    } else {
        frame_step(framing_after(f, bytes.drop_last()), bytes.last())
    }
}

/// No byte of `bytes` closes a frame whose handling would read past the
/// buffer.
pub open spec fn stream_safe(f: Framing, bytes: Seq<u8>) -> bool {
    forall|i: int|
        0 <= i < bytes.len() ==> !#[trigger] byte_faults(framing_after(f, bytes.take(i)), bytes[i])
}

/// While every byte is at most 251, the count position of the buffer stays
/// at most 251.
proof fn lemma_count_stays_small(f: Framing, bytes: Seq<u8>)
    requires
        f.wf(),
        f.serial_buffer[PARAM_COUNT_BYTE as int] <= 251,
        forall|i: int| 0 <= i < bytes.len() ==> #[trigger] bytes[i] <= 251,
    ensures
        framing_after(f, bytes).wf(),
        framing_after(f, bytes).serial_buffer[PARAM_COUNT_BYTE as int] <= 251,
    decreases bytes.len(),
{
    if bytes.len() > 0 {
        let p = bytes.drop_last();
        assert forall|i: int| 0 <= i < p.len() implies #[trigger] p[i] <= 251 by {
            assert(p[i] == bytes[i]);
        }
        lemma_count_stays_small(f, p);
        assert(bytes.last() == bytes[bytes.len() - 1]);
    }
}

/// A stream in which no byte exceeds 251 (in particular any stream of
/// 7-bit data bytes with SysEx start and end bytes) never closes a frame
/// whose handling reads past the buffer, provided the buffer's count
/// position holds at most 251 to begin with (a fresh reader holds 0).
pub proof fn law_small_bytes_stream_safe(f: Framing, bytes: Seq<u8>)
    requires
        f.wf(),
        f.serial_buffer[PARAM_COUNT_BYTE as int] <= 251,
        forall|i: int| 0 <= i < bytes.len() ==> #[trigger] bytes[i] <= 251,
    ensures
        stream_safe(f, bytes),
{
    assert forall|i: int| 0 <= i < bytes.len() implies !#[trigger] byte_faults(
        framing_after(f, bytes.take(i)),
        bytes[i],
    ) by {
        let t = bytes.take(i);
        assert forall|j: int| 0 <= j < t.len() implies #[trigger] t[j] <= 251 by {
            assert(t[j] == bytes[j]);
        }
        lemma_count_stays_small(f, t);
        let g = framing_after(f, t);
        let b = bytes[i];
        let g2 = frame_step(g, b);
        assert(g2.serial_buffer[PARAM_COUNT_BYTE as int] <= 251);
    }
}

/// Zero-filled bytes.
pub fn zeros(n: usize) -> (r: Vec<u8>)
    ensures
        r@ == Seq::new(n as nat, |i: int| 0u8),
{
    let mut r: Vec<u8> = Vec::new();
    let mut i: usize = 0;
    while i < n
        invariant
            i <= n,
            r@ == Seq::new(i as nat, |k: int| 0u8),
        decreases n - i,
    {
        r.push(0);
        i = i + 1;
        assert(r@ =~= Seq::new(i as nat, |k: int| 0u8));
    }
    r
}

/// The first `n` bytes of `v`.
pub fn prefix(v: &Vec<u8>, n: usize) -> (r: Vec<u8>)
    requires
        n <= v@.len(),
    ensures
        r@ == v@.take(n as int),
{
    let mut r: Vec<u8> = Vec::new();
    let mut i: usize = 0;
    while i < n
        invariant
            i <= n,
            n <= v@.len(),
            r@ == v@.take(i as int),
        decreases n - i,
    {
        r.push(v[i]);
        i = i + 1;
        assert(r@ =~= v@.take(i as int));
    }
    r
}

/// The frame splitter.
pub struct FrameReader {
    reading_command: bool,
    serial_read: usize,
    serial_buffer: Vec<u8>,
}

impl View for FrameReader {
    type V = Framing;

    closed spec fn view(&self) -> Framing {
        Framing {
            reading_command: self.reading_command,
            serial_read: self.serial_read,
            serial_buffer: self.serial_buffer@,
        }
    }
}

impl FrameReader {
    /// A splitter with no frame open and an empty buffer.
    pub fn new() -> (r: FrameReader)
        ensures
            r@ == initial_framing(),
            r@.wf(),
    {
        FrameReader { reading_command: false, serial_read: 0, serial_buffer: zeros(PART_0_LENGTH) }
    }

    /// Takes byte `b`; tells whether it closed a frame.
    pub fn push(&mut self, b: u8) -> (complete: bool)
        requires
            old(self)@.wf(),
        ensures
            final(self)@ == frame_step(old(self)@, b),
            final(self)@.wf(),
            complete == frame_completes(old(self)@, b),
    {
        if b == COMMAND_START {
            self.reading_command = true;
            self.serial_read = 0;
        }
        if self.reading_command && self.serial_read < PART_0_LENGTH {
            let i = self.serial_read;
            self.serial_buffer.set(i, b);
            self.serial_read = i + 1;
        } else {
            self.reading_command = false;
            self.serial_read = 0;
            return false;
        }
        if b == TERMINATOR {
            self.reading_command = false;
            true
        } else {
            false
        }
    }

    /// Number of bytes of the last frame in the buffer.
    pub fn frame_len(&self) -> (r: usize)
        ensures
            r == self@.serial_read,
    {
        self.serial_read
    }

    /// The byte at position `k` of the buffer.
    pub fn byte(&self, k: usize) -> (r: u8)
        requires
            self@.wf(),
            k < PART_0_LENGTH,
        ensures
            r == self@.serial_buffer[k as int],
    {
        self.serial_buffer[k]
    }

    /// The first `n` bytes of the buffer.
    pub fn take(&self, n: usize) -> (r: Vec<u8>)
        requires
            self@.wf(),
            n <= PART_0_LENGTH,
        ensures
            r@ == self@.serial_buffer.take(n as int),
    {
        prefix(&self.serial_buffer, n)
    }

    /// An identical copy of the splitter.
    pub fn duplicate(&self) -> (r: FrameReader)
        requires
            self@.wf(),
        ensures
            r@ == self@,
    {
        let buf = prefix(&self.serial_buffer, self.serial_buffer.len());
        assert(self.serial_buffer@.take(self.serial_buffer@.len() as int) =~= self.serial_buffer@);
        FrameReader {
            reading_command: self.reading_command,
            serial_read: self.serial_read,
            serial_buffer: buf,
        }
    }

    /// Whether byte `b` would close a frame whose handling reads past the
    /// buffer.
    pub fn would_fault(&self, b: u8) -> (r: bool)
        requires
            self@.wf(),
        ensures
            r == byte_faults(self@, b),
    {
        if !(b == TERMINATOR && self.reading_command && self.serial_read < PART_0_LENGTH) {
            return false;
        }
        let ghost next = frame_step(self@, b);
        let n = self.serial_read;
        assert(next.serial_buffer == self@.serial_buffer.update(n as int, b));
        if n + 1 < 5 {
            return false;
        }
        let b0 = if n == 0 { b } else { self.serial_buffer[0] };
        let b1 = if n == 1 { b } else { self.serial_buffer[1] };
        let b2 = if n == 2 { b } else { self.serial_buffer[2] };
        let b3 = if n == 3 { b } else { self.serial_buffer[3] };
        let cmd = if n == COMMAND_BYTE { b } else { self.serial_buffer[COMMAND_BYTE] };
        let count = if n == PARAM_COUNT_BYTE { b } else { self.serial_buffer[PARAM_COUNT_BYTE] };
        assert(b0 == next.serial_buffer[0]);
        assert(b1 == next.serial_buffer[1]);
        assert(b2 == next.serial_buffer[2]);
        assert(b3 == next.serial_buffer[3]);
        assert(cmd == next.serial_buffer[COMMAND_BYTE as int]);
        assert(count == next.serial_buffer[PARAM_COUNT_BYTE as int]);
        let header = b0 == 0xF0 && b1 == 0x00 && b2 == 0x20 && b3 == 0x32;
        let fits = count == 0 || 4 * (count as usize) + 7 < PART_0_LENGTH;
        header && cmd == DIRECT_COMMAND && !fits
    }

    /// Whether some byte of `bytes`, fed in order, would close a frame
    /// whose handling reads past the buffer.
    pub fn stream_faults(&self, bytes: &[u8]) -> (r: bool)
        requires
            self@.wf(),
        ensures
            r == !stream_safe(self@, bytes@),
    {
        let mut sim = self.duplicate();
        let mut i: usize = 0;
        while i < bytes.len()
            invariant
                i <= bytes@.len(),
                sim@.wf(),
                sim@ == framing_after(self@, bytes@.take(i as int)),
                forall|j: int|
                    0 <= j < i ==> !#[trigger] byte_faults(
                        framing_after(self@, bytes@.take(j)),
                        bytes@[j],
                    ),
            decreases bytes@.len() - i,
        {
            if sim.would_fault(bytes[i]) {
                return true;
            }
            sim.push(bytes[i]);
            i = i + 1;
            assert(bytes@.take(i as int).drop_last() =~= bytes@.take(i - 1));
        }
        false
    }
}

} // verus!
