use vstd::prelude::*;
use crate::error::ErrorKind;

verus! {

/// Largest number of image bytes written to the link in one step.
pub const CHUNK_SIZE: u64 = 512;

/// The byte the device repeats to say that it is ready for an image.
pub const MARKER: u8 = 0x03;

/// How many markers in a row complete the handshake.
pub const MARKERS_NEEDED: u8 = 3;

/// Seconds the handshake may take.
pub const HANDSHAKE_SECS: u64 = 10;

// ---------------------------------------------------------------- chunks

/// Lengths of the chunks in which an image of `size` bytes is sent, in order.
pub open spec fn chunk_plan(size: nat) -> Seq<nat>
    decreases size,
{
    if size == 0 {
        Seq::empty()
    } else if size <= CHUNK_SIZE {
        seq![size]
    } else {
        seq![CHUNK_SIZE as nat] + chunk_plan((size - CHUNK_SIZE) as nat)
    }
}

pub open spec fn total_of(s: Seq<nat>) -> nat
    decreases s.len(),
{
    if s.len() == 0 {
        0
    } else {
        s[0] + total_of(s.drop_first())
    }
}

/// Chunked transfer: an image of `size` bytes goes out in ⌈size/512⌉ chunks
/// whose lengths add up to `size`; the last one holds `size % 512` bytes, or
/// 512 where `size` is a positive multiple of 512.
pub proof fn lemma_chunk_plan(size: nat)
    ensures
        chunk_plan(size).len() == (size + 511) / 512,
        total_of(chunk_plan(size)) == size,
        forall|i: int| 0 <= i < chunk_plan(size).len() ==> 0 < #[trigger] chunk_plan(size)[i] <= 512,
        size > 0 ==> chunk_plan(size).last() == (if size % 512 == 0 { 512 } else { size % 512 }),
    decreases size,
{
    if size == 0 {
    } else if size <= 512 {
        assert(seq![size].drop_first() =~= Seq::<nat>::empty());
        assert(total_of(Seq::<nat>::empty()) == 0);
        assert(total_of(seq![size]) == size + total_of(Seq::<nat>::empty()));
    } else {
        let rest = (size - 512) as nat;
        lemma_chunk_plan(rest);
        let p = chunk_plan(size);
        assert(p.drop_first() =~= chunk_plan(rest));
        assert((size + 511) / 512 == (rest + 511) / 512 + 1) by (nonlinear_arith)
            requires rest == size - 512;
        assert(size % 512 == rest % 512) by (nonlinear_arith)
            requires rest == size - 512, rest > 0;
    }
}

/// Progress of one image transfer: how many bytes have been sent of how many.
pub struct TransferProgress {
    total: u64,
    sent: u64,
}

impl TransferProgress {
    pub closed spec fn spec_total(&self) -> nat {
        self.total as nat
    }

    pub closed spec fn spec_sent(&self) -> nat {
        self.sent as nat
    }

    pub closed spec fn wf(&self) -> bool {
        self.sent <= self.total
    }

    pub fn new(total: u64) -> (r: TransferProgress)
        ensures
            r.wf(),
            r.spec_total() == total,
            r.spec_sent() == 0,
    {
        TransferProgress { total, sent: 0 }
    }

    pub fn total(&self) -> (r: u64)
        ensures
            r == self.spec_total(),
    {
        self.total
    }

    pub fn sent(&self) -> (r: u64)
        ensures
            r == self.spec_sent(),
    {
        self.sent
    }

    pub fn is_complete(&self) -> (r: bool)
        ensures
            r == (self.spec_sent() >= self.spec_total()),
    {
        self.sent >= self.total
    }

    /// How many bytes the next chunk holds: 512, or what is left if less.
    pub fn next_chunk_len(&self) -> (r: u64)
        requires
            self.wf(),
        ensures
            self.spec_sent() < self.spec_total() ==> r == chunk_plan(
                (self.spec_total() - self.spec_sent()) as nat,
            )[0],
            r <= CHUNK_SIZE,
            r == if self.spec_total() - self.spec_sent() < 512 {
                self.spec_total() - self.spec_sent()
            } else {
                512
            },
    {
        let left = self.total - self.sent;
        if left < CHUNK_SIZE {
            left
        } else {
            CHUNK_SIZE
        }
    }

    /// Counts `n` more bytes as sent: the number actually read for a chunk.
    pub fn advance(&mut self, n: u64)
        requires
            old(self).wf(),
            n <= old(self).spec_total() - old(self).spec_sent(),
        ensures
            final(self).wf(),
            final(self).spec_total() == old(self).spec_total(),
            final(self).spec_sent() == old(self).spec_sent() + n,
    {
        self.sent = self.sent + n;
    }
}

/// The lengths of the chunks that carry an image of `size` bytes.
pub fn chunk_lengths(size: u64) -> (r: Vec<u64>)
    ensures
        r@.len() == chunk_plan(size as nat).len(),
        forall|i: int| 0 <= i < r@.len() ==> r@[i] as nat == #[trigger] chunk_plan(size as nat)[i],
{
    let mut r: Vec<u64> = Vec::new();
    let mut progress = TransferProgress::new(size);
    while !progress.is_complete()
        invariant
            progress.wf(),
            progress.spec_total() == size,
            r@.len() + chunk_plan((size - progress.spec_sent()) as nat).len() == chunk_plan(size as nat).len(),
            forall|i: int| 0 <= i < r@.len() ==> r@[i] as nat == #[trigger] chunk_plan(size as nat)[i],
            forall|i: int| 0 <= i < chunk_plan((size - progress.spec_sent()) as nat).len()
                ==> chunk_plan(size as nat)[r@.len() + i] == #[trigger] chunk_plan((size - progress.spec_sent()) as nat)[i],
        decreases size - progress.spec_sent(),
    {
        let n = progress.next_chunk_len();
        let ghost left = (size - progress.spec_sent()) as nat;
        let ghost rest = (left - n) as nat;
        assert(chunk_plan(left) =~= seq![n as nat] + chunk_plan(rest));
        r.push(n);
        progress.advance(n);
        assert forall|i: int| 0 <= i < chunk_plan(rest).len()
            implies chunk_plan(size as nat)[r@.len() + i] == #[trigger] chunk_plan(rest)[i] by {
            assert(chunk_plan(left)[i + 1] == chunk_plan(rest)[i]);
        }
    }
    r
}

// ------------------------------------------------------------- handshake

/// The run counter after reading `b` with counter `count`: one more after a
/// marker, back to zero after any other byte.
pub open spec fn marker_step(count: nat, b: u8) -> nat {
    if b == MARKER {
        count + 1
    } else {
        0
    }
}

/// The run counter after reading `bytes`, starting from `start`; once it has
/// reached three the handshake is over and later bytes no longer count.
pub open spec fn scan_count(start: nat, bytes: Seq<u8>) -> nat
    decreases bytes.len(),
{
    if bytes.len() == 0 {
        start
    } else {
        let c = scan_count(start, bytes.drop_last());
        if c >= MARKERS_NEEDED {
            c
        } else {
            marker_step(c, bytes.last())
        }
    }
}

/// The bytes echoed to the console while reading `bytes`: every byte other
/// than a marker, up to the end of the handshake.
pub open spec fn scan_echo(start: nat, bytes: Seq<u8>) -> Seq<u8>
    decreases bytes.len(),
{
    if bytes.len() == 0 {
        Seq::empty()
    } else {
        let c = scan_count(start, bytes.drop_last());
        let e = scan_echo(start, bytes.drop_last());
        if c >= MARKERS_NEEDED || bytes.last() == MARKER {
            e
        } else {
            e.push(bytes.last())
        }
    }
}

pub open spec fn is_non_marker(b: u8) -> bool {
    b != MARKER
}

/// What one read contributes to the handshake.
pub struct HandshakeScan {
    /// Three markers in a row have been seen.
    pub complete: bool,
    /// The run counter after the read.
    pub count: u8,
    /// The device's other output, to be shown on the console in this order.
    pub echo: Vec<u8>,
}

proof fn lemma_scan_absorbs(start: nat, bytes: Seq<u8>, i: int)
    requires
        0 <= i <= bytes.len(),
        scan_count(start, bytes.take(i)) >= MARKERS_NEEDED,
    ensures
        scan_count(start, bytes) == scan_count(start, bytes.take(i)),
        scan_echo(start, bytes) == scan_echo(start, bytes.take(i)),
    decreases bytes.len() - i,
{
    if i < bytes.len() {
        assert(bytes.take(i + 1).drop_last() =~= bytes.take(i));
        lemma_scan_absorbs(start, bytes, i + 1);
    } else {
        assert(bytes.take(i) =~= bytes);
    }
}

/// Feeds the bytes of one read into the handshake, starting from run
/// counter `count`; stops at the third marker in a row.
pub fn scan_markers(count: u8, bytes: &[u8]) -> (r: HandshakeScan)
    requires
        count < MARKERS_NEEDED,
    ensures
        r.count == scan_count(count as nat, bytes@),
        r.complete == (scan_count(count as nat, bytes@) >= MARKERS_NEEDED),
        r.echo@ == scan_echo(count as nat, bytes@),
{
    let mut c: u8 = count;
    let mut echo: Vec<u8> = Vec::new();
    let mut i: usize = 0;
    while i < bytes.len()
        invariant
            0 <= i <= bytes@.len(),
            c < MARKERS_NEEDED,
            c == scan_count(count as nat, bytes@.take(i as int)),
            echo@ == scan_echo(count as nat, bytes@.take(i as int)),
        decreases bytes@.len() - i,
    {
        let b = bytes[i];
        assert(bytes@.take(i + 1).drop_last() =~= bytes@.take(i as int));
        if b == MARKER {
            c = c + 1;
            if c == MARKERS_NEEDED {
                proof {
                    lemma_scan_absorbs(count as nat, bytes@, i + 1);
                }
                return HandshakeScan { complete: true, count: c, echo };
            }
        } else {
            c = 0;
            echo.push(b);
        }
        i = i + 1;
    }
    assert(bytes@.take(i as int) =~= bytes@);
    HandshakeScan { complete: false, count: c, echo }
}

/// Handshake counter: until the handshake completes, one more byte adds one
/// to the run counter if it is a marker and sets it back to zero otherwise.
pub proof fn lemma_marker_counter(start: nat, bytes: Seq<u8>, b: u8)
    requires
        scan_count(start, bytes) < MARKERS_NEEDED,
    ensures
        scan_count(start, bytes.push(b)) == if b == MARKER {
            scan_count(start, bytes) + 1
        } else {
            0
        },
{
    assert(bytes.push(b).drop_last() =~= bytes);
}

/// Handshake across reads: scanning `a` and then `b`, with the run counter
/// carried from the first scan into the second, gives the counter and the
/// echo of one scan of `a + b`; once `a` completes the handshake, `b` adds
/// nothing.
pub proof fn lemma_scan_in_pieces(start: nat, a: Seq<u8>, b: Seq<u8>)
    ensures
        scan_count(start, a) < MARKERS_NEEDED ==> scan_count(start, a + b) == scan_count(
            scan_count(start, a),
            b,
        ),
        scan_count(start, a) < MARKERS_NEEDED ==> scan_echo(start, a + b) == scan_echo(start, a)
            + scan_echo(scan_count(start, a), b),
        scan_count(start, a) >= MARKERS_NEEDED ==> scan_count(start, a + b) == scan_count(start, a),
        scan_count(start, a) >= MARKERS_NEEDED ==> scan_echo(start, a + b) == scan_echo(start, a),
    decreases b.len(),
{
    if b.len() == 0 {
        assert(a + b =~= a);
        assert(scan_echo(start, a) + Seq::<u8>::empty() =~= scan_echo(start, a));
    } else {
        lemma_scan_in_pieces(start, a, b.drop_last());
        assert((a + b).drop_last() =~= a + b.drop_last());
        assert((a + b).last() == b.last());
        let c = scan_count(start, a);
        if c < MARKERS_NEEDED {
            let e1 = scan_echo(start, a);
            let e2 = scan_echo(c, b.drop_last());
            assert((e1 + e2).push(b.last()) =~= e1 + e2.push(b.last()));
        }
    }
}

/// Handshake echo: until the handshake completes, the bytes echoed are
/// exactly the device's non-marker bytes, unchanged and in order.
pub proof fn lemma_scan_echo(start: nat, bytes: Seq<u8>)
    requires
        start < MARKERS_NEEDED,
    ensures
        scan_count(start, bytes) < MARKERS_NEEDED ==> scan_echo(start, bytes) == bytes.filter(
            |b: u8| is_non_marker(b),
        ),
    decreases bytes.len(),
{
    let pred = |b: u8| is_non_marker(b);
    if bytes.len() == 0 {
        assert(bytes =~= Seq::<u8>::empty());
    } else {
        lemma_scan_echo(start, bytes.drop_last());
        let c = scan_count(start, bytes.drop_last());
        reveal_with_fuel(Seq::filter, 1);
        assert(bytes.filter(pred) == (if pred(bytes.last()) {
            bytes.drop_last().filter(pred).push(bytes.last())
        } else {
            bytes.drop_last().filter(pred)
        }));
        if scan_count(start, bytes) < MARKERS_NEEDED {
            assert(c < MARKERS_NEEDED);
        }
    }
}

/// Handshake counter: from a counter of zero, while the handshake is not
/// complete the counter equals the number of markers that end the input.
proof fn lemma_scan_trailing(bytes: Seq<u8>)
    ensures
        scan_count(0, bytes) <= bytes.len(),
        scan_count(0, bytes) < MARKERS_NEEDED ==> forall|j: int|
            0 <= j < scan_count(0, bytes) ==> #[trigger] bytes[bytes.len() - 1 - j] == MARKER,
        scan_count(0, bytes) < MARKERS_NEEDED && bytes.len() > 0 && bytes.last() == MARKER
            ==> scan_count(0, bytes) >= 1,
        scan_count(0, bytes) >= MARKERS_NEEDED ==> exists|i: int|
            0 <= i && i + 3 <= bytes.len() && #[trigger] bytes[i] == MARKER && bytes[i + 1] == MARKER
                && bytes[i + 2] == MARKER,
    decreases bytes.len(),
{
    if bytes.len() > 0 {
        let p = bytes.drop_last();
        lemma_scan_trailing(p);
        let c = scan_count(0, p);
        if c >= MARKERS_NEEDED {
            let i = choose|i: int|
                0 <= i && i + 3 <= p.len() && #[trigger] p[i] == MARKER && p[i + 1] == MARKER
                    && p[i + 2] == MARKER;
            assert(bytes[i] == MARKER && bytes[i + 1] == MARKER && bytes[i + 2] == MARKER);
        } else if bytes.last() == MARKER {
            if c + 1 >= MARKERS_NEEDED {
                let i = bytes.len() - 3;
                assert(p[p.len() - 1 - 0] == MARKER);
                assert(p[p.len() - 1 - 1] == MARKER);
                assert(bytes[i] == MARKER && bytes[i + 1] == MARKER && bytes[i + 2] == MARKER);
            } else {
                assert forall|j: int| 0 <= j < scan_count(0, bytes) implies #[trigger] bytes[bytes.len() - 1 - j] == MARKER by {
                    if j > 0 {
                        assert(p[p.len() - 1 - (j - 1)] == MARKER);
                    }
                }
            }
        }
    }
}

/// Handshake success: from a counter of zero the handshake completes exactly
/// when three markers arrive in a row.
pub proof fn lemma_handshake_needs_three_in_a_row(bytes: Seq<u8>)
    ensures
        (scan_count(0, bytes) >= MARKERS_NEEDED) == exists|i: int|
            0 <= i && i + 3 <= bytes.len() && #[trigger] bytes[i] == MARKER && bytes[i + 1] == MARKER
                && bytes[i + 2] == MARKER,
{
    lemma_scan_trailing(bytes);
    if exists|i: int|
        0 <= i && i + 3 <= bytes.len() && #[trigger] bytes[i] == MARKER && bytes[i + 1] == MARKER
            && bytes[i + 2] == MARKER {
        let i = choose|i: int|
            0 <= i && i + 3 <= bytes.len() && #[trigger] bytes[i] == MARKER && bytes[i + 1] == MARKER
                && bytes[i + 2] == MARKER;
        lemma_three_markers_complete(bytes, i);
    }
}

proof fn lemma_three_markers_complete(bytes: Seq<u8>, i: int)
    requires
        0 <= i && i + 3 <= bytes.len(),
        bytes[i] == MARKER && bytes[i + 1] == MARKER && bytes[i + 2] == MARKER,
    ensures
        scan_count(0, bytes) >= MARKERS_NEEDED,
{
    let p1 = bytes.take(i + 1);
    let p2 = bytes.take(i + 2);
    let p3 = bytes.take(i + 3);
    assert(p2.drop_last() =~= p1);
    assert(p3.drop_last() =~= p2);
    lemma_scan_trailing(p1);
    lemma_scan_trailing(p2);
    lemma_scan_trailing(p3);
    if scan_count(0, p1) >= MARKERS_NEEDED {
        lemma_scan_absorbs(0, bytes, i + 1);
    } else if scan_count(0, p2) >= MARKERS_NEEDED {
        lemma_scan_absorbs(0, bytes, i + 2);
    } else {
        lemma_scan_absorbs(0, bytes, i + 3);
    }
}

// ------------------------------------------------------------ size frame

/// The value of a little-endian frame of four bytes.
pub open spec fn le_value(b: Seq<u8>) -> nat {
    b[0] as nat + 256 * (b[1] as nat) + 65536 * (b[2] as nat) + 16777216 * (b[3] as nat)
}

/// The size frame for an image of `size` bytes: the low 32 bits of `size`,
/// least significant byte first.
pub open spec fn size_frame(size: nat) -> Seq<u8> {
    let v = size % 0x1_0000_0000;
    seq![(v % 256) as u8, ((v / 256) % 256) as u8, ((v / 65536) % 256) as u8, ((v / 16777216) % 256) as u8]
}

/// Size frame round trip: decoding the frame of `size` gives `size` back
/// below 2³², and the low 32 bits of `size` above.
pub proof fn lemma_size_frame_round_trip(size: nat)
    ensures
        size_frame(size).len() == 4,
        le_value(size_frame(size)) == size % 0x1_0000_0000,
        size < 0x1_0000_0000 ==> le_value(size_frame(size)) == size,
{
    let v = (size % 0x1_0000_0000) as u32;
    assert(v as nat == (v % 256) as u8 as nat + 256 * (((v / 256) % 256) as u8 as nat) + 65536 * (((v
        / 65536) % 256) as u8 as nat) + 16777216 * (((v / 16777216) % 256) as u8 as nat)) by (nonlinear_arith);
}

/// The size frame for an image of `size` bytes.
pub fn encode_size(size: u64) -> (r: [u8; 4])
    ensures
        r@ == size_frame(size as nat),
        le_value(r@) == size as nat % 0x1_0000_0000,
{
    let v = (size % 0x1_0000_0000) as u32;
    let r = [(v % 256) as u8, ((v / 256) % 256) as u8, ((v / 65536) % 256) as u8, ((v / 16777216) % 256) as u8];
    assert(r@ =~= size_frame(size as nat));
    proof {
        lemma_size_frame_round_trip(size as nat);
    }
    r
}

/// The size a frame announces.
pub fn decode_size(frame: [u8; 4]) -> (r: u32)
    ensures
        r as nat == le_value(frame@),
{
    frame[0] as u32 + 256 * (frame[1] as u32) + 65536 * (frame[2] as u32) + 16777216 * (frame[3] as u32)
}

// ------------------------------------------------------------------- ack

/// The device's answer to the size frame: `O`, `K`.
pub open spec fn ack_bytes() -> Seq<u8> {
    seq![0x4Fu8, 0x4Bu8]
}

/// Judges the answer to the size frame: `read` is how reading it ended and
/// `received` the bytes that came. Anything but a complete read of exactly
/// `O`, `K` is a protocol error.
pub fn check_ack(read: &Result<(), ErrorKind>, received: &[u8]) -> (r: Result<(), ErrorKind>)
    ensures
        r is Ok <==> (read is Ok && received@ == ack_bytes()),
        r is Err ==> r->Err_0 is ProtocolError,
{
    if read.is_err() {
        return Err(ErrorKind::ProtocolError);
    }
    if received.len() == 2 && received[0] == 0x4F && received[1] == 0x4B {
        assert(received@ =~= ack_bytes());
        Ok(())
    } else {
        Err(ErrorKind::ProtocolError)
    }
}

} // verus!
