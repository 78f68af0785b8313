//! The wire framing of protocol messages and the transport's failures.
use vstd::prelude::*;

verus! {

/// Failures of a transport.  Each is fatal: a transport serves one session
/// and is not reused after any of them.
#[derive(Clone, Copy, Debug, PartialEq, Eq, Structural)]
pub enum TransportError {
    /// The adapter process could not be started.
    ProcessSpawnFailed,
    /// The TCP connection could not be made.
    ConnectFailed,
    /// The peer closed the channel.
    Disconnected,
    /// A frame's header is malformed or its body is cut short.
    FrameCorrupt,
}

/// The bytes of `Content-Length: `, which open every frame.
pub open spec fn header_prefix() -> Seq<u8> {
    seq![67u8, 111u8, 110u8, 116u8, 101u8, 110u8, 116u8, 45u8, 76u8, 101u8, 110u8, 103u8, 116u8,
        104u8, 58u8, 32u8]
}

/// The bytes `\r\n\r\n`, which close the header.
pub open spec fn separator() -> Seq<u8> {
    seq![13u8, 10u8, 13u8, 10u8]
}

/// Whether `b` is an ASCII decimal digit.
pub open spec fn is_digit(b: u8) -> bool {
    48 <= b <= 57
}

/// The decimal digits of `n`, most significant first, without leading
/// zeros.
pub open spec fn decimal(n: nat) -> Seq<u8>
    decreases n,
{
    if n < 10 {
        seq![(48 + n) as u8]
    } else {
        decimal(n / 10).push((48 + n % 10) as u8)
    }
}

/// The number that the ASCII digits `digits` spell.
pub open spec fn digits_value(digits: Seq<u8>) -> nat
    decreases digits.len(),
{
    if digits.len() == 0 {
        0
    } else {
        digits_value(digits.drop_last()) * 10 + (digits.last() - 48) as nat
    }
}

/// How many digits stand in `buf` from position `from` on, without a gap.
pub open spec fn digits_len(buf: Seq<u8>, from: int) -> nat
    decreases buf.len() - from,
{
    if 0 <= from < buf.len() && is_digit(buf[from]) {
        1 + digits_len(buf, from + 1)
    } else {
        0
    }
}

/// The frame that carries `body`: the header prefix, the length of the body
/// in decimal, the separator, and the body itself.
pub open spec fn frame(body: Seq<u8>) -> Seq<u8> {
    header_prefix() + decimal(body.len()) + separator() + body
}

/// The body of the frame that `buf` starts with and the number of bytes the
/// frame takes, or `None` where `buf` does not start with a whole frame: the
/// prefix is wrong, no digit follows it, the separator is missing, or fewer
/// bytes follow than the header announces.
pub open spec fn spec_decode(buf: Seq<u8>) -> Option<(Seq<u8>, nat)> {
    let digits = digits_len(buf, 16) as int;
    let size = digits_value(buf.subrange(16, 16 + digits)) as int;
    let start = 16 + digits + 4;
    if buf.len() < 16 || buf.subrange(0, 16) != header_prefix() {
        None
    } else if digits == 0 {
        None
    } else if buf.len() < start || buf.subrange(16 + digits, start) != separator() {
        None
    } else if buf.len() < start + size {
        None
    } else {
        Some((buf.subrange(start, start + size), (start + size) as nat))
    }
}

/// Appends the decimal digits of `n` to `out`.
pub fn push_decimal(out: &mut Vec<u8>, n: u64)
    ensures
        final(out)@ == old(out)@ + decimal(n as nat),
    decreases n,
{
    if n >= 10 {
        push_decimal(out, n / 10);
    }
    let digit: u8 = (n % 10) as u8;
    out.push(48 + digit);
    proof {
        if n >= 10 {
            assert(final(out)@ =~= old(out)@ + decimal(n as nat));
        } else {
            assert(final(out)@ =~= old(out)@ + decimal(n as nat));
        }
    }
}

/// Wraps `body` into one frame.
pub fn encode_frame(body: &[u8]) -> (r: Vec<u8>)
    ensures
        r@ == frame(body@),
{
    let mut out: Vec<u8> = Vec::new();
    out.push(67u8);
    out.push(111u8);
    out.push(110u8);
    out.push(116u8);
    out.push(101u8);
    out.push(110u8);
    out.push(116u8);
    out.push(45u8);
    out.push(76u8);
    out.push(101u8);
    out.push(110u8);
    out.push(103u8);
    out.push(116u8);
    out.push(104u8);
    out.push(58u8);
    out.push(32u8);
    assert(out@ =~= header_prefix());
    push_decimal(&mut out, body.len() as u64);
    out.push(13u8);
    out.push(10u8);
    out.push(13u8);
    out.push(10u8);
    assert(out@ =~= header_prefix() + decimal(body@.len()) + separator());
    let mut i: usize = 0;
    while i < body.len()
        invariant
            i <= body.len(),
            out@ == header_prefix() + decimal(body@.len()) + separator() + body@.take(i as int),
        decreases body.len() - i,
    {
        out.push(body[i]);
        proof {
            assert(body@.take(i + 1) =~= body@.take(i as int).push(body@[i as int]));
            assert(out@ =~= header_prefix() + decimal(body@.len()) + separator() + body@.take(
                i + 1,
            ));
        }
        i = i + 1;
    }
    proof {
        assert(body@.take(i as int) =~= body@);
    }
    out
}

/// A run of digits ends within the buffer.
pub proof fn lemma_digits_len_bound(buf: Seq<u8>, from: int)
    requires
        0 <= from <= buf.len(),
    ensures
        from + digits_len(buf, from) <= buf.len(),
    decreases buf.len() - from,
{
    if from < buf.len() && is_digit(buf[from]) {
        lemma_digits_len_bound(buf, from + 1);
    }
}

/// Reading more digits never makes the number smaller.
pub proof fn lemma_digits_value_monotone(buf: Seq<u8>, from: int, mid: int, to: int)
    requires
        0 <= from <= mid <= to <= buf.len(),
    ensures
        digits_value(buf.subrange(from, mid)) <= digits_value(buf.subrange(from, to)),
    decreases to - mid,
{
    if mid < to {
        lemma_digits_value_monotone(buf, from, mid, to - 1);
        assert(buf.subrange(from, to).drop_last() =~= buf.subrange(from, to - 1));
    }
}

/// A stretch of digits that ends at the buffer's end or before a byte that
/// is no digit is the whole run.
pub proof fn lemma_digits_len_of_run(buf: Seq<u8>, from: int, count: int)
    requires
        0 <= from,
        0 <= count,
        from + count <= buf.len(),
        forall|i: int| from <= i < from + count ==> is_digit(#[trigger] buf[i]),
        from + count == buf.len() || !is_digit(buf[from + count]),
    ensures
        digits_len(buf, from) == count,
    decreases count,
{
    if count > 0 {
        lemma_digits_len_of_run(buf, from + 1, count - 1);
    }
}

/// The decimal digits of a number are digits, at least one, and spell the
/// number.
pub proof fn lemma_decimal_spells(n: nat)
    ensures
        decimal(n).len() >= 1,
        forall|i: int| 0 <= i < decimal(n).len() ==> is_digit(#[trigger] decimal(n)[i]),
        digits_value(decimal(n)) == n,
    decreases n,
{
    if n < 10 {
        assert(decimal(n).drop_last() =~= Seq::<u8>::empty());
        assert(digits_value(decimal(n).drop_last()) == 0);
    } else {
        lemma_decimal_spells(n / 10);
        assert(decimal(n).drop_last() =~= decimal(n / 10));
    }
}

/// Decoding undoes encoding: a buffer that starts with the frame of `body`
/// decodes to `body` and to the frame's length, whatever follows the frame.
pub proof fn lemma_frame_round_trip(body: Seq<u8>, rest: Seq<u8>)
    ensures
        spec_decode(frame(body) + rest) == Some((body, frame(body).len())),
{
    let digits = decimal(body.len());
    let buf = frame(body) + rest;
    let count = digits.len() as int;
    lemma_decimal_spells(body.len());
    assert(buf.subrange(0, 16) =~= header_prefix());
    assert forall|i: int| 16 <= i < 16 + count implies is_digit(#[trigger] buf[i]) by {
        assert(buf[i] == digits[i - 16]);
    }
    assert(buf[16 + count] == 13u8);
    lemma_digits_len_of_run(buf, 16, count);
    assert(buf.subrange(16, 16 + count) =~= digits);
    assert(buf.subrange(16 + count, 16 + count + 4) =~= separator());
    assert(buf.subrange(16 + count + 4, 16 + count + 4 + body.len()) =~= body);
}

/// What the bytes received so far amount to.
#[derive(Clone, Copy, Debug, PartialEq, Eq, Structural)]
pub enum FrameScan {
    /// A whole frame is there; its body is `buf[start..end]` and the next
    /// frame begins at `end`.
    Complete { start: usize, end: usize },
    /// The bytes are the beginning of a frame; more must be read.
    Incomplete,
    /// The bytes can never become a frame.
    Corrupt,
}

/// What `buf` amounts to: corrupt where it departs from the header's
/// grammar or announces a body larger than memory can address, incomplete
/// where it follows the grammar but ends before the frame does, complete
/// otherwise.
pub open spec fn spec_scan(buf: Seq<u8>) -> FrameScan {
    let n = buf.len() as int;
    let digits = digits_len(buf, 16) as int;
    let size = digits_value(buf.subrange(16, 16 + digits)) as int;
    let sep = 16 + digits;
    let start = sep + 4;
    if n < 16 {
        if buf == header_prefix().take(n) {
            FrameScan::Incomplete
        } else {
            FrameScan::Corrupt
        }
    } else if buf.subrange(0, 16) != header_prefix() {
        FrameScan::Corrupt
    } else if size > usize::MAX {
        FrameScan::Corrupt
    } else if sep == n {
        FrameScan::Incomplete
    } else if digits == 0 {
        FrameScan::Corrupt
    } else if n < start {
        if buf.subrange(sep, n) == separator().take(n - sep) {
            FrameScan::Incomplete
        } else {
            FrameScan::Corrupt
        }
    } else if buf.subrange(sep, start) != separator() {
        FrameScan::Corrupt
    } else if n < start + size {
        FrameScan::Incomplete
    } else {
        FrameScan::Complete { start: start as usize, end: (start + size) as usize }
    }
}

/// A buffer decodes exactly where its scan is complete, and to the bytes
/// the scan points at.
pub proof fn lemma_decode_is_complete_scan(buf: Seq<u8>)
    requires
        buf.len() <= usize::MAX,
    ensures
        spec_decode(buf) == match spec_scan(buf) {
            FrameScan::Complete { start, end } => Some(
                (buf.subrange(start as int, end as int), end as nat),
            ),
            _ => None::<(Seq<u8>, nat)>,
        },
{
    lemma_digits_len_bound(buf, if buf.len() >= 16 { 16 } else { buf.len() as int });
}

/// A buffer that starts with the frame of `body` scans as complete, and the
/// scan points at `body`, whatever follows the frame.
pub proof fn lemma_frame_scans_complete(body: Seq<u8>, rest: Seq<u8>)
    requires
        frame(body).len() <= usize::MAX,
    ensures
        spec_scan(frame(body) + rest) == (FrameScan::Complete {
            start: (frame(body).len() - body.len()) as usize,
            end: frame(body).len() as usize,
        }),
        (frame(body) + rest).subrange(frame(body).len() - body.len(), frame(body).len() as int)
            == body,
{
    let digits = decimal(body.len());
    let buf = frame(body) + rest;
    let count = digits.len() as int;
    lemma_decimal_spells(body.len());
    assert(buf.subrange(0, 16) =~= header_prefix());
    assert forall|i: int| 16 <= i < 16 + count implies is_digit(#[trigger] buf[i]) by {
        assert(buf[i] == digits[i - 16]);
    }
    assert(buf[16 + count] == 13u8);
    lemma_digits_len_of_run(buf, 16, count);
    assert(buf.subrange(16, 16 + count) =~= digits);
    assert(buf.subrange(16 + count, 16 + count + 4) =~= separator());
    assert(buf.subrange(16 + count + 4, 16 + count + 4 + body.len()) =~= body);
}

/// Every proper prefix of a frame scans as incomplete: a reader that stops
/// anywhere inside a frame is told to read on, never that the stream is
/// corrupt or that a frame is there.
pub proof fn lemma_frame_prefix_is_incomplete(body: Seq<u8>, k: int)
    requires
        frame(body).len() <= usize::MAX,
        0 <= k < frame(body).len(),
    ensures
        spec_scan(frame(body).take(k)) == FrameScan::Incomplete,
{
    let digits = decimal(body.len());
    let whole = frame(body);
    let buf = whole.take(k);
    let count = digits.len() as int;
    lemma_decimal_spells(body.len());
    if k < 16 {
        assert(buf =~= header_prefix().take(k));
    } else {
        assert(buf.subrange(0, 16) =~= header_prefix());
        if k <= 16 + count {
            assert forall|i: int| 16 <= i < k implies is_digit(#[trigger] buf[i]) by {
                assert(buf[i] == digits[i - 16]);
            }
            lemma_digits_len_of_run(buf, 16, k - 16);
            assert(buf.subrange(16, k) =~= digits.subrange(0, k - 16));
            lemma_digits_value_monotone(digits, 0, k - 16, count);
            assert(digits.subrange(0, count) =~= digits);
        } else {
            assert forall|i: int| 16 <= i < 16 + count implies is_digit(#[trigger] buf[i]) by {
                assert(buf[i] == digits[i - 16]);
            }
            assert(buf[16 + count] == 13u8);
            lemma_digits_len_of_run(buf, 16, count);
            assert(buf.subrange(16, 16 + count) =~= digits);
            if k < 16 + count + 4 {
                assert(buf.subrange(16 + count, k) =~= separator().take(k - 16 - count));
            } else {
                assert(buf.subrange(16 + count, 16 + count + 4) =~= separator());
            }
        }
    }
}

fn is_digit_byte(b: u8) -> (r: bool)
    ensures
        r == is_digit(b),
{
    48 <= b && b <= 57
}

fn header_byte(i: usize) -> (r: u8)
    requires
        i < 16,
    ensures
        r == header_prefix()[i as int],
{
    if i == 0 {
        67u8
    } else if i == 1 {
        111u8
    } else if i == 2 {
        110u8
    } else if i == 3 {
        116u8
    } else if i == 4 {
        101u8
    } else if i == 5 {
        110u8
    } else if i == 6 {
        116u8
    } else if i == 7 {
        45u8
    } else if i == 8 {
        76u8
    } else if i == 9 {
        101u8
    } else if i == 10 {
        110u8
    } else if i == 11 {
        103u8
    } else if i == 12 {
        116u8
    } else if i == 13 {
        104u8
    } else if i == 14 {
        58u8
    } else {
        32u8
    }
}

fn separator_byte(i: usize) -> (r: u8)
    requires
        i < 4,
    ensures
        r == separator()[i as int],
{
    if i == 0 || i == 2 {
        13u8
    } else {
        10u8
    }
}

fn starts_like_header(buf: &[u8], count: usize) -> (r: bool)
    requires
        count <= 16,
        count <= buf@.len(),
    ensures
        r == (buf@.subrange(0, count as int) == header_prefix().take(count as int)),
{
    let mut i: usize = 0;
    while i < count
        invariant
            i <= count,
            count <= 16,
            count <= buf@.len(),
            forall|j: int| 0 <= j < i ==> buf@[j] == header_prefix()[j],
        decreases count - i,
    {
        if buf[i] != header_byte(i) {
            proof {
                assert(buf@.subrange(0, count as int)[i as int] == buf@[i as int]);
                assert(header_prefix().take(count as int)[i as int] == header_prefix()[i as int]);
            }
            return false;
        }
        i = i + 1;
    }
    proof {
        assert(buf@.subrange(0, count as int) =~= header_prefix().take(count as int));
    }
    true
}

fn goes_on_like_separator(buf: &[u8], at: usize, count: usize) -> (r: bool)
    requires
        count <= 4,
        at + count <= buf@.len(),
    ensures
        r == (buf@.subrange(at as int, at + count) == separator().take(count as int)),
{
    let n = buf.len();
    let mut i: usize = 0;
    while i < count
        invariant
            n == buf@.len(),
            i <= count,
            count <= 4,
            at + count <= buf@.len(),
            forall|j: int| 0 <= j < i ==> buf@[at + j] == separator()[j],
        decreases count - i,
    {
        if buf[at + i] != separator_byte(i) {
            proof {
                assert(buf@.subrange(at as int, at + count)[i as int] == buf@[at + i]);
                assert(separator().take(count as int)[i as int] == separator()[i as int]);
            }
            return false;
        }
        i = i + 1;
    }
    proof {
        assert(buf@.subrange(at as int, at + count) =~= separator().take(count as int));
    }
    true
}

/// Looks at the bytes received so far and says whether they hold a whole
/// frame, the beginning of one, or nothing that could become one.
pub fn scan_frame(buf: &[u8]) -> (r: FrameScan)
    ensures
        r == spec_scan(buf@),
{
    let n = buf.len();
    if n < 16 {
        proof {
            assert(buf@.subrange(0, n as int) =~= buf@);
        }
        return if starts_like_header(buf, n) {
            FrameScan::Incomplete
        } else {
            FrameScan::Corrupt
        };
    }
    if !starts_like_header(buf, 16) {
        proof {
            assert(header_prefix().take(16) =~= header_prefix());
        }
        return FrameScan::Corrupt;
    }
    proof {
        assert(header_prefix().take(16) =~= header_prefix());
    }
    let mut i: usize = 16;
    let mut size: usize = 0;
    while i < n && is_digit_byte(buf[i])
        invariant
            n == buf@.len(),
            16 <= i <= n,
            digits_len(buf@, 16) == (i - 16) + digits_len(buf@, i as int),
            size == digits_value(buf@.subrange(16, i as int)),
        decreases n - i,
    {
        let digit: u8 = buf[i] - 48;
        let next: u128 = (size as u128) * 10 + (digit as u128);
        proof {
            assert(buf@.subrange(16, i + 1).drop_last() =~= buf@.subrange(16, i as int));
            assert(next == digits_value(buf@.subrange(16, i + 1)));
        }
        if next > usize::MAX as u128 {
            proof {
                let digits = digits_len(buf@, 16) as int;
                lemma_digits_len_bound(buf@, 16);
                lemma_digits_value_monotone(buf@, 16, i + 1, 16 + digits);
            }
            return FrameScan::Corrupt;
        }
        size = next as usize;
        i = i + 1;
    }
    if i == n {
        return FrameScan::Incomplete;
    }
    if i == 16 {
        return FrameScan::Corrupt;
    }
    if n - i < 4 {
        return if goes_on_like_separator(buf, i, n - i) {
            FrameScan::Incomplete
        } else {
            FrameScan::Corrupt
        };
    }
    if !goes_on_like_separator(buf, i, 4) {
        proof {
            assert(separator().take(4) =~= separator());
        }
        return FrameScan::Corrupt;
    }
    proof {
        assert(separator().take(4) =~= separator());
    }
    let start: usize = i + 4;
    if n - start < size {
        return FrameScan::Incomplete;
    }
    FrameScan::Complete { start, end: start + size }
}

/// What the end of the stream means for the bytes that were left unread:
/// with none left the peer has disconnected between frames, with some left
/// a frame was cut short.
pub open spec fn spec_end_of_stream(rest: Seq<u8>) -> TransportError {
    if rest.len() == 0 {
        TransportError::Disconnected
    } else {
        TransportError::FrameCorrupt
    }
}

/// Computes [`spec_end_of_stream`].
pub fn end_of_stream(rest: &[u8]) -> (r: TransportError)
    ensures
        r == spec_end_of_stream(rest@),
{
    if rest.len() == 0 {
        TransportError::Disconnected
    } else {
        TransportError::FrameCorrupt
    }
}

/// Takes the first frame off `buf`: its body and the number of bytes the
/// frame occupies.  A buffer that does not start with a whole, well-formed
/// frame is corrupt; so is one that ends before the frame does, since
/// nothing more will come.
pub fn decode_frame(buf: &[u8]) -> (r: Result<(Vec<u8>, usize), TransportError>)
    ensures
        match spec_decode(buf@) {
            Some((body, used)) => r is Ok && r->Ok_0.0@ == body && r->Ok_0.1 == used,
            None => r == Err::<(Vec<u8>, usize), TransportError>(TransportError::FrameCorrupt),
        },
{
    let n = buf.len();
    proof {
        assert(n == buf@.len());
        lemma_decode_is_complete_scan(buf@);
    }
    match scan_frame(buf) {
        FrameScan::Complete { start, end } => {
            let mut body: Vec<u8> = Vec::new();
            let mut j: usize = start;
            while j < end
                invariant
                    start <= j <= end,
                    end <= buf@.len(),
                    body@ == buf@.subrange(start as int, j as int),
                decreases end - j,
            {
                body.push(buf[j]);
                proof {
                    assert(buf@.subrange(start as int, j + 1) =~= buf@.subrange(
                        start as int,
                        j as int,
                    ).push(buf@[j as int]));
                }
                j = j + 1;
            }
            Ok((body, end))
        },
        _ => Err(TransportError::FrameCorrupt),
    }
}

} // verus!
