//! The framing of one encoded image as a chunk of the video stream.
//!
//! A chunk is a boundary line, a `Content-Length` header with the length of
//! the image in decimal, a `Content-Type` header, an empty line, and the bytes
//! of the image. The stream is chunk after chunk with nothing between them.

use vstd::prelude::*;
use vstd::string::StringSliceAdditionalSpecFns;
use vstd::utf8::{encode_utf8, is_ascii_chars, is_ascii_chars_encode_utf8};

verus! {

/// The bytes of a chunk before the length: the boundary line and the name of
/// the length header.
pub open spec fn chunk_opening() -> Seq<u8> {
    encode_utf8("--boundarydonotcross\r\nContent-Length:"@)
}

/// The bytes of a chunk between the length and the image: the end of the
/// length header, the type header and the empty line.
pub open spec fn chunk_closing() -> Seq<u8> {
    encode_utf8("\r\nContent-Type:image/jpeg\r\n\r\n"@)
}

/// The decimal digits of `n` in ASCII, without leading zeros.
pub open spec fn decimal(n: nat) -> Seq<u8>
    decreases n,
{
    if n < 10 {
        seq![(48 + n) as u8]
    } else {
        decimal(n / 10).push((48 + n % 10) as u8)
    }
}

/// The header block of a chunk whose image has `length` bytes.
pub open spec fn chunk_header(length: nat) -> Seq<u8> {
    chunk_opening() + decimal(length) + chunk_closing()
}

/// The chunk that carries `payload`.
pub open spec fn chunk_of(payload: Seq<u8>) -> Seq<u8> {
    chunk_header(payload.len()) + payload
}

/// Appends the decimal digits of `n`.
pub fn push_decimal(out: &mut Vec<u8>, n: usize)
    ensures
        final(out)@ == old(out)@ + decimal(n as nat),
    decreases n,
{
    if n >= 10 {
        push_decimal(out, n / 10);
    }
    let digit: u8 = (n % 10) as u8;
    out.push(48 + digit);
    assert(out@ =~= old(out)@ + decimal(n as nat));
}

/// The header block of a chunk whose image has `length` bytes.
pub fn header_block(length: usize) -> (header: Vec<u8>)
    ensures
        header@ == chunk_header(length as nat),
{
    let mut header: Vec<u8> = Vec::new();
    let opening = "--boundarydonotcross\r\nContent-Length:".as_bytes();
    header.extend_from_slice(opening);
    assert(header@ =~= chunk_opening());
    push_decimal(&mut header, length);
    let closing = "\r\nContent-Type:image/jpeg\r\n\r\n".as_bytes();
    let ghost before = header@;
    header.extend_from_slice(closing);
    assert(header@ =~= before + chunk_closing());
    header
}

/// Frames an encoded image as one chunk of the stream. The length that the
/// chunk declares is the number of bytes of the image that follows it.
pub fn frame_chunk(payload: &[u8]) -> (chunk: Vec<u8>)
    ensures
        chunk@ == chunk_of(payload@),
{
    let mut chunk = header_block(payload.len());
    let ghost header = chunk@;
    chunk.extend_from_slice(payload);
    assert(chunk@ =~= header + payload@);
    chunk
}

/// Whether a byte is an ASCII decimal digit.
pub open spec fn is_digit(byte: u8) -> bool {
    48 <= byte <= 57
}

/// The number that a run of decimal digits writes.
pub open spec fn digits_value(digits: Seq<u8>) -> nat
    decreases digits.len(),
{
    if digits.len() == 0 {
        0
    } else {
        digits_value(digits.drop_last()) * 10 + (digits.last() - 48) as nat
    }
}

/// Whether `stream` begins with a whole chunk whose image has `length` bytes:
/// the header block that declares `length`, and at least `length` bytes
/// behind it.
pub open spec fn leads_with_chunk(stream: Seq<u8>, length: nat) -> bool {
    &&& chunk_header(length).len() + length <= stream.len()
    &&& stream.subrange(0, chunk_header(length).len() as int) == chunk_header(length)
}

/// The digits of a number are digits, at least one of them, and write the
/// number.
pub proof fn lemma_decimal(n: nat)
    ensures
        decimal(n).len() >= 1,
        forall|i: int| 0 <= i < decimal(n).len() ==> is_digit(#[trigger] decimal(n)[i]),
        digits_value(decimal(n)) == n,
    decreases n,
{
    if n < 10 {
        assert(decimal(n).drop_last() =~= Seq::<u8>::empty());
        assert(digits_value(decimal(n).drop_last()) == 0);
    } else {
        lemma_decimal(n / 10);
        assert(decimal(n).drop_last() =~= decimal(n / 10));
    }
}

/// A run of digits writes no less than any run it begins with.
proof fn lemma_digits_value_grows(digits: Seq<u8>, k: int)
    requires
        0 <= k <= digits.len(),
        forall|i: int| 0 <= i < digits.len() ==> is_digit(#[trigger] digits[i]),
    ensures
        digits_value(digits.take(k)) <= digits_value(digits),
    decreases digits.len() - k,
{
    if k == digits.len() {
        assert(digits.take(k) =~= digits);
    } else {
        lemma_digits_value_grows(digits, k + 1);
        assert(digits.take(k + 1).drop_last() =~= digits.take(k));
    }
}

/// The bytes between the length and the image begin with a carriage return,
/// which is no digit.
proof fn lemma_closing_begins()
    ensures
        chunk_closing().len() >= 1,
        chunk_closing()[0] == 13,
{
    reveal_strlit("\r\nContent-Type:image/jpeg\r\n\r\n");
    let text = "\r\nContent-Type:image/jpeg\r\n\r\n"@;
    assert(is_ascii_chars(text));
    is_ascii_chars_encode_utf8(text);
    assert(text[0] == '\r');
}

/// What a stream that begins with a chunk holds in front: the opening bytes,
/// the digits of the length, and then a byte that is no digit.
proof fn lemma_leading_chunk(stream: Seq<u8>, length: nat)
    requires
        leads_with_chunk(stream, length),
    ensures
        chunk_opening().len() + decimal(length).len() < stream.len(),
        stream.subrange(0, chunk_opening().len() as int) == chunk_opening(),
        stream.subrange(
            chunk_opening().len() as int,
            (chunk_opening().len() + decimal(length).len()) as int,
        ) == decimal(length),
        !is_digit(stream[(chunk_opening().len() + decimal(length).len()) as int]),
{
    lemma_closing_begins();
    let header = chunk_header(length);
    let o = chunk_opening().len() as int;
    let d = decimal(length).len() as int;
    assert(stream.subrange(0, o) =~= chunk_opening()) by {
        assert forall|i: int| 0 <= i < o implies stream[i] == chunk_opening()[i] by {
            assert(stream.subrange(0, header.len() as int)[i] == header[i]);
        }
    }
    assert(stream.subrange(o, o + d) =~= decimal(length)) by {
        assert forall|i: int| 0 <= i < d implies stream[o + i] == decimal(length)[i] by {
            assert(stream.subrange(0, header.len() as int)[o + i] == header[o + i]);
        }
    }
    assert(stream.subrange(0, header.len() as int)[o + d] == header[o + d]);
    assert(header[o + d] == chunk_closing()[0]);
}

/// Whether `stream` begins with `prefix`.
pub fn starts_with(stream: &[u8], prefix: &[u8]) -> (begins: bool)
    ensures
        begins == (prefix@.len() <= stream@.len() && stream@.subrange(0, prefix@.len() as int)
            == prefix@),
{
    if prefix.len() > stream.len() {
        return false;
    }
    let mut i: usize = 0;
    while i < prefix.len()
        invariant
            i <= prefix.len(),
            prefix.len() <= stream.len(),
            forall|j: int| 0 <= j < i ==> stream@[j] == prefix@[j],
        decreases prefix.len() - i,
    {
        if stream[i] != prefix[i] {
            assert(stream@.subrange(0, prefix@.len() as int)[i as int] != prefix@[i as int]);
            return false;
        }
        i += 1;
    }
    assert(stream@.subrange(0, prefix@.len() as int) =~= prefix@);
    true
}

/// Finds the chunk that `stream` begins with: where its image starts and
/// where it ends. The bytes up to the end are then exactly the chunk of the
/// image between the two places. `None` means that the stream begins with no
/// whole chunk, whatever length one tries.
pub fn split_chunk(stream: &[u8]) -> (found: Option<(usize, usize)>)
    ensures
        match found {
            Some((start, end)) => {
                &&& start <= end <= stream@.len()
                &&& start == chunk_header((end - start) as nat).len()
                &&& leads_with_chunk(stream@, (end - start) as nat)
                &&& stream@.subrange(0, end as int) == chunk_of(
                    stream@.subrange(start as int, end as int),
                )
            },
            None => forall|length: nat| !leads_with_chunk(stream@, length),
        },
{
    let opening = "--boundarydonotcross\r\nContent-Length:".as_bytes();
    assert(opening@ == chunk_opening());
    if !starts_with(stream, opening) {
        assert forall|length: nat| !leads_with_chunk(stream@, length) by {
            if leads_with_chunk(stream@, length) {
                lemma_leading_chunk(stream@, length);
            }
        }
        return None;
    }
    let first: usize = opening.len();
    let mut i: usize = first;
    let mut value: usize = 0;
    while i < stream.len() && stream[i] >= 48 && stream[i] <= 57
        invariant
            first <= i <= stream.len(),
            first == chunk_opening().len(),
            value == digits_value(stream@.subrange(first as int, i as int)),
            forall|j: int| first <= j < i ==> is_digit(#[trigger] stream@[j]),
        ensures
            first <= i <= stream.len(),
            value == digits_value(stream@.subrange(first as int, i as int)),
            forall|j: int| first <= j < i ==> is_digit(#[trigger] stream@[j]),
            i < stream.len() ==> !is_digit(stream@[i as int]),
        decreases stream.len() - i,
    {
        let digit: usize = (stream[i] - 48) as usize;
        let ghost run = stream@.subrange(first as int, i + 1);
        proof {
            assert(run.drop_last() =~= stream@.subrange(first as int, i as int));
            assert(run.last() == stream@[i as int]);
            assert(digits_value(run) == value * 10 + digit);
        }
        if value > (usize::MAX - digit) / 10 {
            assert forall|length: nat| !leads_with_chunk(stream@, length) by {
                if leads_with_chunk(stream@, length) {
                    lemma_leading_chunk(stream@, length);
                    lemma_decimal(length);
                    let digits = decimal(length);
                    let last = first + digits.len();
                    if i + 1 > last {
                        assert(is_digit(stream@[last]));
                    }
                    assert(digits.take(i + 1 - first) =~= run);
                    lemma_digits_value_grows(digits, i + 1 - first);
                    assert(digits_value(run) <= length);
                    assert(value * 10 + digit > usize::MAX) by (nonlinear_arith)
                        requires
                            value > (usize::MAX - digit) / 10,
                            0 <= digit <= 9,
                    ;
                }
            }
            return None;
        }
        assert(value * 10 + digit <= usize::MAX) by (nonlinear_arith)
            requires
                value <= (usize::MAX - digit) / 10,
                0 <= digit <= 9,
        ;
        value = value * 10 + digit;
        i += 1;
    }
    let header = header_block(value);
    let fits = header.len() <= stream.len() && stream.len() - header.len() >= value;
    if !starts_with(stream, header.as_slice()) || !fits {
        assert forall|length: nat| !leads_with_chunk(stream@, length) by {
            if leads_with_chunk(stream@, length) {
                lemma_leading_chunk(stream@, length);
                lemma_decimal(length);
                let digits = decimal(length);
                let last = first + digits.len();
                if i > last {
                    assert(is_digit(stream@[last]));
                }
                if i < last {
                    assert(stream@.subrange(first as int, last as int)[i - first] == digits[i
                        - first]);
                    assert(is_digit(digits[i - first]));
                }
                assert(stream@.subrange(first as int, i as int) =~= digits);
                assert(value == length);
            }
        }
        return None;
    }
    let start: usize = header.len();
    let end: usize = start + value;
    assert(stream@.subrange(0, end as int) =~= chunk_header(value as nat) + stream@.subrange(
        start as int,
        end as int,
    )) by {
        assert forall|k: int| 0 <= k < start implies stream@[k] == chunk_header(value as nat)[k] by {
            assert(stream@.subrange(0, start as int)[k] == header@[k]);
        }
    }
    Some((start, end))
}

/// A stream begins with at most one chunk: the length that its header
/// declares is the only one.
pub proof fn lemma_leading_chunk_is_one(stream: Seq<u8>, first: nat, second: nat)
    requires
        leads_with_chunk(stream, first),
        leads_with_chunk(stream, second),
    ensures
        first == second,
{
    lemma_leading_chunk(stream, first);
    lemma_leading_chunk(stream, second);
    lemma_decimal(first);
    lemma_decimal(second);
    let o = chunk_opening().len() as int;
    let a = decimal(first);
    let b = decimal(second);
    if a.len() < b.len() {
        assert(stream.subrange(o, o + b.len())[a.len() as int] == b[a.len() as int]);
    }
    if b.len() < a.len() {
        assert(stream.subrange(o, o + a.len())[b.len() as int] == a[b.len() as int]);
    }
    assert(a =~= b);
}

/// A chunk, with whatever follows it in the stream, begins with the header
/// that declares the length of its image, and the image stands right behind
/// that header, whole.
pub proof fn lemma_chunk_round_trip(payload: Seq<u8>, rest: Seq<u8>)
    ensures
        leads_with_chunk(chunk_of(payload) + rest, payload.len()),
        forall|length: nat| #[trigger]
            leads_with_chunk(chunk_of(payload) + rest, length) ==> length == payload.len(),
        (chunk_of(payload) + rest).subrange(
            chunk_header(payload.len()).len() as int,
            (chunk_header(payload.len()).len() + payload.len()) as int,
        ) == payload,
{
    let stream = chunk_of(payload) + rest;
    let header = chunk_header(payload.len());
    assert(stream.subrange(0, header.len() as int) =~= header);
    assert(stream.subrange(header.len() as int, (header.len() + payload.len()) as int)
        =~= payload);
    assert forall|length: nat| #[trigger] leads_with_chunk(stream, length) implies length
        == payload.len() by {
        lemma_leading_chunk_is_one(stream, length, payload.len());
    }
}

/// The headers of the response that carries the stream, each a name with
/// its value: the response is never cached, ends with the connection, and
/// announces parts that replace one another, parted by the boundary that
/// every chunk opens with.
pub open spec fn stream_header_table() -> Seq<(Seq<char>, Seq<char>)> {
    seq![
        ("Cache-Control"@, "no-store, must-revalidate"@),
        ("Pragma"@, "no-cache"@),
        ("Expires"@, "0"@),
        ("Connection"@, "close"@),
        ("Content-Type"@, "multipart/x-mixed-replace;boundary=boundarydonotcross"@),
    ]
}

/// The headers of the response that carries the stream.
pub fn stream_headers() -> (headers: Vec<(&'static str, &'static str)>)
    ensures
        headers@.len() == stream_header_table().len(),
        forall|i: int|
            0 <= i < headers@.len() ==> (#[trigger] headers@[i]).0@ == stream_header_table()[i].0
                && headers@[i].1@ == stream_header_table()[i].1,
{
    let mut headers: Vec<(&'static str, &'static str)> = Vec::new();
    headers.push(("Cache-Control", "no-store, must-revalidate"));
    headers.push(("Pragma", "no-cache"));
    headers.push(("Expires", "0"));
    headers.push(("Connection", "close"));
    headers.push(("Content-Type", "multipart/x-mixed-replace;boundary=boundarydonotcross"));
    headers
}

} // verus!
