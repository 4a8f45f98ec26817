//! Frames on a byte stream: four bytes that give the length, most significant first, then as
//! many bytes of content.

use vstd::prelude::*;

verus! {

/// Why bytes are no frame.
#[derive(Clone, Copy, Debug, PartialEq, Eq, Structural)]
pub enum FrameError {
    /// There is no content where some is needed.
    Empty,
    /// The content is longer than the limit; its length is given.
    TooLong(usize),
}

/// A number below 2^32 as four bytes, most significant first.
pub open spec fn length_bytes(n: int) -> Seq<u8> {
    seq![
        (n / 0x100_0000 % 0x100) as u8,
        (n / 0x1_0000 % 0x100) as u8,
        (n / 0x100 % 0x100) as u8,
        (n % 0x100) as u8,
    ]
}

/// The number that four bytes stand for, most significant first.
pub open spec fn length_value(bytes: Seq<u8>) -> int {
    bytes[0] * 0x100_0000 + bytes[1] * 0x1_0000 + bytes[2] * 0x100 + bytes[3]
}

/// The frame around some content.
pub open spec fn framed(content: Seq<u8>) -> Seq<u8> {
    length_bytes(content.len() as int) + content
}

/// The content of the frame at the start of the bytes and what follows it, if the frame is
/// whole and its length is between 1 and `limit`.
pub open spec fn unframed(bytes: Seq<u8>, limit: int) -> Option<(Seq<u8>, Seq<u8>)> {
    if bytes.len() < 4 {
        None
    } else {
        let n = length_value(bytes.take(4));
        if n == 0 || n > limit || bytes.len() < 4 + n {
            None
        } else {
            Some((bytes.subrange(4, 4 + n), bytes.skip(4 + n)))
        }
    }
}

/// Puts a frame around some content. Content over the limit is refused, and so is empty
/// content unless `allow_empty` is set.
pub fn frame(content: &Vec<u8>, limit: usize, allow_empty: bool) -> (r: Result<Vec<u8>, FrameError>)
    requires
        limit <= 0xffff_ffff,
    ensures
        match r {
            Ok(bytes) => (content@.len() > 0 || allow_empty) && content@.len() <= limit && bytes@
                == framed(content@),
            Err(FrameError::Empty) => content@.len() == 0 && !allow_empty,
            Err(FrameError::TooLong(n)) => content@.len() > limit && n == content@.len(),
        },
{
    let n: usize = content.len();
    if n == 0 && !allow_empty {
        return Err(FrameError::Empty);
    }
    if n > limit {
        return Err(FrameError::TooLong(n));
    }
    let mut bytes: Vec<u8> = Vec::new();
    bytes.push((n / 0x100_0000 % 0x100) as u8);
    bytes.push((n / 0x1_0000 % 0x100) as u8);
    bytes.push((n / 0x100 % 0x100) as u8);
    bytes.push((n % 0x100) as u8);
    assert(bytes@ =~= length_bytes(n as int));
    let mut i: usize = 0;
    while i < n
        invariant
            i <= n,
            n == content@.len(),
            bytes@ == length_bytes(n as int) + content@.take(i as int),
        decreases n - i,
    {
        bytes.push(content[i]);
        assert(content@.take(i + 1) =~= content@.take(i as int).push(content@[i as int]));
        assert(bytes@ =~= length_bytes(n as int) + content@.take(i + 1));
        i += 1;
    }
    assert(content@.take(n as int) =~= content@);
    Ok(bytes)
}

/// The length of the content that follows the four bytes. Zero and lengths over the limit are
/// refused before anything is read.
pub fn content_length(prefix: &[u8; 4], limit: usize) -> (r: Result<usize, FrameError>)
    ensures
        ({
            let n = length_value(prefix@);
            match r {
                Ok(len) => len == n && 1 <= n <= limit,
                Err(FrameError::Empty) => n == 0,
                Err(FrameError::TooLong(len)) => len == n && n > limit && n > 0,
            }
        }),
{
    let a: usize = prefix[0] as usize;
    let b: usize = prefix[1] as usize;
    let c: usize = prefix[2] as usize;
    let d: usize = prefix[3] as usize;
    let n: usize = a * 0x100_0000 + b * 0x1_0000 + c * 0x100 + d;
    if n == 0 {
        Err(FrameError::Empty)
    } else if n > limit {
        Err(FrameError::TooLong(n))
    } else {
        Ok(n)
    }
}

proof fn lemma_length_round_trip(n: int)
    requires
        0 <= n <= 0xffff_ffff,
    ensures
        length_value(length_bytes(n)) == n,
{
    let a = n / 0x100_0000 % 0x100;
    let b = n / 0x1_0000 % 0x100;
    let c = n / 0x100 % 0x100;
    let d = n % 0x100;
    assert(a * 0x100_0000 + b * 0x1_0000 + c * 0x100 + d == n);
}

/// What a frame was put around is read back from it, whatever follows on the stream.
pub proof fn frame_round_trip(content: Seq<u8>, rest: Seq<u8>, limit: int)
    requires
        1 <= content.len() <= limit <= 0xffff_ffff,
    ensures
        unframed(framed(content) + rest, limit) == Some((content, rest)),
{
    let n = content.len() as int;
    let bytes = framed(content) + rest;
    lemma_length_round_trip(n);
    assert(bytes.take(4) =~= length_bytes(n));
    assert(bytes.subrange(4, 4 + n) =~= content);
    assert(bytes.skip(4 + n) =~= rest);
}

/// A length is read back from its four bytes, and four bytes are written again for the length
/// that they stand for. The first byte counts most, and the last one counts single bytes.
pub proof fn lengths_are_read_back(n: int, bytes: Seq<u8>, other: Seq<u8>)
    requires
        0 <= n <= 0xffff_ffff,
        bytes.len() == 4,
        other.len() == 4,
    ensures
        length_bytes(n).len() == 4,
        length_value(length_bytes(n)) == n,
        0 <= length_value(bytes) <= 0xffff_ffff,
        length_bytes(length_value(bytes)) == bytes,
        bytes[0] < other[0] ==> length_value(bytes) < length_value(other),
        bytes[0] == 0 && bytes[1] == 0 && bytes[2] == 0 ==> length_value(bytes) == bytes[3],
        n < 0x100 ==> length_bytes(n)[3] == n,
{
    lemma_length_round_trip(n);
    let (a, b, c, d) = (bytes[0] as int, bytes[1] as int, bytes[2] as int, bytes[3] as int);
    let v = length_value(bytes);
    assert(v / 0x100_0000 == a);
    assert(v / 0x1_0000 == a * 0x100 + b);
    assert(v / 0x100 == a * 0x1_0000 + b * 0x100 + c);
    assert((a * 0x100 + b) % 0x100 == b);
    assert((a * 0x1_0000 + b * 0x100 + c) % 0x100 == c);
    assert(v % 0x100 == d);
    assert(length_bytes(v) =~= bytes);
}

} // verus!
