//! A codec that frames a byte stream into lines terminated by `\n`.
//!
//! `decode` takes one complete line off the front of a receive buffer, and
//! `encode` appends one line and its terminator to a send buffer.  The codec
//! remembers how far it has already scanned a buffer that held no complete
//! line, so that the next call only examines the bytes that arrived since.

use bytes::{BufMut, BytesMut};
use vstd::prelude::*;
use vstd::utf8::*;

verus! {

#[verifier::external_type_specification]
#[verifier::external_body]
pub struct ExBytesMut(BytesMut);

/// The bytes that a `BytesMut` holds, in order.
pub uninterp spec fn bytes_mut_contents(buf: BytesMut) -> Seq<u8>;

/// `BytesMut::len`: the number of bytes the buffer holds.
#[verifier::external_body]
fn buf_len(buf: &BytesMut) -> (n: usize)
    ensures
        n == bytes_mut_contents(*buf).len(),
{
    buf.len()
}

/// `<BytesMut as AsRef<[u8]>>::as_ref`: the held bytes as a slice, in order.
#[verifier::external_body]
fn buf_as_slice(buf: &BytesMut) -> (s: &[u8])
    ensures
        s@ == bytes_mut_contents(*buf),
{
    buf.as_ref()
}

/// `BytesMut::split_to`: the buffer keeps the bytes from `at` on and the
/// returned buffer holds the bytes before `at`.  It panics when `at` is past
/// the end, which `requires` rules out.
#[verifier::external_body]
fn buf_split_to(buf: &mut BytesMut, at: usize) -> (head: BytesMut)
    requires
        at <= bytes_mut_contents(*old(buf)).len(),
    ensures
        bytes_mut_contents(head) == bytes_mut_contents(*old(buf)).take(at as int),
        bytes_mut_contents(*final(buf)) == bytes_mut_contents(*old(buf)).skip(at as int),
{
    buf.split_to(at)
}

/// `BytesMut::reserve`: makes room for `additional` more bytes and leaves
/// the contents as they were.  It panics when the new capacity would exceed
/// what an allocation may hold; `requires` keeps the length plus the room
/// asked for within `isize::MAX`.  The allocation may also hold bytes split
/// off the front earlier, and growth may round the capacity up; neither is
/// stated, nor how much room is actually made, so for buffers near
/// `isize::MAX` bytes the panic is not ruled out.
#[verifier::external_body]
fn buf_reserve(buf: &mut BytesMut, additional: usize)
    requires
        bytes_mut_contents(*old(buf)).len() + additional <= isize::MAX,
    ensures
        bytes_mut_contents(*final(buf)) == bytes_mut_contents(*old(buf)),
{
    buf.reserve(additional)
}

/// `<BytesMut as BufMut>::put` with a byte slice: appends the slice, growing
/// the buffer as needed (its `remaining_mut` is `isize::MAX` less the
/// length).  Growing has the same limits as `buf_reserve`, which are not
/// stated beyond the length bound.
#[verifier::external_body]
fn buf_put(buf: &mut BytesMut, src: &[u8])
    requires
        bytes_mut_contents(*old(buf)).len() + src@.len() <= isize::MAX,
    ensures
        bytes_mut_contents(*final(buf)) == bytes_mut_contents(*old(buf)) + src@,
{
    buf.put(src)
}

/// `<BytesMut as BufMut>::put_u8`: appends one byte, growing the buffer as
/// needed, with the same limits as `buf_put`.
#[verifier::external_body]
fn buf_put_u8(buf: &mut BytesMut, byte: u8)
    requires
        bytes_mut_contents(*old(buf)).len() + 1 <= isize::MAX,
    ensures
        bytes_mut_contents(*final(buf)) == bytes_mut_contents(*old(buf)).push(byte),
{
    buf.put_u8(byte)
}

/// `std::str::from_utf8`: the bytes read as a string when they are valid
/// UTF-8, and nothing otherwise.  The string's own UTF-8 encoding is the
/// input.  The error value, which says where decoding stopped, is dropped.
#[verifier::external_body]
fn str_from_utf8(bytes: &[u8]) -> (r: Option<&str>)
    ensures
        r is Some <==> valid_utf8(bytes@),
        r matches Some(s) ==> encode_utf8(s@) == bytes@,
{
    match std::str::from_utf8(bytes) {
        Ok(s) => Some(s),
        Err(_) => None,
    }
}

/// The byte that ends a line.
pub open spec fn newline_byte() -> u8 {
    10u8
}

/// The position of the first `\n` in `bytes` at or after `from`, if any.
pub open spec fn find_newline(bytes: Seq<u8>, from: int) -> Option<int>
    decreases bytes.len() - from,
{
    if from < 0 || from >= bytes.len() {
        None
    } else if bytes[from] == newline_byte() {
        Some(from)
    } else {
        find_newline(bytes, from + 1)
    }
}

/// `find_newline` names the first `\n` at or after `from`, and finds none
/// only where there is none.
pub proof fn lemma_find_newline(bytes: Seq<u8>, from: int)
    requires
        0 <= from,
    ensures
        find_newline(bytes, from) matches Some(i) ==> {
            &&& from <= i < bytes.len()
            &&& bytes[i] == newline_byte()
            &&& forall|j: int| from <= j < i ==> bytes[j] != newline_byte()
        },
        find_newline(bytes, from) is None ==> forall|j: int|
            from <= j < bytes.len() ==> bytes[j] != newline_byte(),
    decreases bytes.len() - from,
{
    if from < bytes.len() && bytes[from] != newline_byte() {
        lemma_find_newline(bytes, from + 1);
    }
}

/// Whether `decode` may be called on a buffer holding `bytes` by a codec
/// whose scan position is `from`: the position lies within the buffer, and
/// the line it would return is valid UTF-8.
pub open spec fn decodable(bytes: Seq<u8>, from: int) -> bool {
    &&& 0 <= from <= bytes.len()
    &&& find_newline(bytes, from) matches Some(i) ==> valid_utf8(bytes.take(i))
}

/// The line that `decode` returns: the text before the first `\n` at or
/// after `from`, without the `\n`.
pub open spec fn decoded_line(bytes: Seq<u8>, from: int) -> Option<Seq<char>> {
    match find_newline(bytes, from) {
        Some(i) => Some(decode_utf8(bytes.take(i))),
        None => None,
    }
}

/// What `decode` leaves in the buffer: everything after the `\n` it found,
/// or the whole buffer when it found none.
pub open spec fn remaining_after_decode(bytes: Seq<u8>, from: int) -> Seq<u8> {
    match find_newline(bytes, from) {
        Some(i) => bytes.skip(i + 1),
        None => bytes,
    }
}

/// The scan position after `decode`: back to the start after a line, else
/// the end of what has been scanned.
pub open spec fn next_index_after_decode(bytes: Seq<u8>, from: int) -> int {
    match find_newline(bytes, from) {
        Some(_) => 0,
        None => bytes.len() as int,
    }
}

/// What `encode` leaves in a buffer that held `buffered`: the line's UTF-8
/// bytes and a `\n` appended.
pub open spec fn encoded(buffered: Seq<u8>, line: Seq<char>) -> Seq<u8> {
    buffered + encode_utf8(line) + seq![newline_byte()]
}

/// No byte before `from` is a `\n`.
pub open spec fn no_newline_before(bytes: Seq<u8>, from: int) -> bool {
    forall|j: int| 0 <= j < from && j < bytes.len() ==> bytes[j] != newline_byte()
}

/// The UTF-8 encoding of a single character holds the byte `\n` exactly
/// when the character is `\n`.
proof fn lemma_scalar_newline(c: char)
    ensures
        encode_scalar(c as u32).contains(newline_byte()) <==> c == '\n',
{
    vstd::utf8::char_is_scalar(c);
    let s = c as u32;
    let e = encode_scalar(s);
    if has_width_1_encoding(s) {
        assert((s & 0x7F) as u8 == 10u8 <==> s == 10u32) by (bit_vector)
            requires
                s <= 0x7Fu32,
        ;
        assert(e =~= seq![leading_byte_width_1(s)]);
        assert(e.contains(newline_byte()) ==> e[0] == newline_byte());
        assert(c == '\n' ==> s == 10u32);
        assert(s == 10u32 ==> c == '\n');
    } else {
        assert forall|x: u8| (0x80u8 | x) != 10u8 && (0xC0u8 | x) != 10u8 && (0xE0u8 | x) != 10u8
            && (0xF0u8 | x) != 10u8 by {
            assert((0x80u8 | x) != 10u8 && (0xC0u8 | x) != 10u8 && (0xE0u8 | x) != 10u8 && (0xF0u8
                | x) != 10u8) by (bit_vector);
        }
        assert(s != 10u32);
        assert(c != '\n');
        assert(!e.contains(newline_byte())) by {
            assert forall|k: int| 0 <= k < e.len() implies e[k] != newline_byte() by {}
        }
    }
}

/// The UTF-8 encoding of a text holds the byte `\n` exactly when the text
/// holds the character `\n`.
pub proof fn lemma_encoded_newline(chars: Seq<char>)
    ensures
        encode_utf8(chars).contains(newline_byte()) <==> chars.contains('\n'),
    decreases chars.len(),
{
    if chars.len() > 0 {
        let head = encode_scalar(chars[0] as u32);
        let tail = encode_utf8(chars.drop_first());
        lemma_scalar_newline(chars[0]);
        lemma_encoded_newline(chars.drop_first());
        assert(encode_utf8(chars) == head + tail);
        if chars.contains('\n') {
            let k = choose|k: int| 0 <= k < chars.len() && chars[k] == '\n';
            if k == 0 {
                let m = choose|m: int| 0 <= m < head.len() && head[m] == newline_byte();
                assert((head + tail)[m] == newline_byte());
            } else {
                assert(chars.drop_first()[k - 1] == '\n');
                let m = choose|m: int| 0 <= m < tail.len() && tail[m] == newline_byte();
                assert((head + tail)[head.len() + m] == newline_byte());
            }
        }
        if encode_utf8(chars).contains(newline_byte()) {
            let m = choose|m: int|
                0 <= m < (head + tail).len() && (head + tail)[m] == newline_byte();
            if m < head.len() {
                assert(head[m] == newline_byte());
                assert(chars[0] == '\n');
            } else {
                assert(tail[m - head.len()] == newline_byte());
                let k = choose|k: int|
                    0 <= k < chars.drop_first().len() && chars.drop_first()[k] == '\n';
                assert(chars[k + 1] == '\n');
            }
        }
    }
}

/// Where no `\n` lies before `from`, the search from `from` finds what a
/// search from the start finds.
proof fn lemma_search_from_start(bytes: Seq<u8>, from: int)
    requires
        0 <= from,
        no_newline_before(bytes, from),
    ensures
        find_newline(bytes, from) == find_newline(bytes, 0),
    decreases from,
{
    if from > 0 {
        if from - 1 < bytes.len() {
            assert(bytes[from - 1] != newline_byte());
        }
        lemma_search_from_start(bytes, from - 1);
    }
}

/// A line written by `encode` into an empty buffer comes back whole from
/// `decode` with a fresh scan position, whatever bytes follow it, as long
/// as the line itself holds no `\n`.
pub proof fn lemma_decode_of_encoded(line: Seq<char>, rest: Seq<u8>)
    requires
        !line.contains('\n'),
    ensures
        decodable(encoded(seq![], line) + rest, 0),
        decoded_line(encoded(seq![], line) + rest, 0) == Some(line),
        remaining_after_decode(encoded(seq![], line) + rest, 0) == rest,
        next_index_after_decode(encoded(seq![], line) + rest, 0) == 0,
{
    let text = encode_utf8(line);
    let bytes = encoded(seq![], line) + rest;
    let n = text.len() as int;
    lemma_encoded_newline(line);
    vstd::utf8::encode_utf8_valid_utf8(line);
    vstd::utf8::encode_utf8_decode_utf8(line);
    assert(bytes =~= text + seq![newline_byte()] + rest);
    assert forall|j: int| 0 <= j < n implies bytes[j] != newline_byte() by {
        assert(bytes[j] == text[j]);
    }
    assert(bytes[n] == newline_byte());
    assert(find_newline(bytes, 0) == Some(n)) by {
        lemma_find_newline(bytes, 0);
    }
    assert(bytes.take(n) =~= text);
    assert(bytes.skip(n + 1) =~= rest);
}

/// A line that `decode` returns never holds a `\n`, as long as no `\n`
/// lay before the scan position (the codec only moves the scan position
/// past bytes it has searched).
pub proof fn lemma_decoded_line_has_no_newline(bytes: Seq<u8>, from: int)
    requires
        decodable(bytes, from),
        no_newline_before(bytes, from),
    ensures
        decoded_line(bytes, from) matches Some(l) ==> !l.contains('\n'),
{
    lemma_find_newline(bytes, from);
    if let Some(i) = find_newline(bytes, from) {
        let text = bytes.take(i);
        vstd::utf8::decode_utf8_encode_utf8(text);
        lemma_encoded_newline(decode_utf8(text));
        assert(!text.contains(newline_byte())) by {
            assert forall|j: int| 0 <= j < text.len() implies text[j] != newline_byte() by {
                assert(text[j] == bytes[j]);
            }
        }
    }
}

/// The bytes that encoding `lines`, one after another, into an empty buffer
/// leaves there.
pub open spec fn encoded_lines(lines: Seq<Seq<char>>) -> Seq<u8>
    decreases lines.len(),
{
    if lines.len() == 0 {
        seq![]
    } else {
        encoded(encoded_lines(lines.drop_last()), lines.last())
    }
}

/// Encoded lines, seen from the front: the first line's bytes and `\n`,
/// then the rest.
proof fn lemma_encoded_lines_front(lines: Seq<Seq<char>>)
    requires
        lines.len() > 0,
    ensures
        encoded_lines(lines) == encoded(seq![], lines[0]) + encoded_lines(lines.drop_first()),
    decreases lines.len(),
{
    if lines.len() == 1 {
        assert(lines.drop_last() =~= Seq::<Seq<char>>::empty());
        assert(lines.drop_first() =~= Seq::<Seq<char>>::empty());
        assert(encoded_lines(lines) =~= encoded(seq![], lines[0]) + encoded_lines(
            lines.drop_first(),
        ));
    } else {
        let init = lines.drop_last();
        lemma_encoded_lines_front(init);
        assert(init.drop_first() =~= lines.drop_first().drop_last());
        assert(lines.drop_first().last() == lines.last());
        assert(init[0] == lines[0]);
        assert(encoded_lines(lines) =~= encoded(seq![], lines[0]) + encoded_lines(
            lines.drop_first(),
        ));
    }
}

/// Lines written by `encode` one after another into an empty buffer come
/// back from `decode`, one per call and in the order written: with the
/// buffer left by the first `j` decodes (which start and end at scan
/// position 0), the next decode returns line `j` and leaves the encoding of
/// the lines after it.  Once all are taken the buffer is empty and a further
/// decode finds nothing.  No line may hold a `\n`.
pub proof fn lemma_decode_of_encoded_lines(lines: Seq<Seq<char>>)
    requires
        forall|j: int| 0 <= j < lines.len() ==> !(#[trigger] lines[j]).contains('\n'),
    ensures
        forall|j: int|
            0 <= j < lines.len() ==> {
                &&& decodable(#[trigger] encoded_lines(lines.skip(j)), 0)
                &&& decoded_line(encoded_lines(lines.skip(j)), 0) == Some(lines[j])
                &&& remaining_after_decode(encoded_lines(lines.skip(j)), 0) == encoded_lines(
                    lines.skip(j + 1),
                )
                &&& next_index_after_decode(encoded_lines(lines.skip(j)), 0) == 0
            },
        encoded_lines(lines.skip(lines.len() as int)) == Seq::<u8>::empty(),
        decoded_line(Seq::<u8>::empty(), 0) is None,
        remaining_after_decode(Seq::<u8>::empty(), 0) == Seq::<u8>::empty(),
        next_index_after_decode(Seq::<u8>::empty(), 0) == 0,
{
    assert forall|j: int| 0 <= j < lines.len() implies {
        &&& decodable(#[trigger] encoded_lines(lines.skip(j)), 0)
        &&& decoded_line(encoded_lines(lines.skip(j)), 0) == Some(lines[j])
        &&& remaining_after_decode(encoded_lines(lines.skip(j)), 0) == encoded_lines(
            lines.skip(j + 1),
        )
        &&& next_index_after_decode(encoded_lines(lines.skip(j)), 0) == 0
    } by {
        let tail = lines.skip(j);
        lemma_encoded_lines_front(tail);
        assert(tail[0] == lines[j]);
        assert(tail.drop_first() =~= lines.skip(j + 1));
        lemma_decode_of_encoded(lines[j], encoded_lines(lines.skip(j + 1)));
    }
    assert(lines.skip(lines.len() as int) =~= Seq::<Seq<char>>::empty());
}

/// Decoding in pieces finds what decoding all at once finds: when a scan
/// from `from` found no `\n` in `bytes`, and none lay before `from`, then
/// after more bytes arrive, resuming at the end of `bytes` (where `decode`
/// left the scan position) gives the same line, the same remaining buffer
/// and the same next position as scanning the whole buffer from the start.
pub proof fn lemma_resumed_decode(bytes: Seq<u8>, from: int, more: Seq<u8>)
    requires
        0 <= from <= bytes.len(),
        no_newline_before(bytes, from),
        find_newline(bytes, from) is None,
    ensures
        next_index_after_decode(bytes, from) == bytes.len(),
        find_newline(bytes + more, bytes.len() as int) == find_newline(bytes + more, 0),
        decoded_line(bytes + more, bytes.len() as int) == decoded_line(bytes + more, 0),
        remaining_after_decode(bytes + more, bytes.len() as int) == remaining_after_decode(
            bytes + more,
            0,
        ),
        next_index_after_decode(bytes + more, bytes.len() as int) == next_index_after_decode(
            bytes + more,
            0,
        ),
        decodable(bytes + more, bytes.len() as int) == decodable(bytes + more, 0),
{
    lemma_find_newline(bytes, from);
    let all = bytes + more;
    assert(no_newline_before(all, bytes.len() as int)) by {
        assert forall|j: int| 0 <= j < bytes.len() && j < all.len() implies all[j]
            != newline_byte() by {
            assert(all[j] == bytes[j]);
        }
    }
    lemma_search_from_start(all, bytes.len() as int);
}

/// The position of the first `\n` in `scan` at or after `start`, if any.
fn scan_for_newline(scan: &[u8], start: usize) -> (r: Option<usize>)
    requires
        start <= scan@.len(),
    ensures
        match r {
            Some(i) => find_newline(scan@, start as int) == Some(i as int),
            None => find_newline(scan@, start as int) is None,
        },
{
    let mut i = start;
    while i < scan.len()
        invariant
            start <= i <= scan@.len(),
            find_newline(scan@, start as int) == find_newline(scan@, i as int),
        decreases scan@.len() - i,
    {
        if scan[i] == 10u8 {
            return Some(i);
        }
        i = i + 1;
    }
    None
}

/// Why a buffer cannot be decoded.
#[derive(Debug, Clone, Copy, PartialEq, Eq, Structural)]
pub enum DecodeError {
    /// The scan position lies past the end of the buffer.
    ScanPastEnd,
    /// The line found is not valid UTF-8.
    InvalidUtf8,
}

/// Why a line cannot be encoded.
#[derive(Debug, Clone, Copy, PartialEq, Eq, Structural)]
pub enum EncodeError {
    /// The buffer would grow past what an allocation may hold.
    TooLong,
}

/// Frames a byte stream into `\n`-terminated lines.
pub struct LinesCodec {
    /// The position in the receive buffer at which the next search for `\n`
    /// starts; every byte before it has been examined already.
    next_index: usize,
}

impl LinesCodec {
    /// The scan position: where the next search for `\n` starts.
    pub closed spec fn scan_position(&self) -> nat {
        self.next_index as nat
    }

    /// A codec that has scanned nothing.
    pub fn new() -> (codec: Self)
        ensures
            codec.scan_position() == 0,
    {
        LinesCodec { next_index: 0 }
    }

    /// The scan position, as a value.
    pub fn next_index(&self) -> (n: usize)
        ensures
            n == self.scan_position(),
    {
        self.next_index
    }

    /// Takes the first complete line off the front of `buf`.
    ///
    /// Looks for a `\n` from the scan position on.  When one is found, the
    /// bytes up to and including it leave the buffer, the text before it is
    /// returned, and the scan position goes back to 0.  When none is found,
    /// the buffer is left as it is, the scan position moves to its end, and
    /// `None` says that more bytes are needed.
    ///
    /// The scan position must lie within the buffer, and a line that is
    /// found must be valid UTF-8.
    pub fn decode(&mut self, buf: &mut BytesMut) -> (line: Option<String>)
        requires
            decodable(bytes_mut_contents(*old(buf)), old(self).scan_position() as int),
        ensures
            line is Some <==> decoded_line(
                bytes_mut_contents(*old(buf)),
                old(self).scan_position() as int,
            ) is Some,
            line matches Some(l) ==> decoded_line(
                bytes_mut_contents(*old(buf)),
                old(self).scan_position() as int,
            ) == Some(l@),
            bytes_mut_contents(*final(buf)) == remaining_after_decode(
                bytes_mut_contents(*old(buf)),
                old(self).scan_position() as int,
            ),
            final(self).scan_position() == next_index_after_decode(
                bytes_mut_contents(*old(buf)),
                old(self).scan_position() as int,
            ),
    {
        let ghost bytes = bytes_mut_contents(*buf);
        let start = self.next_index;
        let total = buf_len(buf);
        let found = scan_for_newline(buf_as_slice(buf), start);
        match found {
            Some(newline_index) => {
                proof {
                    lemma_find_newline(bytes, start as int);
                }
                let frame = buf_split_to(buf, newline_index + 1);
                let frame_bytes = buf_as_slice(&frame);
                let text_bytes = vstd::slice::slice_subrange(frame_bytes, 0, newline_index);
                assert(text_bytes@ == bytes.take(newline_index as int));
                let text = str_from_utf8(text_bytes).unwrap();
                proof {
                    vstd::utf8::encode_utf8_decode_utf8(text@);
                }
                self.next_index = 0;
                Some(text.to_owned())
            },
            None => {
                proof {
                    lemma_find_newline(bytes, start as int);
                }
                self.next_index = total;
                None
            },
        }
    }

    /// `decode` where it may be called, and an error that leaves the codec
    /// and the buffer as they were where it may not: `ScanPastEnd` when the
    /// scan position lies past the end of the buffer, `InvalidUtf8` when the
    /// line found is not valid UTF-8.
    pub fn try_decode(&mut self, buf: &mut BytesMut) -> (r: Result<Option<String>, DecodeError>)
        ensures
            !(old(self).scan_position() <= bytes_mut_contents(*old(buf)).len()) ==> {
                &&& r == Err::<Option<String>, DecodeError>(DecodeError::ScanPastEnd)
                &&& bytes_mut_contents(*final(buf)) == bytes_mut_contents(*old(buf))
                &&& final(self).scan_position() == old(self).scan_position()
            },
            old(self).scan_position() <= bytes_mut_contents(*old(buf)).len() && !decodable(
                bytes_mut_contents(*old(buf)),
                old(self).scan_position() as int,
            ) ==> {
                &&& r == Err::<Option<String>, DecodeError>(DecodeError::InvalidUtf8)
                &&& bytes_mut_contents(*final(buf)) == bytes_mut_contents(*old(buf))
                &&& final(self).scan_position() == old(self).scan_position()
            },
            decodable(bytes_mut_contents(*old(buf)), old(self).scan_position() as int) ==> {
                &&& r matches Ok(line)
                &&& line is Some <==> decoded_line(
                    bytes_mut_contents(*old(buf)),
                    old(self).scan_position() as int,
                ) is Some
                &&& line matches Some(l) ==> decoded_line(
                    bytes_mut_contents(*old(buf)),
                    old(self).scan_position() as int,
                ) == Some(l@)
                &&& bytes_mut_contents(*final(buf)) == remaining_after_decode(
                    bytes_mut_contents(*old(buf)),
                    old(self).scan_position() as int,
                )
                &&& final(self).scan_position() == next_index_after_decode(
                    bytes_mut_contents(*old(buf)),
                    old(self).scan_position() as int,
                )
            },
    {
        let total = buf_len(buf);
        if self.next_index > total {
            return Err(DecodeError::ScanPastEnd);
        }
        let scan = buf_as_slice(buf);
        match scan_for_newline(scan, self.next_index) {
            Some(newline_index) => {
                proof {
                    lemma_find_newline(scan@, self.next_index as int);
                }
                let text_bytes = vstd::slice::slice_subrange(scan, 0, newline_index);
                assert(text_bytes@ == scan@.take(newline_index as int));
                if str_from_utf8(text_bytes).is_none() {
                    return Err(DecodeError::InvalidUtf8);
                }
            },
            None => {},
        }
        Ok(self.decode(buf))
    }

    /// Appends `line` and a `\n` to `buf`.
    ///
    /// Room for the line and its terminator is reserved first; the buffer
    /// must stay within what an allocation may hold.
    pub fn encode(&mut self, line: String, buf: &mut BytesMut)
        requires
            bytes_mut_contents(*old(buf)).len() + encode_utf8(line@).len() + 1 <= isize::MAX,
        ensures
            bytes_mut_contents(*final(buf)) == encoded(bytes_mut_contents(*old(buf)), line@),
            final(self).scan_position() == old(self).scan_position(),
    {
        let bytes = line.as_str().as_bytes();
        buf_reserve(buf, bytes.len() + 1);
        buf_put(buf, bytes);
        buf_put_u8(buf, 10u8);
    }
    /// `encode` where the grown buffer stays within `isize::MAX` bytes, and
    /// `TooLong`, with the buffer left as it was, where it would not.
    pub fn try_encode(&mut self, line: String, buf: &mut BytesMut) -> (r: Result<(), EncodeError>)
        ensures
            final(self).scan_position() == old(self).scan_position(),
            bytes_mut_contents(*old(buf)).len() + encode_utf8(line@).len() + 1 <= isize::MAX ==> {
                &&& r is Ok
                &&& bytes_mut_contents(*final(buf)) == encoded(
                    bytes_mut_contents(*old(buf)),
                    line@,
                )
            },
            !(bytes_mut_contents(*old(buf)).len() + encode_utf8(line@).len() + 1 <= isize::MAX)
                ==> {
                &&& r == Err::<(), EncodeError>(EncodeError::TooLong)
                &&& bytes_mut_contents(*final(buf)) == bytes_mut_contents(*old(buf))
            },
    {
        let held = buf_len(buf);
        let added = line.as_str().as_bytes().len();
        let limit = isize::MAX as usize;
        if added >= limit || held > limit - 1 - added {
            return Err(EncodeError::TooLong);
        }
        self.encode(line, buf);
        Ok(())
    }
}

} // verus!
