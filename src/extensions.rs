//! A cursor over bytes in memory, with the little-endian reads, fixed-length
//! strings and repeated records that the container and tag formats are made of.

use vstd::prelude::*;
use vstd::utf8::{decode_utf8, valid_utf8};

use crate::errors::Error;

verus! {

/// The value of two bytes read as a little-endian integer.
pub open spec fn le_u16(b: Seq<u8>) -> u16 {
    (b[0] + 0x100 * b[1]) as u16
}

/// The value of four bytes read as a little-endian integer.
pub open spec fn le_u32(b: Seq<u8>) -> u32 {
    (b[0] + 0x100 * b[1] + 0x1_0000 * b[2] + 0x100_0000 * b[3]) as u32
}

/// The value of eight bytes read as a little-endian integer.
pub open spec fn le_u64(b: Seq<u8>) -> u64 {
    (le_u32(b) + 0x1_0000_0000 * le_u32(b.subrange(4, 8))) as u64
}

/// The value of sixteen bytes read as a little-endian integer.
pub open spec fn le_u128(b: Seq<u8>) -> u128 {
    (le_u64(b) + 0x1_0000_0000_0000_0000 * le_u64(b.subrange(8, 16))) as u128
}

/// Whether `n` bytes can be read from `data` at `pos`.
pub open spec fn fits(data: Seq<u8>, pos: int, n: int) -> bool {
    0 <= pos && 0 <= n && pos + n <= data.len()
}

/// The `n` bytes of `data` at `pos`.
pub open spec fn window(data: Seq<u8>, pos: int, n: int) -> Seq<u8> {
    data.subrange(pos, pos + n)
}

/// The byte at `pos`.
pub open spec fn u8_at(data: Seq<u8>, pos: int) -> u8 {
    data[pos]
}

/// The little-endian `u16` at `pos`.
pub open spec fn u16_at(data: Seq<u8>, pos: int) -> u16 {
    le_u16(window(data, pos, 2))
}

/// The little-endian `u32` at `pos`.
pub open spec fn u32_at(data: Seq<u8>, pos: int) -> u32 {
    le_u32(window(data, pos, 4))
}

/// The little-endian `i32` at `pos`.
pub open spec fn i32_at(data: Seq<u8>, pos: int) -> i32 {
    u32_at(data, pos) as i32
}

/// The little-endian `u64` at `pos`.
pub open spec fn u64_at(data: Seq<u8>, pos: int) -> u64 {
    le_u64(window(data, pos, 8))
}

/// The little-endian `i64` at `pos`.
pub open spec fn i64_at(data: Seq<u8>, pos: int) -> i64 {
    u64_at(data, pos) as i64
}

/// The little-endian `u128` at `pos`.
pub open spec fn u128_at(data: Seq<u8>, pos: int) -> u128 {
    le_u128(window(data, pos, 16))
}

/// Whether every byte is 0xFF: the marker of an absent fixed-length string.
pub open spec fn all_ff(b: Seq<u8>) -> bool {
    forall|i: int| 0 <= i < b.len() ==> b[i] == 0xFF
}

/// The text of a fixed-length string field: empty for the all-0xFF marker,
/// else the characters that the bytes encode in UTF-8; `None` where they are
/// not UTF-8.
pub open spec fn fixed_string_text(b: Seq<u8>) -> Option<Seq<char>> {
    if all_ff(b) {
        Some(Seq::empty())
    } else if valid_utf8(b) {
        Some(decode_utf8(b))
    } else {
        None
    }
}

/// The index of the first zero byte of `data` at or after `pos`, or the end of
/// `data` where there is none.
pub open spec fn terminator_from(data: Seq<u8>, pos: int) -> int
    decreases data.len() - pos,
{
    if pos >= data.len() {
        data.len() as int
    } else if data[pos] == 0 {
        pos
    } else {
        terminator_from(data, pos + 1)
    }
}

/// What a fixed-length string of `n` bytes at `pos` reads as, and where it ends.
pub open spec fn decode_fixed_string(data: Seq<u8>, pos: int, n: int) -> Result<(Seq<char>, int), Error> {
    if !fits(data, pos, n) {
        Err(Error::ReadError)
    } else {
        match fixed_string_text(window(data, pos, n)) {
            Some(t) => Ok((t, pos + n)),
            None => Err(Error::Utf8ReadingError),
        }
    }
}

/// A four-character group code, which is stored with its characters reversed.
pub open spec fn decode_group(data: Seq<u8>, pos: int) -> Result<(Seq<char>, int), Error> {
    match decode_fixed_string(data, pos, 4) {
        Ok((t, end)) => Ok((t.reverse(), end)),
        Err(e) => Err(e),
    }
}

/// The byte at `off`.
pub fn get_u8(b: &[u8], off: usize) -> (r: u8)
    requires
        off < b.len(),
    ensures
        r == u8_at(b@, off as int),
{
    b[off]
}

/// The byte at `off`, as a signed integer.
pub fn get_i8(b: &[u8], off: usize) -> (r: i8)
    requires
        off < b.len(),
    ensures
        r == u8_at(b@, off as int) as i8,
{
    b[off] as i8
}

/// The little-endian `u16` at `off`.
pub fn get_u16(b: &[u8], off: usize) -> (r: u16)
    requires
        off + 2 <= b.len(),
    ensures
        r == u16_at(b@, off as int),
{
    b[off] as u16 + (b[off + 1] as u16) * 0x100
}

/// The little-endian `i16` at `off`.
pub fn get_i16(b: &[u8], off: usize) -> (r: i16)
    requires
        off + 2 <= b.len(),
    ensures
        r == u16_at(b@, off as int) as i16,
{
    get_u16(b, off) as i16
}

/// The little-endian `u32` at `off`.
pub fn get_u32(b: &[u8], off: usize) -> (r: u32)
    requires
        off + 4 <= b.len(),
    ensures
        r == u32_at(b@, off as int),
{
    b[off] as u32 + (b[off + 1] as u32) * 0x100 + (b[off + 2] as u32) * 0x1_0000 + (b[off + 3] as u32) * 0x100_0000
}

/// The little-endian `i32` at `off`.
pub fn get_i32(b: &[u8], off: usize) -> (r: i32)
    requires
        off + 4 <= b.len(),
    ensures
        r == i32_at(b@, off as int),
{
    get_u32(b, off) as i32
}

/// The little-endian `u64` at `off`.
pub fn get_u64(b: &[u8], off: usize) -> (r: u64)
    requires
        off + 8 <= b.len(),
    ensures
        r == u64_at(b@, off as int),
{
    let lo = get_u32(b, off);
    let hi = get_u32(b, off + 4);
    assert(window(window(b@, off as int, 8), 0, 4) =~= window(b@, off as int, 4));
    assert(window(b@, off as int, 8).subrange(4, 8) =~= window(b@, off + 4, 4));
    lo as u64 + (hi as u64) * 0x1_0000_0000
}

/// The little-endian `i64` at `off`.
pub fn get_i64(b: &[u8], off: usize) -> (r: i64)
    requires
        off + 8 <= b.len(),
    ensures
        r == i64_at(b@, off as int),
{
    get_u64(b, off) as i64
}

/// The little-endian `u128` at `off`.
pub fn get_u128(b: &[u8], off: usize) -> (r: u128)
    requires
        off + 16 <= b.len(),
    ensures
        r == u128_at(b@, off as int),
{
    let lo = get_u64(b, off);
    let hi = get_u64(b, off + 8);
    let ghost w = window(b@, off as int, 16);
    assert(w.subrange(0, 4) =~= window(b@, off as int, 4));
    assert(w.subrange(4, 8) =~= window(b@, off + 4, 4));
    assert(w.subrange(8, 16).subrange(0, 4) =~= window(b@, off + 8, 4));
    assert(w.subrange(8, 16).subrange(4, 8) =~= window(b@, off + 12, 4));
    assert(window(b@, off as int, 8).subrange(4, 8) =~= window(b@, off + 4, 4));
    assert(window(b@, off + 8, 8).subrange(4, 8) =~= window(b@, off + 12, 4));
    lo as u128 + (hi as u128) * 0x1_0000_0000_0000_0000
}

/// The little-endian `i128` at `off`.
pub fn get_i128(b: &[u8], off: usize) -> (r: i128)
    requires
        off + 16 <= b.len(),
    ensures
        r == u128_at(b@, off as int) as i128,
{
    get_u128(b, off) as i128
}

/// A fixed-length string of any length whose bytes are all 0xFF reads as
/// the empty string, never as an encoding error.
pub proof fn lemma_all_ff_reads_empty(data: Seq<u8>, pos: int, n: int)
    requires
        fits(data, pos, n),
        forall|i: int| pos <= i < pos + n ==> data[i] == 0xFF,
    ensures
        decode_fixed_string(data, pos, n) == Ok::<(Seq<char>, int), Error>((Seq::<char>::empty(), pos + n)),
{
    assert(all_ff(window(data, pos, n)));
}

/// Relies on std::str::from_utf8: it accepts exactly the UTF-8 byte sequences,
/// and the text it returns holds the characters they encode.
#[verifier::external_body]
fn utf8_text(bytes: &[u8]) -> (r: Option<&str>)
    ensures
        r is Some <==> valid_utf8(bytes@),
        r matches Some(s) ==> s@ == decode_utf8(bytes@),
{
    std::str::from_utf8(bytes).ok()
}

/// Relies on String::from_iter over chars: the string holds the characters in order.
#[verifier::external_body]
fn string_of_chars(chars: Vec<char>) -> (r: String)
    ensures
        r@ == chars@,
{
    String::from_iter(chars)
}

/// The `n` bytes of `b` at `off`, copied.
pub fn sub_bytes(b: &[u8], off: usize, n: usize) -> (r: Vec<u8>)
    requires
        off + n <= b.len(),
    ensures
        r@ == window(b@, off as int, n as int),
{
    let mut out: Vec<u8> = Vec::new();
    let mut i: usize = 0;
    while i < n
        invariant
            off + n <= b.len(),
            i <= n,
            out@ == b@.subrange(off as int, off + i),
        decreases n - i,
    {
        out.push(b[off + i]);
        i = i + 1;
        assert(out@ =~= b@.subrange(off as int, off + i));
    }
    out
}

/// The text of a fixed-length string field held in `b`.
pub fn fixed_text(b: &[u8]) -> (r: Result<String, Error>)
    ensures
        match fixed_string_text(b@) {
            Some(t) => r matches Ok(s) && s@ == t,
            None => r == Err::<String, Error>(Error::Utf8ReadingError),
        },
{
    let mut all_marker = true;
    let mut i: usize = 0;
    while i < b.len()
        invariant
            i <= b.len(),
            all_marker == (forall|j: int| 0 <= j < i ==> b@[j] == 0xFF),
        decreases b.len() - i,
    {
        if b[i] != 0xFF {
            all_marker = false;
        }
        i = i + 1;
    }
    if all_marker {
        return Ok(String::new());
    }
    match utf8_text(b) {
        Some(text) => Ok(text.to_owned()),
        None => Err(Error::Utf8ReadingError),
    }
}

/// The group code that four stored bytes hold: their text with its characters reversed.
pub open spec fn group_text(b: Seq<u8>) -> Option<Seq<char>> {
    match fixed_string_text(b) {
        Some(t) => Some(t.reverse()),
        None => None,
    }
}

/// The group code stored in the four bytes of `b` at `off`.
pub fn group_at(b: &[u8], off: usize) -> (r: Result<String, Error>)
    requires
        off + 4 <= b.len(),
    ensures
        match group_text(window(b@, off as int, 4)) {
            Some(t) => r matches Ok(s) && s@ == t,
            None => r == Err::<String, Error>(Error::Utf8ReadingError),
        },
{
    let stored = sub_bytes(b, off, 4);
    let text = fixed_text(stored.as_slice())?;
    Ok(reverse_chars(text.as_str()))
}

/// The character of a decimal digit.
pub open spec fn digit_char(d: nat) -> char {
    (48 + d) as char
}

/// The decimal digits of `n`, most significant first, without leading zeros.
pub open spec fn decimal_digits(n: nat) -> Seq<char>
    decreases n,
{
    if n < 10 {
        seq![digit_char(n)]
    } else {
        decimal_digits(n / 10).push(digit_char(n % 10))
    }
}

/// The decimal text of `n`, with a leading '-' where it is negative.
pub open spec fn decimal(n: int) -> Seq<char> {
    if n < 0 {
        seq!['-'] + decimal_digits((-n) as nat)
    } else {
        decimal_digits(n as nat)
    }
}

/// Relies on the `Display` of `i64` (through `to_string`): decimal digits
/// without leading zeros, after a '-' for negative numbers.
#[verifier::external_body]
pub(crate) fn decimal_string(n: i64) -> (r: String)
    ensures
        r@ == decimal(n as int),
{
    n.to_string()
}

/// A string holding the characters of `s` in reverse order.
pub fn reverse_chars(s: &str) -> (r: String)
    ensures
        r@ == s@.reverse(),
{
    let mut chars: Vec<char> = Vec::new();
    for c in it: s.chars()
        invariant
            chars@ == it.seq().take(it.index() as int),
    {
        chars.push(c);
    }
    assert(chars@ == s@);
    let mut reversed: Vec<char> = Vec::new();
    let mut i: usize = chars.len();
    while i > 0
        invariant
            i <= chars.len(),
            reversed@ == chars@.subrange(i as int, chars.len() as int).reverse(),
        decreases i,
    {
        i = i - 1;
        reversed.push(chars[i]);
        assert(reversed@ =~= chars@.subrange(i as int, chars.len() as int).reverse());
    }
    assert(reversed@ =~= s@.reverse());
    string_of_chars(reversed)
}

/// A read position over bytes held in memory.
///
/// Reads past the end fail and leave the position where it was; the position
/// itself may be set anywhere, as with a seekable stream.
pub struct ByteReader {
    data: Vec<u8>,
    pos: u64,
}

impl ByteReader {
    /// The bytes read from.
    pub closed spec fn bytes(&self) -> Seq<u8> {
        self.data@
    }

    /// The read position.
    pub closed spec fn at(&self) -> int {
        self.pos as int
    }

    /// A reader at the start of `data`.
    pub fn new(data: Vec<u8>) -> (r: Self)
        ensures
            r.bytes() == data@,
            r.at() == 0,
    {
        ByteReader { data, pos: 0 }
    }

    /// Gives back the bytes read from.
    pub fn into_bytes(self) -> (r: Vec<u8>)
        ensures
            r@ == self.bytes(),
    {
        self.data
    }

    /// The number of bytes read from.
    pub fn len(&self) -> (r: usize)
        ensures
            r == self.bytes().len(),
    {
        self.data.len()
    }

    /// The read position.
    pub fn stream_position(&self) -> (r: u64)
        ensures
            r == self.at(),
    {
        self.pos
    }

    /// Moves the read position to `pos`.
    pub fn seek(&mut self, pos: u64)
        ensures
            final(self).bytes() == old(self).bytes(),
            final(self).at() == pos,
    {
        self.pos = pos;
    }

    /// Moves the read position by `delta`; fails where it would leave the range of `u64`.
    pub fn seek_relative(&mut self, delta: i64) -> (r: Result<(), Error>)
        ensures
            final(self).bytes() == old(self).bytes(),
            r is Ok <==> 0 <= old(self).at() + delta <= u64::MAX,
            r is Ok ==> final(self).at() == old(self).at() + delta,
            r is Err ==> r == Err::<(), Error>(Error::ReadError) && final(self).at() == old(self).at(),
    {
        if delta >= 0 {
            let d = delta as u64;
            if self.pos <= u64::MAX - d {
                self.pos = self.pos + d;
                Ok(())
            } else {
                Err(Error::ReadError)
            }
        } else {
            let d = (-(delta as i128)) as u64;
            if self.pos >= d {
                self.pos = self.pos - d;
                Ok(())
            } else {
                Err(Error::ReadError)
            }
        }
    }

    /// Whether `n` bytes can be read at the position.
    pub fn can_read(&self, n: u64) -> (r: bool)
        ensures
            r == fits(self.bytes(), self.at(), n as int),
    {
        let len = self.data.len() as u64;
        self.pos <= len && len - self.pos >= n
    }

    /// Whether `n` bytes can be read at the position.
    fn has(&self, n: usize) -> (r: bool)
        ensures
            r == fits(self.bytes(), self.at(), n as int),
            r == (self.pos + n <= self.data.len()),
    {
        let len = self.data.len() as u64;
        self.pos <= len && len - self.pos >= n as u64
    }

    /// Reads `n` bytes.
    pub fn read_bytes(&mut self, n: usize) -> (r: Result<Vec<u8>, Error>)
        ensures
            final(self).bytes() == old(self).bytes(),
            fits(old(self).bytes(), old(self).at(), n as int) ==> (r matches Ok(v)
                && v@ == window(old(self).bytes(), old(self).at(), n as int)
                && final(self).at() == old(self).at() + n),
            !fits(old(self).bytes(), old(self).at(), n as int) ==> r == Err::<Vec<u8>, Error>(Error::ReadError)
                && final(self).at() == old(self).at(),
    {
        if !self.has(n) {
            return Err(Error::ReadError);
        }
        let start = self.pos as usize;
        let mut out: Vec<u8> = Vec::new();
        let mut i: usize = 0;
        while i < n
            invariant
                fits(self.data@, start as int, n as int),
                start + n <= self.data.len(),
                i <= n,
                out@ == self.data@.subrange(start as int, start + i),
            decreases n - i,
        {
            out.push(self.data[start + i]);
            i = i + 1;
            assert(out@ =~= self.data@.subrange(start as int, start + i));
        }
        self.pos = self.pos + n as u64;
        Ok(out)
    }

    /// Reads one byte.
    pub fn read_u8(&mut self) -> (r: Result<u8, Error>)
        ensures
            final(self).bytes() == old(self).bytes(),
            fits(old(self).bytes(), old(self).at(), 1) ==> r == Ok::<u8, Error>(old(self).bytes()[old(self).at()])
                && final(self).at() == old(self).at() + 1,
            !fits(old(self).bytes(), old(self).at(), 1) ==> r == Err::<u8, Error>(Error::ReadError)
                && final(self).at() == old(self).at(),
    {
        if !self.has(1) {
            return Err(Error::ReadError);
        }
        let b = self.data[self.pos as usize];
        self.pos = self.pos + 1;
        Ok(b)
    }

    /// Reads one byte as a signed integer.
    pub fn read_i8(&mut self) -> (r: Result<i8, Error>)
        ensures
            final(self).bytes() == old(self).bytes(),
            fits(old(self).bytes(), old(self).at(), 1) ==> r == Ok::<i8, Error>(old(self).bytes()[old(self).at()] as i8)
                && final(self).at() == old(self).at() + 1,
            !fits(old(self).bytes(), old(self).at(), 1) ==> r == Err::<i8, Error>(Error::ReadError)
                && final(self).at() == old(self).at(),
    {
        let b = self.read_u8()?;
        Ok(b as i8)
    }

    /// Reads a little-endian `u16`.
    pub fn read_u16(&mut self) -> (r: Result<u16, Error>)
        ensures
            final(self).bytes() == old(self).bytes(),
            fits(old(self).bytes(), old(self).at(), 2) ==> r == Ok::<u16, Error>(le_u16(window(old(self).bytes(), old(self).at(), 2)))
                && final(self).at() == old(self).at() + 2,
            !fits(old(self).bytes(), old(self).at(), 2) ==> r == Err::<u16, Error>(Error::ReadError)
                && final(self).at() == old(self).at(),
    {
        if !self.has(2) {
            return Err(Error::ReadError);
        }
        let p = self.pos as usize;
        let v = self.data[p] as u16 + (self.data[p + 1] as u16) * 0x100;
        self.pos = self.pos + 2;
        Ok(v)
    }

    /// Reads a little-endian `i16`.
    pub fn read_i16(&mut self) -> (r: Result<i16, Error>)
        ensures
            final(self).bytes() == old(self).bytes(),
            fits(old(self).bytes(), old(self).at(), 2) ==> r == Ok::<i16, Error>(le_u16(window(old(self).bytes(), old(self).at(), 2)) as i16)
                && final(self).at() == old(self).at() + 2,
            !fits(old(self).bytes(), old(self).at(), 2) ==> r == Err::<i16, Error>(Error::ReadError)
                && final(self).at() == old(self).at(),
    {
        let v = self.read_u16()?;
        Ok(v as i16)
    }

    /// Reads a little-endian `u32`.
    pub fn read_u32(&mut self) -> (r: Result<u32, Error>)
        ensures
            final(self).bytes() == old(self).bytes(),
            fits(old(self).bytes(), old(self).at(), 4) ==> r == Ok::<u32, Error>(le_u32(window(old(self).bytes(), old(self).at(), 4)))
                && final(self).at() == old(self).at() + 4,
            !fits(old(self).bytes(), old(self).at(), 4) ==> r == Err::<u32, Error>(Error::ReadError)
                && final(self).at() == old(self).at(),
    {
        if !self.has(4) {
            return Err(Error::ReadError);
        }
        let p = self.pos as usize;
        let v = self.data[p] as u32 + (self.data[p + 1] as u32) * 0x100 + (self.data[p + 2] as u32) * 0x1_0000
            + (self.data[p + 3] as u32) * 0x100_0000;
        self.pos = self.pos + 4;
        Ok(v)
    }

    /// Reads a little-endian `i32`.
    pub fn read_i32(&mut self) -> (r: Result<i32, Error>)
        ensures
            final(self).bytes() == old(self).bytes(),
            fits(old(self).bytes(), old(self).at(), 4) ==> r == Ok::<i32, Error>(le_u32(window(old(self).bytes(), old(self).at(), 4)) as i32)
                && final(self).at() == old(self).at() + 4,
            !fits(old(self).bytes(), old(self).at(), 4) ==> r == Err::<i32, Error>(Error::ReadError)
                && final(self).at() == old(self).at(),
    {
        let v = self.read_u32()?;
        Ok(v as i32)
    }

    /// Reads a little-endian `u64`.
    pub fn read_u64(&mut self) -> (r: Result<u64, Error>)
        ensures
            final(self).bytes() == old(self).bytes(),
            fits(old(self).bytes(), old(self).at(), 8) ==> r == Ok::<u64, Error>(le_u64(window(old(self).bytes(), old(self).at(), 8)))
                && final(self).at() == old(self).at() + 8,
            !fits(old(self).bytes(), old(self).at(), 8) ==> r == Err::<u64, Error>(Error::ReadError)
                && final(self).at() == old(self).at(),
    {
        if !self.has(8) {
            return Err(Error::ReadError);
        }
        let ghost w = window(self.data@, self.pos as int, 8);
        let lo = self.read_u32()?;
        let hi = self.read_u32()?;
        assert(window(w, 4, 4) =~= w.subrange(4, 8));
        assert(window(w, 0, 4) =~= w.subrange(0, 4));
        Ok(lo as u64 + (hi as u64) * 0x1_0000_0000)
    }

    /// Reads a little-endian `i64`.
    pub fn read_i64(&mut self) -> (r: Result<i64, Error>)
        ensures
            final(self).bytes() == old(self).bytes(),
            fits(old(self).bytes(), old(self).at(), 8) ==> r == Ok::<i64, Error>(le_u64(window(old(self).bytes(), old(self).at(), 8)) as i64)
                && final(self).at() == old(self).at() + 8,
            !fits(old(self).bytes(), old(self).at(), 8) ==> r == Err::<i64, Error>(Error::ReadError)
                && final(self).at() == old(self).at(),
    {
        let v = self.read_u64()?;
        Ok(v as i64)
    }

    /// Reads a little-endian `u128`.
    pub fn read_u128(&mut self) -> (r: Result<u128, Error>)
        ensures
            final(self).bytes() == old(self).bytes(),
            fits(old(self).bytes(), old(self).at(), 16) ==> r == Ok::<u128, Error>(le_u128(window(old(self).bytes(), old(self).at(), 16)))
                && final(self).at() == old(self).at() + 16,
            !fits(old(self).bytes(), old(self).at(), 16) ==> r == Err::<u128, Error>(Error::ReadError)
                && final(self).at() == old(self).at(),
    {
        if !self.has(16) {
            return Err(Error::ReadError);
        }
        let ghost w = window(self.data@, self.pos as int, 16);
        let lo = self.read_u64()?;
        let hi = self.read_u64()?;
        assert(window(w, 8, 8) =~= w.subrange(8, 16));
        assert(window(w, 0, 8) =~= w.subrange(0, 8));
        assert(window(w, 0, 8).subrange(4, 8) =~= w.subrange(4, 8));
        Ok(lo as u128 + (hi as u128) * 0x1_0000_0000_0000_0000)
    }

    /// Reads a little-endian `i128`.
    pub fn read_i128(&mut self) -> (r: Result<i128, Error>)
        ensures
            final(self).bytes() == old(self).bytes(),
            fits(old(self).bytes(), old(self).at(), 16) ==> r == Ok::<i128, Error>(le_u128(window(old(self).bytes(), old(self).at(), 16)) as i128)
                && final(self).at() == old(self).at() + 16,
            !fits(old(self).bytes(), old(self).at(), 16) ==> r == Err::<i128, Error>(Error::ReadError)
                && final(self).at() == old(self).at(),
    {
        let v = self.read_u128()?;
        Ok(v as i128)
    }
}


impl ByteReader {
    /// Reads a fixed-length string of `length` bytes: the all-0xFF marker
    /// reads as the empty string, anything else must be UTF-8.
    pub fn read_fixed_string(&mut self, length: usize) -> (r: Result<String, Error>)
        ensures
            final(self).bytes() == old(self).bytes(),
            match decode_fixed_string(old(self).bytes(), old(self).at(), length as int) {
                Ok((t, end)) => r matches Ok(s) && s@ == t && final(self).at() == end,
                Err(e) => r == Err::<String, Error>(e),
            },
    {
        let buffer = self.read_bytes(length)?;
        fixed_text(buffer.as_slice())
    }

    /// Reads a four-character group code, stored with its characters reversed.
    pub fn read_group(&mut self) -> (r: Result<String, Error>)
        ensures
            final(self).bytes() == old(self).bytes(),
            match decode_group(old(self).bytes(), old(self).at()) {
                Ok((t, end)) => r matches Ok(s) && s@ == t && final(self).at() == end,
                Err(e) => r == Err::<String, Error>(e),
            },
    {
        let stored = self.read_fixed_string(4)?;
        Ok(reverse_chars(stored.as_str()))
    }

    /// Reads a string that ends at a zero byte or at the end of the data; the
    /// zero byte is consumed and not part of the string.
    pub fn read_null_terminated_string(&mut self) -> (r: Result<String, Error>)
        ensures
            final(self).bytes() == old(self).bytes(),
            ({
                let data = old(self).bytes();
                let start = old(self).at();
                let stop = terminator_from(data, start);
                let text = data.subrange(start, stop);
                if !(0 <= start <= data.len()) {
                    r == Err::<String, Error>(Error::ReadError)
                } else if valid_utf8(text) {
                    r matches Ok(s) && s@ == decode_utf8(text)
                        && final(self).at() == if stop < data.len() { stop + 1 } else { stop }
                } else {
                    r == Err::<String, Error>(Error::Utf8ReadingError)
                }
            }),
    {
        let len = self.data.len() as u64;
        if self.pos > len {
            return Err(Error::ReadError);
        }
        let start = self.pos as usize;
        let mut stop: usize = start;
        while stop < self.data.len() && self.data[stop] != 0
            invariant
                start <= stop <= self.data.len(),
                terminator_from(self.data@, start as int) == terminator_from(self.data@, stop as int),
            decreases self.data.len() - stop,
        {
            stop = stop + 1;
        }
        let text = self.read_bytes(stop - start)?;
        if stop < self.data.len() {
            self.pos = self.pos + 1;
        }
        match utf8_text(text.as_slice()) {
            Some(t) => Ok(t.to_owned()),
            None => Err(Error::Utf8ReadingError),
        }
    }

    /// Reads `count` records one after another.
    pub fn read_enumerable<T: Readable + Default>(&mut self, count: u64) -> (r: Result<Vec<T>, Error>)
        ensures
            final(self).bytes() == old(self).bytes(),
            match many_error::<T>(old(self).bytes(), old(self).at(), count as nat) {
                Some(e) => r == Err::<Vec<T>, Error>(e),
                None => r matches Ok(v) && v@.len() == count
                    && (forall|i: int| 0 <= i < count ==> T::reads_as(old(self).bytes(), #[trigger] many_end::<T>(old(self).bytes(), old(self).at(), i as nat), v@[i]))
                    && final(self).at() == many_end::<T>(old(self).bytes(), old(self).at(), count as nat),
            },
    {
        let ghost data = self.bytes();
        let ghost start = self.at();
        let mut items: Vec<T> = Vec::new();
        let mut i: u64 = 0;
        while i < count
            invariant
                i <= count,
                data == old(self).bytes(),
                start == old(self).at(),
                self.bytes() == data,
                many_error::<T>(data, start, i as nat) is None,
                self.at() == many_end::<T>(data, start, i as nat),
                items@.len() == i,
                forall|j: int| 0 <= j < i ==> T::reads_as(data, #[trigger] many_end::<T>(data, start, j as nat), items@[j]),
            decreases count - i,
        {
            let mut item = T::default();
            match item.read(self) {
                Ok(()) => {},
                Err(e) => {
                    proof { lemma_many_stops::<T>(data, start, (i + 1) as nat, count as nat); }
                    return Err(e);
                },
            }
            items.push(item);
            i = i + 1;
        }
        Ok(items)
    }
}

/// A record with a fixed layout that can be read from a [`ByteReader`].
pub trait Readable: Sized {
    /// The error that reading the record at `pos` meets first, if any.
    spec fn error_at(data: Seq<u8>, pos: int) -> Option<Error>;

    /// The position after the record at `pos`, where it reads without error.
    spec fn end_of(data: Seq<u8>, pos: int) -> int;

    /// Whether `v` is what the record at `pos` reads as.
    spec fn reads_as(data: Seq<u8>, pos: int, v: Self) -> bool;

    /// Reads the record at the reader's position into `self`.
    fn read(&mut self, reader: &mut ByteReader) -> (r: Result<(), Error>)
        ensures
            final(reader).bytes() == old(reader).bytes(),
            match Self::error_at(old(reader).bytes(), old(reader).at()) {
                Some(e) => r == Err::<(), Error>(e),
                None => r is Ok && Self::reads_as(old(reader).bytes(), old(reader).at(), *final(self))
                    && final(reader).at() == Self::end_of(old(reader).bytes(), old(reader).at()),
            },
            r is Err ==> *final(self) == *old(self);
}

/// Where the record at index `k` of a run of records of type `T` from `pos` starts.
pub open spec fn many_end<T: Readable>(data: Seq<u8>, pos: int, k: nat) -> int
    decreases k,
{
    if k == 0 {
        pos
    } else {
        T::end_of(data, many_end::<T>(data, pos, (k - 1) as nat))
    }
}

/// The first error met reading `k` records of type `T` from `pos`, if any.
pub open spec fn many_error<T: Readable>(data: Seq<u8>, pos: int, k: nat) -> Option<Error>
    decreases k,
{
    if k == 0 {
        None
    } else {
        match many_error::<T>(data, pos, (k - 1) as nat) {
            Some(e) => Some(e),
            None => T::error_at(data, many_end::<T>(data, pos, (k - 1) as nat)),
        }
    }
}

/// Once reading some records fails, reading more of them fails with the same error.
pub proof fn lemma_many_stops<T: Readable>(data: Seq<u8>, pos: int, k: nat, n: nat)
    requires
        k <= n,
        many_error::<T>(data, pos, k) is Some,
    ensures
        many_error::<T>(data, pos, n) == many_error::<T>(data, pos, k),
    decreases n - k,
{
    if k < n {
        lemma_many_stops::<T>(data, pos, k, (n - 1) as nat);
    }
}

} // verus!
