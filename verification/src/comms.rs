//! Encoding values into bytes and decoding them back.
//!
//! Integers are written as four big-endian bytes; strings as one length byte
//! followed by their UTF-8 encoding, of which the encoder keeps at most 255
//! bytes. (An `Ask` message cuts a file name shorter, at a character boundary,
//! before it reaches the encoder: see `message`.)

use vstd::prelude::*;
use vstd::utf8::*;

verus! {

broadcast use vstd::string::group_string_axioms;

/// The four big-endian bytes of `x`.
pub open spec fn be_bytes(x: u32) -> Seq<u8> {
    seq![
        (x / 0x100_0000) as u8,
        ((x / 0x1_0000) % 0x100) as u8,
        ((x / 0x100) % 0x100) as u8,
        (x % 0x100) as u8,
    ]
}

/// The number whose big-endian bytes are the first four of `b`.
pub open spec fn be_value(b: Seq<u8>) -> u32
    recommends
        b.len() >= 4,
{
    (b[0] as int * 0x100_0000 + b[1] as int * 0x1_0000 + b[2] as int * 0x100 + b[3] as int) as u32
}

/// The bytes that go on the wire for a string whose UTF-8 encoding is `bytes`:
/// a length byte, then the bytes themselves, cut after 255.
pub open spec fn string_field(bytes: Seq<u8>) -> Seq<u8> {
    let kept = if bytes.len() > 255 { bytes.take(255) } else { bytes };
    seq![kept.len() as u8] + kept
}

/// Whether `buf` starts with a string field whose bytes are valid UTF-8.
pub open spec fn string_field_readable(buf: Seq<u8>) -> bool {
    &&& buf.len() >= 1
    &&& buf.len() >= 1 + buf[0]
    &&& valid_utf8(buf.subrange(1, 1 + buf[0]))
}

/// The characters of the string field at the start of `buf`.
pub open spec fn string_field_chars(buf: Seq<u8>) -> Seq<char>
    recommends
        string_field_readable(buf),
{
    decode_utf8(buf.subrange(1, 1 + buf[0]))
}

/// The number of bytes that the string field at the start of `buf` takes.
pub open spec fn string_field_len(buf: Seq<u8>) -> int
    recommends
        buf.len() >= 1,
{
    1 + buf[0]
}

/// Reading four bytes back gives the number that was written, and leaves what followed.
pub proof fn lemma_u32_roundtrip(x: u32, rest: Seq<u8>)
    ensures
        be_value(be_bytes(x) + rest) == x,
        (be_bytes(x) + rest).skip(4) == rest,
{
    let b = be_bytes(x) + rest;
    assert(b[0] == (x / 0x100_0000) as u8);
    assert(b[1] == ((x / 0x1_0000) % 0x100) as u8);
    assert(b[2] == ((x / 0x100) % 0x100) as u8);
    assert(b[3] == (x % 0x100) as u8);
    assert(((x / 0x100_0000) as u8) as int * 0x100_0000 + (((x / 0x1_0000) % 0x100) as u8) as int
        * 0x1_0000 + (((x / 0x100) % 0x100) as u8) as int * 0x100 + ((x % 0x100) as u8) as int
        == x) by (bit_vector);
    assert(b.skip(4) =~= rest);
}

/// Writing the number read from four bytes gives those bytes back.
pub proof fn lemma_u32_bytes_of_value(b: Seq<u8>)
    requires
        b.len() >= 4,
    ensures
        be_bytes(be_value(b)) == b.take(4),
{
    let (b0, b1, b2, b3) = (b[0], b[1], b[2], b[3]);
    let v = be_value(b);
    assert(v == (b0 as int * 0x100_0000 + b1 as int * 0x1_0000 + b2 as int * 0x100 + b3 as int) as u32);
    assert({
        let w = (b0 as int * 0x100_0000 + b1 as int * 0x1_0000 + b2 as int * 0x100 + b3 as int) as u32;
        &&& (w / 0x100_0000) as u8 == b0
        &&& ((w / 0x1_0000) % 0x100) as u8 == b1
        &&& ((w / 0x100) % 0x100) as u8 == b2
        &&& (w % 0x100) as u8 == b3
    }) by (bit_vector);
    assert(be_bytes(v) =~= b.take(4));
}

/// A string whose UTF-8 encoding fits in 255 bytes is read back whole from its field,
/// and what followed the field is left.
pub proof fn lemma_string_roundtrip(s: Seq<char>, rest: Seq<u8>)
    requires
        encode_utf8(s).len() <= 255,
    ensures
        string_field_readable(string_field(encode_utf8(s)) + rest),
        string_field_chars(string_field(encode_utf8(s)) + rest) == s,
        (string_field(encode_utf8(s)) + rest).skip(string_field_len(string_field(encode_utf8(s)) + rest)) == rest,
{
    let e = encode_utf8(s);
    let buf = string_field(e) + rest;
    assert(buf[0] as int == e.len());
    assert(buf.subrange(1, 1 + buf[0]) =~= e);
    encode_utf8_valid_utf8(s);
    encode_utf8_decode_utf8(s);
    assert(buf.skip(1 + buf[0]) =~= rest);
}

/// A `u32` is written most significant byte first: the bytes are bits 31-24,
/// 23-16, 15-8 and 7-0 of it, in that order.
pub proof fn lemma_be_bytes_order(x: u32)
    ensures
        be_bytes(x) == seq![(x >> 24) as u8, (x >> 16) as u8, (x >> 8) as u8, x as u8],
{
    assert((x / 0x100_0000) as u8 == (x >> 24) as u8 && ((x / 0x1_0000) % 0x100) as u8 == (x
        >> 16) as u8 && ((x / 0x100) % 0x100) as u8 == (x >> 8) as u8 && (x % 0x100) as u8
        == x as u8) by (bit_vector);
    assert(be_bytes(x) =~= seq![(x >> 24) as u8, (x >> 16) as u8, (x >> 8) as u8, x as u8]);
}

/// Four bytes are read most significant first: the number is
/// `b[0] * 2^24 + b[1] * 2^16 + b[2] * 2^8 + b[3]`, with nothing cut off.
pub proof fn lemma_be_value_order(b: Seq<u8>)
    requires
        b.len() >= 4,
    ensures
        be_value(b) as int == b[0] as int * 0x100_0000 + b[1] as int * 0x1_0000 + b[2] as int
            * 0x100 + b[3] as int,
{
    assert(b[0] as int * 0x100_0000 + b[1] as int * 0x1_0000 + b[2] as int * 0x100 + b[3] as int
        <= 0xffff_ffff);
}

/// A string field is a length byte, the smaller of the encoding's length and
/// 255, followed by that many bytes from the start of the encoding.
pub proof fn lemma_string_field_layout(e: Seq<u8>)
    ensures
        ({
            let n: int = if e.len() > 255 { 255 } else { e.len() as int };
            &&& string_field(e).len() == 1 + n
            &&& string_field(e)[0] as int == n
            &&& string_field(e).subrange(1, 1 + n) == e.take(n)
        }),
{
    let n: int = if e.len() > 255 { 255 } else { e.len() as int };
    assert(string_field(e).subrange(1, 1 + n) =~= e.take(n));
}

/// A buffer starts with a readable string field exactly when its first byte
/// `n` is followed by at least `n` bytes that are valid UTF-8; the field then
/// reads as those `n` bytes decoded, and takes `1 + n` bytes.
pub proof fn lemma_string_field_read(buf: Seq<u8>)
    ensures
        string_field_readable(buf) <==> (buf.len() >= 1 && buf.len() >= 1 + buf[0] && valid_utf8(
            buf.subrange(1, 1 + buf[0]),
        )),
        string_field_readable(buf) ==> string_field_chars(buf) == decode_utf8(
            buf.subrange(1, 1 + buf[0]),
        ) && string_field_len(buf) == 1 + buf[0],
{
}

/// A value that knows its own encoding.
pub trait Encoder {
    /// The bytes that encode this value.
    spec fn encoding(&self) -> Seq<u8>;

    /// Encodes this value.
    fn to_bytes(&self) -> (bytes: Vec<u8>)
        ensures
            bytes@ == self.encoding(),
    ;
}

impl Encoder for u32 {
    open spec fn encoding(&self) -> Seq<u8> {
        be_bytes(*self)
    }

    fn to_bytes(&self) -> (bytes: Vec<u8>) {
        let x: u32 = *self;
        let mut v: Vec<u8> = Vec::new();
        v.push((x / 0x100_0000) as u8);
        v.push(((x / 0x1_0000) % 0x100) as u8);
        v.push(((x / 0x100) % 0x100) as u8);
        v.push((x % 0x100) as u8);
        assert(v@ =~= be_bytes(x));
        v
    }
}

impl Encoder for &str {
    open spec fn encoding(&self) -> Seq<u8> {
        string_field(encode_utf8((**self)@))
    }

    fn to_bytes(&self) -> (bytes: Vec<u8>) {
        let mut v: Vec<u8> = Vec::new();
        let mut fn_bytes: &[u8] = self.as_bytes();
        if fn_bytes.len() > 255 {
            fn_bytes = &fn_bytes[0..255];
        }
        v.push(fn_bytes.len() as u8);
        v.extend_from_slice(fn_bytes);
        assert(v@ =~= self.encoding());
        v
    }
}

/// Collects encoded values into one byte string.
pub struct Serialiser {
    output: Vec<u8>,
}

impl View for Serialiser {
    type V = Seq<u8>;

    closed spec fn view(&self) -> Seq<u8> {
        self.output@
    }
}

impl Serialiser {
    /// An empty serialiser.
    pub fn new() -> (s: Serialiser)
        ensures
            s@ == Seq::<u8>::empty(),
    {
        Serialiser { output: vec![] }
    }

    /// Appends one raw byte.
    pub fn add_u8(&mut self, data: u8)
        ensures
            final(self)@ == old(self)@.push(data),
    {
        self.output.push(data);
    }

    /// Appends the encoding of `data`.
    pub fn add(&mut self, data: impl Encoder)
        ensures
            final(self)@ == old(self)@ + data.encoding(),
    {
        let mut vec = data.to_bytes();
        self.output.append(&mut vec);
    }

    /// The bytes collected so far.
    pub fn output(&self) -> (bytes: Vec<u8>)
        ensures
            bytes@ == self@,
    {
        self.output.clone()
    }
}

/// Reads encoded values back, front to back.
pub struct Deserialiser {
    buf: Vec<u8>,
}

impl View for Deserialiser {
    type V = Seq<u8>;

    /// The bytes not read yet.
    closed spec fn view(&self) -> Seq<u8> {
        self.buf@
    }
}

impl Deserialiser {
    /// A deserialiser that reads `buf`.
    pub fn from_vec(buf: Vec<u8>) -> (d: Deserialiser)
        ensures
            d@ == buf@,
    {
        Deserialiser { buf }
    }

    /// The number of bytes not read yet.
    pub fn len(&self) -> (n: usize)
        ensures
            n == self@.len(),
    {
        self.buf.len()
    }

    /// Takes the next `amount` bytes.
    fn read_bytes(&mut self, amount: usize) -> (bytes: Vec<u8>)
        requires
            amount <= old(self)@.len(),
        ensures
            bytes@ == old(self)@.take(amount as int),
            final(self)@ == old(self)@.skip(amount as int),
    {
        let mut bytes = self.buf.split_off(amount);
        std::mem::swap(&mut bytes, &mut self.buf);
        bytes
    }

    /// Reads one byte.
    pub fn get_u8(&mut self) -> (b: u8)
        requires
            old(self)@.len() >= 1,
        ensures
            b == old(self)@[0],
            final(self)@ == old(self)@.skip(1),
    {
        let bytes = self.read_bytes(1);
        bytes[0]
    }

    /// Reads a number written as four big-endian bytes.
    pub fn get_u32(&mut self) -> (x: u32)
        requires
            old(self)@.len() >= 4,
        ensures
            x == be_value(old(self)@),
            final(self)@ == old(self)@.skip(4),
    {
        let b = self.read_bytes(4);
        (b[0] as u32) * 0x100_0000 + (b[1] as u32) * 0x1_0000 + (b[2] as u32) * 0x100 + (b[3] as u32)
    }

    /// Reads a string field: a length byte, then that many bytes of UTF-8.
    pub fn get_string(&mut self) -> (s: String)
        requires
            string_field_readable(old(self)@),
        ensures
            s@ == string_field_chars(old(self)@),
            final(self)@ == old(self)@.skip(string_field_len(old(self)@)),
    {
        match self.try_get_string() {
            Some(s) => s,
            None => {
                assert(false);
                String::new()
            },
        }
    }

    /// Reads a string field where there is a readable one; otherwise reads nothing.
    pub fn try_get_string(&mut self) -> (s: Option<String>)
        ensures
            match s {
                Some(s) => {
                    &&& string_field_readable(old(self)@)
                    &&& s@ == string_field_chars(old(self)@)
                    &&& final(self)@ == old(self)@.skip(string_field_len(old(self)@))
                },
                None => {
                    &&& !string_field_readable(old(self)@)
                    &&& final(self)@ == old(self)@
                },
            },
    {
        if self.buf.len() < 1 {
            return None;
        }
        let s_length: usize = self.buf[0] as usize;
        if self.buf.len() - 1 < s_length {
            return None;
        }
        let mut candidate: Vec<u8> = Vec::new();
        let mut i: usize = 1;
        while i <= s_length
            invariant
                1 <= i <= s_length + 1,
                s_length <= 255,
                s_length + 1 <= self.buf@.len(),
                candidate@ == self.buf@.subrange(1, i as int),
            decreases s_length + 1 - i,
        {
            candidate.push(self.buf[i]);
            assert(candidate@ =~= self.buf@.subrange(1, i + 1));
            i = i + 1;
        }
        match string_from_utf8(candidate) {
            Some(s) => {
                let _ = self.read_bytes(s_length + 1);
                Some(s)
            },
            None => None,
        }
    }
}

/// Calls `String::from_utf8` from std. Its documentation says that it returns
/// `Ok` exactly when the bytes are valid UTF-8, and that the string then holds
/// those bytes; vstd's `valid_utf8` and `decode_utf8` state UTF-8 validity and
/// decoding, so the contract says that the result is the decoding of the bytes
/// where they are valid and `None` where they are not.
#[verifier::external_body]
fn string_from_utf8(bytes: Vec<u8>) -> (s: Option<String>)
    ensures
        match s {
            Some(s) => valid_utf8(bytes@) && s@ == decode_utf8(bytes@),
            None => !valid_utf8(bytes@),
        },
{
    String::from_utf8(bytes).ok()
}

} // verus!
