//! Binary packet codec over a `bytey::ByteBuffer`.
//!
//! The buffer is used as a byte store with a cursor. Field encodings are this
//! protocol's own: fixed-width little-endian integers, strings as a `u64`
//! byte length followed by UTF-8 bytes, optional values as a presence byte
//! (1 = present, 2 = absent) followed by the value, and enumerations as a
//! `u16` ordinal starting at 1 followed by the variant's fields.

use vstd::prelude::*;
use vstd::utf8::*;
use crate::error::SocketError;
use bytey_byte_buffer::byte_buffer::ByteBuffer;
use bytey_byte_buffer::error::ByteBufferError;

verus! {

#[verifier::external_type_specification]
#[verifier::external_body]
pub struct ExByteBuffer(ByteBuffer);

#[verifier::external_type_specification]
#[verifier::external_body]
pub struct ExByteBufferError(ByteBufferError);

/// The bytes held by a `ByteBuffer`, from index 0 up to its length.
pub uninterp spec fn bytes_of(b: ByteBuffer) -> Seq<u8>;

/// The read/write cursor of a `ByteBuffer`.
pub uninterp spec fn cursor_of(b: ByteBuffer) -> nat;

/// What every `ByteBuffer` maintains: the cursor stays within the data, and
/// the data never exceeds `isize::MAX` bytes.
pub open spec fn buffer_ok(b: ByteBuffer) -> bool {
    cursor_of(b) <= bytes_of(b).len() <= isize::MAX
}

/// The contents after writing `src` at position `at`: bytes before `at` are
/// kept, `src` overwrites what follows, and the buffer grows when needed.
pub open spec fn spliced(old: Seq<u8>, at: nat, src: Seq<u8>) -> Seq<u8> {
    if at + src.len() < old.len() {
        old.subrange(0, at as int) + src + old.subrange((at + src.len()) as int, old.len() as int)
    } else {
        old.subrange(0, at as int) + src
    }
}

/// Relies on `ByteBuffer::new`: an empty buffer with its cursor at 0, or an
/// allocation error.
#[verifier::external_body]
fn buffer_new() -> (r: Result<ByteBuffer, ByteBufferError>)
    ensures
        r is Ok ==> bytes_of(r->Ok_0) == Seq::<u8>::empty() && cursor_of(r->Ok_0) == 0,
{
    ByteBuffer::new()
}

/// Relies on `ByteBuffer::write_slice`: copies `src` in at the cursor, grows
/// the length as needed and advances the cursor; on an error (capacity or
/// allocation) the buffer is left as it was. A write that ends within the
/// current length needs no new capacity and cannot fail.
#[verifier::external_body]
fn buffer_write_slice(b: &mut ByteBuffer, src: &[u8]) -> (r: Result<(), ByteBufferError>)
    requires
        buffer_ok(*old(b)),
    ensures
        buffer_ok(*final(b)),
        r is Ok ==> bytes_of(*final(b)) == spliced(bytes_of(*old(b)), cursor_of(*old(b)), src@)
            && cursor_of(*final(b)) == cursor_of(*old(b)) + src@.len(),
        r is Err ==> *final(b) == *old(b),
        cursor_of(*old(b)) + src@.len() <= bytes_of(*old(b)).len() ==> r is Ok,
{
    b.write_slice(src).map(|_| ())
}

/// Relies on `ByteBuffer::read_slice`: when `n` bytes remain after the
/// cursor, returns them and advances the cursor past them.
#[verifier::external_body]
fn buffer_read_slice(b: &mut ByteBuffer, n: usize) -> (r: Result<Vec<u8>, ByteBufferError>)
    requires
        buffer_ok(*old(b)),
        cursor_of(*old(b)) + n <= bytes_of(*old(b)).len(),
    ensures
        buffer_ok(*final(b)),
        r is Ok,
        r->Ok_0@ == bytes_of(*old(b)).subrange(cursor_of(*old(b)) as int, cursor_of(*old(b)) + n),
        bytes_of(*final(b)) == bytes_of(*old(b)),
        cursor_of(*final(b)) == cursor_of(*old(b)) + n,
{
    b.read_slice(n).map(|s| s.to_vec())
}

/// Relies on `ByteBuffer::move_cursor`: a location within the length is
/// accepted and becomes the cursor.
#[verifier::external_body]
fn buffer_move_cursor(b: &mut ByteBuffer, location: usize) -> (r: Result<(), ByteBufferError>)
    requires
        buffer_ok(*old(b)),
        location <= bytes_of(*old(b)).len(),
    ensures
        buffer_ok(*final(b)),
        r is Ok,
        bytes_of(*final(b)) == bytes_of(*old(b)),
        cursor_of(*final(b)) == location,
{
    b.move_cursor(location).map(|_| ())
}

/// Relies on `ByteBuffer::length`: the number of bytes held.
#[verifier::external_body]
fn buffer_length(b: &ByteBuffer) -> (r: usize)
    ensures
        r == bytes_of(*b).len(),
{
    b.length()
}

/// Relies on `ByteBuffer::cursor`: the cursor's position.
#[verifier::external_body]
fn buffer_cursor(b: &ByteBuffer) -> (r: usize)
    ensures
        r == cursor_of(*b),
{
    b.cursor()
}

/// Relies on `std::str::from_utf8`: it accepts exactly the valid UTF-8
/// sequences, and the text it returns is the one they encode.
#[verifier::external_body]
fn utf8_to_string(bytes: &[u8]) -> (r: Option<String>)
    ensures
        valid_utf8(bytes@) ==> r is Some && r->Some_0@ == decode_utf8(bytes@),
        !valid_utf8(bytes@) ==> r is None,
{
    std::str::from_utf8(bytes).ok().map(|s| s.to_owned())
}


// ---------------------------------------------------------------------------
// Little-endian integers
// ---------------------------------------------------------------------------

/// 256 to the power `n`.
pub open spec fn pow256(n: nat) -> nat
    decreases n,
{
    if n == 0 {
        1
    } else {
        256 * pow256((n - 1) as nat)
    }
}

/// The `n` low-order bytes of `v`, least significant first.
pub open spec fn le_bytes(v: nat, n: nat) -> Seq<u8>
    decreases n,
{
    if n == 0 {
        Seq::empty()
    } else {
        seq![(v % 256) as u8] + le_bytes(v / 256, (n - 1) as nat)
    }
}

/// The number whose little-endian bytes are `s`.
pub open spec fn le_value(s: Seq<u8>) -> nat
    decreases s.len(),
{
    if s.len() == 0 {
        0
    } else {
        s[0] as nat + 256 * le_value(s.drop_first())
    }
}

proof fn lemma_le_bytes_len(v: nat, n: nat)
    ensures
        le_bytes(v, n).len() == n,
    decreases n,
{
    if n > 0 {
        lemma_le_bytes_len(v / 256, (n - 1) as nat);
    }
}

proof fn lemma_le_value_bound(s: Seq<u8>)
    ensures
        le_value(s) < pow256(s.len()),
    decreases s.len(),
{
    if s.len() > 0 {
        lemma_le_value_bound(s.drop_first());
        let a = s[0] as nat;
        let b = le_value(s.drop_first());
        let p = pow256((s.len() - 1) as nat);
        assert(a + 256 * b < 256 * p) by (nonlinear_arith)
            requires
                a < 256,
                b < p,
        ;
    }
}

proof fn lemma_pow256_mono(a: nat, b: nat)
    requires
        a <= b,
    ensures
        pow256(a) <= pow256(b),
    decreases b,
{
    if a < b {
        lemma_pow256_mono(a, (b - 1) as nat);
    }
}

/// Decoding the `n` little-endian bytes of a number below `256^n` gives the
/// number back.
proof fn lemma_le_round_trip(v: nat, n: nat)
    requires
        v < pow256(n),
    ensures
        le_value(le_bytes(v, n)) == v,
        le_bytes(v, n).len() == n,
    decreases n,
{
    lemma_le_bytes_len(v, n);
    if n > 0 {
        let p = pow256((n - 1) as nat);
        assert(v / 256 < p) by (nonlinear_arith)
            requires
                v < 256 * p,
        ;
        lemma_le_round_trip(v / 256, (n - 1) as nat);
        let b = le_bytes(v, n);
        assert(b.drop_first() =~= le_bytes(v / 256, (n - 1) as nat));
        assert(b[0] as nat == v % 256);
        assert(v % 256 + 256 * (v / 256) == v) by (nonlinear_arith);
    }
}

proof fn lemma_pow256_values()
    ensures
        pow256(1) == 0x100,
        pow256(2) == 0x1_0000,
        pow256(4) == 0x1_0000_0000,
        pow256(8) == 0x1_0000_0000_0000_0000,
{
    reveal_with_fuel(pow256, 9);
}

/// The `n` little-endian bytes of `v`.
fn le_encode(v: u64, n: usize) -> (r: Vec<u8>)
    requires
        n <= 8,
        v < pow256(n as nat),
    ensures
        r@ == le_bytes(v as nat, n as nat),
{
    let mut out: Vec<u8> = Vec::new();
    let mut x: u64 = v;
    let mut i: usize = 0;
    while i < n
        invariant
            i <= n,
            out@ + le_bytes(x as nat, (n - i) as nat) == le_bytes(v as nat, n as nat),
        decreases n - i,
    {
        let b: u8 = (x % 256) as u8;
        let ghost before = out@;
        let ghost rest = le_bytes((x / 256) as nat, (n - i - 1) as nat);
        assert(le_bytes(x as nat, (n - i) as nat) == seq![b] + rest);
        out.push(b);
        assert(out@ + rest =~= before + (seq![b] + rest));
        x = x / 256;
        i = i + 1;
    }
    assert(out@ + le_bytes(x as nat, 0) =~= out@);
    out
}

/// The number whose little-endian bytes are `s`.
fn le_decode(s: &Vec<u8>) -> (r: u64)
    requires
        s@.len() <= 8,
    ensures
        r as nat == le_value(s@),
{
    let mut acc: u64 = 0;
    let mut i: usize = s.len();
    while i > 0
        invariant
            i <= s@.len() <= 8,
            acc as nat == le_value(s@.subrange(i as int, s@.len() as int)),
        decreases i,
    {
        i = i - 1;
        let ghost t = s@.subrange(i as int, s@.len() as int);
        let ghost u = s@.subrange(i + 1, s@.len() as int);
        assert(t.drop_first() =~= u);
        proof {
            lemma_le_value_bound(u);
            lemma_pow256_mono(u.len(), 7);
            reveal_with_fuel(pow256, 8);
            let a = acc as nat;
            let p = pow256(u.len());
            assert(a * 256 + 255 < 0x1_0000_0000_0000_0000) by (nonlinear_arith)
                requires
                    a < p,
                    p <= 0x100_0000_0000_0000,
            ;
        }
        acc = acc * 256 + s[i] as u64;
    }
    assert(s@.subrange(0, s@.len() as int) =~= s@);
    acc
}


// ---------------------------------------------------------------------------
// Field encodings
// ---------------------------------------------------------------------------

pub open spec fn enc_u8(v: u8) -> Seq<u8> {
    le_bytes(v as nat, 1)
}

pub open spec fn enc_u16(v: u16) -> Seq<u8> {
    le_bytes(v as nat, 2)
}

pub open spec fn enc_u32(v: u32) -> Seq<u8> {
    le_bytes(v as nat, 4)
}

pub open spec fn enc_u64(v: u64) -> Seq<u8> {
    le_bytes(v as nat, 8)
}

/// The two's-complement bit pattern of `v`, as a number.
pub open spec fn i32_bits(v: i32) -> nat {
    if v >= 0 {
        v as nat
    } else {
        (v + 0x1_0000_0000) as nat
    }
}

pub open spec fn i64_bits(v: i64) -> nat {
    if v >= 0 {
        v as nat
    } else {
        (v + 0x1_0000_0000_0000_0000) as nat
    }
}

pub open spec fn enc_i32(v: i32) -> Seq<u8> {
    le_bytes(i32_bits(v), 4)
}

pub open spec fn enc_i64(v: i64) -> Seq<u8> {
    le_bytes(i64_bits(v), 8)
}

pub open spec fn enc_bool(b: bool) -> Seq<u8> {
    enc_u8(if b { 1 } else { 0 })
}

/// A string: its UTF-8 byte length as a `u64`, then the bytes.
pub open spec fn enc_str(s: Seq<char>) -> Seq<u8> {
    le_bytes(encode_utf8(s).len(), 8) + encode_utf8(s)
}

/// The number in the first `n` bytes of `s`, if there are that many.
pub open spec fn dec_uint(s: Seq<u8>, n: nat) -> Option<nat> {
    if s.len() >= n {
        Some(le_value(s.take(n as int)))
    } else {
        None
    }
}

pub open spec fn dec_u8(s: Seq<u8>) -> Option<u8> {
    match dec_uint(s, 1) {
        Some(v) => Some(v as u8),
        None => None,
    }
}

pub open spec fn dec_u16(s: Seq<u8>) -> Option<u16> {
    match dec_uint(s, 2) {
        Some(v) => Some(v as u16),
        None => None,
    }
}

pub open spec fn dec_u32(s: Seq<u8>) -> Option<u32> {
    match dec_uint(s, 4) {
        Some(v) => Some(v as u32),
        None => None,
    }
}

pub open spec fn dec_u64(s: Seq<u8>) -> Option<u64> {
    match dec_uint(s, 8) {
        Some(v) => Some(v as u64),
        None => None,
    }
}

pub open spec fn dec_i32(s: Seq<u8>) -> Option<i32> {
    match dec_uint(s, 4) {
        Some(v) => Some(
            if v < 0x8000_0000 {
                v as i32
            } else {
                (v - 0x1_0000_0000) as i32
            },
        ),
        None => None,
    }
}

pub open spec fn dec_i64(s: Seq<u8>) -> Option<i64> {
    match dec_uint(s, 8) {
        Some(v) => Some(
            if v < 0x8000_0000_0000_0000 {
                v as i64
            } else {
                (v - 0x1_0000_0000_0000_0000) as i64
            },
        ),
        None => None,
    }
}

/// Any non-zero byte reads as `true`.
pub open spec fn dec_bool(s: Seq<u8>) -> Option<bool> {
    match dec_u8(s) {
        Some(b) => Some(b != 0),
        None => None,
    }
}

/// A length-prefixed UTF-8 string at the start of `s`, with the number of
/// bytes it takes.
pub open spec fn dec_str(s: Seq<u8>) -> Option<(Seq<char>, nat)> {
    match dec_uint(s, 8) {
        Some(n) => {
            if s.len() >= 8 + n && valid_utf8(s.subrange(8, 8 + n as int)) {
                Some((decode_utf8(s.subrange(8, 8 + n as int)), 8 + n))
            } else {
                None
            }
        },
        None => None,
    }
}

proof fn lemma_dec_uint_of(v: nat, n: nat, rest: Seq<u8>)
    requires
        v < pow256(n),
    ensures
        dec_uint(le_bytes(v, n) + rest, n) == Some(v),
        le_bytes(v, n).len() == n,
{
    lemma_le_round_trip(v, n);
    assert((le_bytes(v, n) + rest).take(n as int) =~= le_bytes(v, n));
}

/// Writing a fixed-width integer or a `bool` and reading the same type back
/// from those bytes, whatever follows them, gives the value written.
pub proof fn lemma_codec_round_trip_fixed(
    a: u8,
    b: u16,
    c: u32,
    d: u64,
    e: i32,
    f: i64,
    g: bool,
    rest: Seq<u8>,
)
    ensures
        dec_u8(enc_u8(a) + rest) == Some(a),
        dec_u16(enc_u16(b) + rest) == Some(b),
        dec_u32(enc_u32(c) + rest) == Some(c),
        dec_u64(enc_u64(d) + rest) == Some(d),
        dec_i32(enc_i32(e) + rest) == Some(e),
        dec_i64(enc_i64(f) + rest) == Some(f),
        dec_bool(enc_bool(g) + rest) == Some(g),
        enc_u8(a).len() == 1 && enc_bool(g).len() == 1,
        enc_u16(b).len() == 2,
        enc_u32(c).len() == 4 && enc_i32(e).len() == 4,
        enc_u64(d).len() == 8 && enc_i64(f).len() == 8,
{
    lemma_pow256_values();
    lemma_dec_uint_of(a as nat, 1, rest);
    lemma_dec_uint_of(b as nat, 2, rest);
    lemma_dec_uint_of(c as nat, 4, rest);
    lemma_dec_uint_of(d as nat, 8, rest);
    lemma_dec_uint_of(i32_bits(e), 4, rest);
    lemma_dec_uint_of(i64_bits(f), 8, rest);
    lemma_dec_uint_of(if g { 1 } else { 0 }, 1, rest);
}

/// Writing a string and reading a string back from those bytes, whatever
/// follows them, gives the string written and consumes exactly its bytes.
pub proof fn lemma_codec_round_trip_str(s: Seq<char>, rest: Seq<u8>)
    requires
        encode_utf8(s).len() < pow256(8),
    ensures
        dec_str(enc_str(s) + rest) == Some((s, enc_str(s).len())),
{
    let u = encode_utf8(s);
    let n = u.len();
    let all = enc_str(s) + rest;
    lemma_le_round_trip(n, 8);
    assert(all =~= le_bytes(n, 8) + (u + rest));
    lemma_dec_uint_of(n, 8, u + rest);
    assert(all.subrange(8, 8 + n as int) =~= u);
    encode_utf8_valid_utf8(s);
    encode_utf8_decode_utf8(s);
}

// ---------------------------------------------------------------------------
// Packet buffer
// ---------------------------------------------------------------------------

/// A byte buffer with a cursor, holding one packet being built or read.
pub struct PacketBuffer {
    buf: ByteBuffer,
}

impl PacketBuffer {
    /// All bytes held.
    pub closed spec fn bytes(&self) -> Seq<u8> {
        bytes_of(self.buf)
    }

    /// The cursor: where the next read or write happens.
    pub closed spec fn pos(&self) -> nat {
        cursor_of(self.buf)
    }

    pub closed spec fn wf(&self) -> bool {
        buffer_ok(self.buf)
    }

    pub open spec fn unread(&self) -> Seq<u8> {
        self.bytes().skip(self.pos() as int)
    }

    pub open spec fn at_end(&self) -> bool {
        self.pos() == self.bytes().len()
    }

    pub proof fn lemma_wf(&self)
        requires
            self.wf(),
        ensures
            self.pos() <= self.bytes().len() <= isize::MAX,
    {
    }

    /// An empty buffer.
    pub fn new() -> (r: Result<PacketBuffer, SocketError>)
        ensures
            r is Ok ==> r->Ok_0.wf() && r->Ok_0.bytes() == Seq::<u8>::empty() && r->Ok_0.pos() == 0,
            r is Err ==> r->Err_0 == SocketError::BufferError,
    {
        match buffer_new() {
            Ok(buf) => Ok(PacketBuffer { buf }),
            Err(_) => Err(SocketError::BufferError),
        }
    }

    /// Appends `data` at the cursor, which must stand at the end.
    fn append(&mut self, data: &[u8]) -> (r: Result<(), SocketError>)
        requires
            old(self).wf(),
            old(self).at_end(),
        ensures
            final(self).wf(),
            r is Ok ==> final(self).bytes() == old(self).bytes() + data@ && final(self).at_end(),
            r is Err ==> *final(self) == *old(self) && r->Err_0 == SocketError::BufferError,
    {
        let ghost b = self.bytes();
        match buffer_write_slice(&mut self.buf, data) {
            Ok(()) => {
                assert(b.subrange(0, b.len() as int) =~= b);
                Ok(())
            },
            Err(_) => Err(SocketError::BufferError),
        }
    }

    /// A buffer holding `data`, with the cursor at its start.
    pub fn from_bytes(data: &[u8]) -> (r: Result<PacketBuffer, SocketError>)
        ensures
            r is Ok ==> r->Ok_0.wf() && r->Ok_0.bytes() == data@ && r->Ok_0.pos() == 0,
            r is Err ==> r->Err_0 == SocketError::BufferError,
    {
        let mut p = PacketBuffer::new()?;
        p.append(data)?;
        assert(Seq::<u8>::empty() + data@ =~= data@);
        let _ = buffer_move_cursor(&mut p.buf, 0);
        Ok(p)
    }

    /// A buffer for an outgoing packet: eight zero bytes reserved for the
    /// length header, with the cursor after them.
    pub fn new_packet() -> (r: Result<PacketBuffer, SocketError>)
        ensures
            r is Ok ==> r->Ok_0.wf() && r->Ok_0.bytes() == enc_u64(0) && r->Ok_0.at_end(),
            r is Err ==> r->Err_0 == SocketError::BufferError,
    {
        let mut p = PacketBuffer::new()?;
        p.write_u64(0)?;
        assert(Seq::<u8>::empty() + enc_u64(0) =~= enc_u64(0));
        Ok(p)
    }

    /// Writes the payload length (all bytes after the first eight) into the
    /// header and moves the cursor to the start for transmission.
    pub fn finish(&mut self) -> (r: Result<(), SocketError>)
        requires
            old(self).wf(),
            old(self).bytes().len() >= 8,
        ensures
            final(self).wf(),
            r is Ok,
            final(self).bytes() == enc_u64((old(self).bytes().len() - 8) as u64)
                + old(self).bytes().skip(8),
            final(self).pos() == 0,
    {
        let len = buffer_length(&self.buf);
        let ghost b = self.bytes();
        let _ = buffer_move_cursor(&mut self.buf, 0);
        proof {
            lemma_pow256_values();
        }
        let header = le_encode((len - 8) as u64, 8);
        proof {
            lemma_le_bytes_len((len - 8) as nat, 8);
        }
        let _ = buffer_write_slice(&mut self.buf, header.as_slice());
        assert(self.bytes() =~= enc_u64((len - 8) as u64) + b.skip(8));
        let _ = buffer_move_cursor(&mut self.buf, 0);
        Ok(())
    }

    /// Puts the cursor at the start.
    pub fn move_cursor_to_start(&mut self)
        requires
            old(self).wf(),
        ensures
            final(self).wf(),
            final(self).bytes() == old(self).bytes(),
            final(self).pos() == 0,
    {
        let _ = buffer_move_cursor(&mut self.buf, 0);
    }

    /// Puts the cursor at `location`, which must lie within the data.
    pub fn move_cursor(&mut self, location: usize) -> (r: Result<(), SocketError>)
        requires
            old(self).wf(),
        ensures
            final(self).wf(),
            final(self).bytes() == old(self).bytes(),
            location <= old(self).bytes().len() ==> r is Ok && final(self).pos() == location,
            location > old(self).bytes().len() ==> r == Err::<(), SocketError>(
                SocketError::DecodeError,
            ) && final(self).pos() == old(self).pos(),
    {
        if location > buffer_length(&self.buf) {
            return Err(SocketError::DecodeError);
        }
        let _ = buffer_move_cursor(&mut self.buf, location);
        Ok(())
    }

    /// The number of bytes held.
    pub fn length(&self) -> (r: usize)
        ensures
            r == self.bytes().len(),
    {
        buffer_length(&self.buf)
    }

    /// The cursor's position.
    pub fn cursor(&self) -> (r: usize)
        ensures
            r == self.pos(),
    {
        buffer_cursor(&self.buf)
    }

    /// All bytes held; the cursor ends at the end.
    pub fn to_vec(&mut self) -> (r: Vec<u8>)
        requires
            old(self).wf(),
        ensures
            final(self).wf(),
            r@ == old(self).bytes(),
            final(self).bytes() == old(self).bytes(),
            final(self).at_end(),
    {
        let len = buffer_length(&self.buf);
        let _ = buffer_move_cursor(&mut self.buf, 0);
        let ghost b = self.bytes();
        let r = buffer_read_slice(&mut self.buf, len);
        assert(b.subrange(0, len as int) =~= b);
        match r {
            Ok(v) => v,
            Err(_) => Vec::new(),
        }
    }

    pub fn write_u8(&mut self, v: u8) -> (r: Result<(), SocketError>)
        requires
            old(self).wf(),
            old(self).at_end(),
        ensures
            final(self).wf(),
            r is Ok ==> final(self).bytes() == old(self).bytes() + enc_u8(v) && final(self).at_end(),
            r is Err ==> *final(self) == *old(self) && r->Err_0 == SocketError::BufferError,
    {
        proof {
            lemma_pow256_values();
        }
        let e = le_encode(v as u64, 1);
        self.append(e.as_slice())
    }

    pub fn write_u16(&mut self, v: u16) -> (r: Result<(), SocketError>)
        requires
            old(self).wf(),
            old(self).at_end(),
        ensures
            final(self).wf(),
            r is Ok ==> final(self).bytes() == old(self).bytes() + enc_u16(v) && final(self).at_end(),
            r is Err ==> *final(self) == *old(self) && r->Err_0 == SocketError::BufferError,
    {
        proof {
            lemma_pow256_values();
        }
        let e = le_encode(v as u64, 2);
        self.append(e.as_slice())
    }

    pub fn write_u32(&mut self, v: u32) -> (r: Result<(), SocketError>)
        requires
            old(self).wf(),
            old(self).at_end(),
        ensures
            final(self).wf(),
            r is Ok ==> final(self).bytes() == old(self).bytes() + enc_u32(v) && final(self).at_end(),
            r is Err ==> *final(self) == *old(self) && r->Err_0 == SocketError::BufferError,
    {
        proof {
            lemma_pow256_values();
        }
        let e = le_encode(v as u64, 4);
        self.append(e.as_slice())
    }

    pub fn write_u64(&mut self, v: u64) -> (r: Result<(), SocketError>)
        requires
            old(self).wf(),
            old(self).at_end(),
        ensures
            final(self).wf(),
            r is Ok ==> final(self).bytes() == old(self).bytes() + enc_u64(v) && final(self).at_end(),
            r is Err ==> *final(self) == *old(self) && r->Err_0 == SocketError::BufferError,
    {
        proof {
            lemma_pow256_values();
        }
        let e = le_encode(v, 8);
        self.append(e.as_slice())
    }

    pub fn write_i32(&mut self, v: i32) -> (r: Result<(), SocketError>)
        requires
            old(self).wf(),
            old(self).at_end(),
        ensures
            final(self).wf(),
            r is Ok ==> final(self).bytes() == old(self).bytes() + enc_i32(v) && final(self).at_end(),
            r is Err ==> *final(self) == *old(self) && r->Err_0 == SocketError::BufferError,
    {
        proof {
            lemma_pow256_values();
        }
        let bits: u64 = if v >= 0 {
            v as u64
        } else {
            (v as i64 + 0x1_0000_0000i64) as u64
        };
        let e = le_encode(bits, 4);
        self.append(e.as_slice())
    }

    pub fn write_i64(&mut self, v: i64) -> (r: Result<(), SocketError>)
        requires
            old(self).wf(),
            old(self).at_end(),
        ensures
            final(self).wf(),
            r is Ok ==> final(self).bytes() == old(self).bytes() + enc_i64(v) && final(self).at_end(),
            r is Err ==> *final(self) == *old(self) && r->Err_0 == SocketError::BufferError,
    {
        proof {
            lemma_pow256_values();
        }
        let bits: u64 = if v >= 0 {
            v as u64
        } else {
            (v as i128 + 0x1_0000_0000_0000_0000i128) as u64
        };
        let e = le_encode(bits, 8);
        self.append(e.as_slice())
    }

    /// Writes `true` as 1 and `false` as 0.
    pub fn write_bool(&mut self, v: bool) -> (r: Result<(), SocketError>)
        requires
            old(self).wf(),
            old(self).at_end(),
        ensures
            final(self).wf(),
            r is Ok ==> final(self).bytes() == old(self).bytes() + enc_bool(v) && final(self).at_end(),
            r is Err ==> *final(self) == *old(self) && r->Err_0 == SocketError::BufferError,
    {
        self.write_u8(if v { 1 } else { 0 })
    }

    /// Writes the UTF-8 byte length of `s` as a `u64`, then its bytes.
    pub fn write_str(&mut self, s: &str) -> (r: Result<(), SocketError>)
        requires
            old(self).wf(),
            old(self).at_end(),
        ensures
            final(self).wf(),
            r is Ok ==> final(self).bytes() == old(self).bytes() + enc_str(s@) && final(self).at_end(),
            r is Err ==> *final(self) == *old(self) && r->Err_0 == SocketError::BufferError,
    {
        let b = s.as_bytes();
        proof {
            lemma_pow256_values();
        }
        let mut e = le_encode(b.len() as u64, 8);
        let ghost head = e@;
        let mut i: usize = 0;
        while i < b.len()
            invariant
                i <= b@.len(),
                e@ == head + b@.take(i as int),
            decreases b@.len() - i,
        {
            e.push(b[i]);
            assert(b@.take(i + 1) =~= b@.take(i as int).push(b@[i as int]));
            assert(e@ =~= head + b@.take(i + 1));
            i = i + 1;
        }
        assert(b@.take(b@.len() as int) =~= b@);
        self.append(e.as_slice())
    }

    pub fn read_u8(&mut self) -> (r: Result<u8, SocketError>)
        requires
            old(self).wf(),
        ensures
            final(self).wf(),
            final(self).bytes() == old(self).bytes(),
            dec_u8(old(self).unread()) matches Some(v) ==> r == Ok::<u8, SocketError>(v)
                && final(self).pos() == old(self).pos() + 1,
            dec_u8(old(self).unread()) is None ==> r == Err::<u8, SocketError>(
                SocketError::DecodeError,
            ) && final(self).pos() == old(self).pos(),
    {
        proof {
            lemma_pow256_values();
        }
        let v = self.read_uint(1)?;
        assert((v as nat) < pow256(1));
        Ok(v as u8)
    }

    pub fn read_u16(&mut self) -> (r: Result<u16, SocketError>)
        requires
            old(self).wf(),
        ensures
            final(self).wf(),
            final(self).bytes() == old(self).bytes(),
            dec_u16(old(self).unread()) matches Some(v) ==> r == Ok::<u16, SocketError>(v)
                && final(self).pos() == old(self).pos() + 2,
            dec_u16(old(self).unread()) is None ==> r == Err::<u16, SocketError>(
                SocketError::DecodeError,
            ) && final(self).pos() == old(self).pos(),
    {
        proof {
            lemma_pow256_values();
        }
        let v = self.read_uint(2)?;
        assert((v as nat) < pow256(2));
        Ok(v as u16)
    }

    pub fn read_u32(&mut self) -> (r: Result<u32, SocketError>)
        requires
            old(self).wf(),
        ensures
            final(self).wf(),
            final(self).bytes() == old(self).bytes(),
            dec_u32(old(self).unread()) matches Some(v) ==> r == Ok::<u32, SocketError>(v)
                && final(self).pos() == old(self).pos() + 4,
            dec_u32(old(self).unread()) is None ==> r == Err::<u32, SocketError>(
                SocketError::DecodeError,
            ) && final(self).pos() == old(self).pos(),
    {
        proof {
            lemma_pow256_values();
        }
        let v = self.read_uint(4)?;
        assert((v as nat) < pow256(4));
        Ok(v as u32)
    }

    pub fn read_u64(&mut self) -> (r: Result<u64, SocketError>)
        requires
            old(self).wf(),
        ensures
            final(self).wf(),
            final(self).bytes() == old(self).bytes(),
            dec_u64(old(self).unread()) matches Some(v) ==> r == Ok::<u64, SocketError>(v)
                && final(self).pos() == old(self).pos() + 8,
            dec_u64(old(self).unread()) is None ==> r == Err::<u64, SocketError>(
                SocketError::DecodeError,
            ) && final(self).pos() == old(self).pos(),
    {
        proof {
            lemma_pow256_values();
        }
        let v = self.read_uint(8)?;
        Ok(v)
    }

    pub fn read_i32(&mut self) -> (r: Result<i32, SocketError>)
        requires
            old(self).wf(),
        ensures
            final(self).wf(),
            final(self).bytes() == old(self).bytes(),
            dec_i32(old(self).unread()) matches Some(v) ==> r == Ok::<i32, SocketError>(v)
                && final(self).pos() == old(self).pos() + 4,
            dec_i32(old(self).unread()) is None ==> r == Err::<i32, SocketError>(
                SocketError::DecodeError,
            ) && final(self).pos() == old(self).pos(),
    {
        proof {
            lemma_pow256_values();
        }
        let v = self.read_uint(4)?;
        assert((v as nat) < pow256(4));
        if v < 0x8000_0000 {
            Ok(v as i32)
        } else {
            Ok((v as i64 - 0x1_0000_0000i64) as i32)
        }
    }

    pub fn read_i64(&mut self) -> (r: Result<i64, SocketError>)
        requires
            old(self).wf(),
        ensures
            final(self).wf(),
            final(self).bytes() == old(self).bytes(),
            dec_i64(old(self).unread()) matches Some(v) ==> r == Ok::<i64, SocketError>(v)
                && final(self).pos() == old(self).pos() + 8,
            dec_i64(old(self).unread()) is None ==> r == Err::<i64, SocketError>(
                SocketError::DecodeError,
            ) && final(self).pos() == old(self).pos(),
    {
        proof {
            lemma_pow256_values();
        }
        let v = self.read_uint(8)?;
        if v < 0x8000_0000_0000_0000 {
            Ok(v as i64)
        } else {
            Ok((v as i128 - 0x1_0000_0000_0000_0000i128) as i64)
        }
    }

    /// Reads one byte; any non-zero value is `true`.
    pub fn read_bool(&mut self) -> (r: Result<bool, SocketError>)
        requires
            old(self).wf(),
        ensures
            final(self).wf(),
            final(self).bytes() == old(self).bytes(),
            dec_bool(old(self).unread()) matches Some(v) ==> r == Ok::<bool, SocketError>(v)
                && final(self).pos() == old(self).pos() + 1,
            dec_bool(old(self).unread()) is None ==> r == Err::<bool, SocketError>(
                SocketError::DecodeError,
            ) && final(self).pos() == old(self).pos(),
    {
        let v = self.read_u8()?;
        Ok(v != 0)
    }

    /// Reads a length-prefixed UTF-8 string. On failure the cursor is left
    /// where it was.
    pub fn read_string(&mut self) -> (r: Result<String, SocketError>)
        requires
            old(self).wf(),
        ensures
            final(self).wf(),
            final(self).bytes() == old(self).bytes(),
            dec_str(old(self).unread()) matches Some((s, k)) ==> r is Ok && r->Ok_0@ == s
                && final(self).pos() == old(self).pos() + k,
            dec_str(old(self).unread()) is None ==> r == Err::<String, SocketError>(
                SocketError::DecodeError,
            ) && final(self).pos() == old(self).pos(),
    {
        let start = buffer_cursor(&self.buf);
        let ghost b = self.bytes();
        let ghost u = self.unread();
        proof {
            lemma_pow256_values();
        }
        let n = self.read_uint(8)?;
        let len = buffer_length(&self.buf);
        let cur = buffer_cursor(&self.buf);
        assert(u.len() == len - start && cur == start + 8);
        assert(dec_uint(u, 8) == Some(n as nat));
        if ((len - cur) as u64) < n {
            let _ = buffer_move_cursor(&mut self.buf, start);
            return Err(SocketError::DecodeError);
        }
        let read = buffer_read_slice(&mut self.buf, n as usize);
        match read {
            Ok(v) => {
                assert(v@ =~= u.subrange(8, 8 + n as int));
                match utf8_to_string(v.as_slice()) {
                    Some(s) => Ok(s),
                    None => {
                        let _ = buffer_move_cursor(&mut self.buf, start);
                        Err(SocketError::DecodeError)
                    },
                }
            },
            Err(_) => {
                let _ = buffer_move_cursor(&mut self.buf, start);
                Err(SocketError::DecodeError)
            },
        }
    }

    /// Reads the next `n` bytes as they are. When fewer remain, fails and
    /// leaves the cursor where it was.
    pub fn read_bytes(&mut self, n: usize) -> (r: Result<Vec<u8>, SocketError>)
        requires
            old(self).wf(),
        ensures
            final(self).wf(),
            final(self).bytes() == old(self).bytes(),
            n <= old(self).unread().len() ==> r is Ok && r->Ok_0@ == old(self).unread().take(
                n as int,
            ) && final(self).pos() == old(self).pos() + n,
            n > old(self).unread().len() ==> r == Err::<Vec<u8>, SocketError>(
                SocketError::DecodeError,
            ) && final(self).pos() == old(self).pos(),
    {
        let len = buffer_length(&self.buf);
        let cur = buffer_cursor(&self.buf);
        if len - cur < n {
            return Err(SocketError::DecodeError);
        }
        let ghost b = self.bytes();
        match buffer_read_slice(&mut self.buf, n) {
            Ok(v) => {
                assert(v@ =~= b.skip(cur as int).take(n as int));
                Ok(v)
            },
            Err(_) => Err(SocketError::DecodeError),
        }
    }

    /// Reads `n` bytes as a little-endian number.
    fn read_uint(&mut self, n: usize) -> (r: Result<u64, SocketError>)
        requires
            old(self).wf(),
            n <= 8,
        ensures
            final(self).wf(),
            final(self).bytes() == old(self).bytes(),
            dec_uint(old(self).unread(), n as nat) matches Some(v) ==> r is Ok && r->Ok_0 as nat == v
                && final(self).pos() == old(self).pos() + n,
            dec_uint(old(self).unread(), n as nat) is None ==> r == Err::<u64, SocketError>(
                SocketError::DecodeError,
            ) && final(self).pos() == old(self).pos(),
            r is Ok ==> (r->Ok_0 as nat) < pow256(n as nat),
    {
        let len = buffer_length(&self.buf);
        let cur = buffer_cursor(&self.buf);
        if len - cur < n {
            return Err(SocketError::DecodeError);
        }
        let ghost b = self.bytes();
        let bytes = buffer_read_slice(&mut self.buf, n);
        match bytes {
            Ok(v) => {
                assert(v@ =~= b.skip(cur as int).take(n as int));
                proof {
                    lemma_le_value_bound(v@);
                    lemma_pow256_mono(n as nat, 8);
                    lemma_pow256_values();
                }
                Ok(le_decode(&v))
            },
            Err(_) => Err(SocketError::DecodeError),
        }
    }
}


// ---------------------------------------------------------------------------
// Fields at fixed offsets in a block of bytes
// ---------------------------------------------------------------------------

/// The number in bytes `off .. off + n` of `b`, little-endian.
pub open spec fn uint_at(b: Seq<u8>, off: int, n: nat) -> nat {
    le_value(b.subrange(off, off + n))
}

pub open spec fn u8_at(b: Seq<u8>, off: int) -> u8 {
    uint_at(b, off, 1) as u8
}

pub open spec fn u16_at(b: Seq<u8>, off: int) -> u16 {
    uint_at(b, off, 2) as u16
}

pub open spec fn u32_at(b: Seq<u8>, off: int) -> u32 {
    uint_at(b, off, 4) as u32
}

pub open spec fn u64_at(b: Seq<u8>, off: int) -> u64 {
    uint_at(b, off, 8) as u64
}

pub open spec fn i32_at(b: Seq<u8>, off: int) -> i32 {
    let v = uint_at(b, off, 4);
    if v < 0x8000_0000 {
        v as i32
    } else {
        (v - 0x1_0000_0000) as i32
    }
}

pub open spec fn i64_at(b: Seq<u8>, off: int) -> i64 {
    let v = uint_at(b, off, 8);
    if v < 0x8000_0000_0000_0000 {
        v as i64
    } else {
        (v - 0x1_0000_0000_0000_0000) as i64
    }
}

/// Any non-zero byte is `true`.
pub open spec fn bool_at(b: Seq<u8>, off: int) -> bool {
    uint_at(b, off, 1) != 0
}

/// The number in bytes `off .. off + n` of `b`, little-endian.
fn le_decode_at(b: &Vec<u8>, off: usize, n: usize) -> (r: u64)
    requires
        n <= 8,
        off + n <= b@.len(),
    ensures
        r as nat == uint_at(b@, off as int, n as nat),
        (r as nat) < pow256(n as nat),
{
    let mut acc: u64 = 0;
    let mut i: usize = n;
    let ghost s = b@.subrange(off as int, off + n);
    let blen = b.len();
    while i > 0
        invariant
            blen == b@.len(),
            i <= n <= 8,
            off + n <= b@.len(),
            s == b@.subrange(off as int, off + n),
            acc as nat == le_value(s.subrange(i as int, n as int)),
            (acc as nat) < pow256((n - i) as nat),
        decreases i,
    {
        i = i - 1;
        let ghost t = s.subrange(i as int, n as int);
        let ghost u = s.subrange(i + 1, n as int);
        assert(t.drop_first() =~= u);
        proof {
            lemma_pow256_mono((n - i - 1) as nat, 7);
            reveal_with_fuel(pow256, 8);
            let a = acc as nat;
            let p = pow256((n - i - 1) as nat);
            assert(a * 256 + 255 < 0x1_0000_0000_0000_0000 && a * 256 + 255 < 256 * p)
                by (nonlinear_arith)
                requires
                    a < p,
                    p <= 0x100_0000_0000_0000,
            ;
        }
        acc = acc * 256 + b[off + i] as u64;
        assert(s[i as int] == b@[off + i]);
    }
    assert(s.subrange(0, n as int) =~= s);
    acc
}

pub fn read_u8_at(b: &Vec<u8>, off: usize) -> (r: u8)
    requires
        off + 1 <= b@.len(),
    ensures
        r == u8_at(b@, off as int),
{
    proof {
        lemma_pow256_values();
    }
    le_decode_at(b, off, 1) as u8
}

pub fn read_u16_at(b: &Vec<u8>, off: usize) -> (r: u16)
    requires
        off + 2 <= b@.len(),
    ensures
        r == u16_at(b@, off as int),
{
    proof {
        lemma_pow256_values();
    }
    le_decode_at(b, off, 2) as u16
}

pub fn read_u32_at(b: &Vec<u8>, off: usize) -> (r: u32)
    requires
        off + 4 <= b@.len(),
    ensures
        r == u32_at(b@, off as int),
{
    proof {
        lemma_pow256_values();
    }
    le_decode_at(b, off, 4) as u32
}

pub fn read_u64_at(b: &Vec<u8>, off: usize) -> (r: u64)
    requires
        off + 8 <= b@.len(),
    ensures
        r == u64_at(b@, off as int),
{
    le_decode_at(b, off, 8)
}

pub fn read_i32_at(b: &Vec<u8>, off: usize) -> (r: i32)
    requires
        off + 4 <= b@.len(),
    ensures
        r == i32_at(b@, off as int),
{
    proof {
        lemma_pow256_values();
    }
    let v = le_decode_at(b, off, 4);
    if v < 0x8000_0000 {
        v as i32
    } else {
        (v as i64 - 0x1_0000_0000i64) as i32
    }
}

pub fn read_i64_at(b: &Vec<u8>, off: usize) -> (r: i64)
    requires
        off + 8 <= b@.len(),
    ensures
        r == i64_at(b@, off as int),
{
    let v = le_decode_at(b, off, 8);
    if v < 0x8000_0000_0000_0000 {
        v as i64
    } else {
        (v as i128 - 0x1_0000_0000_0000_0000i128) as i64
    }
}

pub fn read_bool_at(b: &Vec<u8>, off: usize) -> (r: bool)
    requires
        off + 1 <= b@.len(),
    ensures
        r == bool_at(b@, off as int),
{
    le_decode_at(b, off, 1) != 0
}

} // verus!
