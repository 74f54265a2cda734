//! Variable-length integers, big-endian integers and length-prefixed byte
//! arrays and strings, read from and written to byte buffers.
use crate::error::ProtocolError;
use vstd::prelude::*;
use vstd::string::*;
use vstd::utf8::*;

verus! {

/// The most bytes a 32-bit varint may occupy.
pub const VAR_INT_MAX_BYTES: usize = 5;

/// Little-endian base-128 groups of `u`, the high bit set on every byte but the last.
pub open spec fn var_int_groups(u: nat) -> Seq<u8>
    decreases u,
{
    if u < 128 {
        seq![u as u8]
    } else {
        seq![(u % 128 + 128) as u8] + var_int_groups(u / 128)
    }
}

/// The wire form of a signed 32-bit varint: the groups of its two's-complement bit pattern.
pub open spec fn var_int_bytes(v: i32) -> Seq<u8> {
    var_int_groups((v as u32) as nat)
}

/// The number that little-endian base-128 groups stand for (high bits ignored).
pub open spec fn groups_value(b: Seq<u8>) -> nat
    decreases b.len(),
{
    if b.len() == 0 {
        0
    } else {
        (b[0] % 128) as nat + 128 * groups_value(b.drop_first())
    }
}

proof fn lemma_bits_of_group(v: u32)
    ensures
        ((v & 0x7f) | 0x80) as u8 == (v % 128 + 128) as u8,
        v >> 7 == v / 128,
{
    assert(((v & 0x7f) | 0x80) as u8 == (v % 128 + 128) as u8) by (bit_vector);
    assert(v >> 7 == v / 128) by (bit_vector);
}

/// Appends the varint encoding of `v` to `out`.
pub fn write_var_int(v: i32, out: &mut Vec<u8>)
    ensures
        final(out)@ == old(out)@ + var_int_bytes(v),
{
    let mut value: u32 = #[verifier::truncate] (v as u32);
    let ghost start = out@;
    while value >= 128
        invariant
            out@ + var_int_groups(value as nat) == start + var_int_bytes(v),
        decreases value,
    {
        proof { lemma_bits_of_group(value); }
        let ghost prev = out@;
        let ghost before = value;
        out.push(#[verifier::truncate] (((value & 0x7f) | 0x80) as u8));
        value = value >> 7;
        assert(var_int_groups(before as nat) == seq![(before % 128 + 128) as u8] + var_int_groups(
            value as nat,
        ));
        assert(out@ + var_int_groups(value as nat) =~= prev + var_int_groups(before as nat));
    }
    out.push(value as u8);
    assert(out@ =~= start + var_int_bytes(v));
}

/// The signed 32-bit integer whose two's-complement bit pattern is the low 32 bits of `n`.
pub open spec fn i32_of(n: nat) -> i32 {
    ((n % 0x1_0000_0000) as u32) as i32
}

/// Byte `k` ends a varint: it lies within the first five, has no
/// continuation bit, and every byte before it has one.
pub open spec fn ends_var_int(b: Seq<u8>, k: int) -> bool {
    &&& 0 <= k < 5
    &&& k < b.len()
    &&& b[k] < 128
    &&& forall|j: int| 0 <= j < k ==> b[j] >= 128
}

/// What reading a varint from the front of `b` gives: the value and the
/// number of bytes it took, or the error.
pub open spec fn var_int_parse(b: Seq<u8>) -> Result<(i32, int), ProtocolError> {
    if exists|k: int| ends_var_int(b, k) {
        let k = choose|k: int| ends_var_int(b, k);
        Ok((i32_of(groups_value(b.take(k + 1))), k + 1))
    } else if b.len() >= 5 {
        Err(ProtocolError::VarIntTooBig)
    } else {
        Err(ProtocolError::UnexpectedEof)
    }
}

proof fn lemma_ends_var_int_unique(b: Seq<u8>, k: int, m: int)
    requires
        ends_var_int(b, k),
        ends_var_int(b, m),
    ensures
        k == m,
{
    if k < m {
        assert(b[k] >= 128);
    } else if m < k {
        assert(b[m] >= 128);
    }
}

proof fn lemma_i32_bits(v: i32)
    ensures
        ((v as u32) as i32) == v,
        v < 0 ==> (v as u32) >= 0x8000_0000u32,
{
    assert(((v as u32) as i32) == v) by (bit_vector);
    assert(v < 0 ==> (v as u32) >= 0x8000_0000u32) by (bit_vector);
}

/// The shape of the groups of `u`: continuation bits on all but the last
/// byte, the value they stand for, and their count.
pub proof fn lemma_groups(u: nat)
    ensures
        var_int_groups(u).len() >= 1,
        var_int_groups(u).last() < 128,
        forall|j: int| 0 <= j < var_int_groups(u).len() - 1 ==> var_int_groups(u)[j] >= 128,
        groups_value(var_int_groups(u)) == u,
        u < 128 ==> var_int_groups(u).len() == 1,
        128 <= u < 0x4000 ==> var_int_groups(u).len() == 2,
        0x4000 <= u < 0x20_0000 ==> var_int_groups(u).len() == 3,
        0x20_0000 <= u < 0x1000_0000 ==> var_int_groups(u).len() == 4,
        0x1000_0000 <= u < 0x8_0000_0000 ==> var_int_groups(u).len() == 5,
    decreases u,
{
    if u >= 128 {
        lemma_groups(u / 128);
        let g = var_int_groups(u);
        let rest = var_int_groups(u / 128);
        assert(g == seq![(u % 128 + 128) as u8] + rest);
        assert(g.drop_first() =~= rest);
        assert(forall|j: int| 1 <= j < g.len() ==> g[j] == rest[j - 1]);
        assert(g.len() == rest.len() + 1);
        assert(groups_value(g) == (g[0] % 128) as nat + 128 * groups_value(rest));
        assert(g.last() == rest.last());
        assert(g[0] >= 128);
        assert(g[0] % 128 == u % 128);
        assert(u % 128 + 128 * (u / 128) == u);
        assert(128 <= u < 0x4000 ==> u / 128 < 128);
        assert(0x4000 <= u < 0x20_0000 ==> 128 <= u / 128 < 0x4000);
        assert(0x20_0000 <= u < 0x1000_0000 ==> 0x4000 <= u / 128 < 0x20_0000);
        assert(0x1000_0000 <= u < 0x8_0000_0000 ==> 0x20_0000 <= u / 128 < 0x1000_0000);
    } else {
        let g = var_int_groups(u);
        assert(g.drop_first() =~= Seq::<u8>::empty());
        assert(groups_value(g) == (g[0] % 128) as nat + 128 * groups_value(g.drop_first()));
    }
}

/// Reads a varint at `pos`, giving its value and the position after it.
pub fn read_var_int(buf: &[u8], pos: usize) -> (r: Result<(i32, usize), ProtocolError>)
    requires
        pos <= buf@.len(),
    ensures
        match (r, var_int_parse(buf@.skip(pos as int))) {
            (Ok((v, p)), Ok((w, n))) => v == w && p == pos + n,
            (Err(e), Err(f)) => e == f,
            _ => false,
        },
{
    let ghost b = buf@.skip(pos as int);
    let len: usize = buf.len();
    let avail: usize = len - pos;
    let mut i: usize = 0;
    while i < avail && i < VAR_INT_MAX_BYTES && buf[pos + i] >= 128
        invariant
            len == buf@.len(),
            avail == len - pos,
            i <= 5,
            i <= avail,
            b == buf@.skip(pos as int),
            forall|j: int| 0 <= j < i ==> b[j] >= 128,
        decreases 5 - i,
    {
        i = i + 1;
    }
    if i == VAR_INT_MAX_BYTES {
        assert forall|k: int| !ends_var_int(b, k) by {}
        return Err(ProtocolError::VarIntTooBig);
    }
    if i == avail {
        assert forall|k: int| !ends_var_int(b, k) by {}
        return Err(ProtocolError::UnexpectedEof);
    }
    proof {
        assert(b[i as int] == buf@[pos + i]);
        assert(ends_var_int(b, i as int));
        let k = choose|k: int| ends_var_int(b, k);
        lemma_ends_var_int_unique(b, k, i as int);
    }
    // Horner's rule from the last group back to the first.
    let mut acc: u64 = 0;
    let mut j: usize = i + 1;
    while j > 0
        invariant
            j <= i + 1,
            i < 5,
            i < avail,
            len == buf@.len(),
            avail == len - pos,
            b == buf@.skip(pos as int),
            acc == groups_value(b.take(i + 1).skip(j as int)),
            acc < pow128((i + 1 - j) as nat),
        decreases j,
    {
        j = j - 1;
        let ghost t = b.take(i + 1);
        assert(t.skip(j as int).drop_first() =~= t.skip(j + 1));
        assert(t.skip(j as int)[0] == buf@[pos + j]);
        proof { lemma_pow128_bound((i - j) as nat); }
        acc = acc * 128 + (buf[pos + j] % 128) as u64;
    }
    assert(b.take(i + 1).skip(0) =~= b.take(i + 1));
    let low: u32 = (acc % 0x1_0000_0000) as u32;
    Ok((#[verifier::truncate] (low as i32), pos + i + 1))
}

pub open spec fn pow128(n: nat) -> nat
    decreases n,
{
    if n == 0 {
        1
    } else {
        128 * pow128((n - 1) as nat)
    }
}

proof fn lemma_pow128_bound(n: nat)
    requires
        n < 5,
    ensures
        pow128(n) <= 0x1000_0000,
        pow128(n + 1) == 128 * pow128(n),
{
    reveal_with_fuel(pow128, 5);
}

/// Decoding the encoding of any 32-bit integer gives it back, having read
/// all of the encoding and no more; the encoding takes one to five bytes.
pub proof fn lemma_var_int_round_trip(v: i32, rest: Seq<u8>)
    ensures
        var_int_parse(var_int_bytes(v) + rest) == Ok::<(i32, int), ProtocolError>(
            (v, var_int_bytes(v).len() as int),
        ),
        1 <= var_int_bytes(v).len() <= 5,
{
    let u = (v as u32) as nat;
    let g = var_int_bytes(v);
    let b = g + rest;
    lemma_groups(u);
    let k = g.len() - 1;
    assert(ends_var_int(b, k));
    let c = choose|c: int| ends_var_int(b, c);
    lemma_ends_var_int_unique(b, c, k);
    assert(b.take(k + 1) =~= g);
    lemma_i32_bits(v);
}

/// Negative integers always take the full five bytes.
pub proof fn lemma_negative_var_int_len(v: i32)
    requires
        v < 0,
    ensures
        var_int_bytes(v).len() == 5,
{
    lemma_i32_bits(v);
    lemma_groups((v as u32) as nat);
}

/// Every varint whose first five bytes all carry the continuation bit is
/// refused as too big, whatever follows them.
pub proof fn lemma_var_int_too_big(b: Seq<u8>)
    requires
        b.len() >= 5,
        forall|j: int| 0 <= j < 5 ==> b[j] >= 128,
    ensures
        var_int_parse(b) == Err::<(i32, int), ProtocolError>(ProtocolError::VarIntTooBig),
{
    assert forall|k: int| !ends_var_int(b, k) by {
        if 0 <= k < 5 {
            assert(b[k] >= 128);
        }
    }
}

/// The number that big-endian bytes stand for.
pub open spec fn be_value(b: Seq<u8>) -> nat
    decreases b.len(),
{
    if b.len() == 0 {
        0
    } else {
        be_value(b.drop_last()) * 256 + b.last() as nat
    }
}

/// The `n` low bytes of `v`, most significant first.
pub open spec fn be_bytes(v: nat, n: nat) -> Seq<u8>
    decreases n,
{
    if n == 0 {
        Seq::empty()
    } else {
        be_bytes(v / 256, (n - 1) as nat).push((v % 256) as u8)
    }
}

pub open spec fn pow256(n: nat) -> nat
    decreases n,
{
    if n == 0 {
        1
    } else {
        256 * pow256((n - 1) as nat)
    }
}

/// What reading an `n`-byte big-endian integer from the front of `b` gives.
pub open spec fn be_parse(b: Seq<u8>, n: nat) -> Result<(nat, int), ProtocolError> {
    if b.len() < n {
        Err(ProtocolError::UnexpectedEof)
    } else {
        Ok((be_value(b.take(n as int)), n as int))
    }
}

/// Big-endian bytes read back as the number they were written from.
pub proof fn lemma_be_round_trip(v: nat, n: nat)
    requires
        v < pow256(n),
    ensures
        be_bytes(v, n).len() == n,
        be_value(be_bytes(v, n)) == v,
    decreases n,
{
    if n > 0 {
        lemma_be_round_trip(v / 256, (n - 1) as nat);
        let b = be_bytes(v, n);
        assert(b.drop_last() =~= be_bytes(v / 256, (n - 1) as nat));
    }
}

proof fn lemma_pow256_values()
    ensures
        pow256(2) == 0x1_0000,
        pow256(8) == 0x1_0000_0000_0000_0000,
        pow256(16) == 0x1_0000_0000_0000_0000_0000_0000_0000_0000,
{
    reveal_with_fuel(pow256, 17);
}

proof fn lemma_be_value_bound(b: Seq<u8>)
    ensures
        be_value(b) < pow256(b.len()),
    decreases b.len(),
{
    if b.len() > 0 {
        lemma_be_value_bound(b.drop_last());
    }
}

/// Appends the `n` low bytes of `v`, most significant first.
fn write_be(v: u128, n: usize, out: &mut Vec<u8>)
    ensures
        final(out)@ == old(out)@ + be_bytes(v as nat, n as nat),
    decreases n,
{
    if n > 0 {
        write_be(v / 256, n - 1, out);
        out.push((v % 256) as u8);
        assert(old(out)@ + be_bytes(v as nat, n as nat) =~= old(out)@ + be_bytes(
            (v / 256) as nat,
            (n - 1) as nat,
        ).push((v % 256) as u8));
    }
}

/// Reads an `n`-byte big-endian integer at `pos`.
fn read_be(buf: &[u8], pos: usize, n: usize) -> (r: Result<(u128, usize), ProtocolError>)
    requires
        pos <= buf@.len(),
        n <= 16,
    ensures
        match (r, be_parse(buf@.skip(pos as int), n as nat)) {
            (Ok((v, p)), Ok((w, k))) => v == w && p == pos + k,
            (Err(e), Err(f)) => e == f,
            _ => false,
        },
{
    let len: usize = buf.len();
    if len - pos < n {
        return Err(ProtocolError::UnexpectedEof);
    }
    let ghost b = buf@.skip(pos as int);
    let mut acc: u128 = 0;
    let mut i: usize = 0;
    while i < n
        invariant
            i <= n,
            n <= 16,
            len == buf@.len(),
            pos + n <= len,
            b == buf@.skip(pos as int),
            acc == be_value(b.take(i as int)),
            acc < pow256(i as nat),
        decreases n - i,
    {
        proof {
            lemma_be_value_bound(b.take(i as int));
            lemma_pow256_le16(i as nat);
            assert(b.take(i + 1).drop_last() =~= b.take(i as int));
            assert(b.take(i + 1).last() == buf@[pos + i]);
        }
        acc = acc * 256 + buf[pos + i] as u128;
        i = i + 1;
    }
    Ok((acc, pos + n))
}

proof fn lemma_pow256_le16(i: nat)
    requires
        i < 16,
    ensures
        256 * pow256(i) <= 0x1_0000_0000_0000_0000_0000_0000_0000_0000,
        pow256(i + 1) == 256 * pow256(i),
    decreases i,
{
    reveal_with_fuel(pow256, 17);
}

/// The wire form of an unsigned 16-bit integer.
pub open spec fn u16_bytes(v: u16) -> Seq<u8> {
    be_bytes(v as nat, 2)
}

/// The wire form of an unsigned 64-bit integer.
pub open spec fn u64_bytes(v: u64) -> Seq<u8> {
    be_bytes(v as nat, 8)
}

/// The wire form of an unsigned 128-bit integer.
pub open spec fn u128_bytes(v: u128) -> Seq<u8> {
    be_bytes(v as nat, 16)
}

pub fn write_u16(v: u16, out: &mut Vec<u8>)
    ensures
        final(out)@ == old(out)@ + u16_bytes(v),
{
    write_be(v as u128, 2, out);
}

pub fn write_u64(v: u64, out: &mut Vec<u8>)
    ensures
        final(out)@ == old(out)@ + u64_bytes(v),
{
    write_be(v as u128, 8, out);
}

pub fn write_u128(v: u128, out: &mut Vec<u8>)
    ensures
        final(out)@ == old(out)@ + u128_bytes(v),
{
    write_be(v, 16, out);
}

pub fn read_u16(buf: &[u8], pos: usize) -> (r: Result<(u16, usize), ProtocolError>)
    requires
        pos <= buf@.len(),
    ensures
        match (r, be_parse(buf@.skip(pos as int), 2)) {
            (Ok((v, p)), Ok((w, k))) => v == w && p == pos + k,
            (Err(e), Err(f)) => e == f,
            _ => false,
        },
{
    let (v, p) = read_be(buf, pos, 2)?;
    proof {
        lemma_pow256_values();
        lemma_be_value_bound(buf@.skip(pos as int).take(2));
    }
    Ok((v as u16, p))
}

pub fn read_u64(buf: &[u8], pos: usize) -> (r: Result<(u64, usize), ProtocolError>)
    requires
        pos <= buf@.len(),
    ensures
        match (r, be_parse(buf@.skip(pos as int), 8)) {
            (Ok((v, p)), Ok((w, k))) => v == w && p == pos + k,
            (Err(e), Err(f)) => e == f,
            _ => false,
        },
{
    let (v, p) = read_be(buf, pos, 8)?;
    proof {
        lemma_pow256_values();
        lemma_be_value_bound(buf@.skip(pos as int).take(8));
    }
    Ok((v as u64, p))
}

pub fn read_u128(buf: &[u8], pos: usize) -> (r: Result<(u128, usize), ProtocolError>)
    requires
        pos <= buf@.len(),
    ensures
        match (r, be_parse(buf@.skip(pos as int), 16)) {
            (Ok((v, p)), Ok((w, k))) => v == w && p == pos + k,
            (Err(e), Err(f)) => e == f,
            _ => false,
        },
{
    read_be(buf, pos, 16)
}

/// A fixed-width integer written big-endian reads back unchanged.
pub proof fn lemma_fixed_round_trip(a: u16, b: u64, c: u128, rest: Seq<u8>)
    ensures
        u16_bytes(a).len() == 2,
        u64_bytes(b).len() == 8,
        u128_bytes(c).len() == 16,
        be_parse(u16_bytes(a) + rest, 2) == Ok::<(nat, int), ProtocolError>((a as nat, 2)),
        be_parse(u64_bytes(b) + rest, 8) == Ok::<(nat, int), ProtocolError>((b as nat, 8)),
        be_parse(u128_bytes(c) + rest, 16) == Ok::<(nat, int), ProtocolError>((c as nat, 16)),
{
    lemma_pow256_values();
    lemma_be_round_trip(a as nat, 2);
    lemma_be_round_trip(b as nat, 8);
    lemma_be_round_trip(c as nat, 16);
    assert((u16_bytes(a) + rest).take(2) =~= u16_bytes(a));
    assert((u64_bytes(b) + rest).take(8) =~= u64_bytes(b));
    assert((u128_bytes(c) + rest).take(16) =~= u128_bytes(c));
}

/// The wire form of a byte array: its length as a varint, then the bytes.
pub open spec fn prefixed_bytes(b: Seq<u8>) -> Seq<u8> {
    var_int_bytes(b.len() as i32) + b
}

/// The wire form of a string: its UTF-8 bytes, length-prefixed.
pub open spec fn string_bytes(s: Seq<char>) -> Seq<u8> {
    prefixed_bytes(encode_utf8(s))
}

/// What reading a length-prefixed byte array from the front of `b` gives.
pub open spec fn prefixed_parse(b: Seq<u8>) -> Result<(Seq<u8>, int), ProtocolError> {
    match var_int_parse(b) {
        Err(e) => Err(e),
        Ok((l, n)) => if l < 0 {
            Err(ProtocolError::NegativeLength)
        } else if b.len() - n < l {
            Err(ProtocolError::UnexpectedEof)
        } else {
            Ok((b.subrange(n, n + l), n + l))
        },
    }
}

/// What reading a length-prefixed string from the front of `b` gives.
pub open spec fn string_parse(b: Seq<u8>) -> Result<(Seq<char>, int), ProtocolError> {
    match prefixed_parse(b) {
        Err(e) => Err(e),
        Ok((bytes, n)) => if valid_utf8(bytes) {
            Ok((decode_utf8(bytes), n))
        } else {
            Err(ProtocolError::InvalidUtf8)
        },
    }
}

/// Relies on `String::from_utf8`: it succeeds exactly on valid UTF-8, and the
/// string it returns holds the given bytes.
#[verifier::external_body]
fn string_from_utf8(bytes: Vec<u8>) -> (r: Option<String>)
    ensures
        r is Some <==> valid_utf8(bytes@),
        r matches Some(s) ==> encode_utf8(s@) == bytes@,
{
    String::from_utf8(bytes).ok()
}

/// Copies `buf[from..to]` into a new vector.
pub fn copy_range(buf: &[u8], from: usize, to: usize) -> (r: Vec<u8>)
    requires
        from <= to <= buf@.len(),
    ensures
        r@ == buf@.subrange(from as int, to as int),
{
    let mut r: Vec<u8> = Vec::with_capacity(to - from);
    let mut i: usize = from;
    while i < to
        invariant
            from <= i <= to,
            to <= buf@.len(),
            r@ == buf@.subrange(from as int, i as int),
        decreases to - i,
    {
        r.push(buf[i]);
        i = i + 1;
        assert(r@ =~= buf@.subrange(from as int, i as int));
    }
    r
}

/// Reads a length-prefixed byte array at `pos`.
pub fn read_prefixed_bytes(buf: &[u8], pos: usize) -> (r: Result<(Vec<u8>, usize), ProtocolError>)
    requires
        pos <= buf@.len(),
    ensures
        match (r, prefixed_parse(buf@.skip(pos as int))) {
            (Ok((v, p)), Ok((w, k))) => v@ == w && p == pos + k,
            (Err(e), Err(f)) => e == f,
            _ => false,
        },
{
    let (l, p) = read_var_int(buf, pos)?;
    if l < 0 {
        return Err(ProtocolError::NegativeLength);
    }
    let l: usize = l as usize;
    if buf.len() - p < l {
        return Err(ProtocolError::UnexpectedEof);
    }
    let v = copy_range(buf, p, p + l);
    assert(v@ =~= buf@.skip(pos as int).subrange((p - pos) as int, (p - pos + l) as int));
    Ok((v, p + l))
}

/// Reads a length-prefixed UTF-8 string at `pos`.
pub fn read_string(buf: &[u8], pos: usize) -> (r: Result<(String, usize), ProtocolError>)
    requires
        pos <= buf@.len(),
    ensures
        match (r, string_parse(buf@.skip(pos as int))) {
            (Ok((v, p)), Ok((w, k))) => v@ == w && p == pos + k,
            (Err(e), Err(f)) => e == f,
            _ => false,
        },
{
    let (bytes, p) = read_prefixed_bytes(buf, pos)?;
    let ghost b = bytes@;
    match string_from_utf8(bytes) {
        Some(s) => {
            proof {
                decode_utf8_encode_utf8(b);
                encode_utf8_decode_utf8(s@);
            }
            Ok((s, p))
        },
        None => Err(ProtocolError::InvalidUtf8),
    }
}

/// Appends `b` with its length prefix.
pub fn write_prefixed_bytes(b: &[u8], out: &mut Vec<u8>)
    requires
        b@.len() <= i32::MAX,
    ensures
        final(out)@ == old(out)@ + prefixed_bytes(b@),
{
    write_var_int(b.len() as i32, out);
    let mut i: usize = 0;
    let ghost mid = out@;
    while i < b.len()
        invariant
            i <= b@.len(),
            out@ == mid + b@.take(i as int),
        decreases b@.len() - i,
    {
        out.push(b[i]);
        i = i + 1;
        assert(out@ =~= mid + b@.take(i as int));
    }
    assert(b@.take(b@.len() as int) =~= b@);
    assert(old(out)@ + prefixed_bytes(b@) =~= mid + b@);
}

/// Appends the UTF-8 bytes of `s` with their length prefix.
pub fn write_string(s: &str, out: &mut Vec<u8>)
    requires
        encode_utf8(s@).len() <= i32::MAX,
    ensures
        final(out)@ == old(out)@ + string_bytes(s@),
{
    let bytes = s.as_bytes_vec();
    write_prefixed_bytes(bytes.as_slice(), out);
}

/// A byte array written with its prefix reads back whole.
pub proof fn lemma_prefixed_round_trip(b: Seq<u8>, rest: Seq<u8>)
    requires
        b.len() <= i32::MAX,
    ensures
        prefixed_parse(prefixed_bytes(b) + rest) == Ok::<(Seq<u8>, int), ProtocolError>(
            (b, prefixed_bytes(b).len() as int),
        ),
{
    let l = b.len() as i32;
    lemma_var_int_round_trip(l, b + rest);
    assert(var_int_bytes(l) + (b + rest) =~= prefixed_bytes(b) + rest);
    let n = var_int_bytes(l).len() as int;
    assert((prefixed_bytes(b) + rest).subrange(n, n + b.len()) =~= b);
}

/// Any valid UTF-8 byte string, written as a prefixed string, reads back as
/// a string whose bytes are exactly the ones written.
pub proof fn lemma_string_round_trip(b: Seq<u8>, rest: Seq<u8>)
    requires
        b.len() <= i32::MAX,
        valid_utf8(b),
    ensures
        string_parse(prefixed_bytes(b) + rest) matches Ok((s, n)) && encode_utf8(s) == b && n
            == prefixed_bytes(b).len(),
{
    lemma_prefixed_round_trip(b, rest);
    decode_utf8_encode_utf8(b);
}

/// A string written with its prefix reads back unchanged.
pub proof fn lemma_text_round_trip(s: Seq<char>, rest: Seq<u8>)
    requires
        encode_utf8(s).len() <= i32::MAX,
    ensures
        string_parse(string_bytes(s) + rest) == Ok::<(Seq<char>, int), ProtocolError>(
            (s, string_bytes(s).len() as int),
        ),
{
    lemma_prefixed_round_trip(encode_utf8(s), rest);
    encode_utf8_valid_utf8(s);
    encode_utf8_decode_utf8(s);
}

} // verus!
