use vstd::prelude::*;

verus! {

/// The four big-endian bytes of a 32-bit value.
pub open spec fn be32(n: u32) -> Seq<u8> {
    seq![
        (n / 0x100_0000) as u8,
        ((n / 0x1_0000) % 0x100) as u8,
        ((n / 0x100) % 0x100) as u8,
        (n % 0x100) as u8,
    ]
}

/// The value of four big-endian bytes.
pub open spec fn be32_value(b: Seq<u8>) -> int {
    b[0] * 0x100_0000 + b[1] * 0x1_0000 + b[2] * 0x100 + b[3]
}

/// The eight big-endian bytes of a 64-bit value.
pub open spec fn be64(n: u64) -> Seq<u8> {
    be32((n / 0x1_0000_0000) as u32) + be32((n % 0x1_0000_0000) as u32)
}

/// The value of eight big-endian bytes.
pub open spec fn be64_value(b: Seq<u8>) -> int {
    be32_value(b.subrange(0, 4)) * 0x1_0000_0000 + be32_value(b.subrange(4, 8))
}

/// A byte string framed by its length as four big-endian bytes.
pub open spec fn framed(b: Seq<u8>) -> Seq<u8> {
    be32(b.len() as u32) + b
}

/// Reads one framed byte string off the front of `s`: the bytes and what follows them.
pub open spec fn read_framed(s: Seq<u8>) -> Option<(Seq<u8>, Seq<u8>)> {
    if s.len() < 4 {
        None
    } else {
        let n = be32_value(s.subrange(0, 4));
        if s.len() - 4 < n {
            None
        } else {
            Some((s.subrange(4, 4 + n), s.subrange(4 + n, s.len() as int)))
        }
    }
}

pub proof fn lemma_be32_round_trip(n: u32)
    ensures
        be32(n).len() == 4,
        be32_value(be32(n)) == n,
{
    let b = be32(n);
    assert(b[0] == n / 0x100_0000);
    assert(b[1] == (n / 0x1_0000) % 0x100);
    assert(b[2] == (n / 0x100) % 0x100);
    assert(b[3] == n % 0x100);
    assert((n / 0x100_0000) * 0x100_0000 + ((n / 0x1_0000) % 0x100) * 0x1_0000 + ((n / 0x100)
        % 0x100) * 0x100 + n % 0x100 == n) by (nonlinear_arith);
}

pub proof fn lemma_be64_round_trip(n: u64)
    ensures
        be64(n).len() == 8,
        be64_value(be64(n)) == n,
{
    let hi = (n / 0x1_0000_0000) as u32;
    let lo = (n % 0x1_0000_0000) as u32;
    lemma_be32_round_trip(hi);
    lemma_be32_round_trip(lo);
    assert(be64(n).subrange(0, 4) =~= be32(hi));
    assert(be64(n).subrange(4, 8) =~= be32(lo));
    assert((n / 0x1_0000_0000) * 0x1_0000_0000 + n % 0x1_0000_0000 == n) by (nonlinear_arith);
}

/// Reading a framed byte string gives back the bytes and leaves the rest untouched.
pub proof fn lemma_read_framed(b: Seq<u8>, rest: Seq<u8>)
    requires
        b.len() <= u32::MAX,
    ensures
        read_framed(framed(b) + rest) == Some((b, rest)),
{
    let s = framed(b) + rest;
    lemma_be32_round_trip(b.len() as u32);
    assert(s.subrange(0, 4) =~= be32(b.len() as u32));
    assert(s.subrange(4, 4 + b.len() as int) =~= b);
    assert(s.subrange(4 + b.len() as int, s.len() as int) =~= rest);
}

/// Appends the four big-endian bytes of `n`.
pub fn push_be32(out: &mut Vec<u8>, n: u32)
    ensures
        final(out)@ == old(out)@ + be32(n),
{
    out.push((n / 0x100_0000) as u8);
    out.push(((n / 0x1_0000) % 0x100) as u8);
    out.push(((n / 0x100) % 0x100) as u8);
    out.push((n % 0x100) as u8);
    assert(final(out)@ =~= old(out)@ + be32(n));
}

/// Appends the eight big-endian bytes of `n`.
pub fn push_be64(out: &mut Vec<u8>, n: u64)
    ensures
        final(out)@ == old(out)@ + be64(n),
{
    push_be32(out, (n / 0x1_0000_0000) as u32);
    push_be32(out, (n % 0x1_0000_0000) as u32);
    assert(final(out)@ =~= old(out)@ + be64(n));
}

/// Appends all of `b`.
pub fn push_all(out: &mut Vec<u8>, b: &[u8])
    ensures
        final(out)@ == old(out)@ + b@,
{
    let mut i: usize = 0;
    while i < b.len()
        invariant
            i <= b@.len(),
            out@ == old(out)@ + b@.subrange(0, i as int),
        decreases b@.len() - i,
    {
        out.push(b[i]);
        i = i + 1;
        assert(out@ =~= old(out)@ + b@.subrange(0, i as int));
    }
    assert(b@.subrange(0, i as int) =~= b@);
}

/// Appends `b` framed by its length.
pub fn push_framed(out: &mut Vec<u8>, b: &[u8])
    requires
        b@.len() <= u32::MAX,
    ensures
        final(out)@ == old(out)@ + framed(b@),
{
    push_be32(out, b.len() as u32);
    push_all(out, b);
    assert(final(out)@ =~= old(out)@ + framed(b@));
}

/// The bytes `s[start..end]` as a new vector.
pub fn copy_range(s: &[u8], start: usize, end: usize) -> (r: Vec<u8>)
    requires
        start <= end <= s@.len(),
    ensures
        r@ == s@.subrange(start as int, end as int),
{
    let mut r: Vec<u8> = Vec::new();
    let mut i: usize = start;
    while i < end
        invariant
            start <= i <= end <= s@.len(),
            r@ == s@.subrange(start as int, i as int),
        decreases end - i,
    {
        r.push(s[i]);
        i = i + 1;
        assert(r@ =~= s@.subrange(start as int, i as int));
    }
    r
}

/// Reads four big-endian bytes at `pos`.
pub fn read_be32(s: &[u8], pos: usize) -> (r: u32)
    requires
        pos + 4 <= s@.len(),
    ensures
        r == be32_value(s@.subrange(pos as int, pos + 4)),
{
    let b0 = s[pos] as u32;
    let b1 = s[pos + 1] as u32;
    let b2 = s[pos + 2] as u32;
    let b3 = s[pos + 3] as u32;
    assert(b0 * 0x100_0000 + b1 * 0x1_0000 + b2 * 0x100 + b3 <= u32::MAX) by (nonlinear_arith)
        requires
            b0 < 256,
            b1 < 256,
            b2 < 256,
            b3 < 256,
    ;
    b0 * 0x100_0000 + b1 * 0x1_0000 + b2 * 0x100 + b3
}

/// Reads eight big-endian bytes at `pos`.
pub fn read_be64(s: &[u8], pos: usize) -> (r: u64)
    requires
        pos + 8 <= s@.len(),
    ensures
        r == be64_value(s@.subrange(pos as int, pos + 8)),
{
    let len: usize = s.len();
    assert(pos + 8 <= len);
    let hi = read_be32(s, pos) as u64;
    let lo = read_be32(s, pos + 4) as u64;
    let ghost w = s@.subrange(pos as int, pos + 8);
    assert(w.subrange(0, 4) =~= s@.subrange(pos as int, pos + 4));
    assert(w.subrange(4, 8) =~= s@.subrange(pos + 4, pos + 8));
    assert(hi * 0x1_0000_0000 + lo <= u64::MAX) by (nonlinear_arith)
        requires
            hi <= u32::MAX,
            lo <= u32::MAX,
    ;
    hi * 0x1_0000_0000 + lo
}

/// Reads the framed byte string that starts at `pos`: its bytes and the position after it.
pub fn read_framed_at(s: &[u8], pos: usize) -> (r: Option<(Vec<u8>, usize)>)
    requires
        pos <= s@.len(),
    ensures
        match read_framed(s@.subrange(pos as int, s@.len() as int)) {
            None => r is None,
            Some((b, rest)) => r matches Some((v, next)) && v@ == b && next <= s@.len()
                && rest == s@.subrange(next as int, s@.len() as int),
        },
{
    let ghost t = s@.subrange(pos as int, s@.len() as int);
    if s.len() - pos < 4 {
        return None;
    }
    let n = read_be32(s, pos);
    assert(t.subrange(0, 4) =~= s@.subrange(pos as int, pos + 4));
    if s.len() - pos - 4 < n as usize {
        return None;
    }
    let start = pos + 4;
    let end = start + n as usize;
    let v = copy_range(s, start, end);
    assert(t.subrange(4, 4 + n) =~= v@);
    assert(t.subrange(4 + n, t.len() as int) =~= s@.subrange(end as int, s@.len() as int));
    Some((v, end))
}

/// A byte string framed by its length as eight big-endian bytes.
pub open spec fn framed64(b: Seq<u8>) -> Seq<u8> {
    be64(b.len() as u64) + b
}

/// Reads one byte string framed by eight length bytes off the front of `s`: the bytes and
/// what follows them.
pub open spec fn read_framed64(s: Seq<u8>) -> Option<(Seq<u8>, Seq<u8>)> {
    if s.len() < 8 {
        None
    } else {
        let n = be64_value(s.subrange(0, 8));
        if s.len() - 8 < n {
            None
        } else {
            Some((s.subrange(8, 8 + n), s.subrange(8 + n, s.len() as int)))
        }
    }
}

/// Reading a byte string framed by eight length bytes gives back the bytes and leaves the
/// rest untouched.
pub proof fn lemma_read_framed64(b: Seq<u8>, rest: Seq<u8>)
    requires
        b.len() <= u64::MAX,
    ensures
        read_framed64(framed64(b) + rest) == Some((b, rest)),
{
    let s = framed64(b) + rest;
    lemma_be64_round_trip(b.len() as u64);
    assert(s.subrange(0, 8) =~= be64(b.len() as u64));
    assert(s.subrange(8, 8 + b.len() as int) =~= b);
    assert(s.subrange(8 + b.len() as int, s.len() as int) =~= rest);
}

/// Appends `b` framed by its length in eight bytes.
pub fn push_framed64(out: &mut Vec<u8>, b: &[u8])
    ensures
        final(out)@ == old(out)@ + framed64(b@),
{
    push_be64(out, b.len() as u64);
    push_all(out, b);
    assert(final(out)@ =~= old(out)@ + framed64(b@));
}

/// Reads the byte string framed by eight length bytes that starts at `pos`: its bytes and
/// the position after it.
pub fn read_framed64_at(s: &[u8], pos: usize) -> (r: Option<(Vec<u8>, usize)>)
    requires
        pos <= s@.len(),
    ensures
        match read_framed64(s@.subrange(pos as int, s@.len() as int)) {
            None => r is None,
            Some((b, rest)) => r matches Some((v, next)) && v@ == b && pos < next <= s@.len()
                && rest == s@.subrange(next as int, s@.len() as int),
        },
{
    let ghost t = s@.subrange(pos as int, s@.len() as int);
    if s.len() - pos < 8 {
        return None;
    }
    let n = read_be64(s, pos);
    assert(t.subrange(0, 8) =~= s@.subrange(pos as int, pos + 8));
    if ((s.len() - pos - 8) as u64) < n {
        return None;
    }
    let start = pos + 8;
    let end = start + n as usize;
    let v = copy_range(s, start, end);
    assert(t.subrange(8, 8 + n) =~= v@);
    assert(t.subrange(8 + n, t.len() as int) =~= s@.subrange(end as int, s@.len() as int));
    Some((v, end))
}

/// The value of a hexadecimal digit, either case.
pub open spec fn hex_digit(b: u8) -> Option<u8> {
    if 0x30 <= b <= 0x39 {
        Some((b - 0x30) as u8)
    } else if 0x61 <= b <= 0x66 {
        Some((b - 0x61 + 10) as u8)
    } else if 0x41 <= b <= 0x46 {
        Some((b - 0x41 + 10) as u8)
    } else {
        None
    }
}

/// The text is an even number of hexadecimal digits.
pub open spec fn is_hex(s: Seq<u8>) -> bool {
    s.len() % 2 == 0 && forall|i: int| 0 <= i < s.len() ==> #[trigger] hex_digit(s[i]) is Some
}

/// The byte that the digit pair at `2 * i` of `s` stands for.
pub open spec fn hex_byte(s: Seq<u8>, i: int) -> u8 {
    (hex_digit(s[2 * i]).unwrap() * 16 + hex_digit(s[2 * i + 1]).unwrap()) as u8
}

pub fn hex_digit_value(b: u8) -> (r: Option<u8>)
    ensures
        r == hex_digit(b),
{
    if 0x30 <= b && b <= 0x39 {
        Some(b - 0x30)
    } else if 0x61 <= b && b <= 0x66 {
        Some(b - 0x61 + 10)
    } else if 0x41 <= b && b <= 0x46 {
        Some(b - 0x41 + 10)
    } else {
        None
    }
}

/// The bytes that the hexadecimal text `s` stands for, two digits per byte; `None` where
/// `s` is not an even number of hexadecimal digits.
pub fn decode_hex(s: &[u8]) -> (r: Option<Vec<u8>>)
    ensures
        match r {
            Some(v) => is_hex(s@) && v@.len() == s@.len() / 2 && forall|i: int|
                0 <= i < v@.len() ==> #[trigger] v@[i] == hex_byte(s@, i),
            None => !is_hex(s@),
        },
{
    if s.len() % 2 != 0 {
        return None;
    }
    let mut out: Vec<u8> = Vec::new();
    let mut i: usize = 0;
    while i < s.len() / 2
        invariant
            s@.len() % 2 == 0,
            i <= s@.len() / 2,
            out@.len() == i,
            forall|k: int| 0 <= k < 2 * i ==> #[trigger] hex_digit(s@[k]) is Some,
            forall|k: int| 0 <= k < i ==> #[trigger] out@[k] == hex_byte(s@, k),
        decreases s@.len() / 2 - i,
    {
        let hi = match hex_digit_value(s[2 * i]) {
            Some(d) => d,
            None => {
                return None;
            },
        };
        let lo = match hex_digit_value(s[2 * i + 1]) {
            Some(d) => d,
            None => {
                return None;
            },
        };
        out.push(hi * 16 + lo);
        i = i + 1;
    }
    Some(out)
}

} // verus!
