use vstd::prelude::*;
use vstd::utf8::*;
use vstd::string::StringSliceAdditionalSpecFns;

verus! {

broadcast use vstd::seq_lib::group_seq_properties;

/// The two little-endian bytes of a 16-bit value.
pub open spec fn le16(x: u16) -> Seq<u8> {
    seq![(x % 256) as u8, (x / 256) as u8]
}

/// The 16-bit value whose little-endian bytes are `lo`, `hi`.
pub open spec fn u16_of(lo: u8, hi: u8) -> u16 {
    (lo + 256 * hi) as u16
}

/// The little-endian bytes of a signed 16-bit value (two's complement).
pub open spec fn le16_signed(x: i16) -> Seq<u8> {
    le16(x as u16)
}

/// The signed 16-bit value whose little-endian bytes are `lo`, `hi`.
pub open spec fn i16_of(lo: u8, hi: u8) -> i16 {
    u16_of(lo, hi) as i16
}

/// `n` zero bytes.
pub open spec fn zeros(n: nat) -> Seq<u8> {
    Seq::new(n, |i: int| 0u8)
}

/// `b` cut or zero-padded to exactly `n` bytes, as `Vec::resize` does.
pub open spec fn padded(b: Seq<u8>, n: nat) -> Seq<u8> {
    if b.len() >= n {
        b.take(n as int)
    } else {
        b + zeros((n - b.len()) as nat)
    }
}

/// The bytes of `b` before its first zero byte (all of `b` if it has none).
pub open spec fn until_nul(b: Seq<u8>) -> Seq<u8>
    decreases b.len(),
{
    if b.len() == 0 {
        b
    } else if b[0] == 0 {
        Seq::empty()
    } else {
        seq![b[0]] + until_nul(b.drop_first())
    }
}

/// `b` without its trailing zero bytes.
pub open spec fn trim_nul_end(b: Seq<u8>) -> Seq<u8>
    decreases b.len(),
{
    if b.len() == 0 {
        b
    } else if b.last() == 0 {
        trim_nul_end(b.drop_last())
    } else {
        b
    }
}

/// Whether `b` holds no zero byte.
pub open spec fn nul_free(b: Seq<u8>) -> bool {
    forall|i: int| 0 <= i < b.len() ==> b[i] != 0
}

/// The text that `String::from_utf8_lossy` makes of a byte sequence: the
/// sequence decoded as UTF-8, with each invalid part replaced by U+FFFD.
pub uninterp spec fn utf8_lossy(bytes: Seq<u8>) -> Seq<char>;

/// The text read from a byte sequence: its UTF-8 decoding when it is valid
/// UTF-8, else what the lossy reader makes of it.
pub open spec fn text_of(bytes: Seq<u8>) -> Seq<char> {
    if valid_utf8(bytes) {
        decode_utf8(bytes)
    } else {
        utf8_lossy(bytes)
    }
}

/// Reads a byte sequence as text, replacing what is not UTF-8.
///
/// Calls `String::from_utf8_lossy`. Its contract names the result
/// (`utf8_lossy`) and states what std's documentation says of it: bytes that
/// are valid UTF-8 are read unchanged. What replaces invalid parts is left
/// unsaid.
#[verifier::external_body]
pub(crate) fn text_from_bytes_lossy(bytes: &[u8]) -> (s: String)
    ensures
        s@ == utf8_lossy(bytes@),
        valid_utf8(bytes@) ==> s@ == decode_utf8(bytes@),
        s@ == text_of(bytes@),
{
    String::from_utf8_lossy(bytes).into_owned()
}

/// Reads a byte sequence as text when it is valid UTF-8.
///
/// Calls `String::from_utf8`; the contract states what std documents:
/// success exactly on valid UTF-8, and then the text the bytes encode.
#[verifier::external_body]
pub(crate) fn text_from_bytes_strict(bytes: Vec<u8>) -> (s: Option<String>)
    ensures
        s is Some <==> valid_utf8(bytes@),
        s matches Some(t) ==> t@ == decode_utf8(bytes@),
{
    String::from_utf8(bytes).ok()
}

/// Appends a character to a text. Calls `String::push`, which std documents
/// as appending the character to the end of the string.
#[verifier::external_body]
pub(crate) fn push_char(s: &mut String, c: char)
    ensures
        final(s)@ == old(s)@.push(c),
{
    s.push(c);
}

/// The byte length of a text as a 16-bit length field holds it (cut to its
/// low 16 bits, as `len() as u16` does).
pub open spec fn len16(s: Seq<char>) -> u16 {
    (encode_utf8(s).len() as usize) as u16
}

/// The byte length of `s` as a 16-bit length field.
pub fn text_len16(s: &str) -> (n: u16)
    ensures
        n == len16(s@),
{
    #[verifier::truncate]
    (s.len() as u16)
}

/// Appends the little-endian bytes of `x`.
pub fn push_u16(out: &mut Vec<u8>, x: u16)
    ensures
        final(out)@ == old(out)@ + le16(x),
{
    let lo = (x % 256) as u8;
    let hi = (x / 256) as u8;
    out.push(lo);
    out.push(hi);
    assert(final(out)@ =~= old(out)@ + le16(x));
}

/// Appends the little-endian bytes of a signed `x`.
pub fn push_i16(out: &mut Vec<u8>, x: i16)
    ensures
        final(out)@ == old(out)@ + le16_signed(x),
{
    push_u16(out, x as u16);
}

/// Reads the little-endian 16-bit value at `b[i]`, `b[i + 1]`.
pub fn read_u16(b: &[u8], i: usize) -> (x: u16)
    requires
        i + 1 < b@.len(),
    ensures
        x == u16_of(b@[i as int], b@[i + 1]),
{
    let lo = b[i] as u16;
    let hi = b[i + 1] as u16;
    lo + 256 * hi
}

/// Reads the little-endian signed 16-bit value at `b[i]`, `b[i + 1]`.
pub fn read_i16(b: &[u8], i: usize) -> (x: i16)
    requires
        i + 1 < b@.len(),
    ensures
        x == i16_of(b@[i as int], b@[i + 1]),
{
    read_u16(b, i) as i16
}

/// Appends the bytes of `s`, cut or zero-padded to `n` bytes.
pub fn push_padded(out: &mut Vec<u8>, s: &str, n: usize)
    ensures
        final(out)@ == old(out)@ + padded(s.spec_bytes(), n as nat),
{
    let b = s.as_bytes();
    let mut i: usize = 0;
    let ghost start = out@;
    let ghost want = padded(s.spec_bytes(), n as nat);
    while i < n
        invariant
            i <= n,
            b@ == s.spec_bytes(),
            want == padded(s.spec_bytes(), n as nat),
            want.len() == n,
            out@ == start + want.take(i as int),
        decreases n - i,
    {
        if i < b.len() {
            out.push(b[i]);
        } else {
            out.push(0u8);
        }
        assert(want.take(i + 1) =~= want.take(i as int).push(want[i as int]));
        i = i + 1;
    }
    assert(want.take(n as int) =~= want);
}

/// Appends all the bytes of `s`.
pub fn push_str(out: &mut Vec<u8>, s: &str)
    ensures
        final(out)@ == old(out)@ + s.spec_bytes(),
{
    let b = s.as_bytes();
    let mut i: usize = 0;
    let ghost start = out@;
    while i < b.len()
        invariant
            i <= b@.len(),
            out@ == start + b@.take(i as int),
        decreases b@.len() - i,
    {
        out.push(b[i]);
        assert(b@.take(i + 1) =~= b@.take(i as int).push(b@[i as int]));
        i = i + 1;
    }
    assert(b@.take(b@.len() as int) =~= b@);
}

/// Copies the bytes `b[from..to]`.
pub fn copy_range(b: &[u8], from: usize, to: usize) -> (r: Vec<u8>)
    requires
        from <= to <= b@.len(),
    ensures
        r@ == b@.subrange(from as int, to as int),
{
    let mut r: Vec<u8> = Vec::new();
    let mut i = from;
    while i < to
        invariant
            from <= i <= to <= b@.len(),
            r@ == b@.subrange(from as int, i as int),
        decreases to - i,
    {
        r.push(b[i]);
        assert(b@.subrange(from as int, i + 1) =~= b@.subrange(from as int, i as int).push(
            b@[i as int],
        ));
        i = i + 1;
    }
    r
}

proof fn lemma_until_nul_prefix(b: Seq<u8>, i: int)
    requires
        0 <= i <= b.len(),
        forall|j: int| 0 <= j < i ==> b[j] != 0,
        i == b.len() || b[i] == 0,
    ensures
        until_nul(b) == b.take(i),
    decreases b.len(),
{
    if b.len() == 0 {
        assert(b.take(i) =~= b);
    } else if b[0] == 0 {
        assert(i == 0);
        assert(b.take(i) =~= Seq::<u8>::empty());
    } else {
        let t = b.drop_first();
        assert forall|j: int| 0 <= j < i - 1 implies t[j] != 0 by {
            assert(t[j] == b[j + 1]);
        }
        if i < b.len() {
            assert(t[i - 1] == b[i]);
        }
        lemma_until_nul_prefix(t, i - 1);
        assert(b.take(i) =~= seq![b[0]] + t.take(i - 1));
    }
}

/// The bytes of `b[from..to]` up to the first zero byte.
pub fn copy_until_nul(b: &[u8], from: usize, to: usize) -> (r: Vec<u8>)
    requires
        from <= to <= b@.len(),
    ensures
        r@ == until_nul(b@.subrange(from as int, to as int)),
{
    let ghost field = b@.subrange(from as int, to as int);
    let mut i = from;
    while i < to && b[i] != 0
        invariant
            from <= i <= to <= b@.len(),
            field == b@.subrange(from as int, to as int),
            forall|j: int| from <= j < i ==> b@[j] != 0,
        decreases to - i,
    {
        i = i + 1;
    }
    proof {
        assert forall|j: int| 0 <= j < i - from implies field[j] != 0 by {
            assert(field[j] == b@[from + j]);
        }
        lemma_until_nul_prefix(field, i - from);
        assert(field.take(i - from) =~= b@.subrange(from as int, i as int));
    }
    copy_range(b, from, i)
}

proof fn lemma_trim_prefix(b: Seq<u8>, i: int)
    requires
        0 <= i <= b.len(),
        forall|j: int| i <= j < b.len() ==> b[j] == 0,
    ensures
        trim_nul_end(b) == trim_nul_end(b.take(i)),
    decreases b.len() - i,
{
    if i == b.len() {
        assert(b.take(i) =~= b);
    } else {
        assert(b.drop_last().take(i) =~= b.take(i));
        lemma_trim_prefix(b.drop_last(), i);
    }
}

/// The bytes of `b[from..to]` without their trailing zero bytes.
pub fn copy_trim_nul(b: &[u8], from: usize, to: usize) -> (r: Vec<u8>)
    requires
        from <= to <= b@.len(),
    ensures
        r@ == trim_nul_end(b@.subrange(from as int, to as int)),
{
    let ghost field = b@.subrange(from as int, to as int);
    let mut j = to;
    while j > from && b[j - 1] == 0
        invariant
            from <= j <= to <= b@.len(),
            field == b@.subrange(from as int, to as int),
            forall|k: int| j <= k < to ==> b@[k] == 0,
        decreases j - from,
    {
        j = j - 1;
    }
    proof {
        let i = j - from;
        assert forall|k: int| i <= k < field.len() implies field[k] == 0 by {
            assert(field[k] == b@[from + k]);
        }
        lemma_trim_prefix(field, i);
        let p = field.take(i);
        assert(p =~= b@.subrange(from as int, j as int));
        if p.len() > 0 {
            assert(p.last() == b@[j - 1]);
        }
    }
    copy_range(b, from, j)
}

/// A zero-free byte sequence padded with zeros reads back unchanged up to its
/// first zero.
pub proof fn lemma_until_nul_padded(b: Seq<u8>, n: nat)
    requires
        b.len() <= n,
        nul_free(b),
    ensures
        until_nul(padded(b, n)) == b,
{
    let p = padded(b, n);
    assert(p.take(b.len() as int) =~= b);
    if b.len() < n {
        assert(p[b.len() as int] == 0);
    }
    lemma_until_nul_prefix(p, b.len() as int);
}

/// A byte sequence that does not end in zero, padded with zeros, reads back
/// unchanged once trailing zeros are trimmed.
pub proof fn lemma_trim_padded(b: Seq<u8>, n: nat)
    requires
        b.len() <= n,
        b.len() == 0 || b.last() != 0,
    ensures
        trim_nul_end(padded(b, n)) == b,
{
    let p = padded(b, n);
    lemma_trim_prefix(p, b.len() as int);
    assert(p.take(b.len() as int) =~= b);
}

/// The 16-bit values survive the trip through their two bytes.
pub proof fn lemma_le16_roundtrip(x: u16)
    ensures
        u16_of(le16(x)[0], le16(x)[1]) == x,
{
}

/// Signed 16-bit values survive the trip through their two bytes.
pub proof fn lemma_le16_signed_roundtrip(x: i16)
    ensures
        i16_of(le16_signed(x)[0], le16_signed(x)[1]) == x,
{
    let u = x as u16;
    assert(u16_of(le16(u)[0], le16(u)[1]) == u);
    assert((x as u16) as i16 == x) by (bit_vector);
}

/// Text survives the trip through its UTF-8 bytes and the lossy reader.
pub proof fn lemma_text_roundtrip(s: Seq<char>)
    ensures
        valid_utf8(encode_utf8(s)),
        decode_utf8(encode_utf8(s)) == s,
        text_of(encode_utf8(s)) == s,
{
    encode_utf8_valid_utf8(s);
    encode_utf8_decode_utf8(s);
}

} // verus!
