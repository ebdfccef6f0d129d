use vstd::prelude::*;

verus! {

/// The first index at or after `p` that holds a zero byte; `s.len()` when
/// there is none, and `p` itself when `p` is already past the end.
pub open spec fn nul_from(s: Seq<u8>, p: int) -> int
    decreases s.len() - p,
{
    if p >= s.len() {
        p
    } else if s[p] == 0 {
        p
    } else {
        nul_from(s, p + 1)
    }
}

/// A little-endian 16-bit integer at `p`.
pub open spec fn le16(s: Seq<u8>, p: int) -> int {
    s[p] as int + 256 * (s[p + 1] as int)
}

/// A little-endian 32-bit integer at `p`.
pub open spec fn le32(s: Seq<u8>, p: int) -> int {
    le16(s, p) + 65536 * le16(s, p + 2)
}

/// A little-endian 64-bit integer at `p`.
pub open spec fn le64(s: Seq<u8>, p: int) -> int {
    le32(s, p) + 4294967296 * le32(s, p + 4)
}

/// The text that a byte string stands for, invalid UTF-8 sequences replaced.
pub uninterp spec fn lossy_text(b: Seq<u8>) -> Seq<char>;

pub proof fn lemma_nul_from_bounds(s: Seq<u8>, p: int)
    ensures
        p <= nul_from(s, p),
        p <= s.len() ==> nul_from(s, p) <= s.len(),
        nul_from(s, p) < s.len() ==> s[nul_from(s, p)] == 0,
        forall|i: int| p <= i < nul_from(s, p) && i < s.len() ==> s[i] != 0,
    decreases s.len() - p,
{
    if p < s.len() && s[p] != 0 {
        lemma_nul_from_bounds(s, p + 1);
    }
}

/// The index of the first zero byte at or after `p`, as `nul_from` says.
pub fn find_nul(s: &Vec<u8>, p: usize) -> (r: usize)
    ensures
        r as int == nul_from(s@, p as int),
{
    if p >= s.len() {
        return p;
    }
    let mut i: usize = p;
    while i < s.len() && s[i] != 0
        invariant
            p <= i <= s.len(),
            nul_from(s@, i as int) == nul_from(s@, p as int),
        decreases s.len() - i,
    {
        i = i + 1;
    }
    i
}

/// Reads a little-endian 16-bit integer at `p`.
pub fn read_u16(s: &Vec<u8>, p: usize) -> (r: u16)
    requires
        p + 2 <= s@.len(),
    ensures
        r as int == le16(s@, p as int),
{
    // a Vec's length is a usize, so the index arithmetic below cannot overflow
    let n = s.len();
    assert(p < n);
    s[p] as u16 + (s[p + 1] as u16) * 256
}

/// Reads a little-endian 32-bit integer at `p`.
pub fn read_u32(s: &Vec<u8>, p: usize) -> (r: u32)
    requires
        p + 4 <= s@.len(),
    ensures
        r as int == le32(s@, p as int),
{
    // a Vec's length is a usize, so the index arithmetic below cannot overflow
    let n = s.len();
    assert(p < n);
    let lo = read_u16(s, p);
    let hi = read_u16(s, p + 2);
    lo as u32 + (hi as u32) * 65536
}

/// Reads a little-endian 64-bit integer at `p`.
pub fn read_u64(s: &Vec<u8>, p: usize) -> (r: u64)
    requires
        p + 8 <= s@.len(),
    ensures
        r as int == le64(s@, p as int),
{
    // a Vec's length is a usize, so the index arithmetic below cannot overflow
    let n = s.len();
    assert(p < n);
    let lo = read_u32(s, p);
    let hi = read_u32(s, p + 4);
    lo as u64 + (hi as u64) * 4294967296
}

/// Appends `x` in little-endian order.
pub fn push_u32(v: &mut Vec<u8>, x: u32)
    ensures
        final(v)@.len() == old(v)@.len() + 4,
        final(v)@.subrange(0, old(v)@.len() as int) == old(v)@,
        le32(final(v)@, old(v)@.len() as int) == x as int,
{
    let b0 = (x % 256) as u8;
    let b1 = ((x / 256) % 256) as u8;
    let b2 = ((x / 65536) % 256) as u8;
    let b3 = (x / 16777216) as u8;
    let ghost n = v@.len() as int;
    v.push(b0);
    v.push(b1);
    v.push(b2);
    v.push(b3);
    assert(final(v)@.subrange(0, n) =~= old(v)@);
}

/// The bytes of `s` from `a` up to, not including, `b`.
pub fn copy_range(s: &Vec<u8>, a: usize, b: usize) -> (r: Vec<u8>)
    requires
        a <= b <= s@.len(),
    ensures
        r@ == s@.subrange(a as int, b as int),
{
    let mut r: Vec<u8> = Vec::new();
    let mut i: usize = a;
    while i < b
        invariant
            a <= i <= b <= s@.len(),
            r@ == s@.subrange(a as int, i as int),
        decreases b - i,
    {
        r.push(s[i]);
        i = i + 1;
        assert(r@ =~= s@.subrange(a as int, i as int));
    }
    r
}

/// Whether every byte is ASCII.
pub open spec fn is_ascii(b: Seq<u8>) -> bool {
    forall|i: int| 0 <= i < b.len() ==> b[i] < 0x80
}

/// The characters of ASCII bytes, one for each byte.
pub open spec fn ascii_chars(b: Seq<u8>) -> Seq<char> {
    Seq::new(b.len(), |i: int| b[i] as char)
}

/// Relies on `String::from_utf8_lossy`: the text depends on the bytes alone,
/// and valid UTF-8, such as ASCII, comes back unchanged.
#[verifier::external_body]
pub(crate) fn text_of(b: &Vec<u8>) -> (r: String)
    ensures
        r@ == lossy_text(b@),
        is_ascii(b@) ==> r@ == ascii_chars(b@),
{
    String::from_utf8_lossy(b.as_slice()).into_owned()
}

/// The text of the bytes of `s` from `a` up to `e`: their characters where
/// they are ASCII, their lossy UTF-8 reading otherwise.
pub open spec fn text_at(s: Seq<u8>, a: int, e: int) -> Seq<char> {
    let b = s.subrange(a, e);
    if is_ascii(b) {
        ascii_chars(b)
    } else {
        lossy_text(b)
    }
}

/// The text of the zero-terminated string that starts at `a` and ends at `e`.
pub fn read_text(s: &Vec<u8>, a: usize, e: usize) -> (r: String)
    requires
        a <= e <= s@.len(),
    ensures
        r@ == text_at(s@, a as int, e as int),
{
    let b = copy_range(s, a, e);
    text_of(&b)
}

} // verus!
