//! Bytes on the wire: integers in both byte orders, and sequences of datagrams.

use vstd::prelude::*;

verus! {

/// The two bytes of `x`, least significant first.
pub open spec fn le16(x: u16) -> Seq<u8> {
    seq![(x % 256) as u8, (x / 256) as u8]
}

/// The two bytes of `x`, most significant first.
pub open spec fn be16(x: u16) -> Seq<u8> {
    seq![(x / 256) as u8, (x % 256) as u8]
}

/// The four bytes of `x`, least significant first.
pub open spec fn le32(x: u32) -> Seq<u8> {
    seq![
        (x % 256) as u8,
        (x / 0x100 % 256) as u8,
        (x / 0x10000 % 256) as u8,
        (x / 0x1000000) as u8,
    ]
}

/// The four bytes of `x`, most significant first.
pub open spec fn be32(x: u32) -> Seq<u8> {
    seq![
        (x / 0x1000000) as u8,
        (x / 0x10000 % 256) as u8,
        (x / 0x100 % 256) as u8,
        (x % 256) as u8,
    ]
}

/// The number whose bytes are `lo` and `hi`.
pub open spec fn join16(lo: u8, hi: u8) -> u16 {
    (lo + 256 * hi) as u16
}

/// The number whose bytes are `a`, `b`, `c` and `d`, most significant first.
pub open spec fn join32(a: u8, b: u8, c: u8, d: u8) -> u32 {
    (a * 0x1000000 + b * 0x10000 + c * 0x100 + d) as u32
}

/// The least significant byte of `x`.
pub fn low(x: u16) -> (b: u8)
    ensures
        b == x % 256,
{
    (x % 256) as u8
}

/// The most significant byte of `x`.
pub fn high(x: u16) -> (b: u8)
    ensures
        b == x / 256,
{
    (x / 256) as u8
}

/// The bytes of `x`, least significant first.
pub fn u32_to_le(x: u32) -> (bytes: [u8; 4])
    ensures
        bytes@ == le32(x),
{
    let bytes: [u8; 4] = [
        (x % 256) as u8,
        (x / 0x100 % 256) as u8,
        (x / 0x10000 % 256) as u8,
        (x / 0x1000000) as u8,
    ];
    assert(bytes@ =~= le32(x));
    bytes
}

/// The bytes of `x`, most significant first.
pub fn u32_to_be(x: u32) -> (bytes: [u8; 4])
    ensures
        bytes@ == be32(x),
{
    let bytes: [u8; 4] = [
        (x / 0x1000000) as u8,
        (x / 0x10000 % 256) as u8,
        (x / 0x100 % 256) as u8,
        (x % 256) as u8,
    ];
    assert(bytes@ =~= be32(x));
    bytes
}

/// The number whose bytes are `lo` and `hi`.
pub fn u16_from(lo: u8, hi: u8) -> (x: u16)
    ensures
        x == join16(lo, hi),
{
    lo as u16 + 256 * (hi as u16)
}

/// The number whose bytes are given, most significant first.
pub fn u32_from_be(a: u8, b: u8, c: u8, d: u8) -> (x: u32)
    ensures
        x == join32(a, b, c, d),
{
    a as u32 * 0x1000000 + b as u32 * 0x10000 + c as u32 * 0x100 + d as u32
}

/// Splitting a number into bytes and joining them again gives the number back.
pub proof fn joining_undoes_splitting(x: u16, y: u32)
    ensures
        join16(le16(x)[0], le16(x)[1]) == x,
        join16(be16(x)[1], be16(x)[0]) == x,
        join32(be32(y)[0], be32(y)[1], be32(y)[2], be32(y)[3]) == y,
        join32(le32(y)[3], le32(y)[2], le32(y)[1], le32(y)[0]) == y,
{
}

/// Joining bytes into a number and splitting it again gives the bytes back.
pub proof fn splitting_undoes_joining(a: u8, b: u8, c: u8, d: u8)
    ensures
        le16(join16(a, b)) == seq![a, b],
        be16(join16(a, b)) == seq![b, a],
        be32(join32(a, b, c, d)) == seq![a, b, c, d],
        le32(join32(a, b, c, d)) == seq![d, c, b, a],
{
    assert(le16(join16(a, b)) =~= seq![a, b]);
    assert(be16(join16(a, b)) =~= seq![b, a]);
    let y = join32(a, b, c, d);
    assert(y / 0x100 == a * 0x10000 + b * 0x100 + c && y % 256 == d);
    assert(y / 0x10000 == a * 0x100 + b);
    assert(y / 0x1000000 == a);
    assert(be32(y) =~= seq![a, b, c, d]);
    assert(le32(y) =~= seq![d, c, b, a]);
}

/// How far `b` lies ahead of `a` on the circle of 16-bit sequence numbers.
pub open spec fn ahead(a: u16, b: u16) -> int {
    (b - a) % 0x10000
}

/// The sequence number `k` places after `a`.
pub open spec fn after(a: u16, k: int) -> u16 {
    ((a + k) % 0x10000) as u16
}

/// A number reached by `k` steps lies `k` ahead, as long as the circle has not been closed.
pub proof fn after_is_ahead(a: u16, b: u16, k: int)
    ensures
        0 <= k < 0x10000 ==> ahead(a, after(a, k)) == k,
        after(a, ahead(a, b)) == b,
        0 <= ahead(a, b) < 0x10000,
{
}

/// Two numbers that lie equally far behind a third are the same.
pub proof fn equally_far_is_equal(a: u16, b: u16, c: u16)
    requires
        ahead(a, c) == ahead(b, c),
    ensures
        a == b,
{
}

/// The bytes of each datagram of a list.
pub open spec fn contents(list: Seq<Vec<u8>>) -> Seq<Seq<u8>> {
    Seq::new(list.len(), |i: int| list[i]@)
}

/// `n` bytes zero.
pub open spec fn zeros(n: nat) -> Seq<u8> {
    Seq::new(n, |i: int| 0u8)
}

/// Appends a slice to a vector of bytes.
pub fn append(v: &mut Vec<u8>, s: &[u8])
    ensures
        final(v)@ == old(v)@ + s@,
{
    v.extend_from_slice(s);
    assert(v@ =~= old(v)@ + s@);
}

/// Appends `n` bytes zero.
pub fn append_zeros(v: &mut Vec<u8>, n: usize)
    ensures
        final(v)@ == old(v)@ + zeros(n as nat),
{
    let mut i: usize = 0;
    assert(v@ + zeros(0) =~= v@);
    while i < n
        invariant
            i <= n,
            v@ == old(v)@ + zeros(i as nat),
        decreases n - i,
    {
        v.push(0);
        assert(v@ =~= old(v)@ + zeros((i + 1) as nat));
        i = i + 1;
    }
}

/// A copy of a datagram.
pub fn copy(p: &Vec<u8>) -> (q: Vec<u8>)
    ensures
        q@ == p@,
{
    let q = p.clone();
    assert(q@ =~= p@);
    q
}

/// A list that holds the same datagram twice.
pub fn twice(p: Vec<u8>) -> (list: Vec<Vec<u8>>)
    ensures
        contents(list@) == seq![p@, p@],
{
    let mut list: Vec<Vec<u8>> = Vec::new();
    list.push(copy(&p));
    list.push(p);
    assert(contents(list@) =~= seq![p@, p@]);
    list
}

/// Moves the datagrams of `more` to the end of `list`.
pub fn append_all(list: &mut Vec<Vec<u8>>, more: Vec<Vec<u8>>)
    ensures
        contents(final(list)@) == contents(old(list)@) + contents(more@),
{
    let mut more = more;
    let ghost given = more@;
    list.append(&mut more);
    assert(contents(list@) =~= contents(old(list)@) + contents(given));
}

/// Whether `r` begins with `prefix`.
pub fn starts_with(r: &[u8], prefix: &[u8]) -> (b: bool)
    ensures
        b == prefix@.is_prefix_of(r@),
{
    if prefix.len() > r.len() {
        return false;
    }
    let mut i: usize = 0;
    while i < prefix.len()
        invariant
            i <= prefix.len() <= r.len(),
            forall|k: int| 0 <= k < i ==> r@[k] == #[trigger] prefix@[k],
        decreases prefix.len() - i,
    {
        if r[i] != prefix[i] {
            assert(r@.take(prefix@.len() as int)[i as int] != prefix@[i as int]);
            return false;
        }
        i = i + 1;
    }
    assert(r@.take(prefix@.len() as int) =~= prefix@);
    true
}

/// Whether two slices hold the same bytes.
pub fn same_bytes(a: &[u8], b: &[u8]) -> (e: bool)
    ensures
        e == (a@ == b@),
{
    if a.len() != b.len() {
        return false;
    }
    let e = starts_with(a, b);
    assert(a@.take(b@.len() as int) == a@);
    e
}

/// A copy of the bytes of `r` from `from` up to `to`.
pub fn slice_of(r: &[u8], from: usize, to: usize) -> (v: Vec<u8>)
    requires
        from <= to <= r@.len(),
    ensures
        v@ == r@.subrange(from as int, to as int),
{
    vstd::slice::slice_to_vec(vstd::slice::slice_subrange(r, from, to))
}

/// What the bytes of a number are worth: the least significant one counts for itself, each further
/// one 256 times as much as the one before.
pub proof fn bytes_have_their_weight(x: u16, y: u32)
    ensures
        le16(x).len() == 2,
        le16(x)[0] + 0x100 * le16(x)[1] == x,
        be16(x).len() == 2,
        0x100 * be16(x)[0] + be16(x)[1] == x,
        le32(y).len() == 4,
        le32(y)[0] + 0x100 * le32(y)[1] + 0x1_0000 * le32(y)[2] + 0x100_0000 * le32(y)[3] == y,
        be32(y).len() == 4,
        0x100_0000 * be32(y)[0] + 0x1_0000 * be32(y)[1] + 0x100 * be32(y)[2] + be32(y)[3] == y,
{
}

/// A number read from its bytes is their weighted sum.
pub proof fn joined_bytes_are_summed(a: u8, b: u8, c: u8, d: u8)
    ensures
        join16(a, b) == a + 0x100 * b,
        join32(a, b, c, d) == 0x100_0000 * a + 0x1_0000 * b + 0x100 * c + d,
{
}

/// Sequence numbers run in a circle: 0 follows 65535.
pub proof fn numbers_run_in_a_circle(a: u16, b: u16, k: nat)
    ensures
        after(a, 0) == a,
        a < 65535 ==> after(a, 1) == a + 1,
        after(65535, 1) == 0,
        after(after(a, k as int), 1) == after(a, k as int + 1),
        a <= b ==> ahead(a, b) == b - a,
        a > b ==> ahead(a, b) == 65536 - (a - b),
{
}

/// A list of datagrams holds the bytes of each one, in order.
pub proof fn contents_keep_the_order(list: Seq<Vec<u8>>, i: int)
    requires
        0 <= i < list.len(),
    ensures
        contents(list).len() == list.len(),
        contents(list)[i] == list[i]@,
{
}

/// Zeros are as many as asked for.
pub proof fn zeros_are_zero(n: nat, i: int)
    ensures
        zeros(n).len() == n,
        0 <= i < n ==> zeros(n)[i] == 0,
{
}

} // verus!
