//! Wire-compatible network address types.
//!
//! The foreign runtime on the other side of the bus stores an IP address as
//! a raw byte buffer: 4 bytes, or 16 bytes that may still hold an IPv4
//! address in its mapped form (ten zero bytes, then `0xFF 0xFF`, then the
//! four address bytes). A netmask travels as a byte buffer whose bits are a
//! run of ones from the most significant end, cut after the last used byte.
//! This module decodes those buffers, rebuilds masks from prefix lengths
//! bit-for-bit as the peer does, and renders the canonical text forms.

use vstd::prelude::*;
use vstd::string::*;
use crate::text::{dec_u64, hex_u16, spec_dec, spec_hex};

verus! {

/// A decoded address: either the 4-byte family or the 16-byte family,
/// the latter held as its eight 16-bit groups.
pub enum Address {
    V4(u8, u8, u8, u8),
    V6(Vec<u16>),
}

/// The first 16 bytes of `b`, zero-padded when `b` is shorter.
pub open spec fn spec_padded16(b: Seq<u8>) -> Seq<u8> {
    Seq::new(16, |i: int| if i < b.len() { b[i] } else { 0u8 })
}

/// A 16-byte buffer holds an IPv4 address in its mapped form: ten zero
/// bytes, then `0xFF 0xFF`, then the address.
pub open spec fn spec_is_mapped16(p: Seq<u8>) -> bool {
    (forall|i: int| 0 <= i < 10 ==> p[i] == 0) && p[10] == 0xff && p[11] == 0xff
}

/// The eight big-endian 16-bit groups of a 16-byte buffer.
pub open spec fn spec_groups(p: Seq<u8>) -> Seq<u16> {
    Seq::new(8, |i: int| (p[2 * i] * 256 + p[2 * i + 1]) as u16)
}

/// Decimal dotted-quad text of a 4-byte address.
pub open spec fn spec_v4_text(a: u8, b: u8, c: u8, d: u8) -> Seq<char> {
    spec_dec(a as nat) + seq!['.'] + spec_dec(b as nat) + seq!['.'] + spec_dec(c as nat)
        + seq!['.'] + spec_dec(d as nat)
}

/// The zero-run scanner's state after looking at the first `k` groups:
/// start and length of the longest run of zero groups seen, then start and
/// length of the run under construction. The first longest run wins ties.
pub open spec fn spec_run_state(g: Seq<u16>, k: nat) -> (int, int, int, int)
    decreases k,
{
    if k == 0 {
        (0, 0, 0, 0)
    } else {
        let (ls, ll, cs, cl) = spec_run_state(g, (k - 1) as nat);
        if g[k - 1] == 0 {
            let ncs = if cl == 0 { k - 1 } else { cs };
            let ncl = cl + 1;
            if ncl > ll {
                (ncs, ncl, ncs, ncl)
            } else {
                (ls, ll, ncs, ncl)
            }
        } else {
            (ls, ll, cs, 0)
        }
    }
}

/// The scanner's runs lie inside the prefix it has looked at.
pub proof fn lemma_run_state_bounds(g: Seq<u16>, k: nat)
    ensures
        ({
            let (ls, ll, cs, cl) = spec_run_state(g, k);
            0 <= ls && 0 <= ll && ls + ll <= k && 0 <= cs && 0 <= cl && cs + cl <= k
        }),
    decreases k,
{
    if k > 0 {
        lemma_run_state_bounds(g, (k - 1) as nat);
    }
}

/// Every group with index in `[a, b)` is zero.
pub open spec fn spec_all_zero(g: Seq<u16>, a: int, b: int) -> bool {
    forall|j: int| a <= j < b ==> g[j] == 0
}

/// What the scanner finds is sound: its longest run and its current run
/// hold only zero groups, the current run is the maximal zero suffix of
/// the scanned prefix, and no zero run in that prefix is longer than the
/// longest found.
pub proof fn lemma_run_state_sound(g: Seq<u16>, k: nat)
    ensures
        ({
            let (ls, ll, cs, cl) = spec_run_state(g, k);
            &&& spec_all_zero(g, ls, ls + ll)
            &&& spec_all_zero(g, cs, cs + cl)
            &&& cl <= ll
            &&& (cl > 0 ==> cs + cl == k && (cs == 0 || g[cs - 1] != 0))
            &&& (cl == 0 ==> k == 0 || g[k - 1] != 0)
            &&& forall|a: int, b: int|
                0 <= a <= b <= k && #[trigger] spec_all_zero(g, a, b) ==> b - a <= ll
        }),
    decreases k,
{
    if k == 0 {
        assert(forall|a: int, b: int|
            0 <= a <= b <= 0 && #[trigger] spec_all_zero(g, a, b) ==> b - a <= 0);
    } else {
        lemma_run_state_sound(g, (k - 1) as nat);
        lemma_run_state_bounds(g, (k - 1) as nat);
        let (ls0, ll0, cs0, cl0) = spec_run_state(g, (k - 1) as nat);
        let (ls, ll, cs, cl) = spec_run_state(g, k);
        if g[k - 1] == 0 {
            assert(spec_all_zero(g, cs, cs + cl));
            assert forall|a: int, b: int|
                0 <= a <= b <= k && #[trigger] spec_all_zero(g, a, b) implies b - a <= ll by {
                if b == k && a < b {
                    if a < cs {
                        assert(g[cs - 1] == 0);
                        assert(false);
                    }
                    assert(b - a <= cl);
                }
            }
        } else {
            assert forall|a: int, b: int|
                0 <= a <= b <= k && #[trigger] spec_all_zero(g, a, b) implies b - a <= ll by {
                if b == k && a < b {
                    assert(g[k - 1] == 0);
                    assert(false);
                }
            }
        }
    }
}

/// What the scanner finds is the first of the longest runs: no zero run
/// of the same length starts earlier.
pub proof fn lemma_run_state_first(g: Seq<u16>, k: nat)
    ensures
        ({
            let (ls, ll, _cs, _cl) = spec_run_state(g, k);
            &&& (ll == 0 ==> ls == 0)
            &&& forall|a: int| 0 <= a < ls ==> !(#[trigger] spec_all_zero(g, a, a + ll))
        }),
    decreases k,
{
    if k > 0 {
        lemma_run_state_first(g, (k - 1) as nat);
        lemma_run_state_sound(g, (k - 1) as nat);
        lemma_run_state_bounds(g, (k - 1) as nat);
        let (ls0, ll0, cs0, cl0) = spec_run_state(g, (k - 1) as nat);
        let (ls, ll, cs, cl) = spec_run_state(g, k);
        if g[k - 1] == 0 && cl > ll0 {
            // The grown current run became the longest; a run of its
            // length starting earlier would already have been longest
            // in the shorter prefix.
            assert forall|a: int| 0 <= a < ls implies !(#[trigger] spec_all_zero(
                g,
                a,
                a + ll,
            )) by {
                if spec_all_zero(g, a, a + ll) {
                    // The run ends before the current one does, so it lies
                    // inside the shorter prefix, where nothing is longer
                    // than the old longest length — yet this one is.
                    assert(a + ll < cs + cl);
                    assert(ll <= ll0);
                    assert(false);
                }
            }
        }
    }
}

/// Colon-separated lower-case hexadecimal text of the groups `g`;
/// empty for no groups.
pub open spec fn spec_join(g: Seq<u16>) -> Seq<char>
    decreases g.len(),
{
    if g.len() == 0 {
        Seq::empty()
    } else if g.len() == 1 {
        spec_hex(g[0] as nat)
    } else {
        spec_join(g.drop_last()) + seq![':'] + spec_hex(g.last() as nat)
    }
}

/// Canonical text of a 16-byte-family address given as groups: each group
/// in lower-case hexadecimal without leading zeroes, the first longest run
/// of two or more zero groups compressed to `::`.
pub open spec fn spec_v6_text(g: Seq<u16>) -> Seq<char> {
    let (ls, ll, _cs, _cl) = spec_run_state(g, g.len());
    if ll > 1 {
        spec_join(g.take(ls)) + seq![':', ':'] + spec_join(g.skip(ls + ll))
    } else {
        spec_join(g)
    }
}

/// Canonical text of a decoded address.
pub open spec fn spec_address_text(a: Address) -> Seq<char> {
    match a {
        Address::V4(x, y, z, w) => spec_v4_text(x, y, z, w),
        Address::V6(g) => spec_v6_text(g@),
    }
}

/// Canonical text of a raw address buffer: a 4-byte buffer is the 4-byte
/// family; anything else is padded or cut to 16 bytes, and the mapped form
/// is shown as its 4-byte address.
pub open spec fn spec_ip_text(b: Seq<u8>) -> Seq<char> {
    if b.len() == 4 {
        spec_v4_text(b[0], b[1], b[2], b[3])
    } else {
        let p = spec_padded16(b);
        if spec_is_mapped16(p) {
            spec_v4_text(p[12], p[13], p[14], p[15])
        } else {
            spec_v6_text(spec_groups(p))
        }
    }
}

/// Decodes a raw buffer as the foreign runtime means it: 4 bytes are the
/// 4-byte family; anything else is padded or cut to 16 bytes, and the
/// mapped form is normalized to the 4-byte family. Never fails.
pub fn decode_address(buf: &Vec<u8>) -> (r: Address)
    ensures
        buf@.len() == 4 ==> r == Address::V4(buf@[0], buf@[1], buf@[2], buf@[3]),
        buf@.len() != 4 && spec_is_mapped16(spec_padded16(buf@)) ==> r == Address::V4(
            spec_padded16(buf@)[12],
            spec_padded16(buf@)[13],
            spec_padded16(buf@)[14],
            spec_padded16(buf@)[15],
        ),
        buf@.len() != 4 && !spec_is_mapped16(spec_padded16(buf@)) ==> (r matches Address::V6(g)
            && g@ == spec_groups(spec_padded16(buf@))),
{
    let n = buf.len();
    if n == 4 {
        return Address::V4(buf[0], buf[1], buf[2], buf[3]);
    }
    let ghost pd = spec_padded16(buf@);
    let mut p: Vec<u8> = Vec::new();
    let mut i: usize = 0;
    while i < 16
        invariant
            0 <= i <= 16,
            pd == spec_padded16(buf@),
            p@ =~= pd.take(i as int),
        decreases 16 - i,
    {
        if i < buf.len() {
            let b = buf[i];
            p.push(b);
        } else {
            p.push(0);
        }
        i = i + 1;
    }
    proof {
        assert(p@ =~= pd);
    }
    let mut zeros = true;
    let mut j: usize = 0;
    while j < 10
        invariant
            0 <= j <= 10,
            p@ == pd,
            pd.len() == 16,
            zeros == (forall|k: int| 0 <= k < j ==> pd[k] == 0),
        decreases 10 - j,
    {
        if p[j] != 0 {
            zeros = false;
        }
        j = j + 1;
    }
    if zeros && p[10] == 0xff && p[11] == 0xff {
        Address::V4(p[12], p[13], p[14], p[15])
    } else {
        let mut g: Vec<u16> = Vec::new();
        let mut k: usize = 0;
        while k < 8
            invariant
                0 <= k <= 8,
                p@ == pd,
                pd.len() == 16,
                g@ =~= spec_groups(pd).take(k as int),
            decreases 8 - k,
        {
            let hi = p[2 * k] as u16;
            let lo = p[2 * k + 1] as u16;
            g.push(hi * 256 + lo);
            k = k + 1;
        }
        proof {
            assert(g@ =~= spec_groups(pd));
        }
        Address::V6(g)
    }
}

/// Appends one period.
fn append_dot(s: &mut String)
    ensures
        final(s)@ == old(s)@ + seq!['.'],
{
    proof {
        reveal_strlit(".");
    }
    s.append(".");
}

/// Dotted-quad rendering of a 4-byte address.
fn v4_text(a: u8, b: u8, c: u8, d: u8) -> (r: String)
    ensures
        r@ == spec_v4_text(a, b, c, d),
{
    let mut s = dec_u64(a as u64);
    append_dot(&mut s);
    let t = dec_u64(b as u64);
    s.append(t.as_str());
    append_dot(&mut s);
    let t = dec_u64(c as u64);
    s.append(t.as_str());
    append_dot(&mut s);
    let t = dec_u64(d as u64);
    s.append(t.as_str());
    s
}

/// Colon-separated hexadecimal rendering of `g[from..to]`.
fn join_range(g: &Vec<u16>, from: usize, to: usize) -> (r: String)
    requires
        from <= to <= g@.len(),
    ensures
        r@ == spec_join(g@.subrange(from as int, to as int)),
{
    let mut s = String::new();
    let mut j: usize = from;
    while j < to
        invariant
            from <= j <= to <= g@.len(),
            s@ == spec_join(g@.subrange(from as int, j as int)),
        decreases to - j,
    {
        if j > from {
            proof {
                reveal_strlit(":");
            }
            s.append(":");
        }
        let t = hex_u16(g[j]);
        s.append(t.as_str());
        proof {
            assert(g@.subrange(from as int, j as int + 1).drop_last() =~= g@.subrange(
                from as int,
                j as int,
            ));
            assert(g@.subrange(from as int, j as int + 1).last() == g@[j as int]);
            if j == from {
                assert(g@.subrange(from as int, j as int + 1).len() == 1);
            }
        }
        j = j + 1;
    }
    proof {
        if from == to {
            assert(g@.subrange(from as int, to as int).len() == 0);
        }
    }
    s
}

impl Address {
    /// Canonical text of this address.
    pub fn to_text(&self) -> (r: String)
        ensures
            r@ == spec_address_text(*self),
    {
        match self {
            Address::V4(a, b, c, d) => v4_text(*a, *b, *c, *d),
            Address::V6(g) => {
                let n = g.len();
                let mut ls: usize = 0;
                let mut ll: usize = 0;
                let mut cs: usize = 0;
                let mut cl: usize = 0;
                let mut k: usize = 0;
                while k < n
                    invariant
                        0 <= k <= n,
                        n == g@.len(),
                        cl <= k && ll <= k,
                        spec_run_state(g@, k as nat) == (ls as int, ll as int, cs as int,
                        cl as int),
                    decreases n - k,
                {
                    if g[k] == 0 {
                        if cl == 0 {
                            cs = k;
                        }
                        cl = cl + 1;
                        if cl > ll {
                            ls = cs;
                            ll = cl;
                        }
                    } else {
                        cl = 0;
                    }
                    k = k + 1;
                }
                proof {
                    lemma_run_state_bounds(g@, n as nat);
                }
                if ll > 1 {
                    let mut s = join_range(g, 0, ls);
                    proof {
                        reveal_strlit("::");
                        assert("::"@ =~= seq![':', ':']);
                        assert(g@.subrange(0, ls as int) =~= g@.take(ls as int));
                    }
                    s.append("::");
                    let t = join_range(g, ls + ll, n);
                    proof {
                        assert(g@.subrange(ls as int + ll as int, n as int) =~= g@.skip(
                            ls as int + ll as int,
                        ));
                    }
                    s.append(t.as_str());
                    s
                } else {
                    let s = join_range(g, 0, n);
                    proof {
                        assert(g@.subrange(0, n as int) =~= g@);
                    }
                    s
                }
            },
        }
    }
}

/// A raw IP buffer as the foreign runtime hands it over. A 16-byte buffer
/// does not imply a true 16-byte-family address: the mapped form still
/// holds a 4-byte address, and decoding interprets the bytes, not the
/// length alone.
pub struct IP {
    pub bytes: Vec<u8>,
}

impl View for IP {
    type V = Seq<u8>;

    open spec fn view(&self) -> Seq<u8> {
        self.bytes@
    }
}

impl IP {
    /// Decodes the buffer into an address value.
    pub fn address(&self) -> (r: Address)
        ensures
            self@.len() == 4 ==> r == Address::V4(self@[0], self@[1], self@[2], self@[3]),
            self@.len() != 4 ==> (if spec_is_mapped16(spec_padded16(self@)) {
                r == Address::V4(
                    spec_padded16(self@)[12],
                    spec_padded16(self@)[13],
                    spec_padded16(self@)[14],
                    spec_padded16(self@)[15],
                )
            } else {
                r matches Address::V6(g) && g@ == spec_groups(spec_padded16(self@))
            }),
    {
        decode_address(&self.bytes)
    }

    /// Canonical text of the decoded address.
    pub fn to_text(&self) -> (r: String)
        ensures
            r@ == spec_ip_text(self@),
    {
        let a = self.address();
        a.to_text()
    }
}

/// How many mask bits one byte contributes, counted as the byte-shift
/// loop does: shift left until the byte is zero. For a byte with its ones
/// packed at the most significant end this is the number of ones; in
/// general it is eight minus the number of trailing zero bits, and zero
/// for a zero byte.
pub open spec fn spec_byte_bits(x: u8) -> nat {
    if x == 0 { 0 }
    else if x % 2 == 1 { 8 }
    else if x % 4 == 2 { 7 }
    else if x % 8 == 4 { 6 }
    else if x % 16 == 8 { 5 }
    else if x % 32 == 16 { 4 }
    else if x % 64 == 32 { 3 }
    else if x % 128 == 64 { 2 }
    else { 1 }
}

/// Total mask bits of a byte sequence: the per-byte counts summed.
pub open spec fn spec_mask_bits(m: Seq<u8>) -> nat
    decreases m.len(),
{
    if m.len() == 0 {
        0
    } else {
        spec_mask_bits(m.drop_last()) + spec_byte_bits(m.last())
    }
}

/// The byte whose top `r` bits are ones and the rest zero (`r <= 8`).
pub open spec fn spec_top_ones(r: nat) -> u8 {
    if r == 0 { 0 }
    else if r == 1 { 0x80 }
    else if r == 2 { 0xc0 }
    else if r == 3 { 0xe0 }
    else if r == 4 { 0xf0 }
    else if r == 5 { 0xf8 }
    else if r == 6 { 0xfc }
    else if r == 7 { 0xfe }
    else { 0xff }
}

/// Byte `i` of the mask for prefix length `n`: saturated while eight or
/// more bits remain, else the leftover bits left-justified.
pub open spec fn spec_mask_byte(n: nat, i: int) -> u8 {
    if n >= 8 * (i + 1) {
        0xff
    } else {
        spec_top_ones((n - 8 * i) as nat)
    }
}

/// The mask bytes for prefix length `n`: `ceil(n / 8)` bytes, no trailing
/// zero byte, the last byte holding the leftover bits left-justified.
pub open spec fn spec_mask_from_bits(n: nat) -> Seq<u8> {
    Seq::new((n + 7) / 8, |i: int| spec_mask_byte(n, i))
}

/// A netmask as a raw byte buffer: a run of one bits from the most
/// significant end, stored without trailing zero bytes.
pub struct IPMask {
    pub bytes: Vec<u8>,
}

impl View for IPMask {
    type V = Seq<u8>;

    open spec fn view(&self) -> Seq<u8> {
        self.bytes@
    }
}

impl Default for IPMask {
    /// The empty mask, worth zero bits.
    fn default() -> (r: Self)
        ensures
            r@.len() == 0,
    {
        IPMask { bytes: Vec::new() }
    }
}

/// Mask bits of one byte, by shifting left while anything is set.
fn byte_bits(x: u8) -> (r: u8)
    ensures
        r as nat == spec_byte_bits(x),
        r <= 8,
{
    let mut v = x;
    let mut c: u8 = 0;
    while v > 0
        invariant
            c <= 8,
            c as nat + spec_byte_bits(v) == spec_byte_bits(x),
            spec_byte_bits(v) + c <= 8,
        decreases spec_byte_bits(v),
    {
        let w = v << 1u8;
        proof {
            assert(v != 0 ==> spec_byte_bits(v) == 1 + spec_byte_bits((v << 1u8) as u8))
                by (bit_vector);
        }
        v = w;
        c = c + 1;
    }
    c
}

impl IPMask {
    /// The prefix length this mask encodes: the per-byte shift counts
    /// summed. A non-canonical mask (ones not packed at the most
    /// significant end) is not rejected: its per-byte counts are summed
    /// all the same, matching the foreign peer's permissive counting.
    pub fn bits(&self) -> (r: u8)
        requires
            self@.len() <= 16,
        ensures
            r as nat == spec_mask_bits(self@),
    {
        let mut size: u8 = 0;
        let mut i: usize = 0;
        let n = self.bytes.len();
        while i < n
            invariant
                0 <= i <= n,
                n == self@.len() <= 16,
                size as nat == spec_mask_bits(self@.take(i as int)),
                size as nat <= 8 * i,
            decreases n - i,
        {
            let b = byte_bits(self.bytes[i]);
            proof {
                assert(self@.take(i as int + 1).drop_last() =~= self@.take(i as int));
                assert(self@.take(i as int + 1).last() == self@[i as int]);
            }
            size = size + b;
            i = i + 1;
        }
        proof {
            assert(self@.take(n as int) =~= self@);
        }
        size
    }

    /// Builds the mask for prefix length `size` exactly as the foreign
    /// peer does: place bits one at a time, appending a fresh byte only
    /// when the current byte saturates and more bits remain. Zero bits
    /// give an empty buffer.
    pub fn from(size: u8) -> (r: Self)
        ensures
            r@ == spec_mask_from_bits(size as nat),
    {
        if size == 0 {
            proof {
                assert(spec_mask_from_bits(0) =~= Seq::<u8>::empty());
            }
            return IPMask { bytes: Vec::new() };
        }
        let mut v: Vec<u8> = Vec::new();
        v.push(0);
        let mut index: usize = 0;
        let mut i: u8 = 0;
        proof {
            assert(v@ =~= spec_mask_from_bits(0).push(0));
        }
        while i < size
            invariant
                0 < size,
                i <= size,
                1 <= v@.len(),
                index as int == v@.len() - 1,
                if i % 8 == 0 && i < size {
                    v@ =~= spec_mask_from_bits(i as nat).push(0)
                } else {
                    v@ =~= spec_mask_from_bits(i as nat)
                },
            decreases size - i,
        {
            let ghost rr = i as int % 8;
            let cur = v[index];
            v[index] = (cur >> 1u8) | 0x80;
            proof {
                assert((0u8 >> 1u8) | 0x80u8 == 0x80u8) by (bit_vector);
                assert((0x80u8 >> 1u8) | 0x80u8 == 0xc0u8) by (bit_vector);
                assert((0xc0u8 >> 1u8) | 0x80u8 == 0xe0u8) by (bit_vector);
                assert((0xe0u8 >> 1u8) | 0x80u8 == 0xf0u8) by (bit_vector);
                assert((0xf0u8 >> 1u8) | 0x80u8 == 0xf8u8) by (bit_vector);
                assert((0xf8u8 >> 1u8) | 0x80u8 == 0xfcu8) by (bit_vector);
                assert((0xfcu8 >> 1u8) | 0x80u8 == 0xfeu8) by (bit_vector);
                assert((0xfeu8 >> 1u8) | 0x80u8 == 0xffu8) by (bit_vector);
                assert(spec_top_ones((rr + 1) as nat) == ((spec_top_ones(rr as nat) >> 1u8)
                    | 0x80u8));
                assert(v@ =~= spec_mask_from_bits((i + 1) as nat));
            }
            if v[index] == 0xff && i < size - 1 {
                v.push(0);
                index = index + 1;
                proof {
                    assert((i + 1) % 8 == 0);
                    assert(v@ =~= spec_mask_from_bits((i + 1) as nat).push(0));
                }
            }
            i = i + 1;
        }
        IPMask { bytes: v }
    }
}

/// Round trip of the mask codec: for any prefix length up to the width of
/// the 16-byte family, building the mask and counting its bits gives the
/// length back.
pub proof fn lemma_mask_round_trip(n: nat)
    requires
        n <= 128,
    ensures
        spec_mask_bits(spec_mask_from_bits(n)) == n,
    decreases n,
{
    if n == 0 {
        assert(spec_mask_from_bits(0) =~= Seq::<u8>::empty());
    } else {
        let m = spec_mask_from_bits(n);
        let len = (n + 7) / 8;
        let prev = 8 * (len - 1);
        assert(m.drop_last() =~= spec_mask_from_bits(prev as nat));
        lemma_mask_round_trip(prev as nat);
        let r = (n - prev) as nat;
        assert(1 <= r <= 8);
        assert(spec_byte_bits(spec_top_ones(r)) == r);
        assert(m.last() == spec_mask_byte(n, len - 1));
    }
}

/// An address buffer and a mask buffer, as a composite record travels on
/// the wire.
pub struct IPNet {
    pub ip: IP,
    pub mask: IPMask,
}

impl IPNet {
    /// Canonical text of the range: the decoded address, a slash, the
    /// prefix length.
    pub fn to_string(&self) -> (r: String)
        requires
            self.mask@.len() <= 16,
        ensures
            r@ == spec_ip_text(self.ip@) + seq!['/'] + spec_dec(spec_mask_bits(self.mask@)),
    {
        let mut s = self.ip.to_text();
        proof {
            reveal_strlit("/");
        }
        s.append("/");
        let b = self.mask.bits();
        let t = dec_u64(b as u64);
        s.append(t.as_str());
        s
    }
}

} // verus!
