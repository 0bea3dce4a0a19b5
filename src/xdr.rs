use vstd::prelude::*;
use crate::types::Address;

verus! {

/// The big-endian value of the first `n` bytes of `s`.
pub open spec fn be_u128(s: Seq<u8>, n: nat) -> u128
    decreases n,
{
    if n == 0 {
        0
    } else {
        ((be_u128(s, (n - 1) as nat) << 8u128) | (s[n - 1] as u128)) as u128
    }
}

/// The `k`-th byte, most significant first, of the 16 bytes of `x`.
pub open spec fn byte_of(x: u128, k: int) -> u8 {
    ((x >> ((8 * (15 - k)) as u128)) & 0xffu128) as u8
}

/// The 16 bytes of `x`, most significant first.
pub open spec fn be_bytes(x: u128) -> Seq<u8> {
    Seq::new(16, |k: int| byte_of(x, k))
}

/// Whether `s` holds, from `at` on, the 32-bit big-endian encoding of
/// `word`, a value below 256.
pub open spec fn has_word(s: Seq<u8>, at: int, word: u32) -> bool {
    &&& s[at] == 0
    &&& s[at + 1] == 0
    &&& s[at + 2] == 0
    &&& s[at + 3] as u32 == word
}

/// The XDR tag of an address value.
pub const SCV_ADDRESS: u8 = 18;

/// The address that XDR bytes encode: an address value (tag 18) holding
/// either an account (address type 0, key type 0 for ed25519, then the
/// 32-byte key) or a contract (address type 1, then the 32-byte hash).
pub open spec fn spec_from_xdr(b: Seq<u8>) -> Option<Address> {
    if b.len() == 44 && has_word(b, 0, 18) && has_word(b, 4, 0) && has_word(b, 8, 0) {
        Some(
            Address {
                is_contract: false,
                high: be_u128(b.subrange(12, 28), 16),
                low: be_u128(b.subrange(28, 44), 16),
            },
        )
    } else if b.len() == 40 && has_word(b, 0, 18) && has_word(b, 4, 1) {
        Some(
            Address {
                is_contract: true,
                high: be_u128(b.subrange(8, 24), 16),
                low: be_u128(b.subrange(24, 40), 16),
            },
        )
    } else {
        None
    }
}

fn read_u128(b: &[u8], start: usize) -> (r: u128)
    requires
        start + 16 <= b@.len(),
    ensures
        r == be_u128(b@.subrange(start as int, start + 16), 16),
{
    let ghost s = b@.subrange(start as int, start + 16);
    let n: usize = b.len();
    let mut acc: u128 = 0;
    let mut i: usize = 0;
    while i < 16
        invariant
            n == b@.len(),
            start + 16 <= n,
            s == b@.subrange(start as int, start + 16),
            i <= 16,
            acc == be_u128(s, i as nat),
        decreases 16 - i,
    {
        assert(s[i as int] == b@[start + i]);
        acc = (acc << 8u128) | (b[start + i] as u128);
        i += 1;
    }
    acc
}

fn write_u128(out: &mut Vec<u8>, x: u128)
    ensures
        final(out)@ == old(out)@ + be_bytes(x),
{
    let ghost start = out@;
    let mut k: usize = 0;
    while k < 16
        invariant
            k <= 16,
            out@ == start + be_bytes(x).subrange(0, k as int),
        decreases 16 - k,
    {
        let shift: u128 = (8 * (15 - k)) as u128;
        out.push(((x >> shift) & 0xff) as u8);
        assert(be_bytes(x).subrange(0, k + 1) =~= be_bytes(x).subrange(0, k as int).push(byte_of(x, k as int)));
        k += 1;
    }
    assert(be_bytes(x).subrange(0, 16) =~= be_bytes(x));
}

fn write_word(out: &mut Vec<u8>, word: u8)
    ensures
        final(out)@ == old(out)@ + seq![0u8, 0u8, 0u8, word],
{
    out.push(0);
    out.push(0);
    out.push(0);
    out.push(word);
    assert(final(out)@ =~= old(out)@ + seq![0u8, 0u8, 0u8, word]);
}

proof fn lemma_low_byte(v: u128)
    ensures
        ((v & 0xffu128) as u8) as u128 == v & 0xffu128,
{
    assert(((v & 0xffu128) as u8) as u128 == v & 0xffu128) by (bit_vector);
}

/// Reading back the 16 bytes of `x` gives `x`.
pub proof fn lemma_be_round_trip(x: u128)
    ensures
        be_u128(be_bytes(x), 16) == x,
{
    let s = be_bytes(x);
    reveal_with_fuel(be_u128, 17);
    lemma_low_byte(x >> 120u128);
    assert(s[0] as u128 == (x >> 120u128) & 0xffu128);
    lemma_low_byte(x >> 112u128);
    assert(s[1] as u128 == (x >> 112u128) & 0xffu128);
    lemma_low_byte(x >> 104u128);
    assert(s[2] as u128 == (x >> 104u128) & 0xffu128);
    lemma_low_byte(x >> 96u128);
    assert(s[3] as u128 == (x >> 96u128) & 0xffu128);
    lemma_low_byte(x >> 88u128);
    assert(s[4] as u128 == (x >> 88u128) & 0xffu128);
    lemma_low_byte(x >> 80u128);
    assert(s[5] as u128 == (x >> 80u128) & 0xffu128);
    lemma_low_byte(x >> 72u128);
    assert(s[6] as u128 == (x >> 72u128) & 0xffu128);
    lemma_low_byte(x >> 64u128);
    assert(s[7] as u128 == (x >> 64u128) & 0xffu128);
    lemma_low_byte(x >> 56u128);
    assert(s[8] as u128 == (x >> 56u128) & 0xffu128);
    lemma_low_byte(x >> 48u128);
    assert(s[9] as u128 == (x >> 48u128) & 0xffu128);
    lemma_low_byte(x >> 40u128);
    assert(s[10] as u128 == (x >> 40u128) & 0xffu128);
    lemma_low_byte(x >> 32u128);
    assert(s[11] as u128 == (x >> 32u128) & 0xffu128);
    lemma_low_byte(x >> 24u128);
    assert(s[12] as u128 == (x >> 24u128) & 0xffu128);
    lemma_low_byte(x >> 16u128);
    assert(s[13] as u128 == (x >> 16u128) & 0xffu128);
    lemma_low_byte(x >> 8u128);
    assert(s[14] as u128 == (x >> 8u128) & 0xffu128);
    lemma_low_byte(x >> 0u128);
    assert(s[15] as u128 == (x >> 0u128) & 0xffu128);
    assert(((((((((((((((((((((((((((((((((0u128 << 8u128) | ((x >> 120u128) & 0xffu128)) << 8u128) | ((
    x >> 112u128) & 0xffu128)) << 8u128) | ((x >> 104u128) & 0xffu128)) << 8u128) | ((x >> 96u128)
        & 0xffu128)) << 8u128) | ((x >> 88u128) & 0xffu128)) << 8u128) | ((x >> 80u128) & 0xffu128))
        << 8u128) | ((x >> 72u128) & 0xffu128)) << 8u128) | ((x >> 64u128) & 0xffu128)) << 8u128) | ((x
        >> 56u128) & 0xffu128)) << 8u128) | ((x >> 48u128) & 0xffu128)) << 8u128) | ((x >> 40u128)
        & 0xffu128)) << 8u128) | ((x >> 32u128) & 0xffu128)) << 8u128) | ((x >> 24u128) & 0xffu128))
        << 8u128) | ((x >> 16u128) & 0xffu128)) << 8u128) | ((x >> 8u128) & 0xffu128)) << 8u128) | ((x
        >> 0u128) & 0xffu128)) == x) by (bit_vector);
}

fn read_word(b: &[u8], at: usize, word: u8) -> (r: bool)
    requires
        at + 4 <= b@.len(),
    ensures
        r == has_word(b@, at as int, word as u32),
{
    let n: usize = b.len();
    assert(at + 3 < n);
    b[at] == 0 && b[at + 1] == 0 && b[at + 2] == 0 && b[at + 3] == word
}

impl Address {
    /// Decodes the XDR form of an address value; `None` unless the bytes
    /// hold exactly an account's ed25519 key or a contract's hash.
    pub fn from_xdr(bytes: &[u8]) -> (r: Option<Address>)
        ensures
            r == spec_from_xdr(bytes@),
    {
        if bytes.len() == 44 && read_word(bytes, 0, SCV_ADDRESS) && read_word(bytes, 4, 0)
            && read_word(bytes, 8, 0) {
            Some(Address { is_contract: false, high: read_u128(bytes, 12), low: read_u128(bytes, 28) })
        } else if bytes.len() == 40 && read_word(bytes, 0, SCV_ADDRESS) && read_word(bytes, 4, 1) {
            Some(Address { is_contract: true, high: read_u128(bytes, 8), low: read_u128(bytes, 24) })
        } else {
            None
        }
    }

    /// The XDR form of the address value.
    pub fn to_xdr(&self) -> (r: Vec<u8>)
        ensures
            spec_from_xdr(r@) == Some(*self),
    {
        let mut out: Vec<u8> = Vec::new();
        write_word(&mut out, SCV_ADDRESS);
        if self.is_contract {
            write_word(&mut out, 1);
        } else {
            write_word(&mut out, 0);
            write_word(&mut out, 0);
        }
        let ghost prefix = out@;
        write_u128(&mut out, self.high);
        write_u128(&mut out, self.low);
        proof {
            lemma_be_round_trip(self.high);
            lemma_be_round_trip(self.low);
            let p = prefix.len() as int;
            assert(out@.subrange(p, p + 16) =~= be_bytes(self.high));
            assert(out@.subrange(p + 16, p + 32) =~= be_bytes(self.low));
        }
        out
    }
}

} // verus!
