//! 256-bit unsigned wide integers and their physical column encodings.
//!
//! A wide value is held as its 32 big-endian bytes. Four encodings are
//! supported for storing such a value in a column: the raw bytes, a
//! fixed-width hex string, a decimal string, and a pair of 64-bit words
//! (which only represents values below 2^128).

use crate::types::CollectError;
use vstd::prelude::*;

verus! {

/// 256^n.
pub open spec fn pow256(n: nat) -> nat
    decreases n,
{
    if n == 0 {
        1
    } else {
        256 * pow256((n - 1) as nat)
    }
}

/// The value of a big-endian byte sequence.
pub open spec fn be_val(s: Seq<u8>) -> nat
    decreases s.len(),
{
    if s.len() == 0 {
        0
    } else {
        (be_val(s.drop_last()) * 256 + s.last()) as nat
    }
}

/// The `len` low-order base-256 digits of `n`, in big-endian order.
pub open spec fn be_bytes(n: nat, len: nat) -> Seq<u8>
    decreases len,
{
    if len == 0 {
        Seq::empty()
    } else {
        be_bytes(n / 256, (len - 1) as nat) + seq![(n % 256) as u8]
    }
}

pub proof fn lemma_pow256_pos(n: nat)
    ensures
        pow256(n) >= 1,
    decreases n,
{
    if n > 0 {
        lemma_pow256_pos((n - 1) as nat);
    }
}

pub proof fn lemma_be_val_bound(s: Seq<u8>)
    ensures
        be_val(s) < pow256(s.len()),
    decreases s.len(),
{
    if s.len() == 0 {
    } else {
        let d = s.drop_last();
        lemma_be_val_bound(d);
        assert(be_val(d) * 256 + s.last() < 256 * pow256(d.len())) by (nonlinear_arith)
            requires
                be_val(d) < pow256(d.len()),
                s.last() < 256,
        ;
    }
}

/// Concatenation shifts the front part by 256 to the length of the back part.
pub proof fn lemma_be_val_concat(a: Seq<u8>, b: Seq<u8>)
    ensures
        be_val(a + b) == be_val(a) * pow256(b.len()) + be_val(b),
    decreases b.len(),
{
    if b.len() == 0 {
        assert(a + b =~= a);
        assert(pow256(b.len()) == 1);
        assert(be_val(b) == 0);
        assert(be_val(a) * 1 == be_val(a)) by (nonlinear_arith);
    } else {
        let bd = b.drop_last();
        lemma_be_val_concat(a, bd);
        assert((a + b).drop_last() =~= a + bd);
        assert((a + b).last() == b.last());
        let x = be_val(a);
        let y = be_val(bd);
        let z = b.last() as nat;
        let p = pow256(bd.len());
        assert(pow256(b.len()) == 256 * p);
        assert(be_val(a + b) == (x * p + y) * 256 + z);
        assert((x * p + y) * 256 + z == x * (256 * p) + (y * 256 + z)) by (nonlinear_arith);
        assert(x * pow256(b.len()) == x * (256 * p)) by (nonlinear_arith)
            requires
                pow256(b.len()) == 256 * p,
        ;
        assert(be_val(b) == y * 256 + z);
    }
}

/// Appending one byte at the back multiplies the front value by 256.
pub proof fn lemma_be_val_take_step(s: Seq<u8>, i: int)
    requires
        0 <= i < s.len(),
    ensures
        be_val(s.take(i + 1)) == be_val(s.take(i)) * 256 + s[i],
{
    assert(s.take(i + 1).drop_last() =~= s.take(i));
}

pub proof fn lemma_be_bytes_len(n: nat, len: nat)
    ensures
        be_bytes(n, len).len() == len,
    decreases len,
{
    if len > 0 {
        lemma_be_bytes_len(n / 256, (len - 1) as nat);
    }
}

/// `be_bytes` is a right inverse of `be_val` on values in range.
pub proof fn lemma_be_val_of_be_bytes(n: nat, len: nat)
    requires
        n < pow256(len),
    ensures
        be_val(be_bytes(n, len)) == n,
    decreases len,
{
    if len == 0 {
    } else {
        let l1 = (len - 1) as nat;
        assert(n / 256 < pow256(l1)) by (nonlinear_arith)
            requires
                n < 256 * pow256(l1),
        ;
        lemma_be_val_of_be_bytes(n / 256, l1);
        let head = be_bytes(n / 256, l1);
        lemma_be_bytes_len(n / 256, l1);
        let whole = be_bytes(n, len);
        assert(whole.drop_last() =~= head);
        assert(whole.last() == (n % 256) as u8);
    }
}

/// `be_val` is a left inverse of `be_bytes`: a byte sequence is the canonical
/// big-endian form of its own value.
pub proof fn lemma_be_bytes_of_be_val(s: Seq<u8>)
    ensures
        be_bytes(be_val(s), s.len()) == s,
    decreases s.len(),
{
    if s.len() == 0 {
        assert(be_bytes(be_val(s), s.len()) =~= s);
    } else {
        let d = s.drop_last();
        let n = be_val(s);
        assert(n == be_val(d) * 256 + s.last());
        assert(n / 256 == be_val(d) && n % 256 == s.last()) by (nonlinear_arith)
            requires
                n == be_val(d) * 256 + s.last(),
                s.last() < 256,
        ;
        lemma_be_bytes_of_be_val(d);
        assert(be_bytes(n, s.len()) =~= s);
    }
}

/// Unfolding `be_bytes` at the front: the leading byte is the highest digit.
pub proof fn lemma_be_bytes_unfold_front(n: nat, len: nat)
    ensures
        be_bytes(n, (len + 1) as nat) == seq![((n / pow256(len)) % 256) as u8] + be_bytes(n, len),
    decreases len,
{
    if len == 0 {
        assert(pow256(0) == 1);
        assert(n / 1 == n as int) by (nonlinear_arith);
        assert(n / pow256(0) == n as int);
        assert(be_bytes(n, 0) =~= Seq::<u8>::empty());
        assert(((n / pow256(0)) % 256) as u8 == (n % 256) as u8);
        let lhs = be_bytes(n, 1);
        let rhs = seq![((n / pow256(0)) % 256) as u8] + be_bytes(n, 0);
        assert(rhs.len() == 1);
        assert(lhs.len() == 1) by {
            lemma_be_bytes_len(n, 1);
        }
        assert(lhs =~= Seq::<u8>::empty() + seq![(n % 256) as u8]);
        assert(lhs[0] == (n % 256) as u8);
        assert(rhs[0] == (n % 256) as u8);
        assert(lhs =~= rhs);
    } else {
        lemma_be_bytes_unfold_front(n / 256, (len - 1) as nat);
        lemma_pow256_pos((len - 1) as nat);
        assert((n / 256) / pow256((len - 1) as nat) == n / pow256(len)) by (nonlinear_arith)
            requires
                pow256(len) == 256 * pow256((len - 1) as nat),
                pow256((len - 1) as nat) >= 1,
        ;
        assert(be_bytes(n, (len + 1) as nat) =~= seq![((n / pow256(len)) % 256) as u8] + be_bytes(
            n,
            len,
        ));
    }
}

/// Every byte of the sequence is zero.
pub open spec fn all_zero(s: Seq<u8>) -> bool {
    forall|i: int| 0 <= i < s.len() ==> s[i] == 0
}

pub proof fn lemma_be_val_zero(s: Seq<u8>)
    ensures
        all_zero(s) <==> be_val(s) == 0,
    decreases s.len(),
{
    if s.len() == 0 {
    } else {
        let d = s.drop_last();
        lemma_be_val_zero(d);
        if all_zero(s) {
            assert(all_zero(d));
        }
        if be_val(s) == 0 {
            assert(be_val(d) == 0 && s.last() == 0);
            assert forall|i: int| 0 <= i < s.len() implies s[i] == 0 by {
                if i < s.len() - 1 {
                    assert(s[i] == d[i]);
                }
            }
        }
    }
}

pub proof fn lemma_be_val_singleton(x: u8)
    ensures
        be_val(seq![x]) == x,
{
    assert(seq![x].drop_last() =~= Seq::<u8>::empty());
    assert(seq![x].last() == x);
    assert(be_val(seq![x]) == (be_val(Seq::<u8>::empty()) * 256 + x) as nat);
}

pub proof fn lemma_pow256_mono(a: nat, b: nat)
    requires
        a <= b,
    ensures
        pow256(a) <= pow256(b),
    decreases b,
{
    if a < b {
        lemma_pow256_mono(a, (b - 1) as nat);
    }
}

/// The eight big-endian bytes of one 64-bit word.
fn be8_vec(w: u64) -> (r: Vec<u8>)
    ensures
        r@ == be_bytes(w as nat, 8),
        r@.len() == 8,
{
    let mut bytes: Vec<u8> = Vec::new();
    let mut tmp = w;
    let mut j: usize = 0;
    proof {
        assert(pow256(0) == 1);
        assert((w as nat) / 1 == w as nat);
    }
    while j < 8
        invariant
            j <= 8,
            bytes@ == be_bytes(w as nat, j as nat),
            tmp as nat == (w as nat) / pow256(j as nat),
        decreases 8 - j,
    {
        proof {
            lemma_pow256_pos(j as nat);
            lemma_be_bytes_unfold_front(w as nat, j as nat);
            assert((tmp as nat) / 256 == (w as nat) / pow256((j + 1) as nat)) by (nonlinear_arith)
                requires
                    tmp as nat == (w as nat) / pow256(j as nat),
                    pow256((j + 1) as nat) == 256 * pow256(j as nat),
                    pow256(j as nat) >= 1,
            ;
            assert(seq![((tmp as nat) % 256) as u8] + be_bytes(w as nat, j as nat) =~= be_bytes(
                w as nat,
                j as nat,
            ).insert(0, ((tmp as nat) % 256) as u8));
        }
        bytes.insert(0, (tmp % 256) as u8);
        tmp = tmp / 256;
        j = j + 1;
    }
    proof {
        lemma_be_bytes_len(w as nat, 8);
    }
    bytes
}

/// `n` zero bytes.
fn zeros_vec(n: usize) -> (r: Vec<u8>)
    ensures
        r@ == be_bytes(0, n as nat),
        r@.len() == n,
        all_zero(r@),
{
    let mut bytes: Vec<u8> = Vec::new();
    let mut i: usize = 0;
    while i < n
        invariant
            i <= n,
            bytes@ == be_bytes(0, i as nat),
            bytes@.len() == i,
            all_zero(bytes@),
        decreases n - i,
    {
        proof {
            assert((0 as nat) / 256 == 0);
            assert(be_bytes(0, (i + 1) as nat) =~= be_bytes(0, i as nat) + seq![0u8]);
            assert(be_bytes(0, i as nat) + seq![0u8] =~= bytes@.push(0u8));
        }
        bytes.push(0u8);
        i = i + 1;
    }
    bytes
}

/// A 256-bit unsigned integer, stored as exactly 32 big-endian bytes.
#[derive(Clone, Debug)]
pub struct U256 {
    pub bytes: Vec<u8>,
}

impl U256 {
    /// The representation invariant.
    pub open spec fn wf(&self) -> bool {
        self.bytes@.len() == 32
    }

    /// The big-endian bytes, as a sequence.
    pub open spec fn rep(&self) -> Seq<u8> {
        self.bytes@
    }

    /// The numeric value.
    pub open spec fn val(&self) -> nat {
        be_val(self.bytes@)
    }

    pub proof fn lemma_val_bound(&self)
        requires
            self.wf(),
        ensures
            self.val() < pow256(32),
    {
        lemma_be_val_bound(self.bytes@);
    }

    /// The zero value.
    pub fn zero() -> (r: U256)
        ensures
            r.wf(),
            r.val() == 0,
            r.rep() == be_bytes(0, 32),
    {
        U256::from_u64(0)
    }

    /// The value of one 64-bit word.
    pub fn from_u64(w: u64) -> (r: U256)
        ensures
            r.wf(),
            r.val() == w,
            r.rep() == be_bytes(w as nat, 32),
    {
        let mut bytes = zeros_vec(24);
        let mut tail = be8_vec(w);
        bytes.append(&mut tail);
        proof {
            reveal_with_fuel(pow256, 9);
            assert(pow256(8) == 0x1_0000_0000_0000_0000);
            assert((w as nat) / pow256(8) == 0) by (nonlinear_arith)
                requires
                    (w as nat) < pow256(8),
                    pow256(8) >= 1,
            ;
            lemma_be_bytes_len(0, 24);
            lemma_pow256_pos(8);
            lemma_be_val_concat(be_bytes(0, 24), be_bytes(w as nat, 8));
            lemma_be_val_of_be_bytes(w as nat, 8);
            lemma_pow256_pos(24);
            lemma_be_val_of_be_bytes(0, 24);
            // the whole 32-byte sequence is the canonical form of w
            assert(be_val(bytes@) == w);
            lemma_be_bytes_of_be_val(bytes@);
        }
        U256 { bytes }
    }

    /// Builds a value from exactly 32 big-endian bytes.
    pub fn from_be_bytes(bytes: Vec<u8>) -> (r: U256)
        requires
            bytes@.len() == 32,
        ensures
            r.wf(),
            r.rep() == bytes@,
            r.val() == be_val(bytes@),
    {
        U256 { bytes }
    }

    /// The raw-bytes encoding: the 32 big-endian bytes themselves.
    pub fn to_be_bytes(&self) -> (r: Vec<u8>)
        requires
            self.wf(),
        ensures
            r@ == self.rep(),
    {
        let mut out: Vec<u8> = Vec::new();
        let mut i: usize = 0;
        while i < self.bytes.len()
            invariant
                i <= self.bytes@.len(),
                out@ == self.bytes@.take(i as int),
            decreases self.bytes@.len() - i,
        {
            out.push(self.bytes[i]);
            proof {
                assert(self.bytes@.take(i + 1) =~= self.bytes@.take(i as int).push(
                    self.bytes@[i as int],
                ));
            }
            i = i + 1;
        }
        proof {
            assert(self.bytes@.take(self.bytes@.len() as int) =~= self.bytes@);
        }
        out
    }

    /// Reads the eight bytes starting at `start` as one big-endian word.
    fn read_word(&self, start: usize) -> (r: u64)
        requires
            self.wf(),
            start + 8 <= 32,
        ensures
            r as nat == be_val(self.rep().subrange(start as int, start + 8)),
    {
        let ghost sub = self.rep().subrange(start as int, start + 8);
        let mut acc: u64 = 0;
        let mut j: usize = 0;
        proof {
            assert(sub.take(0) =~= Seq::<u8>::empty());
        }
        while j < 8
            invariant
                j <= 8,
                self.wf(),
                start + 8 <= 32,
                sub == self.rep().subrange(start as int, start + 8),
                acc as nat == be_val(sub.take(j as int)),
                (acc as nat) < pow256(j as nat),
            decreases 8 - j,
        {
            proof {
                lemma_be_val_take_step(sub, j as int);
                assert(sub[j as int] == self.rep()[start + j]);
                assert((acc as nat) * 256 + 256 <= 256 * pow256(j as nat)) by (nonlinear_arith)
                    requires
                        (acc as nat) < pow256(j as nat),
                ;
                assert(256 * pow256(j as nat) == pow256((j + 1) as nat));
                lemma_pow256_mono((j + 1) as nat, 8);
                reveal_with_fuel(pow256, 9);
                assert(pow256(8) == 0x1_0000_0000_0000_0000);
            }
            acc = acc * 256 + (self.bytes[start + j] as u64);
            j = j + 1;
        }
        proof {
            assert(sub.take(8) =~= sub);
        }
        acc
    }

    /// The split encoding: a value below 2^128 as its high and low 64-bit
    /// words; any larger value cannot be represented and is an encoding
    /// error.
    pub fn encode_words(&self) -> (r: Result<(u64, u64), CollectError>)
        requires
            self.wf(),
        ensures
            r is Ok <==> all_zero(self.rep().take(16)),
            r matches Ok(w) ==> w.0 as nat == be_val(self.rep().subrange(16, 24)) && w.1 as nat
                == be_val(self.rep().subrange(24, 32)),
            r matches Err(e) ==> e == CollectError::EncodingError,
    {
        let mut i: usize = 0;
        while i < 16
            invariant
                i <= 16,
                self.wf(),
                forall|k: int| 0 <= k < i ==> self.rep()[k] == 0,
            decreases 16 - i,
        {
            if self.bytes[i] != 0 {
                proof {
                    assert(self.rep().take(16)[i as int] != 0);
                }
                return Err(CollectError::EncodingError);
            }
            i = i + 1;
        }
        proof {
            assert forall|k: int| 0 <= k < self.rep().take(16).len() implies self.rep().take(16)[k]
                == 0 by {
                assert(self.rep().take(16)[k] == self.rep()[k]);
            }
        }
        let hi = self.read_word(16);
        let lo = self.read_word(24);
        Ok((hi, lo))
    }

    /// Rebuilds a value from its split encoding.
    pub fn decode_words(hi: u64, lo: u64) -> (r: U256)
        ensures
            r.wf(),
            r.val() == (hi as nat) * pow256(8) + lo as nat,
            all_zero(r.rep().take(16)),
            be_val(r.rep().subrange(16, 24)) == hi as nat,
            be_val(r.rep().subrange(24, 32)) == lo as nat,
    {
        let mut bytes = zeros_vec(16);
        let mut mid = be8_vec(hi);
        let mut tail = be8_vec(lo);
        bytes.append(&mut mid);
        bytes.append(&mut tail);
        proof {
            let z = be_bytes(0, 16);
            let h = be_bytes(hi as nat, 8);
            let l = be_bytes(lo as nat, 8);
            assert(bytes@ == (z + h) + l);
            lemma_pow256_pos(16);
            lemma_pow256_pos(8);
            reveal_with_fuel(pow256, 9);
            assert(pow256(8) == 0x1_0000_0000_0000_0000);
            lemma_be_val_of_be_bytes(hi as nat, 8);
            lemma_be_val_of_be_bytes(lo as nat, 8);
            lemma_be_val_of_be_bytes(0, 16);
            lemma_be_val_concat(z + h, l);
            lemma_be_val_concat(z, h);
            assert((0 * pow256(8) + hi as nat) * pow256(8) + lo as nat == (hi as nat) * pow256(8)
                + lo as nat) by (nonlinear_arith);
            assert(bytes@.take(16) =~= z);
            assert(bytes@.subrange(16, 24) =~= h);
            assert(bytes@.subrange(24, 32) =~= l);
            lemma_be_val_zero(z);
        }
        U256 { bytes }
    }

    /// An identical copy of the value.
    pub fn dup(&self) -> (r: U256)
        requires
            self.wf(),
        ensures
            r.wf(),
            r.rep() == self.rep(),
    {
        let bytes = self.to_be_bytes();
        U256 { bytes }
    }

    /// Whether the value fits the words encoding (is below 2^128).
    pub fn fits_words(&self) -> (r: bool)
        requires
            self.wf(),
        ensures
            r <==> all_zero(self.rep().take(16)),
    {
        let mut i: usize = 0;
        while i < 16
            invariant
                i <= 16,
                self.wf(),
                forall|k: int| 0 <= k < i ==> self.rep()[k] == 0,
            decreases 16 - i,
        {
            if self.bytes[i] != 0 {
                proof {
                    assert(self.rep().take(16)[i as int] != 0);
                }
                return false;
            }
            i = i + 1;
        }
        proof {
            assert forall|k: int| 0 <= k < self.rep().take(16).len() implies self.rep().take(16)[k]
                == 0 by {
                assert(self.rep().take(16)[k] == self.rep()[k]);
            }
        }
        true
    }

    /// Structural equality of two values.
    pub fn eq_value(&self, other: &U256) -> (r: bool)
        requires
            self.wf(),
            other.wf(),
        ensures
            r <==> self.rep() == other.rep(),
    {
        let mut i: usize = 0;
        while i < 32
            invariant
                i <= 32,
                self.wf(),
                other.wf(),
                forall|k: int| 0 <= k < i ==> self.rep()[k] == other.rep()[k],
            decreases 32 - i,
        {
            if self.bytes[i] != other.bytes[i] {
                return false;
            }
            i = i + 1;
        }
        proof {
            assert(self.rep() =~= other.rep());
        }
        true
    }
}

/// The lower-case hex digit of a nibble.
pub open spec fn hex_digit(d: nat) -> u8 {
    if d < 10 {
        (48 + d) as u8
    } else {
        (87 + d) as u8
    }
}

/// A byte in the ASCII ranges `0`..`9` or `a`..`f`.
pub open spec fn is_hex_digit(c: u8) -> bool {
    (48 <= c <= 57) || (97 <= c <= 102)
}

/// The nibble a hex digit stands for.
pub open spec fn unhex_val(c: u8) -> nat {
    if c <= 57 {
        (c - 48) as nat
    } else {
        (c - 87) as nat
    }
}

/// The lower-case hex digits of a byte sequence, two per byte.
pub open spec fn hex_of(s: Seq<u8>) -> Seq<u8>
    decreases s.len(),
{
    if s.len() == 0 {
        Seq::empty()
    } else {
        hex_of(s.drop_last()) + seq![
            hex_digit((s.last() / 16) as nat),
            hex_digit((s.last() % 16) as nat),
        ]
    }
}

pub proof fn lemma_hex_digit_props(d: nat)
    requires
        d < 16,
    ensures
        is_hex_digit(hex_digit(d)),
        unhex_val(hex_digit(d)) == d,
{
}

pub proof fn lemma_unhex_inverse(c: u8)
    requires
        is_hex_digit(c),
    ensures
        unhex_val(c) < 16,
        hex_digit(unhex_val(c)) == c,
{
}

pub proof fn lemma_hex_len(s: Seq<u8>)
    ensures
        hex_of(s).len() == 2 * s.len(),
    decreases s.len(),
{
    if s.len() > 0 {
        lemma_hex_len(s.drop_last());
    }
}

/// The two hex digits at positions `2i` and `2i + 1` are those of byte `i`.
pub proof fn lemma_hex_of_index(s: Seq<u8>, i: int)
    requires
        0 <= i < s.len(),
    ensures
        hex_of(s)[2 * i] == hex_digit((s[i] / 16) as nat),
        hex_of(s)[2 * i + 1] == hex_digit((s[i] % 16) as nat),
    decreases s.len(),
{
    lemma_hex_len(s.drop_last());
    if i == s.len() - 1 {
    } else {
        lemma_hex_of_index(s.drop_last(), i);
    }
}

/// Both hex digits of byte `k` (at positions `2k` and `2k + 1` after the
/// two-character prefix) are well-formed.
pub open spec fn digits_ok(h: Seq<u8>, k: int) -> bool {
    is_hex_digit(h[2 + 2 * k]) && is_hex_digit(h[3 + 2 * k])
}

/// The byte encoded by the hex-digit pair of byte `k`.
pub open spec fn nib_at(h: Seq<u8>, k: int) -> nat {
    unhex_val(h[2 + 2 * k]) * 16 + unhex_val(h[3 + 2 * k])
}

impl U256 {
    /// The hex-string encoding: `0x` followed by 64 lower-case hex digits.
    pub fn encode_hex(&self) -> (r: Vec<u8>)
        requires
            self.wf(),
        ensures
            r@ == seq![48u8, 120u8] + hex_of(self.rep()),
    {
        let mut out: Vec<u8> = Vec::new();
        out.push(48u8);
        out.push(120u8);
        let ghost prefix = seq![48u8, 120u8];
        proof {
            assert(out@ =~= prefix + hex_of(self.rep().take(0)));
        }
        let mut i: usize = 0;
        while i < 32
            invariant
                i <= 32,
                self.wf(),
                out@ == prefix + hex_of(self.rep().take(i as int)),
                prefix == seq![48u8, 120u8],
            decreases 32 - i,
        {
            let b = self.bytes[i];
            let hi = b / 16;
            let lo = b % 16;
            proof {
                let t = self.rep().take(i + 1);
                assert(t.drop_last() =~= self.rep().take(i as int));
                assert(t.last() == self.rep()[i as int]);
                assert((prefix + hex_of(self.rep().take(i as int))).push(hex_digit(
                    hi as nat,
                )).push(hex_digit(lo as nat)) =~= prefix + hex_of(t));
            }
            out.push(if hi < 10 {
                48 + hi
            } else {
                87 + hi
            });
            out.push(if lo < 10 {
                48 + lo
            } else {
                87 + lo
            });
            i = i + 1;
        }
        proof {
            assert(self.rep().take(32) =~= self.rep());
        }
        out
    }

    /// Parses the hex-string encoding. Returns the encoded value, or `None`
    /// when the input is not the hex encoding of any 32-byte value; the
    /// encoding is recovered exactly.
    pub fn decode_hex(h: &Vec<u8>) -> (r: Option<U256>)
        ensures
            r matches Some(u) ==> u.wf() && h@ == seq![48u8, 120u8] + hex_of(u.rep()),
            forall|b: Seq<u8>|
                b.len() == 32 && h@ == seq![48u8, 120u8] + #[trigger] hex_of(b) ==> (r matches Some(
                    u,
                ) && u.rep() == b),
    {
        if h.len() != 66 {
            proof {
                assert forall|b: Seq<u8>|
                    b.len() == 32 && h@ == seq![48u8, 120u8] + #[trigger] hex_of(b) implies false by {
                    lemma_hex_len(b);
                }
            }
            return None;
        }
        if !(h[0] == 48 && h[1] == 120) {
            return None;
        }
        let mut bytes: Vec<u8> = Vec::new();
        let mut i: usize = 0;
        while i < 32
            invariant
                i <= 32,
                h@.len() == 66,
                h@[0] == 48 && h@[1] == 120,
                bytes@.len() == i,
                forall|k: int| 0 <= k < i ==> #[trigger] digits_ok(h@, k) && bytes@[k] == nib_at(h@, k),
            decreases 32 - i,
        {
            let c1 = h[2 + 2 * i];
            let c2 = h[3 + 2 * i];
            let v1: u8 = if 48 <= c1 && c1 <= 57 {
                c1 - 48
            } else if 97 <= c1 && c1 <= 102 {
                c1 - 87
            } else {
                proof {
                    assert forall|b: Seq<u8>|
                        b.len() == 32 && h@ == seq![48u8, 120u8] + #[trigger] hex_of(b) implies false by {
                        lemma_hex_len(b);
                        lemma_hex_of_index(b, i as int);
                        lemma_hex_digit_props((b[i as int] / 16) as nat);
                        assert(h@[2 + 2 * i] == hex_digit((b[i as int] / 16) as nat));
                    }
                }
                return None;
            };
            let v2: u8 = if 48 <= c2 && c2 <= 57 {
                c2 - 48
            } else if 97 <= c2 && c2 <= 102 {
                c2 - 87
            } else {
                proof {
                    assert forall|b: Seq<u8>|
                        b.len() == 32 && h@ == seq![48u8, 120u8] + #[trigger] hex_of(b) implies false by {
                        lemma_hex_len(b);
                        lemma_hex_of_index(b, i as int);
                        lemma_hex_digit_props((b[i as int] % 16) as nat);
                        assert(h@[3 + 2 * i] == hex_digit((b[i as int] % 16) as nat));
                    }
                }
                return None;
            };
            proof {
                lemma_unhex_inverse(c1);
                lemma_unhex_inverse(c2);
            }
            bytes.push(v1 * 16 + v2);
            proof {
                assert(c1 == h@[2 + 2 * i]);
                assert(c2 == h@[3 + 2 * i]);
                assert(v1 as nat == unhex_val(c1) && v2 as nat == unhex_val(c2));
                assert(digits_ok(h@, i as int) && bytes@[i as int] == nib_at(h@, i as int));
            }
            i = i + 1;
        }
        let u = U256 { bytes };
        proof {
            // soundness: the input is exactly the hex encoding of the parsed bytes
            assert forall|j: int| 0 <= j < 66 implies h@[j] == (seq![48u8, 120u8] + hex_of(
                u.rep(),
            ))[j] by {
                lemma_hex_len(u.rep());
                if j >= 2 {
                    let k = (j - 2) / 2;
                    assert(0 <= k < 32);
                    assert(digits_ok(h@, k));
                    assert(u.rep()[k] == nib_at(h@, k));
                    lemma_hex_of_index(u.rep(), k);
                    lemma_unhex_inverse(h@[2 + 2 * k]);
                    lemma_unhex_inverse(h@[3 + 2 * k]);
                    let hi = unhex_val(h@[2 + 2 * k]);
                    let lo = unhex_val(h@[3 + 2 * k]);
                    assert(u.rep()[k] == hi * 16 + lo);
                    assert((hi * 16 + lo) / 16 == hi && (hi * 16 + lo) % 16 == lo)
                        by (nonlinear_arith)
                        requires
                            hi < 16,
                            lo < 16,
                    ;
                    assert(j == 2 + 2 * k || j == 3 + 2 * k);
                }
            }
            lemma_hex_len(u.rep());
            assert(h@ =~= seq![48u8, 120u8] + hex_of(u.rep()));
            // uniqueness: any 32-byte pre-image has the same bytes
            assert forall|b: Seq<u8>|
                b.len() == 32 && h@ == seq![48u8, 120u8] + #[trigger] hex_of(b) implies u.rep() == b by {
                lemma_hex_len(b);
                assert forall|k: int| 0 <= k < 32 implies u.rep()[k] == b[k] by {
                    lemma_hex_len(b);
                    lemma_hex_of_index(b, k);
                    lemma_hex_digit_props((b[k] / 16) as nat);
                    lemma_hex_digit_props((b[k] % 16) as nat);
                    assert(h@[2 + 2 * k] == hex_digit((b[k] / 16) as nat));
                    assert(h@[3 + 2 * k] == hex_digit((b[k] % 16) as nat));
                    assert(digits_ok(h@, k));
                    assert(u.rep()[k] == nib_at(h@, k));
                    assert(u.rep()[k] == (b[k] / 16) * 16 + b[k] % 16);
                }
                assert(u.rep() =~= b);
            }
        }
        Some(u)
    }
}

/// The ASCII decimal digits of `n`, most significant first, without leading
/// zeros (`0` itself is the single digit `0`).
pub open spec fn dec_seq(n: nat) -> Seq<u8>
    decreases n,
    via dec_seq_decreases
{
    if n < 10 {
        seq![(48 + n) as u8]
    } else {
        dec_seq(n / 10) + seq![(48 + n % 10) as u8]
    }
}

#[via_fn]
proof fn dec_seq_decreases(n: nat) {
    assert(n >= 10 ==> n / 10 < n) by (nonlinear_arith);
}

/// The value of a sequence of ASCII decimal digits.
pub open spec fn digits_val(s: Seq<u8>) -> nat
    decreases s.len(),
{
    if s.len() == 0 {
        0
    } else {
        (digits_val(s.drop_last()) * 10 + (s.last() - 48)) as nat
    }
}

pub proof fn lemma_dec_seq_props(n: nat)
    ensures
        dec_seq(n).len() >= 1,
        n < 10 <==> dec_seq(n).len() == 1,
        forall|i: int|
            0 <= i < dec_seq(n).len() ==> 48 <= #[trigger] dec_seq(n)[i] && dec_seq(n)[i] <= 57,
        dec_seq(n).len() > 1 ==> dec_seq(n)[0] != 48,
    decreases n,
{
    if n < 10 {
    } else {
        let q = n / 10;
        assert(n / 10 < n) by (nonlinear_arith)
            requires
                n >= 10,
        ;
        assert(n / 10 >= 1) by (nonlinear_arith)
            requires
                n >= 10,
        ;
        lemma_dec_seq_props(q);
        let s = dec_seq(n);
        assert(s == dec_seq(q) + seq![(48 + n % 10) as u8]);
        assert forall|i: int| 0 <= i < s.len() implies 48 <= #[trigger] s[i] && s[i] <= 57 by {
            if i < dec_seq(q).len() {
                assert(s[i] == dec_seq(q)[i]);
            } else {
                assert(s[i] == (48 + n % 10) as u8);
            }
        }
        assert(s[0] == dec_seq(q)[0]);
        if dec_seq(q).len() == 1 {
            assert(dec_seq(q) == seq![(48 + q) as u8]);
            assert(s[0] == (48 + q) as u8);
        }
    }
}

pub proof fn lemma_digits_val_of_dec_seq(n: nat)
    ensures
        digits_val(dec_seq(n)) == n,
    decreases n,
{
    if n < 10 {
        let s = dec_seq(n);
        assert(s == seq![(48 + n) as u8]);
        assert(s.drop_last() =~= Seq::<u8>::empty());
        assert(s.last() == (48 + n) as u8);
        assert(digits_val(s.drop_last()) == 0);
        assert(digits_val(s) == (0 * 10 + ((48 + n) as u8 - 48)) as nat);
    } else {
        let q = n / 10;
        assert(n / 10 < n) by (nonlinear_arith)
            requires
                n >= 10,
        ;
        lemma_digits_val_of_dec_seq(q);
        let s = dec_seq(n);
        lemma_dec_seq_props(q);
        assert(s.drop_last() =~= dec_seq(q));
        assert(s.last() == (48 + n % 10) as u8);
        assert(digits_val(s) == q * 10 + n % 10);
        assert(q * 10 + n % 10 == n) by (nonlinear_arith)
            requires
                q == n / 10,
        ;
    }
}

pub proof fn lemma_digits_val_pos(s: Seq<u8>)
    requires
        s.len() >= 1,
        forall|i: int| 0 <= i < s.len() ==> 48 <= #[trigger] s[i] && s[i] <= 57,
        s[0] != 48,
    ensures
        digits_val(s) >= 1,
    decreases s.len(),
{
    if s.len() == 1 {
        assert(s[0] >= 49);
    } else {
        let d = s.drop_last();
        assert(d[0] == s[0]);
        assert(forall|i: int| 0 <= i < d.len() ==> 48 <= #[trigger] d[i] && d[i] <= 57) by {
            assert(forall|i: int| 0 <= i < d.len() ==> d[i] == s[i]);
        }
        lemma_digits_val_pos(d);
        assert(s.last() >= 48);
    }
}

/// A digit string without leading zeros is the canonical decimal form of its
/// own value.
pub proof fn lemma_dec_canonical(s: Seq<u8>)
    requires
        s.len() >= 1,
        forall|i: int| 0 <= i < s.len() ==> 48 <= #[trigger] s[i] && s[i] <= 57,
        s.len() > 1 ==> s[0] != 48,
    ensures
        dec_seq(digits_val(s)) == s,
    decreases s.len(),
{
    if s.len() == 1 {
        assert(s.drop_last() =~= Seq::<u8>::empty());
        assert(digits_val(s.drop_last()) == 0);
        assert(s.last() == s[0]);
        assert(48 <= s[0] && s[0] <= 57);
        let v = digits_val(s);
        assert(v == (0 * 10 + (s.last() - 48)) as nat);
        assert(v == (s[0] - 48) as nat);
        assert(dec_seq(v) =~= s);
    } else {
        let d = s.drop_last();
        assert(d[0] == s[0]);
        assert(forall|i: int| 0 <= i < d.len() ==> 48 <= #[trigger] d[i] && d[i] <= 57) by {
            assert(forall|i: int| 0 <= i < d.len() ==> d[i] == s[i]);
        }
        lemma_dec_canonical(d);
        lemma_digits_val_pos(d);
        let x = (s.last() - 48) as nat;
        let v = digits_val(s);
        assert(v == digits_val(d) * 10 + x);
        assert(v >= 10) by (nonlinear_arith)
            requires
                v == digits_val(d) * 10 + x,
                digits_val(d) >= 1,
        ;
        assert(v / 10 == digits_val(d) && v % 10 == x) by (nonlinear_arith)
            requires
                v == digits_val(d) * 10 + x,
                x < 10,
        ;
        assert(dec_seq(v) == dec_seq(digits_val(d)) + seq![(48 + v % 10) as u8]);
        assert(dec_seq(v) =~= s);
    }
}

/// A prefix of a digit string never has a larger value than the whole.
pub proof fn lemma_digits_val_prefix(s: Seq<u8>, j: int)
    requires
        0 <= j <= s.len(),
        forall|i: int| 0 <= i < s.len() ==> 48 <= #[trigger] s[i] && s[i] <= 57,
    ensures
        digits_val(s.take(j)) <= digits_val(s),
    decreases s.len(),
{
    if j == s.len() {
        assert(s.take(j) =~= s);
    } else {
        let d = s.drop_last();
        assert(forall|i: int| 0 <= i < d.len() ==> 48 <= #[trigger] d[i] && d[i] <= 57) by {
            assert(forall|i: int| 0 <= i < d.len() ==> d[i] == s[i]);
        }
        lemma_digits_val_prefix(d, j);
        assert(s.take(j) =~= d.take(j));
        assert(digits_val(s) == digits_val(d) * 10 + (s.last() - 48));
        assert(digits_val(d) * 10 + (s.last() - 48) >= digits_val(d)) by (nonlinear_arith)
            requires
                s.last() >= 48,
        ;
    }
}

/// Whether the bytes hold the value zero.
fn bytes_is_zero(v: &Vec<u8>) -> (r: bool)
    ensures
        r <==> be_val(v@) == 0,
{
    let mut i: usize = 0;
    while i < v.len()
        invariant
            i <= v@.len(),
            forall|k: int| 0 <= k < i ==> v@[k] == 0,
        decreases v@.len() - i,
    {
        if v[i] != 0 {
            proof {
                lemma_be_val_zero(v@);
            }
            return false;
        }
        i = i + 1;
    }
    proof {
        lemma_be_val_zero(v@);
    }
    true
}

/// One long-division step: quotient bytes and remainder of dividing by ten.
fn divmod10(bytes: &Vec<u8>) -> (r: (Vec<u8>, u8))
    requires
        bytes@.len() == 32,
    ensures
        r.0@.len() == 32,
        r.1 < 10,
        be_val(r.0@) * 10 + r.1 == be_val(bytes@),
        be_val(r.0@) == be_val(bytes@) / 10,
        r.1 as nat == be_val(bytes@) % 10,
{
    let mut q: Vec<u8> = Vec::new();
    let mut rem: u8 = 0;
    let mut i: usize = 0;
    proof {
        assert(bytes@.take(0) =~= Seq::<u8>::empty());
    }
    while i < 32
        invariant
            i <= 32,
            bytes@.len() == 32,
            q@.len() == i,
            rem < 10,
            be_val(q@) * 10 + rem == be_val(bytes@.take(i as int)),
        decreases 32 - i,
    {
        let cur: u16 = (rem as u16) * 256 + (bytes[i] as u16);
        let qb = (cur / 10) as u8;
        let new_rem = (cur % 10) as u8;
        proof {
            lemma_be_val_take_step(bytes@, i as int);
            let v = be_val(q@);
            let ro = rem as nat;
            let b = bytes@[i as int] as nat;
            assert(cur as nat == ro * 256 + b);
            assert(cur / 10 < 256);
            assert(qb as nat * 10 + new_rem as nat == cur as nat);
            assert(q@.push(qb).drop_last() =~= q@);
            assert(be_val(q@.push(qb)) == v * 256 + qb);
            assert((v * 256 + qb as nat) * 10 + new_rem as nat == (v * 10 + ro) * 256 + b)
                by (nonlinear_arith)
                requires
                    qb as nat * 10 + new_rem as nat == ro * 256 + b,
            ;
        }
        q.push(qb);
        rem = new_rem;
        i = i + 1;
    }
    proof {
        assert(bytes@.take(32) =~= bytes@);
        let qa = be_val(q@);
        let v = be_val(bytes@);
        assert(qa == v / 10 && rem as nat == v % 10) by (nonlinear_arith)
            requires
                qa * 10 + rem == v,
                rem < 10,
        ;
    }
    (q, rem)
}

/// Multiplies a 32-byte value by ten and adds one digit; `None` on overflow.
fn mul10_add(bytes: &Vec<u8>, d: u8) -> (r: Option<Vec<u8>>)
    requires
        bytes@.len() == 32,
        d < 10,
    ensures
        r matches Some(v) ==> v@.len() == 32 && be_val(v@) == be_val(bytes@) * 10 + d,
        r is None ==> be_val(bytes@) * 10 + d >= pow256(32),
{
    let mut out: Vec<u8> = Vec::new();
    let mut carry: u8 = d;
    let mut i: usize = 32;
    proof {
        assert(bytes@.skip(32) =~= Seq::<u8>::empty());
        assert(be_val(Seq::<u8>::empty()) == 0);
        assert(pow256(0) == 1);
        assert(out@ =~= Seq::<u8>::empty());
        assert((d as nat) * pow256(0) == d as nat) by (nonlinear_arith)
            requires
                pow256(0) == 1,
        ;
    }
    while i > 0
        invariant
            i <= 32,
            bytes@.len() == 32,
            out@.len() == 32 - i,
            carry < 10,
            10 * be_val(bytes@.skip(i as int)) + d == (carry as nat) * pow256((32 - i) as nat)
                + be_val(out@),
        decreases i,
    {
        let b = bytes[i - 1];
        let cur: u16 = (b as u16) * 10 + (carry as u16);
        let nb = (cur % 256) as u8;
        let new_carry = (cur / 256) as u8;
        proof {
            let s_next = bytes@.skip(i as int);
            let s_here = bytes@.skip(i - 1);
            let p = pow256((32 - i) as nat);
            let v = be_val(out@);
            let bn = b as nat;
            let c0 = carry as nat;
            let c1 = new_carry as nat;
            assert(cur as nat == bn * 10 + c0);
            assert(cur / 256 < 10);
            assert(c1 * 256 + nb as nat == cur as nat);
            assert(s_here =~= seq![b] + s_next);
            lemma_be_val_singleton(b);
            assert(be_val(seq![b]) == bn);
            lemma_be_val_concat(seq![b], s_next);
            assert(be_val(s_here) == bn * p + be_val(s_next)) by (nonlinear_arith)
                requires
                    be_val(s_here) == be_val(seq![b]) * pow256(s_next.len()) + be_val(s_next),
                    be_val(seq![b]) == bn,
                    pow256(s_next.len()) == p,
            ;
            lemma_be_val_concat(seq![nb], out@);
            lemma_be_val_singleton(nb);
            assert(be_val(seq![nb]) == nb as nat);
            assert(be_val(seq![nb] + out@) == (nb as nat) * p + v) by (nonlinear_arith)
                requires
                    be_val(seq![nb] + out@) == be_val(seq![nb]) * pow256(out@.len()) + v,
                    be_val(seq![nb]) == nb as nat,
                    pow256(out@.len()) == p,
            ;
            assert(pow256((32 - (i - 1)) as nat) == 256 * p);
            assert(10 * (bn * p + be_val(s_next)) + d == c1 * (256 * p) + ((nb as nat) * p + v))
                by (nonlinear_arith)
                requires
                    10 * be_val(s_next) + d == c0 * p + v,
                    cur as nat == bn * 10 + c0,
                    c1 * 256 + nb as nat == cur as nat,
            ;
            assert(seq![nb] + out@ =~= out@.insert(0, nb));
        }
        out.insert(0, nb);
        carry = new_carry;
        i = i - 1;
    }
    proof {
        assert(bytes@.skip(0) =~= bytes@);
    }
    if carry == 0 {
        proof {
            assert(be_val(out@) == be_val(bytes@) * 10 + d) by (nonlinear_arith)
                requires
                    10 * be_val(bytes@) + d == 0 * pow256(32) + be_val(out@),
            ;
        }
        Some(out)
    } else {
        proof {
            lemma_pow256_pos(32);
            assert(10 * be_val(bytes@) + d >= 1 * pow256(32)) by (nonlinear_arith)
                requires
                    10 * be_val(bytes@) + d == (carry as nat) * pow256(32) + be_val(out@),
                    carry >= 1,
            ;
        }
        None
    }
}

impl U256 {
    /// The decimal-string encoding: the value's decimal digits, without
    /// leading zeros.
    pub fn encode_decimal(&self) -> (r: Vec<u8>)
        requires
            self.wf(),
        ensures
            r@ == dec_seq(self.val()),
    {
        let mut cur = self.to_be_bytes();
        if bytes_is_zero(&cur) {
            let mut out: Vec<u8> = Vec::new();
            out.push(48u8);
            proof {
                assert(dec_seq(0) =~= seq![48u8]);
                assert(out@ =~= seq![48u8]);
            }
            return out;
        }
        let mut out: Vec<u8> = Vec::new();
        let ghost val0 = self.val();
        let mut nonzero = true;
        proof {
            assert(dec_seq(val0) + out@ =~= dec_seq(val0));
        }
        while nonzero
            invariant
                cur@.len() == 32,
                nonzero == (be_val(cur@) > 0),
                nonzero ==> dec_seq(val0) == dec_seq(be_val(cur@)) + out@,
                !nonzero ==> dec_seq(val0) == out@,
            decreases be_val(cur@),
        {
            let qd = divmod10(&cur);
            let q = qd.0;
            let dg = qd.1;
            proof {
                let v = be_val(cur@);
                let qv = be_val(q@);
                assert(qv < v) by (nonlinear_arith)
                    requires
                        qv * 10 + dg == v,
                        v > 0,
                        dg < 10,
                ;
                if v < 10 {
                    assert(qv == 0);
                    assert(dg as nat == v);
                    assert(dec_seq(v) == seq![(48 + v) as u8]);
                    assert(seq![(48 + dg as nat) as u8] + out@ =~= out@.insert(0, (48 + dg) as u8));
                    assert(dec_seq(val0) =~= dec_seq(v) + out@);
                    assert(dec_seq(v) + out@ =~= seq![(48 + dg as nat) as u8] + out@);
                } else {
                    assert(dg as nat == v % 10);
                    assert(dec_seq(v) == dec_seq(v / 10) + seq![(48 + v % 10) as u8]);
                    assert(qv == v / 10);
                    assert((dec_seq(qv) + seq![(48 + dg as nat) as u8]) + out@ =~= dec_seq(qv) + (
                    seq![(48 + dg as nat) as u8] + out@));
                    assert(seq![(48 + dg as nat) as u8] + out@ =~= out@.insert(0, (48 + dg) as u8));
                }
            }
            out.insert(0, 48 + dg);
            let z = bytes_is_zero(&q);
            cur = q;
            nonzero = !z;
        }
        out
    }

    /// Parses the decimal-string encoding. Returns the encoded value, or
    /// `None` when the input is not the decimal encoding of any 256-bit
    /// value; the encoding is recovered exactly.
    pub fn decode_decimal(h: &Vec<u8>) -> (r: Option<U256>)
        ensures
            r matches Some(u) ==> u.wf() && h@ == dec_seq(u.val()),
            forall|n: nat|
                n < pow256(32) && h@ == #[trigger] dec_seq(n) ==> (r matches Some(u) && u.val()
                    == n),
    {
        if h.len() == 0 {
            proof {
                assert forall|n: nat|
                    n < pow256(32) && h@ == #[trigger] dec_seq(n) implies false by {
                    lemma_dec_seq_props(n);
                }
            }
            return None;
        }
        if h.len() > 1 && h[0] == 48 {
            proof {
                assert forall|n: nat|
                    n < pow256(32) && h@ == #[trigger] dec_seq(n) implies false by {
                    lemma_dec_seq_props(n);
                }
            }
            return None;
        }
        let mut acc = zeros_vec(32);
        proof {
            lemma_pow256_pos(32);
            lemma_be_val_of_be_bytes(0, 32);
            assert(h@.take(0) =~= Seq::<u8>::empty());
        }
        let mut i: usize = 0;
        while i < h.len()
            invariant
                h@.len() >= 1,
                h@.len() > 1 ==> h@[0] != 48,
                i <= h@.len(),
                acc@.len() == 32,
                forall|k: int| 0 <= k < i ==> 48 <= #[trigger] h@[k] && h@[k] <= 57,
                be_val(acc@) == digits_val(h@.take(i as int)),
            decreases h@.len() - i,
        {
            let c = h[i];
            if !(48 <= c && c <= 57) {
                proof {
                    assert forall|n: nat|
                        n < pow256(32) && h@ == #[trigger] dec_seq(n) implies false by {
                        lemma_dec_seq_props(n);
                        assert(48 <= h@[i as int] && h@[i as int] <= 57);
                    }
                }
                return None;
            }
            let step = mul10_add(&acc, c - 48);
            proof {
                assert(h@.take(i + 1).drop_last() =~= h@.take(i as int));
                assert(h@.take(i + 1).last() == h@[i as int]);
                assert(digits_val(h@.take(i + 1)) == digits_val(h@.take(i as int)) * 10 + (c
                    - 48));
            }
            match step {
                Some(v) => {
                    acc = v;
                },
                None => {
                    proof {
                        assert forall|n: nat|
                            n < pow256(32) && h@ == #[trigger] dec_seq(n) implies false by {
                            lemma_dec_seq_props(n);
                            lemma_digits_val_of_dec_seq(n);
                            lemma_digits_val_prefix(h@, i + 1);
                            assert(digits_val(h@.take(i + 1)) >= pow256(32));
                            assert(n >= pow256(32));
                        }
                    }
                    return None;
                },
            }
            i = i + 1;
        }
        proof {
            assert(h@.take(h@.len() as int) =~= h@);
        }
        let u = U256 { bytes: acc };
        proof {
            lemma_dec_canonical(h@);
            assert(h@ == dec_seq(u.val()));
            assert forall|n: nat|
                n < pow256(32) && h@ == #[trigger] dec_seq(n) implies u.val() == n by {
                lemma_digits_val_of_dec_seq(n);
            }
        }
        Some(u)
    }
}

/// Round trip of the split encoding: when the top sixteen bytes are zero, the
/// two 64-bit words determine the value exactly.
pub proof fn lemma_words_value(b: Seq<u8>)
    requires
        b.len() == 32,
        all_zero(b.take(16)),
    ensures
        be_val(b) == be_val(b.subrange(16, 24)) * pow256(8) + be_val(b.subrange(24, 32)),
{
    let z = b.take(16);
    let h = b.subrange(16, 24);
    let l = b.subrange(24, 32);
    assert(b =~= (z + h) + l);
    lemma_be_val_concat(z + h, l);
    lemma_be_val_concat(z, h);
    lemma_be_val_zero(z);
    assert((0 * pow256(8) + be_val(h)) * pow256(8) + be_val(l) == be_val(h) * pow256(8) + be_val(
        l,
    )) by (nonlinear_arith);
}

} // verus!
