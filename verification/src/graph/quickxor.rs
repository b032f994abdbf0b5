//! Microsoft's `QuickXorHash`: a 160-bit rolling XOR-shift digest.
//!
//! Every input byte is XOR-ed into the 20-byte state at a bit position that
//! advances by 11 per byte (modulo 160), spilling into the following state byte
//! when it straddles a byte boundary. Finalisation XORs the total length,
//! little-endian, into the last 8 state bytes.

use vstd::prelude::*;

verus! {

/// Model of the hasher state.
pub struct QxhView {
    pub data: Seq<u8>,
    pub length: nat,
    pub shift: nat,
}

/// The state after absorbing one byte.
#[verifier::opaque]
pub open spec fn qxh_step(st: QxhView, b: u8) -> QxhView {
    let bit_index = st.shift % 160;
    let byte_index = bit_index / 8;
    let bit_in_byte = bit_index % 8;
    let d1 = st.data.update(byte_index as int, st.data[byte_index as int] ^ ((b << (bit_in_byte as u8)) as u8));
    let d2 = if bit_in_byte > 0 {
        let next = (byte_index + 1) % 20;
        d1.update(next as int, d1[next as int] ^ ((b >> ((8 - bit_in_byte) as u8)) as u8))
    } else {
        d1
    };
    QxhView { data: d2, length: st.length, shift: (st.shift + 11) % 160 }
}

/// The state after absorbing `bytes` in order (without the length, which
/// [`qxh_feed`] adds).
pub open spec fn qxh_absorb(st: QxhView, bytes: Seq<u8>) -> QxhView
    decreases bytes.len(),
{
    if bytes.len() == 0 {
        st
    } else {
        qxh_step(qxh_absorb(st, bytes.drop_last()), bytes.last())
    }
}

/// The state after `update(bytes)`: bytes absorbed and the length counted.
pub open spec fn qxh_feed(st: QxhView, bytes: Seq<u8>) -> QxhView {
    let a = qxh_absorb(st, bytes);
    QxhView { data: a.data, length: st.length + bytes.len(), shift: a.shift }
}

/// The initial state: all zero.
pub open spec fn qxh_init() -> QxhView {
    QxhView { data: Seq::new(20, |i: int| 0u8), length: 0, shift: 0 }
}

/// Byte `i` (`0..8`) of the little-endian encoding of `len`.
pub open spec fn le_byte(len: u64, i: int) -> u8 {
    ((len >> ((8 * i) as u64)) & 0xff) as u8
}

/// The digest: the state with the length XOR-ed into bytes 12..20.
pub open spec fn qxh_digest(st: QxhView) -> Seq<u8> {
    Seq::new(
        20,
        |i: int|
            if i < 12 {
                st.data[i]
            } else {
                st.data[i] ^ le_byte(st.length as u64, i - 12)
            },
    )
}

/// The `QuickXorHash` of `bytes`.
pub open spec fn quick_xor_hash(bytes: Seq<u8>) -> Seq<u8> {
    qxh_digest(qxh_feed(qxh_init(), bytes))
}

proof fn lemma_absorb_concat(st: QxhView, a: Seq<u8>, b: Seq<u8>)
    ensures
        qxh_absorb(st, a + b) == qxh_absorb(qxh_absorb(st, a), b),
    decreases b.len(),
{
    if b.len() == 0 {
        assert(a + b =~= a);
    } else {
        lemma_absorb_concat(st, a, b.drop_last());
        assert((a + b).drop_last() =~= a + b.drop_last());
        assert((a + b).last() == b.last());
    }
}

/// Feeding the input in pieces gives the same state as feeding it at once, so
/// the digest does not depend on how a download is split into blocks.
pub proof fn lemma_feed_concat(st: QxhView, a: Seq<u8>, b: Seq<u8>)
    ensures
        qxh_feed(qxh_feed(st, a), b) == qxh_feed(st, a + b),
{
    lemma_absorb_concat(st, a, b);
    let x = qxh_absorb(st, a);
    let y = qxh_feed(st, a);
    lemma_absorb_ignores_length(x, y, b);
}

proof fn lemma_absorb_ignores_length(x: QxhView, y: QxhView, b: Seq<u8>)
    requires
        x.data == y.data,
        x.shift == y.shift,
    ensures
        qxh_absorb(x, b).data == qxh_absorb(y, b).data,
        qxh_absorb(x, b).shift == qxh_absorb(y, b).shift,
        qxh_absorb(y, b).length == y.length,
        qxh_absorb(x, b).length == x.length,
    decreases b.len(),
{
    if b.len() > 0 {
        lemma_absorb_ignores_length(x, y, b.drop_last());
        reveal(qxh_step);
    }
}

/// Stateful `QuickXorHash` accumulator.
/// The digest keeps the first 12 state bytes and XORs byte `i` of the
/// little-endian 64-bit length into state byte `12 + i`, for each `i` in `0..8`.
pub proof fn lemma_digest_bytes(st: QxhView)
    requires
        st.data.len() == 20,
    ensures
        qxh_digest(st).len() == 20,
        forall|j: int| 0 <= j < 12 ==> #[trigger] qxh_digest(st)[j] == st.data[j],
        forall|i: int|
            0 <= i < 8 ==> #[trigger] qxh_digest(st)[12 + i] == st.data[12 + i] ^ ((((st.length as u64) >> ((8
                * i) as u64)) & 0xffu64) as u8),
{
}

/// The `QuickXorHash` of any input up to `u64::MAX` bytes is the absorbed state
/// with all eight little-endian bytes of the input's length folded into bytes
/// 12..20, the first 12 bytes left as absorbed.
pub proof fn law_hash_folds_whole_length(bytes: Seq<u8>)
    requires
        bytes.len() <= u64::MAX,
    ensures
        quick_xor_hash(bytes).len() == 20,
        forall|j: int|
            0 <= j < 12 ==> #[trigger] quick_xor_hash(bytes)[j] == qxh_absorb(qxh_init(), bytes).data[j],
        forall|i: int|
            0 <= i < 8 ==> #[trigger] quick_xor_hash(bytes)[12 + i] == qxh_absorb(qxh_init(), bytes).data[12
                + i] ^ ((((bytes.len() as u64) >> ((8 * i) as u64)) & 0xffu64) as u8),
{
    lemma_absorb_keeps_size(qxh_init(), bytes);
    lemma_digest_bytes(qxh_feed(qxh_init(), bytes));
}

/// Absorbing keeps the state at 20 bytes.
proof fn lemma_absorb_keeps_size(st: QxhView, bytes: Seq<u8>)
    requires
        st.data.len() == 20,
    ensures
        qxh_absorb(st, bytes).data.len() == 20,
    decreases bytes.len(),
{
    if bytes.len() > 0 {
        lemma_absorb_keeps_size(st, bytes.drop_last());
        reveal(qxh_step);
    }
}

pub struct QuickXorHasher {
    data: [u8; 20],
    length_so_far: u64,
    shift: usize,
}

impl View for QuickXorHasher {
    type V = QxhView;

    closed spec fn view(&self) -> QxhView {
        QxhView { data: self.data@, length: self.length_so_far as nat, shift: self.shift as nat }
    }
}

impl QuickXorHasher {
    /// Internal consistency: 20 state bytes and a shift below 160.
    pub closed spec fn wf(&self) -> bool {
        self.shift < 160
    }

    /// Total bytes absorbed so far.
    pub closed spec fn absorbed(&self) -> nat {
        self.length_so_far as nat
    }

    /// A zeroed hasher.
    pub fn new() -> (h: Self)
        ensures
            h.wf(),
            h@ == qxh_init(),
    {
        let h = QuickXorHasher { data: [0u8; 20], length_so_far: 0, shift: 0 };
        proof {
            assert(h.data@ =~= Seq::new(20, |i: int| 0u8));
        }
        h
    }

    /// Feeds bytes into the hasher.
    pub fn update(&mut self, input: &[u8])
        requires
            old(self).wf(),
            old(self)@.length + input@.len() <= u64::MAX,
        ensures
            final(self).wf(),
            final(self)@ == qxh_feed(old(self)@, input@),
    {
        let n = input.len();
        let ghost start = self@;
        for k in 0..n
            invariant
                n == input@.len(),
                self.shift < 160,
                self.length_so_far == start.length,
                start.length + n <= u64::MAX,
                self.data@.len() == 20,
                (QxhView { data: self.data@, length: start.length, shift: self.shift as nat })
                    == qxh_absorb(start, input@.take(k as int)),
        {
            let b = input[k];
            let bit_index = self.shift % 160;
            let byte_index = bit_index / 8;
            let bit_in_byte = bit_index % 8;
            let ghost before = QxhView { data: self.data@, length: start.length, shift: self.shift as nat };
            let v1 = self.data[byte_index] ^ ((b << (bit_in_byte as u8)) as u8);
            self.data[byte_index] = v1;
            if bit_in_byte > 0 {
                let next_byte = (byte_index + 1) % 20;
                let v2 = self.data[next_byte] ^ (b >> ((8 - bit_in_byte) as u8));
                self.data[next_byte] = v2;
            }
            self.shift = (self.shift + 11) % 160;
            proof {
                assert(input@.take(k + 1).drop_last() =~= input@.take(k as int));
                assert(input@.take(k + 1).last() == b);
                reveal(qxh_step);
                assert((QxhView { data: self.data@, length: start.length, shift: self.shift as nat })
                    =~= qxh_step(before, b));
            }
        }
        proof {
            assert(input@.take(n as int) =~= input@);
        }
        self.length_so_far = self.length_so_far + n as u64;
    }

    /// Finalises: XORs the length into the last 8 bytes and returns the digest.
    pub fn finalize(self) -> (r: [u8; 20])
        requires
            self.wf(),
        ensures
            r@ == qxh_digest(self@),
            forall|j: int| 0 <= j < 12 ==> #[trigger] r@[j] == self@.data[j],
            forall|i: int|
                0 <= i < 8 ==> #[trigger] r@[12 + i] == self@.data[12 + i] ^ ((((self@.length as u64) >> ((8
                    * i) as u64)) & 0xffu64) as u8),
    {
        let mut data = self.data;
        let len = self.length_so_far;
        for i in 0..8
            invariant
                data@.len() == 20,
                forall|j: int| 0 <= j < 12 + i ==> data@[j] == #[trigger] qxh_digest(self@)[j],
                forall|j: int| 12 + i <= j < 20 ==> data@[j] == self.data@[j],
                len == self.length_so_far,
        {
            let lb = ((len >> (8 * i) as u64) & 0xff) as u8;
            data[12 + i] = data[12 + i] ^ lb;
        }
        proof {
            assert(data@ =~= qxh_digest(self@));
            lemma_digest_bytes(self@);
        }
        data
    }
}

} // verus!

verus! {

impl Default for QuickXorHasher {
    /// A zeroed hasher.
    fn default() -> (h: Self)
        ensures
            h.wf(),
            h@ == qxh_init(),
    {
        QuickXorHasher::new()
    }
}

} // verus!

verus! {

proof fn lemma_bit_xor_shl(d: u8, x: u8, b: u8, q: u8)
    by (bit_vector)
    requires
        b < 8,
        q < 8,
    ensures
        ((((d ^ ((x << b) as u8)) >> q) & 1) == 1) == ((((d >> q) & 1) == 1) != (q >= b && ((x >> ((q
            - b) as u8)) & 1) == 1)),
{
}

proof fn lemma_bit_xor_shr(d: u8, x: u8, c: u8, q: u8)
    by (bit_vector)
    requires
        0 < c < 8,
        q < 8,
    ensures
        ((((d ^ ((x >> c) as u8)) >> q) & 1) == 1) == ((((d >> q) & 1) == 1) != (q + c < 8 && ((x >> ((q
            + c) as u8)) & 1) == 1)),
{
}

/// Bit `p` (`0..160`) of the state read as a 160-bit little-endian number.
pub open spec fn state_bit(d: Seq<u8>, p: int) -> bool {
    ((d[p / 8] >> ((p % 8) as u8)) & 1) == 1
}

/// Bit `q` of the byte `x` (none outside `0..8`).
pub open spec fn byte_bit(x: u8, q: int) -> bool {
    0 <= q < 8 && ((x >> (q as u8)) & 1) == 1
}

/// Bit `p` of `x`, as a 160-bit number, rotated left by `r`.
pub open spec fn rotl160_bit(x: u8, r: int, p: int) -> bool {
    byte_bit(x, (p - r) % 160)
}

/// Absorbing one byte XORs the byte, rotated left by the current shift, into
/// the 160-bit state, and advances the shift by 11 modulo 160.
#[verifier::rlimit(50)]
pub proof fn law_step_xors_rotated_byte(st: QxhView, x: u8, p: int)
    requires
        st.data.len() == 20,
        st.shift < 160,
        0 <= p < 160,
    ensures
        qxh_step(st, x).data.len() == 20,
        qxh_step(st, x).shift == (st.shift + 11) % 160,
        state_bit(qxh_step(st, x).data, p) == (state_bit(st.data, p) != rotl160_bit(x, st.shift as int, p)),
{
    reveal(qxh_step);
    let sh = st.shift as int;
    let bi = sh / 8;
    let b = sh % 8;
    let pb = p / 8;
    let q = p % 8;
    let d = st.data;
    let nd = qxh_step(st, x).data;
    let next = (bi + 1) % 20;
    if pb == bi {
        assert(nd[pb] == d[bi] ^ ((x << (b as u8)) as u8));
        lemma_bit_xor_shl(d[bi], x, b as u8, q as u8);
        if q >= b {
            assert((p - sh) % 160 == q - b);
        } else {
            assert((p - sh) % 160 == 160 + q - b);
        }
    } else if b > 0 && pb == next {
        assert(nd[pb] == d[next] ^ ((x >> ((8 - b) as u8)) as u8));
        lemma_bit_xor_shr(d[next], x, (8 - b) as u8, q as u8);
        assert((p - sh) % 160 == q + 8 - b);
    } else {
        assert(nd[pb] == d[pb]);
        assert((p - sh) % 160 >= 8);
    }
}

/// Whether bit `p` is flipped by absorbing `xs` from shift `sh`: the XOR of
/// each byte rotated left by its own shift (`sh`, then 11 more per byte).
pub open spec fn absorbed_bit(xs: Seq<u8>, sh: int, p: int) -> bool
    decreases xs.len(),
{
    if xs.len() == 0 {
        false
    } else {
        absorbed_bit(xs.drop_last(), sh, p) != rotl160_bit(xs.last(), (sh + 11 * (xs.len() - 1)) % 160, p)
    }
}

/// An update is the 160-bit state XOR-ed with every input byte rotated left
/// by its shift, the shift advancing by 11 per byte modulo 160 (and
/// [`qxh_feed`] adds the byte count to the length).
#[verifier::rlimit(50)]
pub proof fn law_update_xors_rotated_bytes(st: QxhView, xs: Seq<u8>, p: int)
    requires
        st.data.len() == 20,
        st.shift < 160,
        0 <= p < 160,
    ensures
        qxh_absorb(st, xs).data.len() == 20,
        qxh_absorb(st, xs).shift == (st.shift + 11 * xs.len()) % 160,
        state_bit(qxh_absorb(st, xs).data, p) == (state_bit(st.data, p) != absorbed_bit(xs, st.shift as int, p)),
    decreases xs.len(),
{
    if xs.len() > 0 {
        let prev = qxh_absorb(st, xs.drop_last());
        law_update_xors_rotated_bytes(st, xs.drop_last(), p);
        law_step_xors_rotated_byte(prev, xs.last(), p);
        let a = st.shift + 11 * (xs.len() - 1);
        vstd::arithmetic::div_mod::lemma_add_mod_noop(a, 11, 160);
        assert(11int % 160 == 11);
        assert((a % 160 + 11) % 160 == (a + 11) % 160);
    }
}

} // verus!
