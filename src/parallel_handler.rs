use vstd::prelude::*;
use ctr::cipher::{KeyIvInit, StreamCipher, StreamCipherSeek};
use rayon::iter::{IndexedParallelIterator, ParallelIterator};
use rayon::slice::ParallelSliceMut;
use crate::error::CryptError;

verus! {

/// Length of an AES-256 key.
pub const KEY_LENGTH: usize = 32;
/// Length of a CTR-mode IV (one AES block).
pub const CTR_IV_LENGTH: usize = 16;
/// Buffers shorter than this are always processed on the calling thread.
pub const PARALLEL_THRESHOLD: usize = 16384;

/// Largest fan-out the library uses.
pub const MAX_FAN_OUT: usize = 64;

/// The fan-out used for a requested degree: 0 asks for the available
/// hardware parallelism (at least 1, at most `MAX_FAN_OUT`); 1, 2, 4 and 8
/// are taken as given; anything else falls back to 1.
pub open spec fn fan_out_spec(requested: nat, available: nat) -> nat {
    if requested == 0 {
        if available == 0 {
            1
        } else if available > MAX_FAN_OUT {
            MAX_FAN_OUT as nat
        } else {
            available
        }
    } else if requested == 1 || requested == 2 || requested == 4 || requested == 8 {
        requested
    } else {
        1
    }
}

/// Chooses the keystream fan-out from a requested degree and the number of
/// hardware threads available.
pub fn fan_out(requested: usize, available: usize) -> (r: usize)
    ensures
        r == fan_out_spec(requested as nat, available as nat),
        1 <= r <= MAX_FAN_OUT,
{
    if requested == 0 {
        if available == 0 {
            1
        } else if available > MAX_FAN_OUT {
            MAX_FAN_OUT
        } else {
            available
        }
    } else if requested == 1 || requested == 2 || requested == 4 || requested == 8 {
        requested
    } else {
        1
    }
}

/// Keystream byte at absolute stream position `pos` of AES-256-CTR with a
/// big-endian 128-bit counter, for the given key and IV.
pub uninterp spec fn aes256_ctr_keystream_byte(key: Seq<u8>, iv: Seq<u8>, pos: int) -> u8;

/// `data`, read as the stream bytes starting at position `offset`, XORed with
/// the keystream.
pub open spec fn keystream_xor(key: Seq<u8>, iv: Seq<u8>, offset: int, data: Seq<u8>) -> Seq<u8> {
    Seq::new(data.len(), |i: int| data[i] ^ aes256_ctr_keystream_byte(key, iv, offset + i))
}

/// Relies on ctr's `Ctr128BE<Aes256>` (aes 0.8, ctr 0.9): `new` takes a
/// 32-byte key and a 16-byte IV, `seek(p)` moves to byte `p` of the
/// keystream, and `apply_keystream` XORs buffer byte `i` with keystream byte
/// `p + i`, which depends on key, IV and position alone. The 128-bit counter
/// cannot run out for a `usize` position, so neither call panics.
#[verifier::external_body]
fn aes256_ctr_xor_at(key: &[u8], iv: &[u8], data: &mut [u8], offset: usize)
    requires
        key@.len() == KEY_LENGTH,
        iv@.len() == CTR_IV_LENGTH,
    ensures
        final(data)@.len() == old(data)@.len(),
        forall|i: int|
            0 <= i < old(data)@.len() ==> #[trigger] final(data)@[i] == old(data)@[i]
                ^ aes256_ctr_keystream_byte(key@, iv@, offset + i),
{
    let mut cipher = ctr::Ctr128BE::<aes::Aes256>::new(key.into(), iv.into());
    cipher.seek(offset as u128);
    cipher.apply_keystream(data);
}

/// Applies the keystream to `data`, taken as the stream bytes that start at
/// `stream_offset`, on the calling thread.
pub fn apply_keystream_sequential(key: &[u8], iv: &[u8], data: &mut [u8], stream_offset: usize)
    requires
        key@.len() == KEY_LENGTH,
        iv@.len() == CTR_IV_LENGTH,
    ensures
        final(data)@ == keystream_xor(key@, iv@, stream_offset as int, old(data)@),
{
    aes256_ctr_xor_at(key, iv, data, stream_offset);
    assert(data@ =~= keystream_xor(key@, iv@, stream_offset as int, old(data)@));
}

/// The keystream applied piece by piece: `data` is cut into consecutive
/// pieces of `segment` bytes (the last may be shorter) and each piece is
/// transformed on its own, at its own absolute offset.
pub open spec fn segmented_xor(key: Seq<u8>, iv: Seq<u8>, offset: int, data: Seq<u8>, segment: nat) -> Seq<u8>
    decreases data.len(),
{
    if segment == 0 || data.len() <= segment {
        keystream_xor(key, iv, offset, data)
    } else {
        keystream_xor(key, iv, offset, data.subrange(0, segment as int)) + segmented_xor(
            key,
            iv,
            offset + segment,
            data.subrange(segment as int, data.len() as int),
            segment,
        )
    }
}

/// Applies the keystream to the piece of index `index` of a buffer cut into
/// pieces of `segment` bytes: its bytes are the stream bytes from
/// `stream_offset + index * segment` on.
pub fn apply_segment(
    key: &[u8],
    iv: &[u8],
    chunk: &mut [u8],
    stream_offset: usize,
    index: usize,
    segment: usize,
)
    requires
        key@.len() == KEY_LENGTH,
        iv@.len() == CTR_IV_LENGTH,
        stream_offset + index * segment + old(chunk)@.len() <= usize::MAX,
    ensures
        final(chunk)@ == keystream_xor(key@, iv@, stream_offset + index * segment, old(chunk)@),
{
    proof {
        assert(0 <= index * segment) by (nonlinear_arith);
    }
    let start = index * segment;
    apply_keystream_sequential(key, iv, chunk, stream_offset + start);
}

/// Relies on rayon's `par_chunks_mut(n).enumerate().for_each(f)`: the slice is
/// cut into consecutive, disjoint chunks of `n` bytes (the last may be
/// shorter), chunk `i` being bytes `i * n ..` of the slice, and `f` runs
/// once on each `(i, chunk)`, all joined before the call returns. Each chunk
/// goes to `apply_segment` with its index, whose contract then gives each
/// piece of `segmented_xor`.
#[verifier::external_body]
fn par_keystream_segments(
    key: &[u8],
    iv: &[u8],
    data: &mut [u8],
    segment: usize,
    stream_offset: usize,
)
    requires
        key@.len() == KEY_LENGTH,
        iv@.len() == CTR_IV_LENGTH,
        segment > 0,
        stream_offset + old(data)@.len() <= usize::MAX,
    ensures
        final(data)@ == segmented_xor(key@, iv@, stream_offset as int, old(data)@, segment as nat),
{
    data.par_chunks_mut(segment).enumerate().for_each(
        |(i, chunk)| apply_segment(key, iv, chunk, stream_offset, i, segment),
    );
}

/// Size of each sub-range when `total` bytes are split into `parts` ranges:
/// the ceiling of `total / parts`.
pub open spec fn segment_size_spec(total: nat, parts: nat) -> nat
    recommends
        parts > 0,
{
    if total % parts == 0 {
        total / parts
    } else {
        total / parts + 1
    }
}

/// The ceiling of `total / parts`, the length of every sub-range but the last.
pub fn segment_size(total: usize, parts: usize) -> (r: usize)
    requires
        parts > 0,
    ensures
        r == segment_size_spec(total as nat, parts as nat),
        total > 0 ==> r > 0,
        r * parts >= total,
        total > 0 ==> (r - 1) * parts < total,
{
    let q = total / parts;
    let rem = total % parts;
    proof {
        let t = total as int;
        let p = parts as int;
        assert(t == p * (t / p) + t % p && 0 <= t % p < p) by (nonlinear_arith)
            requires p > 0;
        assert(q <= t) by (nonlinear_arith)
            requires p >= 1, t == p * q + rem, rem >= 0, q >= 0;
        if rem > 0 {
            assert(q < t) by (nonlinear_arith)
                requires p >= 1, t == p * q + rem, rem > 0, q >= 0;
        }
    }
    let r = if rem == 0 { q } else { q + 1 };
    proof {
        let t = total as int;
        let p = parts as int;
        assert(r * p >= t) by (nonlinear_arith)
            requires t == p * q + rem, 0 <= rem < p, (rem == 0 && r == q) || (rem > 0 && r == q + 1);
        if t > 0 {
            assert(r > 0) by (nonlinear_arith)
                requires t == p * q + rem, t > 0, (rem == 0 && r == q) || (rem > 0 && r == q + 1), q >= 0;
            assert((r - 1) * p < t) by (nonlinear_arith)
                requires t == p * q + rem, 0 <= rem < p, t > 0,
                    (rem == 0 && r == q) || (rem > 0 && r == q + 1);
        }
    }
    r
}

/// The half-open sub-ranges `[start, end)` into which a buffer of `total`
/// bytes is split for `parts` workers: consecutive ranges of `segment_size`
/// bytes, the last one possibly shorter, empty ones left out.
pub fn segment_ranges(total: usize, parts: usize) -> (r: Vec<(usize, usize)>)
    requires
        parts > 0,
    ensures
        r@.len() <= parts,
        forall|i: int| #![trigger r@[i]] 0 <= i < r@.len() ==> {
            &&& r@[i].0 == i * segment_size_spec(total as nat, parts as nat)
            &&& r@[i].0 < r@[i].1
            &&& r@[i].1 == if i == r@.len() - 1 { total as int } else { r@[i].0
                + segment_size_spec(total as nat, parts as nat) }
        },
        total == 0 <==> r@.len() == 0,
{
    let mut r: Vec<(usize, usize)> = Vec::new();
    if total == 0 {
        return r;
    }
    let size = segment_size(total, parts);
    let mut start: usize = 0;
    let mut k: usize = 0;
    while start < total
        invariant
            size > 0,
            size == segment_size_spec(total as nat, parts as nat),
            size * parts >= total,
            (size - 1) * parts < total,
            start <= total,
            start <= k * size,
            start < total ==> start == k * size,
            k <= parts,
            r@.len() == k,
            k > 0 ==> r@[k - 1].1 == start,
            forall|i: int| #![trigger r@[i]] 0 <= i < r@.len() ==> {
                &&& r@[i].0 == i * size
                &&& r@[i].0 < r@[i].1
                &&& r@[i].1 == if r@[i].0 + size <= total { r@[i].0 + size } else { total as int }
            },
        decreases total - start,
    {
        let end = if total - start >= size { start + size } else { total };
        r.push((start, end));
        proof {
            assert(k < parts) by (nonlinear_arith)
                requires start == k * size, start < total, size * parts >= total, size > 0;
            assert((k + 1) * size == k * size + size) by (nonlinear_arith);
            assert(r@[k as int].0 == k * size);
        }
        start = end;
        k = k + 1;
    }
    proof {
        assert forall|i: int| #![trigger r@[i]] 0 <= i < r@.len() implies r@[i].1 == if i == r@.len() - 1 {
            total as int
        } else {
            r@[i].0 + size
        } by {
            if i < r@.len() - 1 {
                assert(r@[i].1 <= r@[i + 1].0) by {
                    assert((i + 1) * size == i * size + size) by (nonlinear_arith);
                }
                assert(r@[i].0 + size <= total) by {
                    assert(r@[i + 1].0 < total);
                    assert((i + 1) * size == i * size + size) by (nonlinear_arith);
                }
            }
        }
    }
    r
}

/// Transforms `data` in place so that byte `i` becomes
/// `data[i] ^ keystream(key, iv, stream_offset + i)`. With `parts > 1` and a
/// buffer of at least `PARALLEL_THRESHOLD` bytes the work is split into
/// `parts` sub-ranges processed in parallel, each by its own cipher instance
/// seeked to its absolute offset; `parts` of 0 or 1 means the calling thread
/// only. The result depends on key, IV, data and offset alone, never on
/// `parts`.
pub fn ctr_apply_in_parts(
    key: &[u8],
    iv: &[u8],
    data: &mut [u8],
    stream_offset: usize,
    parts: usize,
) -> (r: Result<(), CryptError>)
    requires
        stream_offset + old(data)@.len() <= usize::MAX,
    ensures
        r is Ok <==> (key@.len() == KEY_LENGTH && iv@.len() == CTR_IV_LENGTH),
        r is Err ==> r == Err::<(), CryptError>(CryptError::InvalidParameter) && final(data)@ == old(
            data,
        )@,
        r is Ok ==> final(data)@ == keystream_xor(key@, iv@, stream_offset as int, old(data)@),
{
    if key.len() != KEY_LENGTH || iv.len() != CTR_IV_LENGTH {
        return Err(CryptError::InvalidParameter);
    }
    let total = data.len();
    if total == 0 {
        proof {
            assert(keystream_xor(key@, iv@, stream_offset as int, data@) == data@);
        }
        return Ok(());
    }
    if parts <= 1 || total < PARALLEL_THRESHOLD {
        apply_keystream_sequential(key, iv, data, stream_offset);
        return Ok(());
    }
    let segment = segment_size(total, parts);
    let ghost before = data@;
    par_keystream_segments(key, iv, data, segment, stream_offset);
    proof {
        lemma_segmented_xor(key@, iv@, stream_offset as int, before, segment as nat);
    }
    Ok(())
}

/// XOR with the same byte twice gives the byte back.
pub proof fn lemma_xor_twice(a: u8, b: u8)
    ensures
        (a ^ b) ^ b == a,
{
    assert((a ^ b) ^ b == a) by (bit_vector);
}

/// Applying the keystream twice at the same offset gives the data back:
/// decryption undoes encryption.
pub proof fn lemma_keystream_involution(key: Seq<u8>, iv: Seq<u8>, offset: int, data: Seq<u8>)
    ensures
        keystream_xor(key, iv, offset, keystream_xor(key, iv, offset, data)) == data,
{
    let once = keystream_xor(key, iv, offset, data);
    let twice = keystream_xor(key, iv, offset, once);
    assert forall|i: int| 0 <= i < data.len() implies twice[i] == data[i] by {
        lemma_xor_twice(data[i], aes256_ctr_keystream_byte(key, iv, offset + i));
    }
    assert(twice =~= data);
}

/// The keystream at a byte depends on its absolute position only: applying
/// it to two consecutive pieces, each at its own offset, is applying it to
/// the whole.
pub proof fn lemma_keystream_split(key: Seq<u8>, iv: Seq<u8>, offset: int, a: Seq<u8>, b: Seq<u8>)
    ensures
        keystream_xor(key, iv, offset, a + b) == keystream_xor(key, iv, offset, a)
            + keystream_xor(key, iv, offset + a.len(), b),
{
    assert(keystream_xor(key, iv, offset, a + b) =~= keystream_xor(key, iv, offset, a)
        + keystream_xor(key, iv, offset + a.len(), b));
}

/// Applying the keystream piece by piece, each piece at its absolute
/// offset, is applying it to the whole buffer, whatever the piece size.
pub proof fn lemma_segmented_xor(key: Seq<u8>, iv: Seq<u8>, offset: int, data: Seq<u8>, segment: nat)
    ensures
        segmented_xor(key, iv, offset, data, segment) == keystream_xor(key, iv, offset, data),
    decreases data.len(),
{
    if segment == 0 || data.len() <= segment {
    } else {
        let head = data.subrange(0, segment as int);
        let tail = data.subrange(segment as int, data.len() as int);
        lemma_segmented_xor(key, iv, offset + segment, tail, segment);
        assert(data == head + tail);
        lemma_keystream_split(key, iv, offset, head, tail);
    }
}

/// Parallelism invariance: splitting a buffer into pieces of any two sizes
/// (as fan-outs of different degrees do) and transforming each piece at its
/// own offset gives byte-identical output.
pub proof fn lemma_parallelism_invariance(
    key: Seq<u8>,
    iv: Seq<u8>,
    offset: int,
    data: Seq<u8>,
    segment_a: nat,
    segment_b: nat,
)
    ensures
        segmented_xor(key, iv, offset, data, segment_a) == segmented_xor(key, iv, offset, data, segment_b),
{
    lemma_segmented_xor(key, iv, offset, data, segment_a);
    lemma_segmented_xor(key, iv, offset, data, segment_b);
}

/// A keystream engine for one key and IV, whose lengths are checked once,
/// when it is built, applying the keystream with a fixed fan-out.
pub struct KeystreamEngine {
    key: Vec<u8>,
    iv: Vec<u8>,
    parts: usize,
}

impl KeystreamEngine {
    #[verifier::type_invariant]
    closed spec fn lengths_ok(&self) -> bool {
        self.key@.len() == KEY_LENGTH && self.iv@.len() == CTR_IV_LENGTH
    }

    /// The AES-256 key.
    pub closed spec fn key(&self) -> Seq<u8> {
        self.key@
    }

    /// The CTR IV.
    pub closed spec fn iv(&self) -> Seq<u8> {
        self.iv@
    }

    /// Builds an engine; fails with `InvalidParameter` unless the key is 32
    /// bytes and the IV 16 bytes long.
    pub fn new(key: &[u8], iv: &[u8], parts: usize) -> (r: Result<Self, CryptError>)
        ensures
            r is Ok <==> (key@.len() == KEY_LENGTH && iv@.len() == CTR_IV_LENGTH),
            r is Err ==> r == Err::<Self, CryptError>(CryptError::InvalidParameter),
            r matches Ok(e) ==> e.key() == key@ && e.iv() == iv@,
    {
        if key.len() != KEY_LENGTH || iv.len() != CTR_IV_LENGTH {
            return Err(CryptError::InvalidParameter);
        }
        let k = copy_bytes(key);
        let v = copy_bytes(iv);
        Ok(KeystreamEngine { key: k, iv: v, parts })
    }

    /// Transforms `data`, the stream bytes from `stream_offset` on, in place.
    pub fn apply(&self, data: &mut [u8], stream_offset: usize)
        requires
            stream_offset + old(data)@.len() <= usize::MAX,
        ensures
            final(data)@ == keystream_xor(self.key(), self.iv(), stream_offset as int, old(data)@),
    {
        proof {
            use_type_invariant(self);
        }
        let _ = ctr_apply_in_parts(self.key.as_slice(), self.iv.as_slice(), data, stream_offset, self.parts);
    }
}

fn copy_bytes(s: &[u8]) -> (r: Vec<u8>)
    ensures
        r@ == s@,
{
    let mut r: Vec<u8> = Vec::new();
    let mut i: usize = 0;
    while i < s.len()
        invariant
            i <= s@.len(),
            r@ == s@.subrange(0, i as int),
        decreases s@.len() - i,
    {
        r.push(s[i]);
        i = i + 1;
        proof {
            assert(s@.subrange(0, i as int) == s@.subrange(0, i - 1) + seq![s@[i - 1]]);
        }
    }
    proof {
        assert(s@.subrange(0, s@.len() as int) == s@);
    }
    r
}

} // verus!
