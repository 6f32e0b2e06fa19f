use vstd::prelude::*;

verus! {

#[verifier::external_type_specification]
#[verifier::external_body]
pub struct ExSha256(sha2::Sha256);

/// The bytes a SHA-256 hasher has been fed so far.
pub uninterp spec fn sha256_absorbed(hasher: sha2::Sha256) -> Seq<u8>;

/// The SHA-256 digest of a byte sequence.
pub uninterp spec fn sha256_digest_of(data: Seq<u8>) -> Seq<u8>;

/// `sha2::Sha256::new` (through `Digest::new`): a hasher that has absorbed
/// nothing. Trusted: its absorbed bytes are empty.
#[verifier::external_body]
fn sha256_new() -> (r: sha2::Sha256)
    ensures
        sha256_absorbed(r) == Seq::<u8>::empty(),
{
    <sha2::Sha256 as sha2::Digest>::new()
}

/// `Digest::update`: feeds bytes to the hasher. Trusted: the absorbed bytes
/// grow by exactly `data`.
#[verifier::external_body]
fn sha256_update(hasher: &mut sha2::Sha256, data: &[u8])
    ensures
        sha256_absorbed(*final(hasher)) == sha256_absorbed(*old(hasher)) + data@,
{
    sha2::Digest::update(hasher, data)
}

/// `Digest::finalize`: the 32-byte digest. Trusted: it is the SHA-256 digest
/// of everything absorbed.
#[verifier::external_body]
fn sha256_finalize(hasher: sha2::Sha256) -> (r: Vec<u8>)
    ensures
        r@ == sha256_digest_of(sha256_absorbed(hasher)),
{
    sha2::Digest::finalize(hasher).to_vec()
}

/// The lowercase hexadecimal digit of a value below 16.
pub open spec fn hex_digit(n: int) -> char {
    if n < 10 {
        (48 + n) as char
    } else {
        (87 + n) as char
    }
}

/// Lowercase hexadecimal text of bytes: two digits per byte, high nibble
/// first.
pub open spec fn lower_hex(bytes: Seq<u8>) -> Seq<char> {
    Seq::new(
        2 * bytes.len(),
        |k: int|
            if k % 2 == 0 {
                hex_digit(bytes[k / 2] as int / 16)
            } else {
                hex_digit(bytes[k / 2] as int % 16)
            },
    )
}

/// `hex::encode`: lowercase hexadecimal text of the bytes. Trusted: as its
/// documentation and source state, each byte becomes its two lowercase hex
/// digits, high nibble first.
#[verifier::external_body]
fn hex_encode(bytes: &[u8]) -> (r: String)
    ensures
        r@ == lower_hex(bytes@),
{
    hex::encode(bytes)
}

/// A running SHA-256 digest of decoded PCM.
pub struct PcmDigest {
    hasher: sha2::Sha256,
}

impl PcmDigest {
    /// The bytes absorbed so far.
    pub closed spec fn absorbed(&self) -> Seq<u8> {
        sha256_absorbed(self.hasher)
    }

    pub fn new() -> (r: Self)
        ensures
            r.absorbed() == Seq::<u8>::empty(),
    {
        PcmDigest { hasher: sha256_new() }
    }

    pub fn absorb_bytes(&mut self, data: &[u8])
        ensures
            final(self).absorbed() == old(self).absorbed() + data@,
    {
        sha256_update(&mut self.hasher, data);
    }

    /// The digest of everything absorbed, as lowercase hex.
    pub fn finish_hex(self) -> (r: String)
        ensures
            r@ == lower_hex(sha256_digest_of(self.absorbed())),
    {
        let digest = sha256_finalize(self.hasher);
        hex_encode(digest.as_slice())
    }
}

/// The little-endian bytes of a sample.
pub open spec fn le_bytes(v: i32) -> Seq<u8> {
    let u = v as u32;
    seq![(u & 0xff) as u8, ((u >> 8u32) & 0xff) as u8, ((u >> 16u32) & 0xff) as u8, ((u >> 24u32) & 0xff) as u8]
}

/// The little-endian bytes of samples, one after another.
pub open spec fn all_le_bytes(samples: Seq<i32>) -> Seq<u8>
    decreases samples.len(),
{
    if samples.len() == 0 {
        Seq::empty()
    } else {
        all_le_bytes(samples.drop_last()) + le_bytes(samples.last())
    }
}

/// The smallest of `start` and the samples.
pub open spec fn running_min(start: i32, samples: Seq<i32>) -> i32
    decreases samples.len(),
{
    if samples.len() == 0 {
        start
    } else {
        let m = running_min(start, samples.drop_last());
        if samples.last() < m { samples.last() } else { m }
    }
}

/// The largest of `start` and the samples.
pub open spec fn running_max(start: i32, samples: Seq<i32>) -> i32
    decreases samples.len(),
{
    if samples.len() == 0 {
        start
    } else {
        let m = running_max(start, samples.drop_last());
        if samples.last() > m { samples.last() } else { m }
    }
}

/// Folds one integer sample into the running minimum, maximum and digest.
pub fn update_integer_sample(value: i32, min_sample: &mut i32, max_sample: &mut i32, digest: &mut PcmDigest)
    ensures
        *final(min_sample) == if value < *old(min_sample) { value } else { *old(min_sample) },
        *final(max_sample) == if value > *old(max_sample) { value } else { *old(max_sample) },
        final(digest).absorbed() == old(digest).absorbed() + le_bytes(value),
{
    if value < *min_sample {
        *min_sample = value;
    }
    if value > *max_sample {
        *max_sample = value;
    }
    let u = value as u32;
    let mut bytes: Vec<u8> = Vec::new();
    bytes.push((u & 0xff) as u8);
    bytes.push(((u >> 8u32) & 0xff) as u8);
    bytes.push(((u >> 16u32) & 0xff) as u8);
    bytes.push(((u >> 24u32) & 0xff) as u8);
    assert(bytes@ =~= le_bytes(value));
    digest.absorb_bytes(bytes.as_slice());
}

/// Counters over a decoded stream.
#[derive(Debug, Clone, Copy, PartialEq, Eq, Structural)]
pub struct PcmStats {
    pub decoded_frames: u64,
    pub decoded_samples: u64,
    pub min_sample: i32,
    pub max_sample: i32,
}

impl PcmStats {
    pub fn new() -> (r: Self)
        ensures
            r == (PcmStats { decoded_frames: 0, decoded_samples: 0, min_sample: i32::MAX, max_sample: i32::MIN }),
    {
        PcmStats { decoded_frames: 0, decoded_samples: 0, min_sample: i32::MAX, max_sample: i32::MIN }
    }

    /// Accounts for one decoded buffer of `frames` frames of `channels`
    /// channels; its integer samples (none for a float buffer) update the
    /// extremes and the digest, in order.
    pub fn update(&mut self, digest: &mut PcmDigest, frames: u64, channels: u64, integer_samples: &[i32])
        requires
            old(self).decoded_frames + frames <= u64::MAX,
            old(self).decoded_samples + frames * channels <= u64::MAX,
        ensures
            final(self).decoded_frames == old(self).decoded_frames + frames,
            final(self).decoded_samples == old(self).decoded_samples + frames * channels,
            final(self).min_sample == running_min(old(self).min_sample, integer_samples@),
            final(self).max_sample == running_max(old(self).max_sample, integer_samples@),
            final(digest).absorbed() == old(digest).absorbed() + all_le_bytes(integer_samples@),
    {
        self.decoded_frames = self.decoded_frames + frames;
        let samples_before = self.decoded_samples;
        assert(frames * channels <= u64::MAX) by (nonlinear_arith)
            requires
                samples_before + frames * channels <= u64::MAX,
                samples_before >= 0,
        ;
        self.decoded_samples = self.decoded_samples + frames * channels;
        let ghost start_min = self.min_sample;
        let ghost start_max = self.max_sample;
        let ghost start_digest = digest.absorbed();
        let mut i: usize = 0;
        while i < integer_samples.len()
            invariant
                i <= integer_samples@.len(),
                self.decoded_frames == old(self).decoded_frames + frames,
                self.decoded_samples == old(self).decoded_samples + frames * channels,
                start_min == old(self).min_sample,
                start_max == old(self).max_sample,
                start_digest == old(digest).absorbed(),
                self.min_sample == running_min(start_min, integer_samples@.take(i as int)),
                self.max_sample == running_max(start_max, integer_samples@.take(i as int)),
                digest.absorbed() == start_digest + all_le_bytes(integer_samples@.take(i as int)),
            decreases integer_samples@.len() - i,
        {
            let value = integer_samples[i];
            update_integer_sample(value, &mut self.min_sample, &mut self.max_sample, digest);
            proof {
                let t = integer_samples@.take(i + 1);
                assert(t.drop_last() =~= integer_samples@.take(i as int));
                assert(t.last() == value);
                assert(all_le_bytes(t) == all_le_bytes(t.drop_last()) + le_bytes(value));
                assert(start_digest + all_le_bytes(integer_samples@.take(i as int)) + le_bytes(value)
                    =~= start_digest + all_le_bytes(t));
            }
            i = i + 1;
        }
        assert(integer_samples@.take(integer_samples@.len() as int) =~= integer_samples@);
    }
}

/// Whether the container's frame count matched what was decoded; unknown
/// counts never match.
pub fn frame_count_ok(expected_frames: Option<u64>, decoded_frames: u64) -> (r: bool)
    ensures
        r == (expected_frames == Some(decoded_frames)),
{
    match expected_frames {
        Some(expected) => expected == decoded_frames,
        None => false,
    }
}

} // verus!
