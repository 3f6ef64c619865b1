use vstd::prelude::*;

verus! {

/// The less significant byte of a sample.
pub open spec fn low_byte(s: i16) -> u8 {
    ((s as u16) & 0xff) as u8
}

/// The more significant byte of a sample.
pub open spec fn high_byte(s: i16) -> u8 {
    ((s as u16) >> 8) as u8
}

/// The sample whose little-endian bytes are `lo`, `hi`.
pub open spec fn sample_of(lo: u8, hi: u8) -> i16 {
    (((hi as u16) << 8) | (lo as u16)) as i16
}

/// The samples as bytes: two per sample, the less significant first.
pub open spec fn wave_bytes(samples: Seq<i16>) -> Seq<u8> {
    Seq::new(
        2 * samples.len(),
        |k: int|
            if k % 2 == 0 {
                low_byte(samples[k / 2])
            } else {
                high_byte(samples[k / 2])
            },
    )
}

/// The samples that a run of little-endian byte pairs encodes.
pub open spec fn samples_of(bytes: Seq<u8>) -> Seq<i16> {
    Seq::new(bytes.len() / 2, |i: int| sample_of(bytes[2 * i], bytes[2 * i + 1]))
}

/// Splitting a sample into its two bytes loses nothing.
pub proof fn lemma_sample_bytes_round_trip(s: i16)
    ensures
        sample_of(low_byte(s), high_byte(s)) == s,
{
    assert((((((s as u16) >> 8) as u8) as u16) << 8 | ((((s as u16) & 0xff) as u8) as u16)) as i16
        == s) by (bit_vector);
}

/// Decoding the bytes of a sample sequence gives the sequence back.
pub proof fn lemma_wave_bytes_round_trip(samples: Seq<i16>)
    ensures
        wave_bytes(samples).len() == 2 * samples.len(),
        samples_of(wave_bytes(samples)) == samples,
{
    let bytes = wave_bytes(samples);
    assert forall|i: int| 0 <= i < samples.len() implies #[trigger] samples_of(bytes)[i]
        == samples[i] by {
        lemma_sample_bytes_round_trip(samples[i]);
        assert(bytes[2 * i] == low_byte(samples[i]));
        assert(bytes[2 * i + 1] == high_byte(samples[i]));
    }
    assert(samples_of(bytes) =~= samples);
}

/// A non-negative quantity held exactly, as numerator over denominator. A zero
/// denominator stands for a value that is not finite.
#[derive(Debug, Clone, Copy)]
pub struct Ratio {
    pub num: u128,
    pub den: u128,
}

impl Ratio {
    /// True where the quantity is greater than zero.
    pub open spec fn is_positive(&self) -> bool {
        self.num > 0
    }

    /// True where the quantity is exactly zero.
    pub open spec fn is_zero(&self) -> bool {
        self.num == 0 && self.den != 0
    }
}

/// The format of a run of PCM samples.
#[derive(Debug, Clone)]
pub struct PiperWaveInfo {
    pub sample_rate: usize,
    pub num_channels: usize,
    pub sample_width: usize,
}

/// The audio of one sentence: mono 16-bit samples at the voice's rate, and the
/// time inference took, in milliseconds, where it was measured.
#[derive(Debug, Clone)]
#[must_use]
pub struct PiperWaveSamples {
    pub samples: Vec<i16>,
    pub info: PiperWaveInfo,
    pub inference_ms: Option<u64>,
}

impl PiperWaveSamples {
    pub fn new(samples: Vec<i16>, sample_rate: usize, inference_ms: Option<u64>) -> (ws: Self)
        ensures
            ws.samples == samples,
            ws.inference_ms == inference_ms,
            ws.info.sample_rate == sample_rate,
            ws.info.num_channels == 1,
            ws.info.sample_width == 2,
    {
        Self {
            samples,
            inference_ms,
            info: PiperWaveInfo { sample_rate, num_channels: 1, sample_width: 2 },
        }
    }

    pub fn to_vec(self) -> (v: Vec<i16>)
        ensures
            v == self.samples,
    {
        self.samples
    }

    /// The samples as little-endian bytes, ready to follow a wave header.
    pub fn as_wave_bytes(&self) -> (bytes: Vec<u8>)
        ensures
            bytes@ == wave_bytes(self.samples@),
    {
        sample_bytes(&self.samples)
    }

    pub fn len(&self) -> (n: usize)
        ensures
            n == self.samples@.len(),
    {
        self.samples.len()
    }

    pub fn is_empty(&self) -> (b: bool)
        ensures
            b == (self.samples@.len() == 0),
    {
        self.samples.len() == 0
    }

    /// The exact playing time in milliseconds: a thousand times the number of
    /// samples, over the sample rate.
    pub open spec fn spec_duration_ms(&self) -> Ratio {
        Ratio { num: (self.samples@.len() * 1000) as u128, den: self.info.sample_rate as u128 }
    }

    pub fn duration_ms(&self) -> (d: Ratio)
        ensures
            d == self.spec_duration_ms(),
            d.num == self.samples@.len() * 1000,
            d.den == self.info.sample_rate,
            d.is_positive() <==> self.samples@.len() > 0,
    {
        let n: u128 = self.samples.len() as u128;
        Ratio { num: n * 1000, den: self.info.sample_rate as u128 }
    }

    pub fn inference_ms(&self) -> (ms: Option<u64>)
        ensures
            ms == self.inference_ms,
    {
        self.inference_ms
    }

    /// Inference time over playing time, where inference was timed. With nothing
    /// to play the factor is zero.
    pub open spec fn spec_real_time_factor(&self) -> Option<Ratio> {
        match self.inference_ms {
            None => None,
            Some(ms) => {
                let d = self.spec_duration_ms();
                if d.is_zero() {
                    Some(Ratio { num: 0, den: 1 })
                } else {
                    Some(Ratio { num: (ms * d.den) as u128, den: d.num })
                }
            },
        }
    }

    pub fn real_time_factor(&self) -> (f: Option<Ratio>)
        ensures
            f == self.spec_real_time_factor(),
    {
        match self.inference_ms {
            None => None,
            Some(ms) => {
                let d = self.duration_ms();
                if d.num == 0 && d.den != 0 {
                    Some(Ratio { num: 0, den: 1 })
                } else {
                    let m: u128 = ms as u128;
                    assert(m * d.den <= 0xffff_ffff_ffff_ffff * 0xffff_ffff_ffff_ffff)
                        by (nonlinear_arith)
                        requires
                            m <= 0xffff_ffff_ffff_ffff,
                            d.den <= 0xffff_ffff_ffff_ffff,
                    ;
                    Some(Ratio { num: m * d.den, den: d.num })
                }
            },
        }
    }
}

/// The little-endian bytes of `samples`.
pub fn sample_bytes(samples: &Vec<i16>) -> (bytes: Vec<u8>)
    ensures
        bytes@ == wave_bytes(samples@),
{
    let mut out: Vec<u8> = Vec::new();
    let mut i: usize = 0;
    while i < samples.len()
        invariant
            i <= samples.len(),
            out@ == wave_bytes(samples@.take(i as int)),
        decreases samples.len() - i,
    {
        let s: i16 = samples[i];
        let u: u16 = s as u16;
        out.push((u & 0xff) as u8);
        out.push((u >> 8) as u8);
        proof {
            assert(out@ =~= wave_bytes(samples@.take(i + 1)));
        }
        i += 1;
    }
    proof {
        assert(samples@.take(samples.len() as int) =~= samples@);
    }
    out
}

} // verus!
