use vstd::prelude::*;
use vstd::string::StringExecFns;
use crate::wave::{sample_bytes, samples_of, wave_bytes, lemma_wave_bytes_round_trip};

verus! {

/// Why a wave container could not be written.
#[derive(Debug)]
pub enum WaveWriterError {
    /// The channel count, sample width or sample rate cannot describe 16-bit PCM.
    UnsupportedFormat,
    /// The samples take more bytes than a wave container can declare.
    DataTooLong,
}

impl WaveWriterError {
    pub open spec fn rendered(&self) -> Seq<char> {
        match self {
            WaveWriterError::UnsupportedFormat => "Unsupported wave format"@,
            WaveWriterError::DataTooLong => "Too many samples for a wave container"@,
        }
    }

    pub fn message(&self) -> (s: String)
        ensures
            s@ == self.rendered(),
    {
        match self {
            WaveWriterError::UnsupportedFormat => String::from_str("Unsupported wave format"),
            WaveWriterError::DataTooLong => String::from_str(
                "Too many samples for a wave container",
            ),
        }
    }
}

/// The length of the header that precedes the samples.
pub const WAVE_HEADER_LEN: usize = 44;

/// The two little-endian bytes of `v`.
pub open spec fn u16_le(v: u16) -> Seq<u8> {
    seq![(v & 0xff) as u8, (v >> 8) as u8]
}

/// The four little-endian bytes of `v`.
pub open spec fn u32_le(v: u32) -> Seq<u8> {
    seq![
        (v & 0xff) as u8,
        ((v >> 8) & 0xff) as u8,
        ((v >> 16) & 0xff) as u8,
        (v >> 24) as u8,
    ]
}

/// The number that four little-endian bytes encode.
pub open spec fn u32_of_le(b: Seq<u8>) -> u32 {
    (b[0] as u32) | ((b[1] as u32) << 8) | ((b[2] as u32) << 16) | ((b[3] as u32) << 24)
}

/// The number that two little-endian bytes encode.
pub open spec fn u16_of_le(b: Seq<u8>) -> u16 {
    (b[0] as u16) | ((b[1] as u16) << 8)
}

/// True where 16-bit PCM with these parameters can be described by a wave header.
pub open spec fn format_supported(sample_rate: u32, num_channels: u32, sample_width: u32) -> bool {
    &&& sample_width == 2
    &&& 1 <= num_channels <= 0x7fff
    &&& sample_rate * num_channels * 2 <= u32::MAX
}

/// True where `n` samples fit into the data chunk of a wave container.
pub open spec fn data_fits(n: nat) -> bool {
    2 * n + 36 <= u32::MAX
}

/// The RIFF/WAVE header of PCM data (format code 1) of `data_len` bytes.
pub open spec fn wave_header(data_len: u32, sample_rate: u32, num_channels: u32) -> Seq<u8> {
    seq![0x52u8, 0x49, 0x46, 0x46] + u32_le((36 + data_len) as u32) + seq![
        0x57u8,
        0x41,
        0x56,
        0x45,
    ] + seq![0x66u8, 0x6d, 0x74, 0x20] + u32_le(16) + u16_le(1) + u16_le(num_channels as u16)
        + u32_le(sample_rate) + u32_le((sample_rate * num_channels * 2) as u32) + u16_le(
        (num_channels * 2) as u16,
    ) + u16_le(16) + seq![0x64u8, 0x61, 0x74, 0x61] + u32_le(data_len)
}

/// A whole wave container: the header, then the samples as little-endian bytes.
pub open spec fn wave_file(samples: Seq<i16>, sample_rate: u32, num_channels: u32) -> Seq<u8> {
    wave_header((2 * samples.len()) as u32, sample_rate, num_channels) + wave_bytes(samples)
}

fn push_u16_le(out: &mut Vec<u8>, v: u16)
    ensures
        final(out)@ == old(out)@ + u16_le(v),
{
    out.push((v & 0xff) as u8);
    out.push((v >> 8) as u8);
    proof {
        assert(out@ =~= old(out)@ + u16_le(v));
    }
}

fn push_u32_le(out: &mut Vec<u8>, v: u32)
    ensures
        final(out)@ == old(out)@ + u32_le(v),
{
    out.push((v & 0xff) as u8);
    out.push(((v >> 8) & 0xff) as u8);
    out.push(((v >> 16) & 0xff) as u8);
    out.push((v >> 24) as u8);
    proof {
        assert(out@ =~= old(out)@ + u32_le(v));
    }
}

fn push_tag(out: &mut Vec<u8>, a: u8, b: u8, c: u8, d: u8)
    ensures
        final(out)@ == old(out)@ + seq![a, b, c, d],
{
    out.push(a);
    out.push(b);
    out.push(c);
    out.push(d);
    proof {
        assert(out@ =~= old(out)@ + seq![a, b, c, d]);
    }
}

/// Writes `samples` as a PCM wave container into a fresh buffer.
///
/// Fails with `UnsupportedFormat` where the parameters cannot describe 16-bit
/// PCM, else with `DataTooLong` where the samples do not fit; in every other
/// case the buffer holds exactly `wave_file`.
pub fn write_wave_samples_to_buffer(
    samples: &Vec<i16>,
    sample_rate: u32,
    num_channels: u32,
    sample_width: u32,
) -> (r: Result<Vec<u8>, WaveWriterError>)
    ensures
        !format_supported(sample_rate, num_channels, sample_width) ==> r
            == Err::<Vec<u8>, WaveWriterError>(WaveWriterError::UnsupportedFormat),
        format_supported(sample_rate, num_channels, sample_width) && !data_fits(samples@.len())
            ==> r == Err::<Vec<u8>, WaveWriterError>(WaveWriterError::DataTooLong),
        format_supported(sample_rate, num_channels, sample_width) && data_fits(samples@.len())
            ==> r is Ok && r->Ok_0@ == wave_file(samples@, sample_rate, num_channels),
{
    if sample_width != 2 || num_channels == 0 || num_channels > 0x7fff {
        return Err(WaveWriterError::UnsupportedFormat);
    }
    let rate: u64 = sample_rate as u64;
    let channels: u64 = num_channels as u64;
    assert(rate * channels <= 0xffff_ffff * 0x7fff) by (nonlinear_arith)
        requires
            rate <= 0xffff_ffff,
            channels <= 0x7fff,
    ;
    let byte_rate: u64 = rate * channels * 2;
    if byte_rate > 0xffff_ffff {
        return Err(WaveWriterError::UnsupportedFormat);
    }
    if samples.len() > 0x7fff_ffed {
        return Err(WaveWriterError::DataTooLong);
    }
    let data_len: u32 = (samples.len() * 2) as u32;
    let mut out: Vec<u8> = Vec::new();
    push_tag(&mut out, 0x52, 0x49, 0x46, 0x46);
    push_u32_le(&mut out, 36 + data_len);
    push_tag(&mut out, 0x57, 0x41, 0x56, 0x45);
    push_tag(&mut out, 0x66, 0x6d, 0x74, 0x20);
    push_u32_le(&mut out, 16);
    push_u16_le(&mut out, 1);
    push_u16_le(&mut out, num_channels as u16);
    push_u32_le(&mut out, sample_rate);
    push_u32_le(&mut out, byte_rate as u32);
    push_u16_le(&mut out, (num_channels * 2) as u16);
    push_u16_le(&mut out, 16);
    push_tag(&mut out, 0x64, 0x61, 0x74, 0x61);
    push_u32_le(&mut out, data_len);
    let mut body = sample_bytes(samples);
    out.append(&mut body);
    Ok(out)
}

/// A number's four little-endian bytes encode that number.
pub proof fn lemma_u32_le_round_trip(v: u32)
    ensures
        u32_le(v).len() == 4,
        u32_of_le(u32_le(v)) == v,
{
    assert((((v & 0xff) as u8) as u32) | ((((v >> 8) & 0xff) as u8) as u32) << 8 | ((((v >> 16)
        & 0xff) as u8) as u32) << 16 | (((v >> 24) as u8) as u32) << 24 == v) by (bit_vector);
}

/// A number's two little-endian bytes encode that number.
pub proof fn lemma_u16_le_round_trip(v: u16)
    ensures
        u16_le(v).len() == 2,
        u16_of_le(u16_le(v)) == v,
{
    assert((((v & 0xff) as u8) as u16) | (((v >> 8) as u8) as u16) << 8 == v) by (bit_vector);
}

/// Reading a written container back: what follows the header decodes to the
/// samples that were written, and the header declares the sample rate that was
/// given, one format code for PCM, the channel count, and sixteen bits per sample.
pub proof fn lemma_wave_file_round_trip(samples: Seq<i16>, sample_rate: u32, num_channels: u32)
    requires
        format_supported(sample_rate, num_channels, 2),
        data_fits(samples.len()),
    ensures
        wave_file(samples, sample_rate, num_channels).len() == WAVE_HEADER_LEN + 2 * samples.len(),
        samples_of(
            wave_file(samples, sample_rate, num_channels).skip(WAVE_HEADER_LEN as int),
        ) == samples,
        u16_of_le(wave_file(samples, sample_rate, num_channels).subrange(20, 22)) == 1,
        u16_of_le(wave_file(samples, sample_rate, num_channels).subrange(22, 24)) == num_channels,
        u32_of_le(wave_file(samples, sample_rate, num_channels).subrange(24, 28)) == sample_rate,
        u16_of_le(wave_file(samples, sample_rate, num_channels).subrange(34, 36)) == 16,
        u32_of_le(wave_file(samples, sample_rate, num_channels).subrange(40, 44)) == 2
            * samples.len(),
{
    let data_len = (2 * samples.len()) as u32;
    let header = wave_header(data_len, sample_rate, num_channels);
    let file = wave_file(samples, sample_rate, num_channels);
    lemma_wave_bytes_round_trip(samples);
    lemma_u16_le_round_trip(1);
    lemma_u16_le_round_trip(num_channels as u16);
    lemma_u16_le_round_trip(16);
    lemma_u32_le_round_trip(sample_rate);
    lemma_u32_le_round_trip(data_len);
    assert(header.len() == 44);
    assert(file.skip(44) =~= wave_bytes(samples));
    assert(file.subrange(20, 22) =~= u16_le(1));
    assert(file.subrange(22, 24) =~= u16_le(num_channels as u16));
    assert(file.subrange(24, 28) =~= u32_le(sample_rate));
    assert(file.subrange(34, 36) =~= u16_le(16));
    assert(file.subrange(40, 44) =~= u32_le(data_len));
}

} // verus!
