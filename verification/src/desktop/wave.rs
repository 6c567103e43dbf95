//! Recordings as WAVE files.
use vstd::prelude::*;

use crate::text;

verus! {

/// A 16-bit number as two bytes, the low one first.
pub open spec fn le16(n: int) -> Seq<u8> {
    seq![(n % 256) as u8, (n / 256 % 256) as u8]
}

/// A 32-bit number as four bytes, the low one first.
pub open spec fn le32(n: int) -> Seq<u8> {
    le16(n % 65536) + le16(n / 65536)
}

/// Samples as bytes, in two's complement.
pub open spec fn sample_bytes(samples: Seq<i16>) -> Seq<u8>
    decreases samples.len(),
{
    if samples.len() == 0 {
        Seq::empty()
    } else {
        sample_bytes(samples.drop_last()) + le16(samples.last() as int % 65536)
    }
}

/// A WAVE file of 16-bit samples: the RIFF header with the length of what
/// follows, the format, and the samples behind their length.
pub open spec fn wave_file(samples: Seq<i16>, sample_rate: u32, channels: u16) -> Seq<u8> {
    let data = 2 * samples.len() as int;
    text::ascii_bytes("RIFF"@) + le32(36 + data) + text::ascii_bytes("WAVEfmt "@) + le32(16) + le16(
        1,
    ) + le16(channels as int) + le32(sample_rate as int) + le32(2 * channels * sample_rate) + le16(
        2 * channels,
    ) + le16(16) + text::ascii_bytes("data"@) + le32(data) + sample_bytes(samples)
}

/// Whether samples can be written: whole frames of one or two channels, at a
/// rate and of a length that the headers can hold.
pub open spec fn fits_wave(samples: Seq<i16>, sample_rate: u32, channels: u16) -> bool {
    &&& 1 <= channels <= 2
    &&& samples.len() as int % channels as int == 0
    &&& 36 + 2 * samples.len() <= u32::MAX
    &&& 1 <= sample_rate
    &&& 2 * channels * sample_rate <= u32::MAX
}

/// `hound::WavWriter`: `new`, one `write_sample` for each sample, `finalize`,
/// into memory and with 16-bit samples. What it writes is the header and the
/// samples as `wave_file` gives them. Writing into memory does not fail.
#[verifier::external_body]
fn write_wave(samples: &[i16], sample_rate: u32, channels: u16) -> (r: Result<Vec<u8>, String>)
    requires
        fits_wave(samples@, sample_rate, channels),
    ensures
        r is Ok,
        r matches Ok(bytes) ==> bytes@ == wave_file(samples@, sample_rate, channels),
{
    let sample_format = hound::SampleFormat::Int;
    let spec = hound::WavSpec { channels, sample_rate, bits_per_sample: 16, sample_format };
    let mut cursor = std::io::Cursor::new(Vec::new());
    let mut writer = hound::WavWriter::new(&mut cursor, spec).map_err(|e| e.to_string())?;
    for sample in samples {
        writer.write_sample(*sample).map_err(|e| e.to_string())?;
    }
    writer.finalize().map_err(|e| e.to_string())?;
    Ok(cursor.into_inner())
}

/// A recording of one channel as a WAVE file.
pub fn encode_wave(samples: &[i16], sample_rate: u32) -> (r: Result<Vec<u8>, String>)
    requires
        fits_wave(samples@, sample_rate, 1),
    ensures
        r matches Ok(bytes) && bytes@ == wave_file(samples@, sample_rate, 1),
{
    match write_wave(samples, sample_rate, 1) {
        Ok(bytes) => Ok(bytes),
        Err(error) => Err(text::concat("写入波形数据失败: ", error.as_str())),
    }
}

/// The samples that a WAVE file holds, if it is long enough to hold some.
pub open spec fn stored_sample(file: Seq<u8>, i: int) -> int {
    file[44 + 2 * i] + 256 * file[45 + 2 * i]
}

proof fn lemma_sample_bytes(samples: Seq<i16>, i: int)
    requires
        0 <= i < samples.len(),
    ensures
        sample_bytes(samples).len() == 2 * samples.len(),
        sample_bytes(samples)[2 * i] == (samples[i] as int % 65536) % 256,
        sample_bytes(samples)[2 * i + 1] == (samples[i] as int % 65536) / 256,
    decreases samples.len(),
{
    let rest = samples.drop_last();
    if rest.len() > 0 {
        lemma_sample_bytes(
            rest,
            if i < rest.len() {
                i
            } else {
                0
            },
        );
    } else {
        assert(sample_bytes(rest) =~= Seq::empty());
    }
}

/// Nothing of a recording is lost in its file: the file has 44 bytes of
/// headers, the last four of which give the length, and then every sample in
/// its place.
pub proof fn law_wave_file_keeps_samples(samples: Seq<i16>, sample_rate: u32, channels: u16, i: int)
    requires
        fits_wave(samples, sample_rate, channels),
        0 <= i < samples.len(),
    ensures
        wave_file(samples, sample_rate, channels).len() == 44 + 2 * samples.len(),
        stored_sample(wave_file(samples, sample_rate, channels), i) == samples[i] as int % 65536,
{
    reveal_strlit("RIFF");
    reveal_strlit("WAVEfmt ");
    reveal_strlit("data");
    lemma_sample_bytes(samples, i);
    let file = wave_file(samples, sample_rate, channels);
    let bytes = sample_bytes(samples);
    assert(file.len() == 44 + bytes.len());
    assert(file[44 + 2 * i] == bytes[2 * i]);
    assert(file[45 + 2 * i] == bytes[2 * i + 1]);
    let n = samples[i] as int % 65536;
    assert(n == n % 256 + 256 * (n / 256));
}

} // verus!
