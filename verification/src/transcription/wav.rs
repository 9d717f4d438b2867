//! PCM WAV files, written by `hound` into a buffer in memory.

use crate::transcription::TranscribeError;
use std::io::Cursor;
use vstd::prelude::*;

verus! {

/// The format of a PCM WAV file.
#[derive(Debug, Clone, Copy, PartialEq, Eq, Structural)]
pub struct WavFormat {
    pub channels: u16,
    pub sample_rate: u32,
    pub bits_per_sample: u16,
}

impl WavFormat {
    /// Whether the file is written with the plain PCM header and 16-bit samples.
    pub open spec fn is_plain(self) -> bool {
        &&& 1 <= self.channels <= 2
        &&& self.sample_rate > 0
        &&& self.sample_rate * 2 * self.channels <= u32::MAX
        &&& self.bits_per_sample == 16
    }
}

/// The most samples that the sizes in a WAV header can account for.
pub const MAX_WAV_SAMPLES: usize = 0x7fff_ffed;

/// A 16-bit number in little-endian order.
pub open spec fn le16(x: int) -> Seq<u8> {
    seq![(x % 256) as u8, (x / 256 % 256) as u8]
}

/// A 32-bit number in little-endian order.
pub open spec fn le32(x: int) -> Seq<u8> {
    le16(x % 65536) + le16(x / 65536)
}

/// The header of a plain PCM file with this many bytes of samples.
pub open spec fn wav_header(format: WavFormat, data_len: int) -> Seq<u8> {
    // "RIFF", the size of the rest, "WAVE"
    seq![0x52u8, 0x49, 0x46, 0x46] + le32(36 + data_len) + seq![0x57u8, 0x41, 0x56, 0x45]
    // "fmt ", its size, the tag of PCM
     + seq![0x66u8, 0x6d, 0x74, 0x20] + le32(16) + le16(1) + le16(format.channels as int) + le32(
        format.sample_rate as int,
    ) + le32(format.sample_rate * 2 * format.channels) + le16(2 * format.channels) + le16(
        format.bits_per_sample as int,
    )
    // "data", its size
     + seq![0x64u8, 0x61, 0x74, 0x61] + le32(data_len)
}

/// A sample as the unsigned number with the same 16 bits.
pub open spec fn unsigned16(sample: i16) -> int {
    if sample < 0 {
        sample + 65536
    } else {
        sample as int
    }
}

/// The samples, each in two bytes.
pub open spec fn pcm_bytes(samples: Seq<i16>) -> Seq<u8>
    decreases samples.len(),
{
    if samples.len() == 0 {
        Seq::empty()
    } else {
        pcm_bytes(samples.drop_last()) + le16(unsigned16(samples.last()))
    }
}

/// The file with these samples.
pub open spec fn wav_file(format: WavFormat, samples: Seq<i16>) -> Seq<u8> {
    wav_header(format, 2 * samples.len() as int) + pcm_bytes(samples)
}

/// The in-memory file of the standard library.
#[verifier::external_type_specification]
#[verifier::external_body]
#[verifier::reject_recursive_types(T)]
pub struct ExCursor<T>(std::io::Cursor<T>);

/// The errors of `hound`.
#[verifier::external_type_specification]
#[verifier::external_body]
pub struct ExWavError(hound::Error);

/// A `hound::WavWriter` on a buffer in memory.
#[verifier::external_body]
pub struct WavSink<'a> {
    writer: hound::WavWriter<&'a mut Cursor<Vec<u8>>>,
}

/// The bytes that a buffer holds.
pub uninterp spec fn buffer_bytes(buffer: Cursor<Vec<u8>>) -> Seq<u8>;

/// Where in a buffer the next byte is written.
pub uninterp spec fn buffer_position(buffer: Cursor<Vec<u8>>) -> nat;

/// The format that a writer was opened with.
pub uninterp spec fn sink_format(sink: WavSink<'_>) -> WavFormat;

/// The samples that were written so far.
pub uninterp spec fn sink_samples(sink: WavSink<'_>) -> Seq<i16>;

/// The bytes that the buffer under a writer holds once the writer is gone.
pub uninterp spec fn sink_target(sink: WavSink<'_>) -> Seq<u8>;

/// Calls `Cursor::new` on an empty vector: a buffer that holds nothing and is
/// written from its start.
#[verifier::external_body]
fn new_buffer() -> (buffer: Cursor<Vec<u8>>)
    ensures
        buffer_bytes(buffer) == Seq::<u8>::empty(),
        buffer_position(buffer) == 0,
{
    Cursor::new(Vec::new())
}

/// Calls `Cursor::into_inner`: the bytes that the buffer holds.
#[verifier::external_body]
fn into_bytes(buffer: Cursor<Vec<u8>>) -> (bytes: Vec<u8>)
    ensures
        bytes@ == buffer_bytes(buffer),
{
    buffer.into_inner()
}

/// Calls `hound::WavWriter::new` for integer samples on a buffer that grows with
/// what is written. It succeeds, and the writer has the given format and no
/// samples yet, and what it writes ends up in `buffer`. Left out are a buffer that
/// is not at its start, a rate of zero, which the header's block size divides by,
/// a byte rate beyond 32 bits, and the formats with another header.
#[verifier::external_body]
fn open_sink<'a>(buffer: &'a mut Cursor<Vec<u8>>, format: WavFormat) -> (res: Result<
    WavSink<'a>,
    hound::Error,
>)
    requires
        buffer_bytes(*old(buffer)) == Seq::<u8>::empty(),
        buffer_position(*old(buffer)) == 0,
        format.is_plain(),
    ensures
        res is Ok,
        res matches Ok(sink) ==> {
            &&& sink_format(sink) == format
            &&& sink_samples(sink) == Seq::<i16>::empty()
            &&& sink_target(sink) == buffer_bytes(*final(buffer))
        },
{
    let spec = hound::WavSpec {
        channels: format.channels,
        sample_rate: format.sample_rate,
        bits_per_sample: format.bits_per_sample,
        sample_format: hound::SampleFormat::Int,
    };
    Ok(WavSink { writer: hound::WavWriter::new(buffer, spec)? })
}

/// Calls `hound::WavWriter::write_sample` with a 16-bit sample in a 16-bit format.
/// It succeeds, and the sample is the next one in the file. Left out is a sample
/// beyond what the header's sizes can hold.
#[verifier::external_body]
fn write_sample(sink: &mut WavSink<'_>, sample: i16) -> (res: Result<(), hound::Error>)
    requires
        sink_format(*old(sink)).is_plain(),
        sink_samples(*old(sink)).len() < MAX_WAV_SAMPLES,
    ensures
        sink_format(*final(sink)) == sink_format(*old(sink)),
        sink_target(*final(sink)) == sink_target(*old(sink)),
        sink_samples(*final(sink)) == sink_samples(*old(sink)).push(sample),
        res is Ok,
{
    sink.writer.write_sample(sample)
}

/// Calls `hound::WavWriter::finalize`. It succeeds if and only if the channels have
/// all got the same number of samples, and then the buffer holds the file with the
/// samples written: the header with its sizes filled in, then the samples.
#[verifier::external_body]
fn finalize(sink: WavSink<'_>) -> (res: Result<(), hound::Error>)
    requires
        sink_format(sink).is_plain(),
        sink_samples(sink).len() <= MAX_WAV_SAMPLES,
    ensures
        res is Ok ==> sink_target(sink) == wav_file(sink_format(sink), sink_samples(sink)),
        res is Ok <==> sink_samples(sink).len() % (sink_format(sink).channels as nat) == 0,
{
    sink.writer.finalize()
}

/// Calls `Display` for `hound::Error`. Nothing is claimed of the text: part of it
/// can come from the operating system.
#[verifier::external_body]
fn error_text(error: hound::Error) -> String {
    error.to_string()
}

/// Writes samples as a WAV file in memory. Samples that fill no frame at the end
/// are refused with an encoding error, in `hound`'s words.
pub fn write_wav(format: WavFormat, samples: &[i16]) -> (res: Result<Vec<u8>, TranscribeError>)
    requires
        format.is_plain(),
        samples@.len() <= MAX_WAV_SAMPLES,
    ensures
        res matches Ok(bytes) ==> bytes@ == wav_file(format, samples@),
        res is Ok <==> samples@.len() % (format.channels as nat) == 0,
        res matches Err(e) ==> e is Encode,
{
    let mut buffer = new_buffer();
    let mut sink = match open_sink(&mut buffer, format) {
        Ok(sink) => sink,
        Err(e) => return Err(TranscribeError::Encode(error_text(e))),
    };
    let ghost target = sink_target(sink);
    let mut i: usize = 0;
    proof {
        assert(samples@.take(0) =~= Seq::empty());
    }
    while i < samples.len()
        invariant
            format.is_plain(),
            i <= samples@.len() <= MAX_WAV_SAMPLES,
            sink_format(sink) == format,
            sink_samples(sink) == samples@.take(i as int),
            sink_target(sink) == target,
        decreases samples@.len() - i,
    {
        match write_sample(&mut sink, samples[i]) {
            Ok(()) => {},
            Err(e) => return Err(TranscribeError::Encode(error_text(e))),
        }
        proof {
            assert(samples@.take(i + 1) =~= samples@.take(i as int).push(samples@[i as int]));
        }
        i = i + 1;
    }
    proof {
        assert(samples@.take(i as int) =~= samples@);
    }
    match finalize(sink) {
        Ok(()) => {},
        Err(e) => return Err(TranscribeError::Encode(error_text(e))),
    }
    Ok(into_bytes(buffer))
}

/// The number that two bytes hold in little-endian order, as a sample.
pub open spec fn sample_in(bytes: Seq<u8>, at: int) -> int {
    let u = bytes[at] + 256 * bytes[at + 1];
    if u >= 32768 {
        u - 65536
    } else {
        u
    }
}

proof fn lemma_pcm_bytes(samples: Seq<i16>, i: int)
    requires
        0 <= i < samples.len(),
    ensures
        pcm_bytes(samples).len() == 2 * samples.len(),
        sample_in(pcm_bytes(samples), 2 * i) == samples[i],
    decreases samples.len(),
{
    let init = samples.drop_last();
    let last = unsigned16(samples.last());
    lemma_pcm_len(samples);
    lemma_pcm_len(init);
    if i < init.len() {
        lemma_pcm_bytes(init, i);
        assert(pcm_bytes(samples)[2 * i] == pcm_bytes(init)[2 * i]);
        assert(pcm_bytes(samples)[2 * i + 1] == pcm_bytes(init)[2 * i + 1]);
    } else {
        assert(pcm_bytes(samples)[2 * i] == le16(last)[0]);
        assert(pcm_bytes(samples)[2 * i + 1] == le16(last)[1]);
        lemma_unsigned16(samples.last());
    }
}

proof fn lemma_unsigned16(sample: i16)
    ensures
        0 <= unsigned16(sample) < 65536,
        unsigned16(sample) == unsigned16(sample) % 256 + 256 * (unsigned16(sample) / 256 % 256),
{
}

proof fn lemma_pcm_len(samples: Seq<i16>)
    ensures
        pcm_bytes(samples).len() == 2 * samples.len(),
    decreases samples.len(),
{
    if samples.len() > 0 {
        lemma_pcm_len(samples.drop_last());
    }
}

/// A file is a header of 44 bytes and two bytes for each sample.
pub proof fn law_wav_length(format: WavFormat, samples: Seq<i16>)
    ensures
        wav_file(format, samples).len() == 44 + 2 * samples.len(),
{
    lemma_pcm_len(samples);
}

/// A file gives its samples back, each in its place.
pub proof fn law_wav_holds_the_samples(format: WavFormat, samples: Seq<i16>, i: int)
    requires
        0 <= i < samples.len(),
    ensures
        sample_in(wav_file(format, samples), 44 + 2 * i) == samples[i],
{
    lemma_pcm_bytes(samples, i);
    let header = wav_header(format, 2 * samples.len() as int);
    let pcm = pcm_bytes(samples);
    assert(header.len() == 44);
    assert((header + pcm)[44 + 2 * i] == pcm[2 * i]);
    assert((header + pcm)[44 + 2 * i + 1] == pcm[2 * i + 1]);
}

/// The header states the channels, the sample rate, the sample width and the
/// number of bytes that follow.
pub proof fn law_wav_header_states_the_format(format: WavFormat, samples: Seq<i16>)
    ensures
        wav_file(format, samples).subrange(22, 24) == le16(format.channels as int),
        wav_file(format, samples).subrange(24, 28) == le32(format.sample_rate as int),
        wav_file(format, samples).subrange(34, 36) == le16(format.bits_per_sample as int),
        wav_file(format, samples).subrange(40, 44) == le32(2 * samples.len() as int),
{
    let file = wav_file(format, samples);
    assert(file.subrange(22, 24) =~= le16(format.channels as int));
    assert(file.subrange(24, 28) =~= le32(format.sample_rate as int));
    assert(file.subrange(34, 36) =~= le16(format.bits_per_sample as int));
    assert(file.subrange(40, 44) =~= le32(2 * samples.len() as int));
}

/// The header, number by number, with each in little-endian order: the four words,
/// the sizes, the plain PCM tag, and the format with the byte rate and the frame
/// size that follow from it.
pub proof fn law_wav_header_in_numbers(format: WavFormat, samples: Seq<i16>)
    requires
        format.is_plain(),
        samples.len() <= MAX_WAV_SAMPLES,
    ensures
        ({
            let f = wav_file(format, samples);
            &&& f[0] == 'R' as u8 && f[1] == 'I' as u8 && f[2] == 'F' as u8 && f[3] == 'F' as u8
            &&& f[8] == 'W' as u8 && f[9] == 'A' as u8 && f[10] == 'V' as u8 && f[11] == 'E' as u8
            &&& f[12] == 'f' as u8 && f[13] == 'm' as u8 && f[14] == 't' as u8 && f[15] == ' ' as u8
            &&& f[36] == 'd' as u8 && f[37] == 'a' as u8 && f[38] == 't' as u8 && f[39] == 'a' as u8
            &&& f[4] + 256 * f[5] + 65536 * f[6] + 16777216 * f[7] == f.len() - 8
            &&& f[16] + 256 * f[17] + 65536 * f[18] + 16777216 * f[19] == 16
            &&& f[20] + 256 * f[21] == 1
            &&& f[22] + 256 * f[23] == format.channels
            &&& f[24] + 256 * f[25] + 65536 * f[26] + 16777216 * f[27] == format.sample_rate
            &&& f[28] + 256 * f[29] + 65536 * f[30] + 16777216 * f[31] == format.sample_rate * 2
                * format.channels
            &&& f[32] + 256 * f[33] == 2 * format.channels
            &&& f[34] + 256 * f[35] == format.bits_per_sample
            &&& f[40] + 256 * f[41] + 65536 * f[42] + 16777216 * f[43] == f.len() - 44
        }),
{
    law_wav_length(format, samples);
    let data = 2 * samples.len() as int;
    let rate = format.sample_rate * 2 * format.channels;
    assert(0 <= rate) by (nonlinear_arith)
        requires
            rate == format.sample_rate * 2 * format.channels,
    ;
    lemma_le32(36 + data);
    lemma_le32(data);
    lemma_le32(16);
    lemma_le32(format.sample_rate as int);
    lemma_le32(rate);
    let f = wav_file(format, samples);
    assert(f.subrange(4, 8) =~= le32(36 + data));
    assert(f.subrange(16, 20) =~= le32(16));
    assert(f.subrange(24, 28) =~= le32(format.sample_rate as int));
    assert(f.subrange(28, 32) =~= le32(rate));
    assert(f.subrange(40, 44) =~= le32(data));
}

proof fn lemma_le32(x: int)
    requires
        0 <= x < 0x1_0000_0000,
    ensures
        le32(x).len() == 4,
        le32(x)[0] + 256 * le32(x)[1] + 65536 * le32(x)[2] + 16777216 * le32(x)[3] == x,
{
}

}
