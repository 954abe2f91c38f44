//! Writing stereo and other audio as WAV files of 32-bit floating-point
//! samples.
//!
//! A sample is handled as the 32 bits that stand for it in IEEE 754 single
//! precision; the file holds exactly those bits.
use vstd::prelude::*;

use crate::text::joined;

verus! {

/// The four bytes of a word, the lowest first.
pub open spec fn word_bytes(x: u32) -> Seq<u8> {
    seq![
        (x % 256) as u8,
        (x / 256 % 256) as u8,
        (x / 65536 % 256) as u8,
        (x / 16777216) as u8,
    ]
}

/// The word whose bytes, the lowest first, are `a`, `b`, `c` and `d`.
pub open spec fn word_of(a: u8, b: u8, c: u8, d: u8) -> int {
    a + 256 * b + 65536 * c + 16777216 * d
}

/// The bytes of a list of words, one after the other.
pub open spec fn words_bytes(words: Seq<u32>) -> Seq<u8> {
    Seq::new(4 * words.len(), |k: int| word_bytes(words[k / 4])[k % 4])
}

/// A word is what its bytes say, the lowest standing first.
pub proof fn law_word_round_trip(x: u32)
    ensures
        word_bytes(x).len() == 4,
        x == word_bytes(x)[0] + 256 * word_bytes(x)[1] + 65536 * word_bytes(x)[2] + 16777216
            * word_bytes(x)[3],
        word_of(word_bytes(x)[0], word_bytes(x)[1], word_bytes(x)[2], word_bytes(x)[3]) == x,
{
}

/// Reads a list of words back from its bytes, four at a time; what does not
/// fill a word at the end is left out.
pub fn le_words(bytes: &[u8]) -> (words: Vec<u32>)
    ensures
        words@.len() == bytes@.len() / 4,
        forall|i: int|
            0 <= i < words@.len() ==> #[trigger] words@[i] == word_of(
                bytes@[4 * i],
                bytes@[4 * i + 1],
                bytes@[4 * i + 2],
                bytes@[4 * i + 3],
            ),
        forall|i: int|
            0 <= i < words@.len() ==> #[trigger] words@[i] == bytes@[4 * i] + 256 * bytes@[4 * i
                + 1] + 65536 * bytes@[4 * i + 2] + 16777216 * bytes@[4 * i + 3],
{
    let count: usize = bytes.len() / 4;
    let mut words: Vec<u32> = Vec::with_capacity(count);
    let mut i: usize = 0;
    while i < count
        invariant
            i <= count,
            count == bytes@.len() / 4,
            bytes@.len() <= usize::MAX,
            words@.len() == i,
            forall|j: int|
                0 <= j < i ==> #[trigger] words@[j] == word_of(
                    bytes@[4 * j],
                    bytes@[4 * j + 1],
                    bytes@[4 * j + 2],
                    bytes@[4 * j + 3],
                ),
        decreases count - i,
    {
        let a: u32 = bytes[4 * i] as u32;
        let b: u32 = bytes[4 * i + 1] as u32;
        let c: u32 = bytes[4 * i + 2] as u32;
        let d: u32 = bytes[4 * i + 3] as u32;
        words.push(a + 256 * b + 65536 * c + 16777216 * d);
        i = i + 1;
    }
    words
}

/// Reading the bytes of a list of words gives the words.
pub proof fn law_words_round_trip(words: Seq<u32>, i: int)
    requires
        0 <= i < words.len(),
    ensures
        ({
            let bytes = words_bytes(words);
            &&& bytes.len() == 4 * words.len()
            &&& words[i] == bytes[4 * i] + 256 * bytes[4 * i + 1] + 65536 * bytes[4 * i + 2]
                + 16777216 * bytes[4 * i + 3]
            &&& word_of(bytes[4 * i], bytes[4 * i + 1], bytes[4 * i + 2], bytes[4 * i + 3])
                == words[i]
        }),
{
    law_word_round_trip(words[i]);
}

/// A WAV file being written to a buffer by `hound::WavWriter`, whose own
/// declaration is bounded by traits that cannot be declared here.
#[verifier::external_body]
pub struct WavSink<'a> {
    writer: hound::WavWriter<std::io::Cursor<&'a mut Vec<u8>>>,
}

/// The samples that have been written to a sink, in order.
pub uninterp spec fn sink_samples(sink: WavSink<'_>) -> Seq<u32>;

/// The number of channels that a sink was opened with, and its sample rate.
pub uninterp spec fn sink_format(sink: WavSink<'_>) -> (u16, u32);

/// What the buffer behind a sink holds when the sink is gone.
pub uninterp spec fn sink_outcome(sink: WavSink<'_>) -> Seq<u8>;

/// The two bytes of the lower half of `x`, the lowest first.
pub open spec fn half_bytes(x: int) -> Seq<u8> {
    seq![(x % 256) as u8, (x / 256 % 256) as u8]
}

/// The speakers that are assigned: one for each channel, eighteen at most.
pub open spec fn speakers(channels: u16) -> u32 {
    (vstd::arithmetic::power2::pow2(
        if channels <= 18 {
            channels as nat
        } else {
            18
        },
    ) - 1) as u32
}

/// The format chunk of 32-bit floating-point samples, in its extensible form.
pub open spec fn format_chunk(channels: u16, sample_rate: u32) -> Seq<u8> {
    // "fmt "
    seq![0x66u8, 0x6d, 0x74, 0x20] + word_bytes(40) + half_bytes(0xfffe) + half_bytes(
        channels as int,
    ) + word_bytes(sample_rate) + word_bytes((4 * sample_rate * channels) as u32) + half_bytes(
        4 * channels,
    ) + half_bytes(32) + half_bytes(22) + half_bytes(32) + word_bytes(speakers(channels))
        // The sub-format of IEEE floating-point numbers.
         + seq![3u8, 0, 0, 0, 0, 0, 16, 0, 128, 0, 0, 170, 0, 56, 155, 113]
}

/// What stands in front of the samples of a file of 32-bit floating-point
/// samples.
#[verifier::opaque]
pub open spec fn wav_header(channels: u16, sample_rate: u32, samples: nat) -> Seq<u8> {
    // "RIFF" and "WAVE"
    seq![0x52u8, 0x49, 0x46, 0x46] + word_bytes((4 * samples + header_len() - 8) as u32)
        + seq![0x57u8, 0x41, 0x56, 0x45] + format_chunk(
        channels,
        sample_rate,
    )
    // "data"
     + seq![0x64u8, 0x61, 0x74, 0x61] + word_bytes((4 * samples) as u32)
}

/// The number of bytes of a header.
pub open spec fn header_len() -> nat {
    68
}

/// A header is of one length, and counts what comes behind it: the bytes of
/// the file behind the first eight, and at its end those of the samples.
pub proof fn law_header_counts(channels: u16, sample_rate: u32, samples: nat)
    requires
        file_fits(samples as int),
    ensures
        ({
            let h = wav_header(channels, sample_rate, samples);
            &&& h.len() == header_len()
            &&& word_of(h[4], h[5], h[6], h[7]) == header_len() + 4 * samples - 8
            &&& word_of(h[64], h[65], h[66], h[67]) == 4 * samples
        }),
{
    reveal(wav_header);
    let h = wav_header(channels, sample_rate, samples);
    let size = (4 * samples + header_len() - 8) as u32;
    let count = (4 * samples) as u32;
    law_word_round_trip(size);
    law_word_round_trip(count);
    assert(format_chunk(channels, sample_rate).len() == 48);
    assert(h.len() == 68);
    assert(h.subrange(4, 8) =~= word_bytes(size));
    assert(h.subrange(64, 68) =~= word_bytes(count));
    assert(h[4] == h.subrange(4, 8)[0] && h[5] == h.subrange(4, 8)[1] && h[6] == h.subrange(
        4,
        8,
    )[2] && h[7] == h.subrange(4, 8)[3]);
    assert(h[64] == h.subrange(64, 68)[0] && h[65] == h.subrange(64, 68)[1] && h[66] == h.subrange(
        64,
        68,
    )[2] && h[67] == h.subrange(64, 68)[3]);
}

/// What a header says of its samples: their number of channels and of bits,
/// their rate, the bytes of a second and of a block, and that they are
/// floating-point numbers.
pub proof fn law_header_describes_samples(channels: u16, sample_rate: u32, samples: nat)
    requires
        describes(channels, sample_rate),
    ensures
        ({
            let h = wav_header(channels, sample_rate, samples);
            &&& h.len() == 68
            &&& h[0] == 'R' as u8 && h[1] == 'I' as u8 && h[2] == 'F' as u8 && h[3] == 'F' as u8
            &&& h[8] == 'W' as u8 && h[9] == 'A' as u8 && h[10] == 'V' as u8 && h[11] == 'E' as u8
            &&& h[12] == 'f' as u8 && h[13] == 'm' as u8 && h[14] == 't' as u8 && h[15] == ' ' as u8
            &&& h[16] + 256 * h[17] + 65536 * h[18] + 16777216 * h[19] == 40
            &&& h[20] + 256 * h[21] == 0xfffe
            &&& h[22] + 256 * h[23] == channels
            &&& h[24] + 256 * h[25] + 65536 * h[26] + 16777216 * h[27] == sample_rate
            &&& h[28] + 256 * h[29] + 65536 * h[30] + 16777216 * h[31] == 4 * sample_rate * channels
            &&& h[32] + 256 * h[33] == (4 * channels) % 65536
            &&& h[34] + 256 * h[35] == 32
            &&& h[36] + 256 * h[37] == 22
            &&& h[38] + 256 * h[39] == 32
            &&& h[44] == 3
            &&& h[60] == 'd' as u8 && h[61] == 'a' as u8 && h[62] == 't' as u8 && h[63] == 'a' as u8
        }),
{
    reveal(wav_header);
    let h = wav_header(channels, sample_rate, samples);
    let second = (4 * sample_rate * channels) as u32;
    let f = format_chunk(channels, sample_rate);
    law_word_round_trip(40);
    law_word_round_trip(sample_rate);
    law_word_round_trip(second);
    assert(0 <= 4 * sample_rate * channels) by (nonlinear_arith);
    assert(f.len() == 48);
    assert(h.subrange(12, 60) =~= f);
    assert(f.subrange(4, 8) =~= word_bytes(40));
    assert(f.subrange(8, 10) =~= half_bytes(0xfffe));
    assert(f.subrange(10, 12) =~= half_bytes(channels as int));
    assert(f.subrange(12, 16) =~= word_bytes(sample_rate));
    assert(f.subrange(16, 20) =~= word_bytes(second));
    assert(f.subrange(20, 22) =~= half_bytes(4 * channels));
    assert(f.subrange(22, 24) =~= half_bytes(32));
    assert(f.subrange(24, 26) =~= half_bytes(22));
    assert(f.subrange(26, 28) =~= half_bytes(32));
    assert(forall|i: int| 0 <= i < 48 ==> h[12 + i] == #[trigger] f[i]);
    assert(h[16] == f[4] && h[17] == f[5] && h[18] == f[6] && h[19] == f[7]);
    assert(h[20] == f[8] && h[21] == f[9] && h[22] == f[10] && h[23] == f[11]);
    assert(h[24] == f[12] && h[25] == f[13] && h[26] == f[14] && h[27] == f[15]);
    assert(h[28] == f[16] && h[29] == f[17] && h[30] == f[18] && h[31] == f[19]);
    assert(h[32] == f[20] && h[33] == f[21] && h[34] == f[22] && h[35] == f[23]);
    assert(h[36] == f[24] && h[37] == f[25] && h[38] == f[26] && h[39] == f[27]);
    assert(h[44] == f[32]);
}

/// Whether `hound` can describe a format: it divides by the sample rate and by
/// the number of channels, and counts the bytes of a second in 32 bits.
pub open spec fn describes(channels: u16, sample_rate: u32) -> bool {
    &&& channels >= 1
    &&& sample_rate >= 1
    &&& 4 * sample_rate * channels <= u32::MAX
}

/// Whether a file of `samples` samples can be written: its size, but for eight
/// bytes of the header, is counted in 32 bits.
pub open spec fn file_fits(samples: int) -> bool {
    4 * samples + header_len() - 8 <= u32::MAX
}

/// Tells whether a format can be described.
pub fn can_describe(channels: u16, sample_rate: u32) -> (r: bool)
    ensures
        r == describes(channels, sample_rate),
        r == (channels >= 1 && sample_rate >= 1 && 4 * sample_rate * channels <= 0xffff_ffff),
{
    if channels == 0 || sample_rate == 0 {
        return false;
    }
    assert(4 * sample_rate * channels <= 4 * u32::MAX * u16::MAX) by (nonlinear_arith)
        requires
            sample_rate <= u32::MAX,
            channels <= u16::MAX,
    ;
    assert(0 <= 4 * sample_rate * channels) by (nonlinear_arith);
    4 * sample_rate as u64 * channels as u64 <= u32::MAX as u64
}

/// Tells whether a file of `samples` samples can be written.
pub fn can_hold(samples: usize) -> (r: bool)
    ensures
        r == file_fits(samples as int),
        r == (68 + 4 * samples - 8 <= 0xffff_ffff),
{
    samples as u64 <= (u32::MAX as u64 - 60) / 4
}

/// Opens a sink with `hound::WavWriter::new`, for 32-bit floating-point
/// samples, over a `std::io::Cursor` at the start of `out`.
///
/// The contract claims that opening an in-memory file of a format that can be
/// described does not fail, that the sink has no samples yet, and that it is
/// `out` that the sink writes to.
#[verifier::external_body]
fn open_sink<'a>(out: &'a mut Vec<u8>, channels: u16, sample_rate: u32) -> (r: Result<
    WavSink<'a>,
    String,
>)
    requires
        old(out)@.len() == 0,
        describes(channels, sample_rate),
    ensures
        r is Ok,
        sink_samples(r->Ok_0) == Seq::<u32>::empty(),
        sink_format(r->Ok_0) == (channels, sample_rate),
        sink_outcome(r->Ok_0) == final(out)@,
{
    let sample_format = hound::SampleFormat::Float;
    let spec = hound::WavSpec { channels, sample_rate, bits_per_sample: 32, sample_format };
    match hound::WavWriter::new(std::io::Cursor::new(out), spec) {
        Ok(writer) => Ok(WavSink { writer }),
        Err(e) => Err(e.to_string()),
    }
}

/// Writes one sample with `hound::WavWriter::write_sample`. The sample's bits
/// go through the 32-bit integer of the same bits, of which `hound` writes the
/// same four bytes as of the floating-point number.
///
/// The contract claims that writing to memory does not fail, as long as the
/// bytes of all samples can be counted in 32 bits, and that the sink then has
/// one sample more.
#[verifier::external_body]
fn put_sample(sink: &mut WavSink<'_>, bits: u32) -> (r: Result<(), String>)
    requires
        4 * (sink_samples(*old(sink)).len() + 1) <= u32::MAX,
    ensures
        r is Ok,
        sink_samples(*final(sink)) == sink_samples(*old(sink)).push(bits),
        sink_format(*final(sink)) == sink_format(*old(sink)),
        sink_outcome(*final(sink)) == sink_outcome(*old(sink)),
{
    sink.writer.write_sample(bits as i32).map_err(|e| e.to_string())
}

/// Completes a file with `hound::WavWriter::finalize`.
///
/// The contract claims that the call fails, with the message of
/// `hound::Error::UnfinishedSample`, exactly where the samples do not fill the
/// channels evenly, and that otherwise the buffer holds the header, in the
/// form that `hound` writes for more than sixteen bits a sample, and the bytes
/// of all samples.
#[verifier::external_body]
fn close_sink(sink: WavSink<'_>) -> (r: Result<(), String>)
    requires
        sink_format(sink).0 >= 1,
        file_fits(sink_samples(sink).len() as int),
    ensures
        r is Ok <==> sink_samples(sink).len() % (sink_format(sink).0 as nat) == 0,
        r matches Err(m) ==> m@
            == "The number of samples written is not a multiple of the number of channels."@,
        r is Ok ==> sink_outcome(sink) == wav_header(
            sink_format(sink).0,
            sink_format(sink).1,
            sink_samples(sink).len(),
        ) + words_bytes(sink_samples(sink)),
{
    sink.writer.finalize().map_err(|e| e.to_string())
}

/// Encodes samples, those of the channels in turn, as a WAV file.
pub fn encode_wav(samples: &[u32], sample_rate: u32, channels: u16) -> (r: Result<
    Vec<u8>,
    String,
>)
    requires
        describes(channels, sample_rate),
        file_fits(samples@.len() as int),
    ensures
        samples@.len() % (channels as nat) == 0 ==> r is Ok,
        r matches Ok(file) ==> {
            &&& samples@.len() % (channels as nat) == 0
            &&& file@ == wav_header(channels, sample_rate, samples@.len()) + words_bytes(samples@)
            &&& file@.len() == header_len() + 4 * samples@.len()
            &&& file@.len() == 68 + 4 * samples@.len()
            &&& file@[22] + 256 * file@[23] == channels
            &&& file@[24] + 256 * file@[25] + 65536 * file@[26] + 16777216 * file@[27]
                == sample_rate
            &&& forall|i: int|
                0 <= i < samples@.len() ==> #[trigger] samples@[i] == file@[68 + 4 * i] + 256
                    * file@[69 + 4 * i] + 65536 * file@[70 + 4 * i] + 16777216 * file@[71 + 4 * i]
        },
        r matches Err(m) ==> m@ == "WAV finalize: "@
            + "The number of samples written is not a multiple of the number of channels."@,
{
    let mut buf: Vec<u8> = Vec::new();
    let mut sink: WavSink<'_> = match open_sink(&mut buf, channels, sample_rate) {
        Ok(sink) => sink,
        Err(e) => {
            return Err(joined("WAV writer: ", e.as_str()));
        },
    };
    let ghost outcome = sink_outcome(sink);
    let mut i: usize = 0;
    while i < samples.len()
        invariant
            i <= samples@.len(),
            file_fits(samples@.len() as int),
            sink_samples(sink) == samples@.take(i as int),
            sink_format(sink) == (channels, sample_rate),
            sink_outcome(sink) == outcome,
        decreases samples@.len() - i,
    {
        match put_sample(&mut sink, samples[i]) {
            Ok(()) => {},
            Err(e) => {
                return Err(joined("WAV write: ", e.as_str()));
            },
        }
        assert(samples@.take(i as int).push(samples@[i as int]) =~= samples@.take(i + 1));
        i = i + 1;
    }
    assert(samples@.take(i as int) =~= samples@);
    proof {
        law_header_counts(channels, sample_rate, samples@.len());
        law_header_describes_samples(channels, sample_rate, samples@.len());
    }
    match close_sink(sink) {
        Ok(()) => {},
        Err(e) => {
            return Err(joined("WAV finalize: ", e.as_str()));
        },
    }
    proof {
        assert forall|i: int| 0 <= i < samples@.len() implies #[trigger] samples@[i] == buf@[68 + 4
            * i] + 256 * buf@[69 + 4 * i] + 65536 * buf@[70 + 4 * i] + 16777216 * buf@[71 + 4
            * i] by {
            law_words_round_trip(samples@, i);
        }
    }
    Ok(buf)
}

/// The samples of two channels in turn.
pub open spec fn interleaved(left: Seq<u32>, right: Seq<u32>) -> Seq<u32> {
    let n = if left.len() <= right.len() {
        left.len()
    } else {
        right.len()
    };
    Seq::new(
        2 * n,
        |k: int|
            if k % 2 == 0 {
                left[k / 2]
            } else {
                right[k / 2]
            },
    )
}

/// Takes samples from two channels in turn, as far as the shorter one goes.
pub fn interleave(left: &[u32], right: &[u32]) -> (out: Vec<u32>)
    requires
        interleaved(left@, right@).len() <= usize::MAX,
    ensures
        out@ == interleaved(left@, right@),
        out@.len() == 2 * (if left@.len() <= right@.len() {
            left@.len()
        } else {
            right@.len()
        }),
        forall|j: int|
            0 <= j < left@.len() && j < right@.len() ==> #[trigger] out@[2 * j] == left@[j],
        forall|j: int|
            0 <= j < left@.len() && j < right@.len() ==> #[trigger] out@[2 * j + 1] == right@[j],
{
    let n: usize = if left.len() <= right.len() {
        left.len()
    } else {
        right.len()
    };
    let ghost all = interleaved(left@, right@);
    let mut out: Vec<u32> = Vec::with_capacity(n * 2);
    let mut j: usize = 0;
    while j < n
        invariant
            j <= n,
            n <= left@.len(),
            n <= right@.len(),
            all == interleaved(left@, right@),
            all.len() == 2 * n,
            out@ == all.take(2 * j),
        decreases n - j,
    {
        out.push(left[j]);
        out.push(right[j]);
        assert(out@ =~= all.take(2 * (j + 1)));
        j = j + 1;
    }
    assert(out@ =~= all);
    out
}

/// Where a stereo file holds its samples: those of the left channel at every
/// second word behind the header, those of the right channel between them.
pub proof fn law_stereo_file(left: Seq<u32>, right: Seq<u32>, sample_rate: u32, j: int)
    requires
        file_fits(interleaved(left, right).len() as int),
        0 <= j < left.len(),
        j < right.len(),
    ensures
        ({
            let samples = interleaved(left, right);
            let file = wav_header(2, sample_rate, samples.len()) + words_bytes(samples);
            let at = 68 + 8 * j;
            &&& file.len() == 68 + 8 * (if left.len() <= right.len() {
                left.len()
            } else {
                right.len()
            })
            &&& left[j] == file[at] + 256 * file[at + 1] + 65536 * file[at + 2] + 16777216 * file[at
                + 3]
            &&& right[j] == file[at + 4] + 256 * file[at + 5] + 65536 * file[at + 6] + 16777216
                * file[at + 7]
        }),
{
    law_header_counts(2, sample_rate, interleaved(left, right).len());
    law_words_round_trip(interleaved(left, right), 2 * j);
    law_words_round_trip(interleaved(left, right), 2 * j + 1);
}

} // verus!
