//! The WAV container decoder: sniffing, construction, and pull-based
//! production of normalized samples.
//!
//! Parsing the container's chunk headers is the job of an outside library;
//! everything it reports is plain data (`WavHeader`), and all sample-word
//! interpretation and bookkeeping past that point is verified here.

use vstd::prelude::*;
use crate::stream::ByteStream;
use crate::source::Source;
use crate::sample::Norm;
use crate::codec::{SampleEnc, decode_at, decode_sample_at, lemma_decode_in_range, le_word,
    lemma_le_word_skip, read_le_word};

verus! {

/// What the container parser reports about a WAV byte stream: the format
/// chunk's fields, the number of sample words in the data chunk, and where
/// in the probed suffix the data chunk's content begins.
#[derive(Clone, Copy, Debug, PartialEq, Eq, Structural)]
pub struct WavHeader {
    pub channels: u16,
    pub sample_rate: u32,
    pub bits_per_sample: u16,
    pub is_float: bool,
    pub total_samples: u32,
    pub data_start: usize,
}

/// What the container parser makes of a byte suffix: the header it reads
/// from it, or nothing when the bytes are not a WAV container. The result
/// depends on the bytes alone.
pub uninterp spec fn wav_header_of(bytes: Seq<u8>) -> Option<WavHeader>;

/// Relies on hound's `WavReader::new` (together with its `spec` and `len`
/// accessors): it accepts exactly the byte suffixes that open as a WAV
/// container, rejects a format chunk with zero channels, reports the
/// format fields and the number of sample words in the data chunk, and
/// leaves the cursor at the first content byte of the data chunk, having
/// advanced it only by reads within the suffix. The outcome is a function
/// of the bytes alone.
///
/// Two further facts of that parse are stated: the cursor stops directly
/// after the data chunk's header, whose last four bytes are the chunk's
/// byte length, little-endian; and construction divides that length
/// exactly by the container's word width (the format chunk's block
/// alignment over the channel count, a nonzero 16-bit value), rejecting
/// any remainder, so the length is the announced word count times that
/// width.
#[verifier::external_body]
fn wav_probe(data: &Vec<u8>, pos: usize) -> (r: Option<WavHeader>)
    requires
        pos <= data@.len(),
    ensures
        r == wav_header_of(data@.skip(pos as int)),
        r matches Some(h) ==> {
            &&& h.data_start <= data@.len() - pos
            &&& h.channels > 0
            &&& h.data_start >= 4
            &&& exists|w: int|
                1 <= w <= 0xffff && spec_data_len(data@.skip(pos as int), h)
                    == #[trigger] (h.total_samples * w)
        },
{
    let mut cur = std::io::Cursor::new(&data[pos..]);
    let reader = match hound::WavReader::new(&mut cur) {
        Ok(r) => r,
        Err(_) => return None,
    };
    let (spec, total) = (reader.spec(), reader.len());
    drop(reader);
    Some(WavHeader {
        channels: spec.channels,
        sample_rate: spec.sample_rate,
        bits_per_sample: spec.bits_per_sample,
        is_float: matches!(spec.sample_format, hound::SampleFormat::Float),
        total_samples: total,
        data_start: cur.position() as usize,
    })
}

/// The data chunk's byte length: the little-endian field the container
/// parser read just before it stopped, in the four bytes ahead of the
/// chunk's content.
pub open spec fn spec_data_len(bytes: Seq<u8>, h: WavHeader) -> int {
    le_word(bytes, h.data_start - 4, 4)
}

/// The canonical container width of a bit depth: one byte per eight bits.
pub open spec fn canonical_width(bits: u16) -> int {
    if bits == 8 {
        1
    } else if bits == 16 {
        2
    } else if bits == 24 {
        3
    } else {
        4
    }
}

/// The container's word width in bytes: the data chunk's length over its
/// word count. An empty stream leaves no word to measure, and no word to
/// decode either, so the canonical width stands in.
pub open spec fn spec_width(bytes: Seq<u8>, h: WavHeader) -> int {
    if h.total_samples == 0 {
        canonical_width(h.bits_per_sample)
    } else {
        spec_data_len(bytes, h) / (h.total_samples as int)
    }
}

/// Whether a byte suffix is a decodable WAV container.
pub open spec fn spec_is_wave(bytes: Seq<u8>) -> bool {
    wav_header_of(bytes) is Some
}

/// Probes whether the stream holds WAV data from its current position.
///
/// The stream is only borrowed: probing can neither move its cursor nor
/// change its bytes, so any number of candidate decoders may sniff the
/// same stream in turn.
pub fn is_wave(stream: &ByteStream) -> (r: bool)
    requires
        stream.wf(),
    ensures
        r == spec_is_wave(stream.remaining()),
{
    wav_probe(&stream.data, stream.pos).is_some()
}

/// Sniffing is idempotent: it is a function of the stream's bytes and
/// cursor, which it cannot change, so probing twice in succession yields
/// the same answer both times and leaves the stream exactly as it was.
pub proof fn lemma_sniff_idempotent(s: ByteStream, r1: bool, r2: bool)
    requires
        r1 == spec_is_wave(s.remaining()),
        r2 == spec_is_wave(s.remaining()),
    ensures
        r1 == r2,
{
}

/// The sample encoding a (format, bit depth, container width) triple
/// calls for. A bit depth outside the enumerated set (or a floating
/// format at another depth) is unsupported; a supported depth in a
/// container width the raw sample reader cannot interpret word-by-word
/// yields only silence, the masking its per-word failures get.
pub open spec fn enc_for(is_float: bool, bits: u16, width: int) -> Option<SampleEnc> {
    if is_float {
        if bits != 32 {
            None
        } else if width == 4 {
            Some(SampleEnc::Float32)
        } else {
            Some(SampleEnc::Unreadable { width: width as u16 })
        }
    } else if bits == 8 {
        if width == 1 {
            Some(SampleEnc::Pcm8)
        } else {
            Some(SampleEnc::Unreadable { width: width as u16 })
        }
    } else if bits == 16 {
        if width == 2 {
            Some(SampleEnc::Pcm16)
        } else {
            Some(SampleEnc::Unreadable { width: width as u16 })
        }
    } else if bits == 24 {
        if width == 3 {
            Some(SampleEnc::Pcm24)
        } else if width == 4 {
            Some(SampleEnc::Pcm24Wide)
        } else {
            Some(SampleEnc::Unreadable { width: width as u16 })
        }
    } else if bits == 32 {
        if width == 4 {
            Some(SampleEnc::Pcm32)
        } else {
            Some(SampleEnc::Unreadable { width: width as u16 })
        }
    } else {
        None
    }
}

/// Executable twin of `enc_for`, for widths already known to fit `u16`.
fn encoding_for(is_float: bool, bits: u16, width: u16) -> (r: Option<SampleEnc>)
    requires
        width >= 1,
    ensures
        r == enc_for(is_float, bits, width as int),
{
    if is_float {
        if bits != 32 {
            None
        } else if width == 4 {
            Some(SampleEnc::Float32)
        } else {
            Some(SampleEnc::Unreadable { width })
        }
    } else if bits == 8 {
        if width == 1 {
            Some(SampleEnc::Pcm8)
        } else {
            Some(SampleEnc::Unreadable { width })
        }
    } else if bits == 16 {
        if width == 2 {
            Some(SampleEnc::Pcm16)
        } else {
            Some(SampleEnc::Unreadable { width })
        }
    } else if bits == 24 {
        if width == 3 {
            Some(SampleEnc::Pcm24)
        } else if width == 4 {
            Some(SampleEnc::Pcm24Wide)
        } else {
            Some(SampleEnc::Unreadable { width })
        }
    } else if bits == 32 {
        if width == 4 {
            Some(SampleEnc::Pcm32)
        } else {
            Some(SampleEnc::Unreadable { width })
        }
    } else {
        None
    }
}

/// Why a stream was refused at construction. In every case the original
/// stream handle comes back beside the error, untouched, so another
/// decoder may try it.
#[derive(Clone, Copy, Debug, PartialEq, Eq, Structural)]
pub enum WavError {
    /// The bytes at the stream's position are not a WAV container.
    NotWav,
    /// The container is structurally valid but its specification is
    /// degenerate (a zero sample rate), so durations would be undefined.
    BadSpec,
    /// The container is valid but uses an (encoding, bit depth)
    /// combination outside the supported set.
    Unsupported { is_float: bool, bits: u16 },
}

/// The encoding label a stream reports: the format family and its bit
/// depth, as the captured specification states them.
pub open spec fn label_from(is_float: bool, bits: u16) -> Seq<char> {
    if is_float {
        "FLOAT32"@
    } else if bits == 8 {
        "PCM8"@
    } else if bits == 16 {
        "PCM16"@
    } else if bits == 24 {
        "PCM24"@
    } else {
        "PCM32"@
    }
}

/// Measures the container's word width from the parsed header: the data
/// chunk's length field, which sits in the four bytes ahead of the chunk's
/// content, divided by the announced word count.
fn container_width(stream: &ByteStream, h: &WavHeader) -> (w: u16)
    requires
        stream.wf(),
        h.data_start >= 4,
        stream.pos + h.data_start <= stream.data@.len(),
        exists|w0: int|
            1 <= w0 <= 0xffff && spec_data_len(stream.remaining(), *h)
                == #[trigger] (h.total_samples * w0),
    ensures
        w as int == spec_width(stream.remaining(), *h),
        w >= 1,
{
    if h.total_samples == 0 {
        if h.bits_per_sample == 8 {
            1
        } else if h.bits_per_sample == 16 {
            2
        } else if h.bits_per_sample == 24 {
            3
        } else {
            4
        }
    } else {
        let cap: u64 = stream.data.len() as u64;
        proof {
            assert(stream.pos + h.data_start <= cap);
        }
        let off: u64 = (stream.pos as u64) + (h.data_start as u64) - 4;
        let dl: u32 = read_le_word(&stream.data, off, 4).unwrap();
        proof {
            lemma_le_word_skip(stream.data@, stream.pos as int, h.data_start - 4, 4);
            let w0: int = choose|w0: int|
                1 <= w0 <= 0xffff && spec_data_len(stream.remaining(), *h)
                    == #[trigger] (h.total_samples * w0);
            vstd::arithmetic::div_mod::lemma_div_multiples_vanish(w0, h.total_samples as int);
        }
        let w32: u32 = dl / h.total_samples;
        w32 as u16
    }
}

/// Decoder for the WAV format: owns the stream it claimed and yields its
/// samples, normalized, one pull at a time.
pub struct WavDecoder {
    pub stream: ByteStream,
    pub channels: u16,
    pub sample_rate: u32,
    pub bits_per_sample: u16,
    pub is_float: bool,
    pub enc: SampleEnc,
    pub total_samples: u32,
    pub data_begin: usize,
    pub samples_read: u32,
}

impl WavDecoder {
    /// The decoder's invariant: the captured specification is
    /// non-degenerate, the cursor never passes the announced total, and
    /// the data chunk starts inside the owned stream.
    pub open spec fn inv(self) -> bool {
        &&& self.stream.wf()
        &&& self.channels > 0
        &&& self.sample_rate > 0
        &&& self.samples_read <= self.total_samples
        &&& self.data_begin <= self.stream.data@.len()
        &&& 1 <= self.enc.word_bytes() <= 0xffff
    }

    /// Every sample the stream holds, in order: the `i`-th sample word of
    /// the data chunk, decoded, with silence for words the stream is too
    /// short to hold.
    pub open spec fn full_items(self) -> Seq<Norm> {
        Seq::new(
            self.total_samples as nat,
            |i: int| Norm {
                raw: decode_at(
                    self.stream.data@,
                    self.data_begin + i * self.enc.word_bytes(),
                    self.enc,
                ) as i64,
            },
        )
    }

    /// Attempts to claim the stream as WAV data.
    ///
    /// On failure the original stream handle is returned beside the error,
    /// with its bytes and cursor exactly as they were: a failed attempt is
    /// unobservable, so the caller can hand the stream to another decoder.
    pub fn new(stream: ByteStream) -> (r: Result<WavDecoder, (ByteStream, WavError)>)
        requires
            stream.wf(),
        ensures
            match r {
                Ok(d) => {
                    &&& wav_header_of(stream.remaining()) matches Some(h) && {
                        &&& h.sample_rate > 0
                        &&& enc_for(h.is_float, h.bits_per_sample,
                            spec_width(stream.remaining(), h)) is Some
                        &&& d.channels == h.channels
                        &&& d.sample_rate == h.sample_rate
                        &&& d.bits_per_sample == h.bits_per_sample
                        &&& d.is_float == h.is_float
                        &&& d.enc == enc_for(h.is_float, h.bits_per_sample,
                            spec_width(stream.remaining(), h)).unwrap()
                        &&& d.total_samples == h.total_samples
                        &&& d.data_begin == stream.pos + h.data_start
                    }
                    &&& d.inv()
                    &&& d.stream.data@ == stream.data@
                    &&& d.stream.pos == stream.pos
                    &&& d.samples_read == 0
                },
                Err((s, e)) => {
                    &&& s.data@ == stream.data@
                    &&& s.pos == stream.pos
                    &&& (e == WavError::NotWav <==> !spec_is_wave(stream.remaining()))
                    &&& (e == WavError::BadSpec <==> (wav_header_of(stream.remaining())
                        matches Some(h) && h.sample_rate == 0))
                    &&& (e matches WavError::Unsupported { is_float, bits }
                        ==> (wav_header_of(stream.remaining()) matches Some(h)
                            && h.sample_rate > 0
                            && enc_for(h.is_float, h.bits_per_sample,
                                spec_width(stream.remaining(), h)) is None
                            && is_float == h.is_float && bits == h.bits_per_sample))
                    &&& (wav_header_of(stream.remaining()) matches Some(h)
                        && h.sample_rate > 0
                        && enc_for(h.is_float, h.bits_per_sample,
                            spec_width(stream.remaining(), h)) is None
                        ==> e matches WavError::Unsupported { is_float, bits })
                },
            },
    {
        let h: WavHeader = match wav_probe(&stream.data, stream.pos) {
            None => {
                return Err((stream, WavError::NotWav));
            },
            Some(h) => h,
        };
        if h.sample_rate == 0 {
            return Err((stream, WavError::BadSpec));
        }
        let width: u16 = container_width(&stream, &h);
        let enc: SampleEnc = match encoding_for(h.is_float, h.bits_per_sample, width) {
            None => {
                return Err((
                    stream,
                    WavError::Unsupported { is_float: h.is_float, bits: h.bits_per_sample },
                ));
            },
            Some(e) => e,
        };
        let cap: usize = stream.data.len();
        proof {
            assert(stream.pos + h.data_start <= cap);
        }
        let begin: usize = stream.pos + h.data_start;
        Ok(
            WavDecoder {
                stream,
                channels: h.channels,
                sample_rate: h.sample_rate,
                bits_per_sample: h.bits_per_sample,
                is_float: h.is_float,
                enc,
                total_samples: h.total_samples,
                data_begin: begin,
                samples_read: 0,
            },
        )
    }

    /// Gives the stream handle back, its cursor at the position it had
    /// when the decoder claimed it.
    pub fn into_inner(self) -> (r: ByteStream)
        ensures
            r == self.stream,
    {
        self.stream
    }
}

/// The remaining length hint is exact: with `n` samples announced and `k`
/// already produced, exactly `n - k` samples are still to come.
pub proof fn lemma_length_hint_exact(d: WavDecoder)
    requires
        d.inv(),
    ensures
        d.items().len() == d.total_samples - d.samples_read,
{
}

/// A corrupt or missing sample word does not shorten the stream: the word
/// decodes to silence and every announced sample is still produced, so a
/// damaged stream yields exactly as many samples as a clean one.
pub proof fn lemma_missing_word_is_silence(d: WavDecoder, i: int)
    requires
        d.inv(),
        0 <= i < d.total_samples,
        d.data_begin + (i + 1) * d.enc.word_bytes() > d.stream.data@.len(),
    ensures
        d.full_items().len() == d.total_samples,
        d.full_items()[i].raw == 0,
{
    assert((i + 1) * d.enc.word_bytes() == i * d.enc.word_bytes() + d.enc.word_bytes())
        by (nonlinear_arith);
}

/// Every sample a decoder yields is a valid normalized value, inside
/// `[-1.0, 1.0]`, so a decoder can always stand as the inner stream of the
/// sample converter.
pub proof fn lemma_decoder_items_valid(d: WavDecoder)
    requires
        d.inv(),
    ensures
        forall|j: int| 0 <= j < d.items().len()
            ==> (#[trigger] d.items()[j]).wf(),
{
    assert forall|j: int| 0 <= j < d.items().len() implies (#[trigger] d.items()[j]).wf() by {
        let i: int = d.samples_read + j;
        lemma_decode_in_range(d.stream.data@, d.data_begin + i * d.enc.word_bytes(), d.enc);
        assert(d.items()[j] == d.full_items()[i]);
    };
}

impl Source for WavDecoder {
    type Item = Norm;

    open spec fn wf(&self) -> bool {
        self.inv()
    }

    open spec fn items(&self) -> Seq<Norm> {
        self.full_items().skip(self.samples_read as int)
    }

    open spec fn spec_channels(&self) -> u16 {
        self.channels
    }

    open spec fn spec_sample_rate(&self) -> u32 {
        self.sample_rate
    }

    open spec fn spec_frame_len(&self) -> Option<usize> {
        None
    }

    open spec fn spec_duration_ms(&self) -> Option<u64> {
        Some(
            (((self.total_samples as int) * 1000) / (
            (self.channels as int) * (self.sample_rate as int))) as u64,
        )
    }

    open spec fn spec_format_label(&self) -> Seq<char> {
        label_from(self.is_float, self.bits_per_sample)
    }

    fn channels(&self) -> (r: u16) {
        self.channels
    }

    fn sample_rate(&self) -> (r: u32) {
        self.sample_rate
    }

    /// The whole stream is one frame: the specification never changes
    /// mid-stream, so no shorter bound is ever announced.
    fn current_frame_len(&self) -> (r: Option<usize>) {
        None
    }

    /// The total duration: `total_samples * 1000 / (channels *
    /// sample_rate)` milliseconds, well-defined because a degenerate
    /// specification was rejected at construction.
    fn total_duration(&self) -> (r: Option<u64>) {
        proof {
            assert((self.channels as int) * (self.sample_rate as int) >= 1)
                by (nonlinear_arith)
                requires
                    self.channels >= 1,
                    self.sample_rate >= 1,
            ;
            assert((self.channels as int) * (self.sample_rate as int) <= 0xffff_ffff_ffff)
                by (nonlinear_arith)
                requires
                    self.channels <= 0xffff,
                    self.sample_rate <= 0xffff_ffff,
            ;
        }
        let denom: u64 = (self.channels as u64) * (self.sample_rate as u64);
        let num: u64 = (self.total_samples as u64) * 1000;
        Some(num / denom)
    }

    fn sample_format_str(&self) -> (r: &'static str) {
        if self.is_float {
            "FLOAT32"
        } else if self.bits_per_sample == 8 {
            "PCM8"
        } else if self.bits_per_sample == 16 {
            "PCM16"
        } else if self.bits_per_sample == 24 {
            "PCM24"
        } else {
            "PCM32"
        }
    }

    /// Produces the next sample: the next data-chunk word, decoded, with
    /// silence substituted for a corrupt or missing word. The cursor
    /// advances exactly once per produced sample and everything captured
    /// at construction — the owned stream, the specification fields, the
    /// encoding, the total and the data offset — survives the pull.
    fn next(&mut self) -> (r: Option<Norm>)
        ensures
            final(self).stream == old(self).stream,
            final(self).channels == old(self).channels,
            final(self).sample_rate == old(self).sample_rate,
            final(self).bits_per_sample == old(self).bits_per_sample,
            final(self).is_float == old(self).is_float,
            final(self).enc == old(self).enc,
            final(self).total_samples == old(self).total_samples,
            final(self).data_begin == old(self).data_begin,
            r is Some ==> final(self).samples_read == old(self).samples_read + 1,
            r is None ==> final(self).samples_read == old(self).samples_read,
    {
        if self.samples_read >= self.total_samples {
            return None;
        }
        let w: u16 = self.enc.word_width();
        proof {
            let read: int = old(self).samples_read as int;
            let wb: int = old(self).enc.word_bytes();
            assert(read * wb <= 0xffff_ffff * 0xffff) by (nonlinear_arith)
                requires
                    0 <= read <= 0xffff_ffff,
                    1 <= wb <= 0xffff,
            ;
        }
        let rel: u64 = (self.samples_read as u64) * (w as u64);
        let begin: u64 = self.data_begin as u64;
        let cap: usize = self.stream.data.len();
        let ghost off: int = self.data_begin + (self.samples_read as int)
            * self.enc.word_bytes();
        let n: Norm = if rel > u64::MAX - begin {
            proof {
                assert(off + self.enc.word_bytes() > cap);
                assert(decode_at(self.stream.data@, off, self.enc) == 0);
            }
            Norm { raw: 0 }
        } else {
            decode_sample_at(&self.stream.data, begin + rel, self.enc)
        };
        proof {
            lemma_decode_in_range(self.stream.data@, off, self.enc);
            assert(old(self).items()[0] == old(self).full_items()[old(self).samples_read as int]);
        }
        self.samples_read = self.samples_read + 1;
        proof {
            assert(self.items() =~= old(self).items().skip(1));
        }
        Some(n)
    }

    fn size_hint(&self) -> (r: (usize, Option<usize>)) {
        let left: u32 = self.total_samples - self.samples_read;
        (left as usize, Some(left as usize))
    }
}

} // verus!
