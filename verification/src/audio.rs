//! Microphone capture: what a device has to offer, where a resampler reads,
//! and the byte order of samples.

use vstd::prelude::*;

use crate::text::{chars_of, extend, string_of};
use crate::voice::{sample_of, samples_in};

verus! {

/// Sample formats of input devices.
#[derive(Debug, PartialEq)]
pub enum SampleFormat {
    F32,
    I16,
    U16,
    /// Any other format, by name.
    Other(String),
}

/// Why a capture cannot start.
#[derive(Debug, PartialEq)]
pub enum AudioSetupError {
    ZeroChannels,
    ZeroOutputRate,
    UnsupportedFormat(String),
}

impl AudioSetupError {
    pub open spec fn text(self) -> Seq<char> {
        match self {
            AudioSetupError::ZeroChannels => "input device reported zero channels"@,
            AudioSetupError::ZeroOutputRate => "output sample rate must be greater than zero"@,
            AudioSetupError::UnsupportedFormat(name) => "Unsupported sample format: "@ + name@,
        }
    }

    pub fn message(&self) -> (r: String)
        ensures
            r@ == self.text(),
    {
        match self {
            AudioSetupError::ZeroChannels => "input device reported zero channels".to_owned(),
            AudioSetupError::ZeroOutputRate =>
                "output sample rate must be greater than zero".to_owned(),
            AudioSetupError::UnsupportedFormat(name) => {
                let mut out: Vec<char> = chars_of("Unsupported sample format: ");
                extend(&mut out, &chars_of(name));
                string_of(&out)
            },
        }
    }
}

/// What stands against a capture, if anything: the first complaint counts.
pub open spec fn setup_problem(
    channels: u16,
    output_rate: u32,
    format: SampleFormat,
) -> Option<AudioSetupError> {
    if channels == 0 {
        Some(AudioSetupError::ZeroChannels)
    } else if output_rate == 0 {
        Some(AudioSetupError::ZeroOutputRate)
    } else {
        match format {
            SampleFormat::Other(name) => Some(AudioSetupError::UnsupportedFormat(name)),
            _ => None,
        }
    }
}

/// Check a device before its stream is built; the answer says whether its
/// samples have to be resampled.
pub fn check_input(channels: u16, input_rate: u32, output_rate: u32, format: SampleFormat) -> (r:
    Result<bool, AudioSetupError>)
    ensures
        match r {
            Ok(resample) => setup_problem(channels, output_rate, format) is None && resample == (
            input_rate != output_rate),
            Err(e) => setup_problem(channels, output_rate, format) == Some(e),
        },
{
    if channels == 0 {
        return Err(AudioSetupError::ZeroChannels);
    }
    if output_rate == 0 {
        return Err(AudioSetupError::ZeroOutputRate);
    }
    match format {
        SampleFormat::Other(name) => Err(AudioSetupError::UnsupportedFormat(name)),
        _ => Ok(input_rate != output_rate),
    }
}

/// Where a resampler reads: between sample `index` and the next, `numerator`
/// of `output_rate` parts of the way.
#[derive(Clone, Copy, Debug, PartialEq, Eq, Structural)]
pub struct ResamplePoint {
    pub index: usize,
    pub numerator: u32,
}

/// Linear resampling by exact fractions. The input is a sequence of blocks;
/// each is read behind one sample that is kept from the block before.
pub struct Resampler {
    input_rate: u32,
    output_rate: u32,
    /// Where the next point lies, in parts of a sample: `output_rate` parts
    /// make one.
    position: u64,
}

/// What a `Resampler` holds.
pub struct ResamplerView {
    pub input_rate: nat,
    pub output_rate: nat,
    pub position: nat,
}

impl View for Resampler {
    type V = ResamplerView;

    closed spec fn view(&self) -> ResamplerView {
        ResamplerView {
            input_rate: self.input_rate as nat,
            output_rate: self.output_rate as nat,
            position: self.position as nat,
        }
    }
}

impl ResamplerView {
    /// Rates are positive, and the position is within two samples or steps.
    pub open spec fn wf(self) -> bool {
        &&& 0 < self.input_rate <= u32::MAX
        &&& 0 < self.output_rate <= u32::MAX
        &&& self.position <= self.input_rate + self.output_rate
    }

    /// Where point `k` lies, in parts of a sample.
    pub open spec fn point(self, k: int) -> int {
        self.position + k * self.input_rate
    }
}

impl Resampler {
    pub fn new(input_rate: u32, output_rate: u32) -> (r: Self)
        requires
            input_rate > 0,
            output_rate > 0,
        ensures
            r@.wf(),
            r@ == (ResamplerView {
                input_rate: input_rate as nat,
                output_rate: output_rate as nat,
                position: 0,
            }),
    {
        Resampler { input_rate, output_rate, position: 0 }
    }

    /// The points to read in a block of `count` new samples, which stand
    /// behind the one that was kept, and the index of the sample to keep.
    /// Every point that has a sample on either side is read; the next point
    /// goes on from the kept sample.
    pub fn resample(&mut self, count: u32) -> (r: (Vec<ResamplePoint>, usize))
        requires
            old(self)@.wf(),
        ensures
            final(self)@.wf(),
            final(self)@.input_rate == old(self)@.input_rate,
            final(self)@.output_rate == old(self)@.output_rate,
            ({
                let v = old(self)@;
                let n = r.0@.len() as int;
                let end = count * v.output_rate;
                &&& forall|k: int| 0 <= k < n ==> #[trigger] v.point(k) < end
                &&& v.point(n) >= end
                &&& forall|k: int|
                    0 <= k < n ==> (#[trigger] r.0@[k]).index == v.point(k) / v.output_rate as int
                        && r.0@[k].numerator == v.point(k) % v.output_rate as int
                        && r.0@[k].index + 1 <= count
                &&& r.1 <= count
                &&& r.1 == if v.point(n) / v.output_rate as int <= count {
                    v.point(n) / v.output_rate as int
                } else {
                    count as int
                }
                &&& final(self)@.position + r.1 * v.output_rate == v.point(n)
            }),
    {
        let ghost v = self@;
        let step: u64 = self.input_rate as u64;
        let out: u64 = self.output_rate as u64;
        assert(count * out <= u32::MAX * u32::MAX) by (nonlinear_arith)
            requires
                0 <= count <= u32::MAX,
                0 <= out <= u32::MAX,
        ;
        let end: u64 = count as u64 * out;
        let mut points: Vec<ResamplePoint> = Vec::new();
        let mut position: u64 = self.position;
        assert(v.point(0) == v.position) by (nonlinear_arith)
            requires
                v.point(0) == v.position + 0 * v.input_rate,
        ;
        while position < end
            invariant
                v.wf(),
                step == v.input_rate,
                out == v.output_rate,
                end == count * out,
                end <= u32::MAX * u32::MAX,
                position == v.point(points@.len() as int),
                position <= end + step || points@.len() == 0,
                forall|k: int| 0 <= k < points@.len() ==> #[trigger] v.point(k) < end,
                forall|k: int|
                    0 <= k < points@.len() ==> (#[trigger] points@[k]).index == v.point(k)
                        / v.output_rate as int && points@[k].numerator == v.point(k)
                        % v.output_rate as int && points@[k].index + 1 <= count,
            decreases end + step - position,
        {
            let ghost n = points@.len() as int;
            assert(position as int / out as int + 1 <= count && 0 <= position as int / out as int)
                by (nonlinear_arith)
                requires
                    0 <= position < count * out,
                    out > 0,
            ;
            assert(0 <= position as int % out as int && position as int % (out as int) < out);
            points.push(
                ResamplePoint {
                    index: (position / out) as usize,
                    numerator: (position % out) as u32,
                },
            );
            assert(v.point(n + 1) == v.point(n) + v.input_rate) by (nonlinear_arith)
                requires
                    v.point(n + 1) == v.position + (n + 1) * v.input_rate,
                    v.point(n) == v.position + n * v.input_rate,
            ;
            position = position + step;
        }
        let consumed: u64 = position / out;
        let keep: u64 = if consumed < count as u64 {
            consumed
        } else {
            count as u64
        };
        assert(keep * out <= position && position - keep * out <= step + out) by (nonlinear_arith)
            requires
                keep == consumed && consumed <= count || keep == count && count <= consumed,
                consumed == position as int / out as int,
                out > 0,
                step > 0,
                position >= count * out,
                position <= count * out + step || position <= step + out,
        ;
        self.position = position - keep * out;
        (points, keep as usize)
    }
}

/// The two bytes of a sample, little end first.
pub open spec fn bytes_of(sample: i16) -> (u8, u8) {
    let n = if sample < 0 {
        sample + 65536
    } else {
        sample as int
    };
    ((n % 256) as u8, (n / 256) as u8)
}

/// Samples as bytes, little end first.
pub open spec fn pcm_of(samples: Seq<i16>) -> Seq<u8> {
    Seq::new(
        samples.len() * 2,
        |i: int|
            if i % 2 == 0 {
                bytes_of(samples[i / 2]).0
            } else {
                bytes_of(samples[i / 2]).1
            },
    )
}

/// Write samples as bytes, little end first.
pub fn pcm_bytes(samples: &[i16]) -> (r: Vec<u8>)
    ensures
        r@ == pcm_of(samples@),
{
    let mut out: Vec<u8> = Vec::new();
    let mut i: usize = 0;
    while i < samples.len()
        invariant
            i <= samples@.len(),
            out@ == pcm_of(samples@).take(2 * i),
        decreases samples@.len() - i,
    {
        let sample: i32 = samples[i] as i32;
        let n: i32 = if sample < 0 {
            sample + 65536
        } else {
            sample
        };
        out.push((n % 256) as u8);
        out.push((n / 256) as u8);
        i += 1;
        assert(out@ =~= pcm_of(samples@).take(2 * i));
    }
    assert(pcm_of(samples@).take(2 * i) =~= pcm_of(samples@));
    out
}

/// Samples survive the way through bytes.
pub proof fn samples_read_back(samples: Seq<i16>)
    ensures
        samples_in(pcm_of(samples)) == samples,
{
    let bytes = pcm_of(samples);
    assert forall|i: int| 0 <= i < samples.len() implies #[trigger] samples_in(bytes)[i]
        == samples[i] by {
        assert((2 * i) / 2 == i && (2 * i + 1) / 2 == i);
        let (low, high) = bytes_of(samples[i]);
        assert(bytes[2 * i] == low);
        assert(bytes[2 * i + 1] == high);
        assert(sample_of(low, high) == samples[i]);
    }
    assert(samples_in(bytes) =~= samples);
}

/// A device can be captured exactly with a channel, a rate to bring it to and
/// one of the three known formats, and what is missing is told.
pub proof fn devices_need_a_known_format(channels: u16, output_rate: u32, format: SampleFormat)
    ensures
        ({
            let problem = setup_problem(channels, output_rate, format);
            &&& problem is None <==> channels > 0 && output_rate > 0 && !(format is Other)
            &&& channels == 0 <==> problem is Some && problem->0 is ZeroChannels
            &&& channels > 0 && output_rate == 0 <==> problem is Some && problem->0
                is ZeroOutputRate
            &&& channels > 0 && output_rate > 0 ==> (format matches SampleFormat::Other(name)
                ==> problem == Some(AudioSetupError::UnsupportedFormat(name)))
        }),
{
}

/// The points that a resampler reads are spaced by the input rate, so that the
/// output rate's worth of them spans the input rate's worth of samples.
pub proof fn points_are_evenly_spaced(v: ResamplerView, k: int)
    ensures
        v.point(0) == v.position,
        v.point(k + 1) - v.point(k) == v.input_rate,
        v.point(k + v.output_rate) - v.point(k) == v.output_rate * v.input_rate,
{
    assert(0 * v.input_rate == 0) by (nonlinear_arith);
    assert((k + 1) * v.input_rate == k * v.input_rate + v.input_rate) by (nonlinear_arith);
    assert((k + v.output_rate) * v.input_rate == k * v.input_rate + v.output_rate * v.input_rate)
        by (nonlinear_arith);
}

/// Samples are written in order, two bytes each, the low one first.
pub proof fn samples_are_written_low_byte_first(samples: Seq<i16>, i: int)
    requires
        0 <= i < samples.len(),
    ensures
        ({
            let bytes = pcm_of(samples);
            let n = bytes[2 * i] + 256 * bytes[2 * i + 1];
            &&& bytes.len() == 2 * samples.len()
            &&& samples[i] >= 0 ==> n == samples[i]
            &&& samples[i] < 0 ==> n == samples[i] + 65536
        }),
{
    assert((2 * i) / 2 == i && (2 * i + 1) / 2 == i);
    assert((2 * i) % 2 == 0 && (2 * i + 1) % 2 == 1);
}

} // verus!
