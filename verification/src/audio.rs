//! Decoded sound on its way to the form in which it is played.

use vstd::prelude::*;

verus! {

/// A fraction, such as the duration of a tick in seconds.
#[derive(Clone, Copy, Debug, PartialEq, Eq, Structural)]
pub struct Rational {
    pub numerator: i32,
    pub denominator: i32,
}

/// The form in which the output device takes sound.
#[derive(Clone, Copy, Debug, PartialEq, Eq, Structural)]
pub struct AudioConfig {
    pub channels: u16,
    pub sample_rate: u32,
}

/// The arrangement of channels in resampled sound.
#[derive(Clone, Copy, Debug, PartialEq, Eq, Structural)]
pub enum ChannelLayout {
    Mono,
    Stereo,
}

/// The form of the samples in resampled sound.
#[derive(Clone, Copy, Debug, PartialEq, Eq, Structural)]
pub enum SampleFormat {
    /// Single-precision numbers, with the channels of a moment one after the
    /// other.
    PackedSingle,
}

/// What a resampler makes of decoded sound.
#[derive(Clone, Copy, Debug, PartialEq, Eq, Structural)]
pub struct ResamplerTarget {
    pub format: SampleFormat,
    pub layout: ChannelLayout,
    pub sample_rate: u32,
}

/// What the decoder gave when it was asked for a frame.
#[derive(Clone, Copy, Debug, PartialEq, Eq, Structural)]
pub enum Received {
    /// A frame, with its time stamp where it has one.
    Frame { timestamp: Option<i64> },
    /// There are no more frames.
    Eof,
    /// An error of the system, by its number.
    Errno(i32),
    /// Any other error, by the decoder's code for it.
    Failed(i32),
}

/// The number of the error that says that more packets are needed.
pub const EAGAIN: i32 = 11;

/// Why there is no frame.
#[derive(Clone, Copy, Debug, PartialEq, Eq, Structural)]
pub enum AudioError {
    /// The output device has neither one channel nor two.
    UnsupportedChannels(u16),
    /// The decoder failed with this error of the system.
    Errno(i32),
    /// The decoder failed with the error that has this code.
    Decoder(i32),
}

/// A number in decimal digits.
pub open spec fn decimal_of(n: nat) -> Seq<char>
    decreases n,
{
    if n < 10 {
        seq![digit_of(n)]
    } else {
        decimal_of(n / 10).push(digit_of(n % 10))
    }
}

/// The digit of a number below ten.
pub open spec fn digit_of(n: nat) -> char {
    (48 + n) as char
}

/// The digit of a number below ten.
fn digit(n: u16) -> (text: &'static str)
    requires
        n < 10,
    ensures
        text@ == seq![digit_of(n as nat)],
{
    proof {
        reveal_strlit("0");
        reveal_strlit("1");
        reveal_strlit("2");
        reveal_strlit("3");
        reveal_strlit("4");
        reveal_strlit("5");
        reveal_strlit("6");
        reveal_strlit("7");
        reveal_strlit("8");
        reveal_strlit("9");
    }
    if n == 0 {
        "0"
    } else if n == 1 {
        "1"
    } else if n == 2 {
        "2"
    } else if n == 3 {
        "3"
    } else if n == 4 {
        "4"
    } else if n == 5 {
        "5"
    } else if n == 6 {
        "6"
    } else if n == 7 {
        "7"
    } else if n == 8 {
        "8"
    } else {
        "9"
    }
}

/// A number in decimal digits.
fn decimal(n: u16) -> (text: String)
    ensures
        text@ == decimal_of(n as nat),
    decreases n,
{
    if n < 10 {
        digit(n).to_owned()
    } else {
        let mut text = decimal(n / 10);
        text.append(digit(n % 10));
        assert(text@ =~= decimal_of(n as nat));
        text
    }
}

impl AudioError {
    /// The message for the user, or `None` where the decoder has one.
    pub fn message(&self) -> (text: Option<String>)
        ensures
            match *self {
                AudioError::UnsupportedChannels(channels) => text matches Some(text) && text@
                    == decimal_of(channels as nat) + " audio channels is not supported"@,
                AudioError::Errno(_) | AudioError::Decoder(_) => text is None,
            },
    {
        match self {
            AudioError::UnsupportedChannels(channels) => {
                let mut text = decimal(*channels);
                text.append(" audio channels is not supported");
                Some(text)
            },
            AudioError::Errno(_) | AudioError::Decoder(_) => None,
        }
    }
}

/// Packed single-precision samples in some layout and at some rate.
pub open spec fn packed_single(layout: ChannelLayout, sample_rate: u32) -> ResamplerTarget {
    ResamplerTarget { format: SampleFormat::PackedSingle, layout, sample_rate }
}

impl AudioConfig {
    /// What a resampler has to make of decoded sound, where there is one that
    /// can.
    pub open spec fn target_model(self) -> Option<ResamplerTarget> {
        if self.channels == 1 {
            Some(packed_single(ChannelLayout::Mono, self.sample_rate))
        } else if self.channels == 2 {
            Some(packed_single(ChannelLayout::Stereo, self.sample_rate))
        } else {
            None
        }
    }

    /// What a resampler has to make of decoded sound, where there is one that
    /// can.
    pub fn target(&self) -> (target: Option<ResamplerTarget>)
        ensures
            target == self.target_model(),
            target is Some <==> self.channels == 1 || self.channels == 2,
            target matches Some(target) ==> {
                &&& target.sample_rate == self.sample_rate
                &&& target.format == SampleFormat::PackedSingle
                &&& target.layout == ChannelLayout::Mono <==> self.channels == 1
            },
    {
        let layout = match self.channels {
            1 => ChannelLayout::Mono,
            2 => ChannelLayout::Stereo,
            _ => return None,
        };
        Some(
            ResamplerTarget {
                format: SampleFormat::PackedSingle,
                layout,
                sample_rate: self.sample_rate,
            },
        )
    }
}

/// What to do with what the decoder gave.
#[derive(Clone, Copy, Debug, PartialEq, Eq, Structural)]
pub enum PopStep {
    /// There is no frame for now.
    Empty,
    /// Resample the frame and hand it on with its time stamp.
    Resample { pts: Option<i64> },
    /// Make a resampler for the frame first.
    MakeResampler { target: ResamplerTarget, pts: Option<i64> },
    /// Give up on the frame.
    Fail(AudioError),
}

/// A decoder of sound with the resampler behind it.
///
/// The resampler is made for the first frame and kept.
#[derive(Debug, PartialEq, Eq)]
pub struct AudioDecoder {
    config: AudioConfig,
    time_base: Rational,
    resampler: Option<ResamplerTarget>,
}

/// What to do with what the decoder gave, where `resampler` is the resampler
/// that was made for an earlier frame.
pub open spec fn pop_step(
    config: AudioConfig,
    resampler: Option<ResamplerTarget>,
    received: Received,
) -> PopStep {
    match received {
        Received::Frame { timestamp } => if resampler is Some {
            PopStep::Resample { pts: timestamp }
        } else {
            match config.target_model() {
                Some(target) => PopStep::MakeResampler { target, pts: timestamp },
                None => PopStep::Fail(AudioError::UnsupportedChannels(config.channels)),
            }
        },
        Received::Eof => PopStep::Empty,
        Received::Errno(errno) => if errno == EAGAIN {
            PopStep::Empty
        } else {
            PopStep::Fail(AudioError::Errno(errno))
        },
        Received::Failed(code) => PopStep::Fail(AudioError::Decoder(code)),
    }
}

impl AudioDecoder {
    /// The form in which the output device takes sound.
    pub closed spec fn spec_config(&self) -> AudioConfig {
        self.config
    }

    /// The duration of a tick of the time stamps.
    pub closed spec fn spec_time_base(&self) -> Rational {
        self.time_base
    }

    /// The resampler, where one was made.
    pub closed spec fn spec_resampler(&self) -> Option<ResamplerTarget> {
        self.resampler
    }

    /// A resampler gives what the output device takes.
    #[verifier::type_invariant]
    spec fn well_formed(self) -> bool {
        self.resampler is Some ==> self.resampler == self.config.target_model()
    }

    /// A decoder without a resampler.
    pub fn new(config: &AudioConfig, time_base: Rational) -> (decoder: AudioDecoder)
        ensures
            decoder.spec_config() == *config,
            decoder.spec_time_base() == time_base,
            decoder.spec_resampler() is None,
    {
        AudioDecoder { config: *config, time_base, resampler: None }
    }

    /// The duration of a tick of the time stamps.
    pub fn time_base(&self) -> (time_base: Rational)
        ensures
            time_base == self.spec_time_base(),
    {
        self.time_base
    }

    /// What to do with what the decoder gave.
    pub fn pop_frame(&self, received: Received) -> (step: PopStep)
        ensures
            step == pop_step(self.spec_config(), self.spec_resampler(), received),
            step matches PopStep::Resample { .. } ==> self.spec_resampler()
                == self.spec_config().target_model(),
    {
        proof {
            use_type_invariant(self);
        }
        match received {
            Received::Frame { timestamp } => {
                if self.resampler.is_some() {
                    return PopStep::Resample { pts: timestamp };
                }
                match self.config.target() {
                    Some(target) => PopStep::MakeResampler { target, pts: timestamp },
                    None => PopStep::Fail(AudioError::UnsupportedChannels(self.config.channels)),
                }
            },
            Received::Eof => PopStep::Empty,
            Received::Errno(errno) => {
                if errno == EAGAIN {
                    PopStep::Empty
                } else {
                    PopStep::Fail(AudioError::Errno(errno))
                }
            },
            Received::Failed(code) => PopStep::Fail(AudioError::Decoder(code)),
        }
    }

    /// Takes note that the resampler was made that [`AudioDecoder::pop_frame`]
    /// asked for.
    pub fn resampler_made(&mut self)
        ensures
            final(self).spec_config() == old(self).spec_config(),
            final(self).spec_time_base() == old(self).spec_time_base(),
            final(self).spec_resampler() == old(self).spec_config().target_model(),
    {
        self.resampler = self.config.target();
    }
}

/// For an output device with neither one channel nor two, no frame is ever
/// resampled, whatever the decoder gives. For any other no frame fails for its
/// channels.
pub proof fn lemma_unsupported_channels(config: AudioConfig, received: Received)
    ensures
        pop_step(config, config.target_model(), received) matches PopStep::Resample { .. } ==> 1
            <= config.channels <= 2,
        pop_step(config, None, received) matches PopStep::MakeResampler { .. } ==> 1
            <= config.channels <= 2,
        1 <= config.channels <= 2 ==> {
            &&& !(pop_step(config, None, received) matches PopStep::Fail(
                AudioError::UnsupportedChannels(_),
            ))
            &&& !(pop_step(config, config.target_model(), received) matches PopStep::Fail(
                AudioError::UnsupportedChannels(_),
            ))
        },
{
}

/// A frame is handed on with the time stamp that the decoder gave it, and a
/// frame comes out exactly where one went in and could be resampled.
pub proof fn lemma_frame_keeps_time_stamp(
    config: AudioConfig,
    resampler: Option<ResamplerTarget>,
    received: Received,
    pts: Option<i64>,
)
    ensures
        (pop_step(config, resampler, received) matches PopStep::Resample { pts: given } && given
            == pts) <==> received == (Received::Frame { timestamp: pts }) && resampler is Some,
        (pop_step(config, resampler, received) matches PopStep::MakeResampler { pts: given, .. }
            && given == pts) <==> received == (Received::Frame { timestamp: pts }) && resampler
            is None && config.target_model() is Some,
{
}

/// Every error of the decoder is handed on as the error that it was, but for the
/// end of the frames and the one that says that more packets are needed.
pub proof fn lemma_errors_handed_on(
    config: AudioConfig,
    resampler: Option<ResamplerTarget>,
    received: Received,
    number: i32,
)
    ensures
        pop_step(config, resampler, received) == PopStep::Fail(AudioError::Errno(number))
            <==> received == Received::Errno(number) && number != EAGAIN,
        pop_step(config, resampler, received) == PopStep::Fail(AudioError::Decoder(number))
            <==> received == Received::Failed(number),
        pop_step(config, resampler, received) == PopStep::Empty <==> received == Received::Eof
            || received == Received::Errno(EAGAIN),
{
}

/// Fills samples from bytes with `bytemuck::cast_slice_mut`.
///
/// Trusted: the memory of the samples is the bytes, so that each sample is four
/// of them, in their order.
#[verifier::external_body]
fn fill_samples(samples: &mut Vec<[u8; 4]>, bytes: &[u8])
    requires
        bytes@.len() == 4 * old(samples)@.len(),
    ensures
        final(samples)@.len() == old(samples)@.len(),
        forall|i: int|
            0 <= i < final(samples)@.len() ==> (#[trigger] final(samples)@[i])@
                == bytes@.subrange(4 * i, 4 * i + 4),
{
    bytemuck::cast_slice_mut::<[u8; 4], u8>(samples).copy_from_slice(bytes)
}

/// The samples of a resampled frame, each as the four bytes of a
/// single-precision number: `samples` for each of the channels, out of the bytes
/// of the frame, in their order. What stands behind them is not used.
///
/// `None` where the frame has fewer bytes than that.
pub fn frame_samples(data: &[u8], samples: usize, channels: u16) -> (out: Option<Vec<[u8; 4]>>)
    ensures
        match out {
            Some(out) => {
                &&& out@.len() == samples * channels
                &&& 4 * out@.len() <= data@.len()
                &&& forall|i: int|
                    0 <= i < out@.len() ==> (#[trigger] out@[i])@ == data@.subrange(
                        4 * i,
                        4 * i + 4,
                    )
            },
            None => 4 * (samples * channels) > data@.len(),
        },
{
    let available = data.len();
    let count = samples.checked_mul(channels as usize)?;
    let bytes = count.checked_mul(4)?;
    if bytes > available {
        return None;
    }
    let (used, _) = data.split_at(bytes);
    let mut out: Vec<[u8; 4]> = vec![[0u8; 4]; count];
    fill_samples(&mut out, used);
    proof {
        assert forall|i: int| 0 <= i < out@.len() implies (#[trigger] out@[i])@ == data@.subrange(
            4 * i,
            4 * i + 4,
        ) by {
            assert(used@.subrange(4 * i, 4 * i + 4) =~= data@.subrange(4 * i, 4 * i + 4));
        }
    }
    Some(out)
}

/// Sound is resampled to the rate of the output device, for one channel in mono
/// and for two in stereo, as packed single-precision numbers. No other number of
/// channels can be served.
pub proof fn lemma_target(config: AudioConfig, target: ResamplerTarget)
    ensures
        config.target_model() == Some(target) <==> {
            &&& target.format == SampleFormat::PackedSingle
            &&& target.sample_rate == config.sample_rate
            &&& {
                ||| config.channels == 1 && target.layout == ChannelLayout::Mono
                ||| config.channels == 2 && target.layout == ChannelLayout::Stereo
            }
        },
        config.target_model() is None <==> config.channels != 1 && config.channels != 2,
{
}

/// A frame is refused for its channels exactly where there is no resampler and
/// the output device has neither one channel nor two, and the error names the
/// channels of the device. The numbers of the errors that are none stand for the
/// end of the frames and for the need of more packets.
pub proof fn lemma_refused_frames(
    config: AudioConfig,
    resampler: Option<ResamplerTarget>,
    received: Received,
    channels: u16,
    target: ResamplerTarget,
    pts: Option<i64>,
)
    ensures
        pop_step(config, resampler, received) == PopStep::Fail(
            AudioError::UnsupportedChannels(channels),
        ) <==> {
            &&& received is Frame
            &&& resampler is None
            &&& channels == config.channels
            &&& channels != 1
            &&& channels != 2
        },
        pop_step(config, resampler, received) == (PopStep::MakeResampler { target, pts }) <==> {
            &&& received == (Received::Frame { timestamp: pts })
            &&& resampler is None
            &&& target.format == SampleFormat::PackedSingle
            &&& target.sample_rate == config.sample_rate
            &&& {
                ||| config.channels == 1 && target.layout == ChannelLayout::Mono
                ||| config.channels == 2 && target.layout == ChannelLayout::Stereo
            }
        },
        pop_step(config, resampler, received) == PopStep::Empty <==> received == Received::Eof
            || received == Received::Errno(11),
{
}

/// The number that decimal digits make.
pub open spec fn number_of_digits(digits: Seq<char>) -> int
    decreases digits.len(),
{
    if digits.len() == 0 {
        0
    } else {
        10 * number_of_digits(digits.drop_last()) + (digits.last() as int - '0' as int)
    }
}

/// The digits of a number make up that number, are digits all, and do not begin
/// with a zero unless the number is zero.
pub proof fn lemma_decimal(n: nat)
    ensures
        number_of_digits(decimal_of(n)) == n,
        decimal_of(n).len() > 0,
        forall|i: int|
            0 <= i < decimal_of(n).len() ==> '0' <= #[trigger] decimal_of(n)[i] <= '9',
        n > 0 ==> decimal_of(n)[0] != '0',
        n == 0 ==> decimal_of(n).len() == 1,
    decreases n,
{
    if n >= 10 {
        lemma_decimal(n / 10);
        let front = decimal_of(n / 10);
        assert(decimal_of(n).drop_last() =~= front);
        assert(decimal_of(n).last() == digit_of(n % 10));
        assert(decimal_of(n)[0] == front[0]);
        assert forall|i: int| 0 <= i < decimal_of(n).len() implies '0' <= #[trigger] decimal_of(
            n,
        )[i] <= '9' by {
            if i < front.len() {
                assert(decimal_of(n)[i] == front[i]);
            }
        }
    } else {
        assert(decimal_of(n).drop_last() =~= Seq::empty());
        assert(number_of_digits(Seq::empty()) == 0);
        assert(decimal_of(n).last() == digit_of(n));
    }
}

} // verus!
