use vstd::prelude::*;
use vstd::string::*;
use crate::text::{
    decimal, is_digit, lemma_decimal_digits, lemma_signed_decimal_injective, push_decimal, signed_decimal,
};

verus! {

/// Number of instrument channels of the synthesizer.
pub const NUM_CHANNELS: usize = 8;

/// The sound source that a channel plays.
#[derive(Clone, Copy, Debug, PartialEq, Eq, Structural)]
pub enum VoiceType {
    Sine,
    Sawtooth,
    Square,
    Triangle,
    Sample,
}

impl VoiceType {
    /// The label shown for this voice type.
    pub open spec fn label(self) -> Seq<char> {
        match self {
            VoiceType::Sine => "Sine"@,
            VoiceType::Sawtooth => "Sawtooth"@,
            VoiceType::Square => "Square"@,
            VoiceType::Triangle => "Triangle"@,
            VoiceType::Sample => "Sample"@,
        }
    }

    pub fn name(&self) -> (r: &'static str)
        ensures
            r@ == self.label(),
    {
        match self {
            VoiceType::Sine => "Sine",
            VoiceType::Sawtooth => "Sawtooth",
            VoiceType::Square => "Square",
            VoiceType::Triangle => "Triangle",
            VoiceType::Sample => "Sample",
        }
    }

    /// Every voice type, in the order in which they are offered.
    pub const ALL: [VoiceType; 5] = [
        VoiceType::Sine,
        VoiceType::Sawtooth,
        VoiceType::Square,
        VoiceType::Triangle,
        VoiceType::Sample,
    ];
}


/// Whether `channel` names one of the synthesizer's channels.
pub fn channel_in_range(channel: usize) -> (r: bool)
    ensures
        r == (channel < NUM_CHANNELS),
{
    channel < NUM_CHANNELS
}

/// The table `slots` after `value` has been stored for `channel`: a store to
/// a channel that does not exist changes nothing.
pub open spec fn written<T>(slots: Seq<T>, channel: usize, value: T) -> Seq<T> {
    if channel < NUM_CHANNELS {
        slots.update(channel as int, value)
    } else {
        slots
    }
}

/// What table `slots` holds for `channel`, when that channel exists.
pub open spec fn read<T>(slots: Seq<T>, channel: usize) -> Option<T> {
    if channel < NUM_CHANNELS {
        Some(slots[channel as int])
    } else {
        None
    }
}

/// One value per channel; writes to a channel that does not exist are ignored.
pub struct ChannelSlots<T> {
    slots: [T; NUM_CHANNELS],
}

impl<T> View for ChannelSlots<T> {
    type V = Seq<T>;

    closed spec fn view(&self) -> Seq<T> {
        self.slots@
    }
}

impl<T> ChannelSlots<T> {
    /// The table holding `values`, the first for the first channel.
    pub fn new(values: [T; NUM_CHANNELS]) -> (table: ChannelSlots<T>)
        ensures
            table@ == values@,
            table@.len() == NUM_CHANNELS,
    {
        ChannelSlots { slots: values }
    }

    /// Stores `value` for `channel`, when that channel exists.
    pub fn set(&mut self, channel: usize, value: T)
        ensures
            final(self)@ == written(old(self)@, channel, value),
            final(self)@.len() == NUM_CHANNELS,
    {
        if channel < NUM_CHANNELS {
            self.slots[channel] = value;
        }
    }

    /// The value of `channel`, when that channel exists.
    pub fn get(&self, channel: usize) -> (r: Option<&T>)
        ensures
            r is Some == read(self@, channel) is Some,
            r matches Some(v) ==> read(self@, channel) == Some(*v),
    {
        if channel < NUM_CHANNELS {
            Some(&self.slots[channel])
        } else {
            None
        }
    }
}

/// A value stored for an existing channel is what that channel then reads,
/// a store to a missing channel reads as nothing, and the other channels
/// read what they read before; the table keeps one value per channel.
pub proof fn lemma_channel_read_after_write<T>(slots: Seq<T>, channel: usize, value: T, other: usize)
    requires
        slots.len() == NUM_CHANNELS,
        other != channel,
    ensures
        written(slots, channel, value).len() == NUM_CHANNELS,
        read(written(slots, channel, value), channel) == (if channel < NUM_CHANNELS {
            Some(value)
        } else {
            None
        }),
        read(written(slots, channel, value), other) == read(slots, other),
{
}

/// The name under which a loaded sample is shown: its file name, or
/// "unknown" when the path has no readable file name.
pub fn sample_name(file_name: Option<&str>) -> (name: String)
    ensures
        name@ == (match file_name {
            Some(n) => n@,
            None => "unknown"@,
        }),
{
    match file_name {
        Some(n) => String::from_str(n),
        None => String::from_str("unknown"),
    }
}

/// The stage an ADSR envelope is in.
#[derive(Clone, Copy, Debug, PartialEq, Eq, Structural)]
pub enum AdsrStage {
    Attack,
    Decay,
    Sustain,
    Release,
    Done,
}

impl AdsrStage {
    /// Position of the stage in the life of a note; stages only move forward.
    pub open spec fn rank(self) -> int {
        match self {
            AdsrStage::Attack => 0,
            AdsrStage::Decay => 1,
            AdsrStage::Sustain => 2,
            AdsrStage::Release => 3,
            AdsrStage::Done => 4,
        }
    }

    /// The stage after one envelope step. `reached` tells whether the level met
    /// the target of the current stage in that step (full level in the attack,
    /// the sustain level in the decay, silence in the release).
    pub open spec fn after_step(self, reached: bool) -> AdsrStage {
        match self {
            AdsrStage::Attack => if reached { AdsrStage::Decay } else { AdsrStage::Attack },
            AdsrStage::Decay => if reached { AdsrStage::Sustain } else { AdsrStage::Decay },
            AdsrStage::Sustain => AdsrStage::Sustain,
            AdsrStage::Release => if reached { AdsrStage::Done } else { AdsrStage::Release },
            AdsrStage::Done => AdsrStage::Done,
        }
    }

    /// The stage after the key is let go: every stage but the last moves to the release.
    pub open spec fn after_release(self) -> AdsrStage {
        if self == AdsrStage::Done {
            AdsrStage::Done
        } else {
            AdsrStage::Release
        }
    }

    pub fn advance(self, reached: bool) -> (next: AdsrStage)
        ensures
            next == self.after_step(reached),
            next.rank() >= self.rank(),
    {
        match self {
            AdsrStage::Attack => if reached { AdsrStage::Decay } else { AdsrStage::Attack },
            AdsrStage::Decay => if reached { AdsrStage::Sustain } else { AdsrStage::Decay },
            AdsrStage::Sustain => AdsrStage::Sustain,
            AdsrStage::Release => if reached { AdsrStage::Done } else { AdsrStage::Release },
            AdsrStage::Done => AdsrStage::Done,
        }
    }

    pub fn released(self) -> (next: AdsrStage)
        ensures
            next == self.after_release(),
            next.rank() >= self.rank(),
    {
        match self {
            AdsrStage::Done => AdsrStage::Done,
            _ => AdsrStage::Release,
        }
    }

    pub fn is_done(self) -> (r: bool)
        ensures
            r == (self == AdsrStage::Done),
    {
        match self {
            AdsrStage::Done => true,
            _ => false,
        }
    }
}

/// An envelope never moves back: neither a step nor a release lowers its stage,
/// and once done it stays done.
pub proof fn lemma_envelope_never_moves_back(stage: AdsrStage, reached: bool)
    ensures
        stage.after_step(reached).rank() >= stage.rank(),
        stage.after_release().rank() >= stage.rank(),
        stage == AdsrStage::Done ==> stage.after_step(reached) == AdsrStage::Done,
        stage == AdsrStage::Done ==> stage.after_release() == AdsrStage::Done,
        stage.after_release().after_release() == stage.after_release(),
{
}

/// Where the sound of a new voice comes from.
#[derive(Clone, Copy, Debug, PartialEq, Eq, Structural)]
pub enum SourceKind {
    Oscillator,
    Sample,
}

/// A channel set to play samples plays its loaded sample; without one, and for
/// every other voice type, the voice runs an oscillator.
pub fn choose_source(voice: VoiceType, sample_loaded: bool) -> (kind: SourceKind)
    ensures
        kind == (if voice == VoiceType::Sample && sample_loaded {
            SourceKind::Sample
        } else {
            SourceKind::Oscillator
        }),
{
    match voice {
        VoiceType::Sample => if sample_loaded { SourceKind::Sample } else { SourceKind::Oscillator },
        _ => SourceKind::Oscillator,
    }
}

/// The waveform of a voice that runs an oscillator: its channel's voice
/// type, except that a channel set to play samples with no sample loaded
/// falls back to a sine.
pub fn oscillator_wave(voice: VoiceType) -> (wave: VoiceType)
    ensures
        wave == (if voice == VoiceType::Sample {
            VoiceType::Sine
        } else {
            voice
        }),
{
    match voice {
        VoiceType::Sample => VoiceType::Sine,
        _ => voice,
    }
}

/// What a sample player does for its next output frame.
#[derive(Clone, Copy, Debug, PartialEq, Eq, Structural)]
pub enum PlaybackStep {
    /// Playback is over: the player is (or becomes) finished and outputs silence.
    Finished,
    /// Interpolate between the samples at `index` and `index + 1`.
    Interpolate { index: usize },
}

/// Decides the next frame of a sample player that holds `len` samples and whose
/// position lies at or after sample `index`.
pub fn playback_step(finished: bool, len: usize, index: usize) -> (step: PlaybackStep)
    ensures
        step == (if finished || len == 0 || index >= len - 1 {
            PlaybackStep::Finished
        } else {
            PlaybackStep::Interpolate { index }
        }),
        step matches PlaybackStep::Interpolate { index: i } ==> i + 1 < len,
{
    if finished {
        PlaybackStep::Finished
    } else if len == 0 {
        PlaybackStep::Finished
    } else if index >= len - 1 {
        PlaybackStep::Finished
    } else {
        PlaybackStep::Interpolate { index }
    }
}


/// The name of pitch class `pc` (0 is C, 11 is B), using sharps.
pub open spec fn pitch_class_name(pc: int) -> Seq<char> {
    if pc == 0 {
        seq!['C']
    } else if pc == 1 {
        seq!['C', '#']
    } else if pc == 2 {
        seq!['D']
    } else if pc == 3 {
        seq!['D', '#']
    } else if pc == 4 {
        seq!['E']
    } else if pc == 5 {
        seq!['F']
    } else if pc == 6 {
        seq!['F', '#']
    } else if pc == 7 {
        seq!['G']
    } else if pc == 8 {
        seq!['G', '#']
    } else if pc == 9 {
        seq!['A']
    } else if pc == 10 {
        seq!['A', '#']
    } else {
        seq!['B']
    }
}

/// Scientific pitch notation of a MIDI note: pitch class, then octave, where
/// note 0 lies in octave -1 and middle C (60) is C4.
pub open spec fn note_label(note: u8) -> Seq<char> {
    pitch_class_name((note % 12) as int) + signed_decimal(note / 12 - 1)
}

pub fn note_name(note: u8) -> (name: String)
    ensures
        name@ == note_label(note),
{
    let pc = note % 12;
    let letter = if pc <= 1 {
        'C'
    } else if pc <= 3 {
        'D'
    } else if pc == 4 {
        'E'
    } else if pc <= 6 {
        'F'
    } else if pc <= 8 {
        'G'
    } else if pc <= 10 {
        'A'
    } else {
        'B'
    };
    let sharp = pc == 1 || pc == 3 || pc == 6 || pc == 8 || pc == 10;
    let mut name = String::new();
    name.push(letter);
    if sharp {
        name.push('#');
    }
    let ghost prefix = name@;
    assert(prefix == pitch_class_name(pc as int));
    let octave_index = note / 12;
    if octave_index == 0 {
        name.push('-');
        name.push('1');
        assert(decimal(1) =~= seq!['1']);
        assert(name@ =~= prefix + signed_decimal(-1));
    } else {
        push_decimal(&mut name, (octave_index - 1) as u64);
    }
    name
}

/// Twelve semitones up is the same pitch class one octave higher.
pub proof fn lemma_octave_shift(note: u8)
    requires
        note <= 243,
    ensures
        pitch_class_name((((note + 12) as u8) % 12) as int) == pitch_class_name((note % 12) as int),
        ((note + 12) as u8) / 12 - 1 == (note / 12 - 1) + 1,
        note_label((note + 12) as u8) == pitch_class_name((note % 12) as int) + signed_decimal(
            note / 12 - 1 + 1,
        ),
{
}


proof fn lemma_pitch_class_shape(pc: int)
    requires
        0 <= pc < 12,
    ensures
        pitch_class_name(pc).len() == 1 || pitch_class_name(pc).len() == 2,
        pitch_class_name(pc)[0] != '#' && !is_digit(pitch_class_name(pc)[0]) && pitch_class_name(pc)[0] != '-',
        pitch_class_name(pc).len() == 2 ==> pitch_class_name(pc)[1] == '#',
{
}

spec fn letter_base(c: char) -> int {
    if c == 'C' {
        0
    } else if c == 'D' {
        2
    } else if c == 'E' {
        4
    } else if c == 'F' {
        5
    } else if c == 'G' {
        7
    } else if c == 'A' {
        9
    } else {
        11
    }
}

/// The pitch class that a pitch-class name stands for.
spec fn pitch_class_of(name: Seq<char>) -> int {
    letter_base(name[0]) + if name.len() == 2 {
        1int
    } else {
        0int
    }
}

proof fn lemma_pitch_class_roundtrip(pc: int)
    requires
        0 <= pc < 12,
    ensures
        pitch_class_of(pitch_class_name(pc)) == pc,
{
}

proof fn lemma_pitch_class_injective(x: int, y: int)
    requires
        0 <= x < 12,
        0 <= y < 12,
        pitch_class_name(x) == pitch_class_name(y),
    ensures
        x == y,
{
    lemma_pitch_class_roundtrip(x);
    lemma_pitch_class_roundtrip(y);
}

proof fn lemma_octave_text_start(o: int)
    ensures
        signed_decimal(o).len() >= 1,
        signed_decimal(o)[0] == '-' || is_digit(signed_decimal(o)[0]),
{
    if o < 0 {
        lemma_decimal_digits((-o) as nat);
    } else {
        lemma_decimal_digits(o as nat);
        assert(is_digit(decimal(o as nat)[0]));
    }
}

/// Different notes have different names.
pub proof fn lemma_note_names_distinct(a: u8, b: u8)
    requires
        a != b,
    ensures
        note_label(a) != note_label(b),
{
    let pa = pitch_class_name((a % 12) as int);
    let pb = pitch_class_name((b % 12) as int);
    let sa = signed_decimal(a / 12 - 1);
    let sb = signed_decimal(b / 12 - 1);
    lemma_pitch_class_shape((a % 12) as int);
    lemma_pitch_class_shape((b % 12) as int);
    lemma_octave_text_start(a / 12 - 1);
    lemma_octave_text_start(b / 12 - 1);
    if note_label(a) == note_label(b) {
        let l = note_label(a);
        assert(l == pa + sa);
        assert(l == pb + sb);
        assert(l[1] == (if pa.len() == 2 { pa[1] } else { sa[0] }));
        assert(l[1] == (if pb.len() == 2 { pb[1] } else { sb[0] }));
        assert(pa.len() == pb.len());
        assert(pa =~= l.subrange(0, pa.len() as int));
        assert(pb =~= l.subrange(0, pb.len() as int));
        assert(sa =~= l.subrange(pa.len() as int, l.len() as int));
        assert(sb =~= l.subrange(pb.len() as int, l.len() as int));
        lemma_pitch_class_injective((a % 12) as int, (b % 12) as int);
        lemma_signed_decimal_injective(a / 12 - 1, b / 12 - 1);
        assert(a == (a / 12) * 12 + a % 12);
        assert(b == (b / 12) * 12 + b % 12);
        assert(false);
    }
}

/// The voice types have pairwise different names.
pub proof fn lemma_voice_names_distinct(a: VoiceType, b: VoiceType)
    requires
        a != b,
    ensures
        a.label() != b.label(),
{
    reveal_strlit("Sine");
    reveal_strlit("Sawtooth");
    reveal_strlit("Square");
    reveal_strlit("Triangle");
    reveal_strlit("Sample");
    if a.label() == b.label() {
        assert(a.label().len() == b.label().len());
        assert(a.label()[0] == b.label()[0]);
        assert(a.label()[1] == b.label()[1]);
    }
}

} // verus!
