use vstd::prelude::*;
use crate::audio::{written, ChannelSlots, NUM_CHANNELS};
use crate::pool::{chosen_slot, release_matching, started, VoicePool};

verus! {

/// A command for the synthesizer's channels. `P` is what a channel plays
/// with (its parameters), `S` a loaded sample.
pub enum Command<P, S> {
    NoteOn { channel: usize, note: u8, velocity: u8 },
    NoteOff { channel: usize, note: u8 },
    UpdateParams { channel: usize, params: P },
    LoadSample { channel: usize, sample: S },
}

/// The parameters and the sample of each channel, and the voices that sound.
pub struct ChannelState<P, S, D> {
    pub params: ChannelSlots<P>,
    pub samples: ChannelSlots<Option<S>>,
    pub voices: VoicePool<D>,
}

impl<P, S, D> ChannelState<P, S, D> {
    /// Channels set up with `params` and `samples`, and no voice sounding.
    pub fn new(params: [P; NUM_CHANNELS], samples: [Option<S>; NUM_CHANNELS]) -> (st: Self)
        ensures
            st.params@ == params@,
            st.samples@ == samples@,
            st.voices@.len() == crate::pool::MAX_VOICES,
            forall|i: int| 0 <= i < st.voices@.len() ==> st.voices@[i] is None,
    {
        ChannelState {
            params: ChannelSlots::new(params),
            samples: ChannelSlots::new(samples),
            voices: VoicePool::new(),
        }
    }

    /// Carries out `cmd`; commands for a channel that does not exist change
    /// nothing. A note-on starts a voice made by `make_voice` from the note,
    /// the velocity and the channel's parameters and sample.
    pub fn process_command<F: Fn(u8, u8, &P, &Option<S>) -> D>(&mut self, cmd: Command<P, S>, make_voice: F)
        requires
            forall|n: u8, v: u8, p: &P, s: &Option<S>| make_voice.requires((n, v, p, s)),
        ensures
            match cmd {
                Command::NoteOn { channel, note, velocity } => {
                    &&& final(self).params@ == old(self).params@
                    &&& final(self).samples@ == old(self).samples@
                    &&& channel < NUM_CHANNELS ==> exists|dsp: D, slot: int|
                        #![trigger started(old(self).voices@, channel, note, dsp, slot)]
                        {
                            &&& make_voice.ensures(
                                (note, velocity, &old(self).params@[channel as int], &old(self).samples@[channel as int]),
                                dsp,
                            )
                            &&& chosen_slot(release_matching(old(self).voices@, channel, note), slot)
                            &&& final(self).voices@ == started(old(self).voices@, channel, note, dsp, slot)
                        }
                    &&& channel >= NUM_CHANNELS ==> final(self).voices@ == old(self).voices@
                },
                Command::NoteOff { channel, note } => {
                    &&& final(self).params@ == old(self).params@
                    &&& final(self).samples@ == old(self).samples@
                    &&& final(self).voices@ == (if channel < NUM_CHANNELS {
                        release_matching(old(self).voices@, channel, note)
                    } else {
                        old(self).voices@
                    })
                },
                Command::UpdateParams { channel, params } => {
                    &&& final(self).params@ == written(old(self).params@, channel, params)
                    &&& final(self).samples@ == old(self).samples@
                    &&& final(self).voices@ == old(self).voices@
                },
                Command::LoadSample { channel, sample } => {
                    &&& final(self).params@ == old(self).params@
                    &&& final(self).samples@ == written(old(self).samples@, channel, Some(sample))
                    &&& final(self).voices@ == old(self).voices@
                },
            },
    {
        match cmd {
            Command::NoteOn { channel, note, velocity } => {
                match self.params.get(channel) {
                    Some(p) => match self.samples.get(channel) {
                        Some(s) => {
                            let dsp = make_voice(note, velocity, p, s);
                            let ghost before = self.voices@;
                            let slot = self.voices.note_on(channel, note, dsp);
                            assert(self.voices@ == started(before, channel, note, dsp, slot as int));
                        },
                        None => {},
                    },
                    None => {},
                }
            },
            Command::NoteOff { channel, note } => {
                if channel < NUM_CHANNELS {
                    self.voices.note_off(channel, note);
                }
            },
            Command::UpdateParams { channel, params } => {
                self.params.set(channel, params);
            },
            Command::LoadSample { channel, sample } => {
                self.samples.set(channel, Some(sample));
            },
        }
    }
}

} // verus!
