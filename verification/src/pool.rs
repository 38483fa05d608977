use vstd::prelude::*;
use crate::audio::AdsrStage;

verus! {

/// Number of voices that can sound at once.
pub const MAX_VOICES: usize = 64;

/// A sounding note. `dsp` holds the signal-processing state of the voice
/// (oscillator or sample player, filter, envelope level), which the voice
/// management below never reads.
pub struct Voice<D> {
    pub note: u8,
    pub channel: usize,
    pub stage: AdsrStage,
    pub source_finished: bool,
    pub dsp: D,
}

impl<D> Voice<D> {
    /// A voice that has just been started.
    pub open spec fn fresh(channel: usize, note: u8, dsp: D) -> Voice<D> {
        Voice { note, channel, stage: AdsrStage::Attack, source_finished: false, dsp }
    }

    /// This voice after its key has been let go.
    pub open spec fn after_release(self) -> Voice<D> {
        Voice {
            note: self.note,
            channel: self.channel,
            stage: self.stage.after_release(),
            source_finished: self.source_finished,
            dsp: self.dsp,
        }
    }

    /// A voice is over once its envelope is done or its source has run out.
    pub open spec fn over(self) -> bool {
        self.stage == AdsrStage::Done || self.source_finished
    }

    pub fn new(channel: usize, note: u8, dsp: D) -> (v: Voice<D>)
        ensures
            v == Voice::fresh(channel, note, dsp),
    {
        Voice { note, channel, stage: AdsrStage::Attack, source_finished: false, dsp }
    }

    pub fn release(&mut self)
        ensures
            *final(self) == old(self).after_release(),
    {
        self.stage = self.stage.released();
    }

    pub fn is_done(&self) -> (r: bool)
        ensures
            r == self.over(),
    {
        self.stage.is_done() || self.source_finished
    }

    /// A voice whose source has run out falls silent at once: its envelope is
    /// done. Returns whether that happened.
    pub fn silence_if_source_finished(&mut self) -> (silenced: bool)
        ensures
            silenced == old(self).source_finished,
            final(self).note == old(self).note,
            final(self).channel == old(self).channel,
            final(self).source_finished == old(self).source_finished,
            final(self).dsp == old(self).dsp,
            final(self).stage == (if silenced { AdsrStage::Done } else { old(self).stage }),
    {
        if self.source_finished {
            self.stage = AdsrStage::Done;
            true
        } else {
            false
        }
    }
}

/// The kinds of slot that voice stealing looks for.
#[derive(Clone, Copy, Debug, PartialEq, Eq, Structural)]
pub enum SlotTest {
    Free,
    Done,
    Releasing,
}

/// Whether a slot of the pool passes `test`.
pub open spec fn slot_is<D>(slot: Option<Voice<D>>, test: SlotTest) -> bool {
    match test {
        SlotTest::Free => slot is None,
        SlotTest::Done => slot matches Some(v) && v.stage == AdsrStage::Done,
        SlotTest::Releasing => slot matches Some(v) && v.stage == AdsrStage::Release,
    }
}

/// Some slot of `s` passes `test`.
pub open spec fn any_slot_is<D>(s: Seq<Option<Voice<D>>>, test: SlotTest) -> bool {
    exists|j: int| 0 <= j < s.len() && slot_is(#[trigger] s[j], test)
}

/// `i` is the first slot of `s` that passes `test`.
pub open spec fn first_slot_is<D>(s: Seq<Option<Voice<D>>>, i: int, test: SlotTest) -> bool {
    &&& 0 <= i < s.len()
    &&& slot_is(s[i], test)
    &&& forall|j: int| 0 <= j < i ==> !slot_is(#[trigger] s[j], test)
}

/// The slot that a new note takes: the first free one; failing that the first
/// voice whose envelope is done; failing that the first voice in its release;
/// failing that the first slot.
pub open spec fn chosen_slot<D>(s: Seq<Option<Voice<D>>>, i: int) -> bool {
    if any_slot_is(s, SlotTest::Free) {
        first_slot_is(s, i, SlotTest::Free)
    } else if any_slot_is(s, SlotTest::Done) {
        first_slot_is(s, i, SlotTest::Done)
    } else if any_slot_is(s, SlotTest::Releasing) {
        first_slot_is(s, i, SlotTest::Releasing)
    } else {
        i == 0
    }
}

/// The slots after a note-off: every voice playing `note` on `channel` is released.
pub open spec fn release_matching<D>(s: Seq<Option<Voice<D>>>, channel: usize, note: u8) -> Seq<
    Option<Voice<D>>,
> {
    Seq::new(
        s.len(),
        |i: int|
            match s[i] {
                Some(v) => if v.channel == channel && v.note == note {
                    Some(v.after_release())
                } else {
                    Some(v)
                },
                None => None,
            },
    )
}

/// The slots after a note-on of `note` on `channel` that took slot `slot`.
pub open spec fn started<D>(s: Seq<Option<Voice<D>>>, channel: usize, note: u8, dsp: D, slot: int) -> Seq<
    Option<Voice<D>>,
> {
    release_matching(s, channel, note).update(slot, Some(Voice::fresh(channel, note, dsp)))
}

/// The slot after the mixer has run a voice: a voice that is over leaves the pool.
pub open spec fn settled<D>(v: Voice<D>) -> Option<Voice<D>> {
    if v.over() {
        None
    } else {
        Some(v)
    }
}

/// A fixed set of voice slots with voice stealing.
pub struct VoicePool<D> {
    voices: Vec<Option<Voice<D>>>,
}

impl<D> View for VoicePool<D> {
    type V = Seq<Option<Voice<D>>>;

    closed spec fn view(&self) -> Seq<Option<Voice<D>>> {
        self.voices@
    }
}

fn slot_passes<D>(slot: &Option<Voice<D>>, test: SlotTest) -> (r: bool)
    ensures
        r == slot_is(*slot, test),
{
    match slot {
        None => match test {
            SlotTest::Free => true,
            _ => false,
        },
        Some(v) => match test {
            SlotTest::Free => false,
            SlotTest::Done => v.stage.is_done(),
            SlotTest::Releasing => match v.stage {
                AdsrStage::Release => true,
                _ => false,
            },
        },
    }
}

impl<D> VoicePool<D> {
    /// A pool always has `MAX_VOICES` slots.
    #[verifier::type_invariant]
    spec fn holds_every_slot(self) -> bool {
        self.voices@.len() == MAX_VOICES
    }

    pub fn new() -> (pool: VoicePool<D>)
        ensures
            pool@.len() == MAX_VOICES,
            forall|i: int| 0 <= i < MAX_VOICES ==> pool@[i] is None,
    {
        let mut voices: Vec<Option<Voice<D>>> = Vec::new();
        let mut i: usize = 0;
        while i < MAX_VOICES
            invariant
                i <= MAX_VOICES,
                voices@.len() == i,
                forall|j: int| 0 <= j < i ==> voices@[j] is None,
            decreases MAX_VOICES - i,
        {
            voices.push(None);
            i = i + 1;
        }
        VoicePool { voices }
    }

    /// Number of slots; always `MAX_VOICES`.
    pub fn capacity(&self) -> (n: usize)
        ensures
            n == self@.len(),
            n == MAX_VOICES,
    {
        proof {
            use_type_invariant(self);
        }
        self.voices.len()
    }

    /// The first slot that passes `test`, if any.
    fn first_slot(&self, test: SlotTest) -> (r: Option<usize>)
        ensures
            r matches Some(i) ==> first_slot_is(self@, i as int, test),
            r is None ==> !any_slot_is(self@, test),
    {
        let mut i: usize = 0;
        while i < self.voices.len()
            invariant
                i <= self.voices@.len(),
                forall|j: int| 0 <= j < i ==> !slot_is(#[trigger] self.voices@[j], test),
            decreases self.voices@.len() - i,
        {
            if slot_passes(&self.voices[i], test) {
                return Some(i);
            }
            i = i + 1;
        }
        None
    }

    /// The slot that a new note would take.
    fn steal_target(&self) -> (slot: usize)
        ensures
            slot < MAX_VOICES,
            chosen_slot(self@, slot as int),
    {
        proof {
            use_type_invariant(self);
        }
        match self.first_slot(SlotTest::Free) {
            Some(i) => i,
            None => match self.first_slot(SlotTest::Done) {
                Some(i) => i,
                None => match self.first_slot(SlotTest::Releasing) {
                    Some(i) => i,
                    None => 0,
                },
            },
        }
    }

    /// Releases every voice that plays `note` on `channel`.
    pub fn note_off(&mut self, channel: usize, note: u8)
        ensures
            final(self)@ == release_matching(old(self)@, channel, note),
            final(self)@.len() == MAX_VOICES,
    {
        proof {
            use_type_invariant(&*self);
        }
        let ghost orig = self@;
        let n = self.voices.len();
        let mut i: usize = 0;
        while i < n
            invariant
                n == MAX_VOICES,
                orig.len() == n,
                self.voices@.len() == n,
                i <= n,
                forall|j: int| 0 <= j < i ==> self.voices@[j] == release_matching(orig, channel, note)[j],
                forall|j: int| i <= j < n ==> self.voices@[j] == orig[j],
            decreases n - i,
        {
            match &mut self.voices[i] {
                Some(v) => {
                    if v.channel == channel && v.note == note {
                        v.release();
                    }
                },
                None => {},
            }
            i = i + 1;
        }
        proof {
            assert(self.voices@ =~= release_matching(orig, channel, note));
        }
    }

    /// Starts `note` on `channel`: first releases that note on that channel, then
    /// puts the new voice into the slot that `chosen_slot` picks, which it returns.
    pub fn note_on(&mut self, channel: usize, note: u8, dsp: D) -> (slot: usize)
        ensures
            slot < MAX_VOICES,
            chosen_slot(release_matching(old(self)@, channel, note), slot as int),
            final(self)@ == started(old(self)@, channel, note, dsp, slot as int),
            final(self)@.len() == MAX_VOICES,
    {
        self.note_off(channel, note);
        let voice = Voice::new(channel, note, dsp);
        let slot = self.steal_target();
        self.voices[slot] = Some(voice);
        slot
    }

    /// Takes the voice out of slot `i`, leaving the slot free.
    pub fn take(&mut self, i: usize) -> (voice: Option<Voice<D>>)
        requires
            i < MAX_VOICES,
        ensures
            voice == old(self)@[i as int],
            final(self)@ == old(self)@.update(i as int, None),
            final(self)@.len() == MAX_VOICES,
    {
        proof {
            use_type_invariant(&*self);
        }
        self.voices[i].take()
    }

    /// Puts a voice that the mixer has run back into slot `i`, unless it is over,
    /// in which case the slot stays free.
    pub fn settle(&mut self, i: usize, voice: Voice<D>)
        requires
            i < MAX_VOICES,
        ensures
            final(self)@ == old(self)@.update(i as int, settled(voice)),
            final(self)@.len() == MAX_VOICES,
    {
        proof {
            use_type_invariant(&*self);
        }
        if voice.is_done() {
            self.voices[i] = None;
        } else {
            self.voices[i] = Some(voice);
        }
    }

    /// Whether slot `i` holds a voice.
    pub fn is_occupied(&self, i: usize) -> (r: bool)
        requires
            i < MAX_VOICES,
        ensures
            r == self@[i as int] is Some,
    {
        proof {
            use_type_invariant(self);
        }
        self.voices[i].is_some()
    }
}


/// A note-off leaves every slot occupied or free as it was, and touches only the
/// voices that play that note on that channel.
pub proof fn lemma_note_off_keeps_occupancy<D>(s: Seq<Option<Voice<D>>>, channel: usize, note: u8)
    ensures
        release_matching(s, channel, note).len() == s.len(),
        forall|j: int|
            0 <= j < s.len() ==> (#[trigger] release_matching(s, channel, note)[j] is Some) == (
            s[j] is Some),
        forall|j: int|
            0 <= j < s.len() && !(s[j] matches Some(v) && v.channel == channel && v.note == note)
                ==> #[trigger] release_matching(s, channel, note)[j] == s[j],
{
}

/// A note that was just started is released by the matching note-off.
pub proof fn lemma_note_off_releases_started_note<D>(
    s: Seq<Option<Voice<D>>>,
    channel: usize,
    note: u8,
    dsp: D,
    slot: int,
)
    requires
        0 <= slot < s.len(),
    ensures
        release_matching(started(s, channel, note, dsp, slot), channel, note)[slot] == Some(
            Voice { note, channel, stage: AdsrStage::Release, source_finished: false, dsp },
        ),
{
}

/// While a slot is free, a new note takes a free slot and every voice that was
/// sounding keeps sounding: no voice is stolen.
pub proof fn lemma_no_stealing_while_a_slot_is_free<D>(
    s: Seq<Option<Voice<D>>>,
    channel: usize,
    note: u8,
    dsp: D,
    slot: int,
)
    requires
        any_slot_is(s, SlotTest::Free),
        chosen_slot(release_matching(s, channel, note), slot),
    ensures
        s[slot] is None,
        forall|j: int| 0 <= j < s.len() && s[j] is Some ==> #[trigger] started(s, channel, note, dsp, slot)[j] is Some,
        started(s, channel, note, dsp, slot)[slot] == Some(Voice::fresh(channel, note, dsp)),
{
    let r = release_matching(s, channel, note);
    let j = choose|j: int| 0 <= j < s.len() && slot_is(#[trigger] s[j], SlotTest::Free);
    assert(slot_is(r[j], SlotTest::Free));
    assert(any_slot_is(r, SlotTest::Free));
}

/// The mixer frees a voice's slot exactly when its envelope is done or its
/// source has run out: a voice in its attack, decay, sustain or release whose
/// source still sounds keeps its slot.
pub proof fn lemma_only_finished_voices_leave<D>(v: Voice<D>)
    ensures
        v.stage != AdsrStage::Done && !v.source_finished ==> !v.over() && settled(v) == Some(v),
        v.stage == AdsrStage::Done ==> v.over() && settled(v) is None,
        v.source_finished ==> v.over() && settled(v) is None,
{
}

/// A note-off puts every voice that plays that note on that channel into its
/// release, whatever stage it was in (a voice already done stays done), and
/// leaves every other slot as it was.
pub proof fn lemma_note_off_releases_every_matching_voice<D>(s: Seq<Option<Voice<D>>>, channel: usize, note: u8)
    ensures
        release_matching(s, channel, note).len() == s.len(),
        forall|j: int|
            0 <= j < s.len() ==> match #[trigger] s[j] {
                Some(v) => if v.note == note && v.channel == channel {
                    release_matching(s, channel, note)[j] == Some(
                        Voice {
                            note: v.note,
                            channel: v.channel,
                            stage: if v.stage == AdsrStage::Done {
                                AdsrStage::Done
                            } else {
                                AdsrStage::Release
                            },
                            source_finished: v.source_finished,
                            dsp: v.dsp,
                        },
                    )
                } else {
                    release_matching(s, channel, note)[j] == Some(v)
                },
                None => release_matching(s, channel, note)[j] is None,
            },
{
    assert forall|j: int| 0 <= j < s.len() implies match #[trigger] s[j] {
        Some(v) => if v.note == note && v.channel == channel {
            release_matching(s, channel, note)[j] == Some(
                Voice {
                    note: v.note,
                    channel: v.channel,
                    stage: if v.stage == AdsrStage::Done {
                        AdsrStage::Done
                    } else {
                        AdsrStage::Release
                    },
                    source_finished: v.source_finished,
                    dsp: v.dsp,
                },
            )
        } else {
            release_matching(s, channel, note)[j] == Some(v)
        },
        None => release_matching(s, channel, note)[j] is None,
    } by {
        match s[j] {
            Some(v) => {
                if v.stage == AdsrStage::Done {
                } else {
                    assert(v.stage.after_release() == AdsrStage::Release);
                }
            },
            None => {},
        }
    }
}

/// The slot a new note takes, stated by what the slots hold: the first empty
/// slot; when none is empty, the first voice whose envelope is done; when
/// none is done either, the first voice in its release; only when there is
/// no such voice does the note take the first slot, whatever plays there.
pub proof fn lemma_stealing_order<D>(s: Seq<Option<Voice<D>>>, i: int)
    requires
        chosen_slot(s, i),
        s.len() > 0,
    ensures
        0 <= i < s.len(),
        (exists|j: int| 0 <= j < s.len() && #[trigger] s[j] is None) ==> {
            &&& s[i] is None
            &&& forall|j: int| 0 <= j < i ==> #[trigger] s[j] is Some
        },
        (forall|j: int| 0 <= j < s.len() ==> #[trigger] s[j] is Some) && (exists|j: int|
            0 <= j < s.len() && (#[trigger] s[j] is Some && s[j]->0.stage == AdsrStage::Done)) ==> {
            &&& (s[i] is Some && s[i]->0.stage == AdsrStage::Done)
            &&& forall|j: int| 0 <= j < i ==> !((#[trigger] s[j] is Some && s[j]->0.stage == AdsrStage::Done))
        },
        (forall|j: int| 0 <= j < s.len() ==> ((#[trigger] s[j] is Some && s[j]->0.stage != AdsrStage::Done)))
            && (exists|j: int| 0 <= j < s.len() && (#[trigger] s[j] is Some && s[j]->0.stage == AdsrStage::Release))
            ==> {
            &&& (s[i] is Some && s[i]->0.stage == AdsrStage::Release)
            &&& forall|j: int| 0 <= j < i ==> !((#[trigger] s[j] is Some && s[j]->0.stage == AdsrStage::Release))
        },
        (forall|j: int|
            0 <= j < s.len() ==> (#[trigger] s[j] is Some && s[j]->0.stage != AdsrStage::Done && s[j]->0.stage
                != AdsrStage::Release)) ==> i == 0,
{
    if exists|j: int| 0 <= j < s.len() && #[trigger] s[j] is None {
        let j = choose|j: int| 0 <= j < s.len() && #[trigger] s[j] is None;
        assert(slot_is(s[j], SlotTest::Free));
    }
    if exists|j: int| 0 <= j < s.len() && (#[trigger] s[j] is Some && s[j]->0.stage == AdsrStage::Done) {
        let j = choose|j: int| 0 <= j < s.len() && (#[trigger] s[j] is Some && s[j]->0.stage == AdsrStage::Done);
        assert(slot_is(s[j], SlotTest::Done));
    }
    if exists|j: int| 0 <= j < s.len() && (#[trigger] s[j] is Some && s[j]->0.stage == AdsrStage::Release) {
        let j = choose|j: int|
            0 <= j < s.len() && (#[trigger] s[j] is Some && s[j]->0.stage == AdsrStage::Release);
        assert(slot_is(s[j], SlotTest::Releasing));
    }
}

} // verus!
