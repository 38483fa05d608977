use vstd::prelude::*;
use vstd::string::*;
use vstd::utf8::*;
use crate::midi::NoteEvent;

verus! {

/// What the interface shows about the sample of one channel.
pub struct ChannelSampleState {
    /// Name of the loaded sample.
    pub loaded_name: Option<String>,
    /// A load is under way.
    pub loading: bool,
    /// Message of the last failed load.
    pub error: Option<String>,
}

impl ChannelSampleState {
    /// The state once a load has started: under way, with no error; the
    /// sample loaded before stays shown.
    pub open spec fn loading_started(self) -> ChannelSampleState {
        ChannelSampleState { loaded_name: self.loaded_name, loading: true, error: None }
    }

    /// The state once a load has ended with the sample's name or an error
    /// message. A success shows the new sample and clears the error; a failure
    /// keeps the sample loaded before and shows the message.
    pub open spec fn loading_finished(self, result: Result<String, String>) -> ChannelSampleState {
        match result {
            Ok(name) => ChannelSampleState { loaded_name: Some(name), loading: false, error: None },
            Err(msg) => ChannelSampleState { loaded_name: self.loaded_name, loading: false, error: Some(msg) },
        }
    }

    pub fn new() -> (s: ChannelSampleState)
        ensures
            s.loaded_name is None,
            !s.loading,
            s.error is None,
    {
        ChannelSampleState { loaded_name: None, loading: false, error: None }
    }

    pub fn begin_load(&mut self)
        ensures
            *final(self) == old(self).loading_started(),
    {
        self.loading = true;
        self.error = None;
    }

    pub fn finish_load(&mut self, result: Result<String, String>)
        ensures
            *final(self) == old(self).loading_finished(result),
    {
        self.loading = false;
        match result {
            Ok(name) => {
                self.loaded_name = Some(name);
                self.error = None;
            },
            Err(msg) => {
                self.error = Some(msg);
            },
        }
    }
}

/// Whatever a channel showed, a load that starts and succeeds leaves it
/// showing the new sample, idle and without error; one that fails leaves it
/// showing the sample it had, idle, with the message.
pub proof fn lemma_load_outcome(s: ChannelSampleState, result: Result<String, String>)
    ensures
        result matches Ok(name) ==> s.loading_started().loading_finished(result) == (ChannelSampleState {
            loaded_name: Some(name),
            loading: false,
            error: None,
        }),
        result matches Err(msg) ==> s.loading_started().loading_finished(result) == (ChannelSampleState {
            loaded_name: s.loaded_name,
            loading: false,
            error: Some(msg),
        }),
{
}

/// The notes of the test buttons, which play on the first channel.
pub open spec fn test_note(i: int) -> u8 {
    if i == 0 {
        60
    } else if i == 1 {
        64
    } else if i == 2 {
        67
    } else {
        72
    }
}

/// Velocity of the notes that the test buttons play.
pub const TEST_VELOCITY: u8 = 100;

/// The event for test button `i` changing to `held`.
pub open spec fn test_event(i: int, held: bool) -> NoteEvent {
    if held {
        NoteEvent::NoteOn { channel: 0, note: test_note(i), velocity: TEST_VELOCITY }
    } else {
        NoteEvent::NoteOff { channel: 0, note: test_note(i) }
    }
}

/// The events for the first `k` test buttons, in button order: one for each
/// button whose held state changed.
pub open spec fn test_events(was: Seq<bool>, now: Seq<bool>, k: int) -> Seq<NoteEvent>
    decreases k,
{
    if k <= 0 {
        Seq::empty()
    } else {
        let rest = test_events(was, now, k - 1);
        if was[k - 1] != now[k - 1] {
            rest.push(test_event(k - 1, now[k - 1]))
        } else {
            rest
        }
    }
}

fn test_note_of(i: usize) -> (n: u8)
    requires
        i < 4,
    ensures
        n == test_note(i as int),
{
    if i == 0 {
        60
    } else if i == 1 {
        64
    } else if i == 2 {
        67
    } else {
        72
    }
}

/// Records which test buttons are held now and returns the note events that
/// the changes call for: a note-on when a button is pressed, a note-off when
/// it is let go.
pub fn test_button_events(held: &mut [bool; 4], now: [bool; 4]) -> (events: Vec<NoteEvent>)
    ensures
        final(held)@ == now@,
        events@ == test_events(old(held)@, now@, 4),
{
    let ghost was = held@;
    let mut events: Vec<NoteEvent> = Vec::new();
    let mut i: usize = 0;
    while i < 4
        invariant
            i <= 4,
            held@.len() == 4,
            now@.len() == 4,
            was.len() == 4,
            forall|j: int| 0 <= j < i ==> held@[j] == now@[j],
            forall|j: int| i <= j < 4 ==> held@[j] == was[j],
            events@ == test_events(was, now@, i as int),
        decreases 4 - i,
    {
        let is_held = now[i];
        let was_held = held[i];
        if is_held != was_held {
            let note = test_note_of(i);
            let event = if is_held {
                NoteEvent::NoteOn { channel: 0, note, velocity: TEST_VELOCITY }
            } else {
                NoteEvent::NoteOff { channel: 0, note }
            };
            events.push(event);
        }
        held[i] = is_held;
        i = i + 1;
    }
    assert(held@ =~= now@);
    events
}


/// `text` as a narrow label shows it: when its UTF-8 form is longer than
/// `max` bytes, its first `keep` bytes followed by "...".
pub open spec fn shortened(text: &str, max: usize, keep: usize) -> Seq<char> {
    if text.spec_bytes().len() > max {
        decode_utf8(text.spec_bytes().subrange(0, keep as int)) + "..."@
    } else {
        text@
    }
}

/// Shortens `text` for a label; cutting it anywhere but between two characters
/// is not possible, so a long text must have a character boundary at `keep`.
pub fn shorten(text: &str, max: usize, keep: usize) -> (r: String)
    requires
        text.spec_bytes().len() > max ==> is_char_boundary(text.spec_bytes(), keep as int),
    ensures
        r@ == shortened(text, max, keep),
{
    if text.as_bytes().len() > max {
        let (head, _) = text.split_at(keep);
        proof {
            encode_utf8_decode_utf8(head@);
        }
        let mut r = String::from_str(head);
        r.append("...");
        r
    } else {
        String::from_str(text)
    }
}

/// The MIDI status shown in the header: the connected port's name shortened
/// to 30 bytes (or "Connected" when the port has no name), or "Disconnected".
pub open spec fn midi_status(connected: bool, port: Option<&str>) -> Seq<char> {
    if connected {
        "MIDI: "@ + match port {
            Some(p) => shortened(p, 30, 27),
            None => "Connected"@,
        }
    } else {
        "MIDI: Disconnected"@
    }
}

pub fn midi_status_text(connected: bool, port: Option<&str>) -> (r: String)
    requires
        connected && port is Some && port->0.spec_bytes().len() > 30 ==> is_char_boundary(
            port->0.spec_bytes(),
            27,
        ),
    ensures
        r@ == midi_status(connected, port),
{
    if connected {
        let mut r = String::from_str("MIDI: ");
        match port {
            Some(p) => {
                let tail = shorten(p, 30, 27);
                r.append(tail.as_str());
            },
            None => {
                r.append("Connected");
            },
        }
        r
    } else {
        String::from_str("MIDI: Disconnected")
    }
}

} // verus!
