use vstd::prelude::*;
use vstd::string::*;
use rtrb::Producer;
use crate::audio::NUM_CHANNELS;
use crate::text::{decimal, push_decimal};

verus! {

/// The sending half of an `rtrb` ring buffer, carried through unchanged.
#[verifier::external_type_specification]
#[verifier::external_body]
#[verifier::reject_recursive_types(T)]
pub struct ExProducer<T>(Producer<T>);

/// A note message for one of the synthesizer's channels.
#[derive(Clone, Copy, Debug, PartialEq, Eq, Structural)]
pub enum NoteEvent {
    NoteOn { channel: usize, note: u8, velocity: u8 },
    NoteOff { channel: usize, note: u8 },
}

/// The note events that the queue has taken from this producer so far, in
/// the order in which they were pushed.
pub uninterp spec fn handed_to_queue(producer: Producer<NoteEvent>) -> Seq<NoteEvent>;

/// Calls `rtrb::Producer::push`. Claimed: when the push succeeds, the event
/// has been moved into the ring buffer after all events taken before it;
/// when the queue is full the event is handed back and the queue has taken
/// nothing. Whether the queue is full depends on how far the consumer's
/// thread has read, so which of the two happens is left unsaid.
#[verifier::external_body]
fn push_event(producer: &mut Producer<NoteEvent>, event: NoteEvent) -> (accepted: bool)
    ensures
        handed_to_queue(*final(producer)) == (if accepted {
            handed_to_queue(*old(producer)).push(event)
        } else {
            handed_to_queue(*old(producer))
        }),
{
    producer.push(event).is_ok()
}

/// What became of a MIDI message: it was not a note message for one of the
/// synthesizer's channels, or its note event was queued, or the queue was
/// full and the event was dropped.
#[derive(Clone, Copy, Debug, PartialEq, Eq, Structural)]
pub enum Delivery {
    Ignored,
    Queued(NoteEvent),
    Dropped(NoteEvent),
}

/// The note event that a raw MIDI message stands for: a note-on (status
/// 0x9n) with a non-zero velocity starts a note, a note-off (0x8n) or a
/// note-on with velocity zero ends it; only MIDI channels 0 to 7 are played,
/// and messages shorter than three bytes or of any other kind are ignored.
pub open spec fn note_event_of(message: Seq<u8>) -> Option<NoteEvent> {
    if message.len() < 3 {
        None
    } else {
        let kind = message[0] / 16;
        let channel = message[0] % 16;
        if channel >= NUM_CHANNELS {
            None
        } else if kind == 9 && message[2] > 0 {
            Some(NoteEvent::NoteOn { channel: channel as usize, note: message[1], velocity: message[2] })
        } else if kind == 8 || kind == 9 {
            Some(NoteEvent::NoteOff { channel: channel as usize, note: message[1] })
        } else {
            None
        }
    }
}

pub fn decode_message(message: &[u8]) -> (event: Option<NoteEvent>)
    ensures
        event == note_event_of(message@),
{
    if message.len() < 3 {
        return None;
    }
    let status = message[0];
    let data1 = message[1];
    let data2 = message[2];
    let command = status & 0xF0;
    let midi_channel = (status & 0x0F) as usize;
    proof {
        assert(status & 0xF0u8 == (status / 16) * 16) by (bit_vector);
        assert(status & 0x0Fu8 == status % 16) by (bit_vector);
    }
    if midi_channel >= NUM_CHANNELS {
        return None;
    }
    if command == 0x90 && data2 > 0 {
        Some(NoteEvent::NoteOn { channel: midi_channel, note: data1, velocity: data2 })
    } else if command == 0x80 || command == 0x90 {
        Some(NoteEvent::NoteOff { channel: midi_channel, note: data1 })
    } else {
        None
    }
}

/// A note-on with velocity zero means the same as a note-off.
pub proof fn lemma_silent_note_on_is_note_off(channel: u8, note: u8, velocity: u8)
    requires
        channel < 16,
    ensures
        note_event_of(seq![(0x90u8 + channel) as u8, note, 0u8]) == note_event_of(
            seq![(0x80u8 + channel) as u8, note, velocity],
        ),
{
}

/// Messages on MIDI channels 8 to 15 never reach the synthesizer.
pub proof fn lemma_upper_channels_are_ignored(message: Seq<u8>)
    requires
        message.len() >= 3,
        message[0] % 16 >= 8,
    ensures
        note_event_of(message) is None,
{
}

/// The port names that a scan found, in order: the ports whose name could be read.
pub open spec fn found_names(scanned: Seq<Option<String>>) -> Seq<String>
    decreases scanned.len(),
{
    if scanned.len() == 0 {
        Seq::empty()
    } else {
        let rest = found_names(scanned.drop_last());
        match scanned.last() {
            Some(name) => rest.push(name),
            None => rest,
        }
    }
}

/// The message for a port index that lies beyond the list of ports.
pub open spec fn out_of_range_message(index: usize) -> Seq<char> {
    "Port index "@ + decimal(index as nat) + " out of range"@
}

/// The list of MIDI input ports and the port that is connected, if any.
pub struct MidiHandler {
    ports: Vec<String>,
    connected_port: Option<String>,
}

impl MidiHandler {
    pub closed spec fn port_list(&self) -> Seq<String> {
        self.ports@
    }

    pub closed spec fn connection(&self) -> Option<String> {
        self.connected_port
    }

    pub fn new() -> (h: MidiHandler)
        ensures
            h.port_list() == Seq::<String>::empty(),
            h.connection() is None,
    {
        MidiHandler { ports: Vec::new(), connected_port: None }
    }

    /// Replaces the port list by the names that a scan of the inputs could
    /// read; `scanned` holds one entry per port found.
    pub fn refresh_ports(&mut self, scanned: Vec<Option<String>>)
        ensures
            final(self).port_list() == found_names(scanned@),
            final(self).connection() == old(self).connection(),
    {
        let mut ports: Vec<String> = Vec::new();
        let mut i: usize = 0;
        while i < scanned.len()
            invariant
                i <= scanned@.len(),
                ports@ == found_names(scanned@.subrange(0, i as int)),
            decreases scanned@.len() - i,
        {
            proof {
                assert(scanned@.subrange(0, i + 1).drop_last() =~= scanned@.subrange(0, i as int));
            }
            match &scanned[i] {
                Some(name) => ports.push(name.clone()),
                None => {},
            }
            i = i + 1;
        }
        proof {
            assert(scanned@.subrange(0, scanned@.len() as int) =~= scanned@);
        }
        self.ports = ports;
    }

    pub fn port_names(&self) -> (names: Vec<String>)
        ensures
            names@ == self.port_list(),
    {
        let mut names: Vec<String> = Vec::new();
        let mut i: usize = 0;
        while i < self.ports.len()
            invariant
                i <= self.ports@.len(),
                names@ == self.ports@.subrange(0, i as int),
            decreases self.ports@.len() - i,
        {
            names.push(self.ports[i].clone());
            i = i + 1;
        }
        names
    }

    pub fn connected_port_name(&self) -> (name: Option<&str>)
        ensures
            name is Some == self.connection() is Some,
            name matches Some(n) ==> n@ == self.connection()->0@,
    {
        match &self.connected_port {
            Some(port) => Some(port.as_str()),
            None => None,
        }
    }

    pub fn is_connected(&self) -> (r: bool)
        ensures
            r == self.connection() is Some,
    {
        self.connected_port.is_some()
    }

    pub fn disconnect(&mut self)
        ensures
            final(self).connection() is None,
            final(self).port_list() == old(self).port_list(),
    {
        self.connected_port = None;
    }

    /// The checks of a connection attempt to port `port_index` when the MIDI
    /// system currently offers `available` ports: any connection is dropped
    /// first, and an index beyond the ports is refused. `Ok` means the port
    /// may be opened; `record_connection` then notes it.
    pub fn connect(&mut self, port_index: usize, available: usize) -> (r: Result<(), String>)
        ensures
            final(self).connection() is None,
            final(self).port_list() == old(self).port_list(),
            r is Ok == (port_index < available),
            r matches Err(msg) ==> msg@ == out_of_range_message(port_index),
    {
        self.disconnect();
        if port_index >= available {
            let mut msg = String::from_str("Port index ");
            push_decimal(&mut msg, port_index as u64);
            msg.append(" out of range");
            return Err(msg);
        }
        Ok(())
    }

    /// Notes that the port has been opened; a port whose name could not be
    /// read is called "Unknown".
    pub fn record_connection(&mut self, port_name: Option<String>)
        ensures
            port_name matches Some(n) ==> final(self).connection() == Some(n),
            port_name is None ==> (final(self).connection() matches Some(c) && c@ == "Unknown"@),
            final(self).port_list() == old(self).port_list(),
    {
        let name = match port_name {
            Some(n) => n,
            None => String::from_str("Unknown"),
        };
        self.connected_port = Some(name);
    }

    /// Decodes a MIDI message and pushes the note event it stands for, if
    /// any, to the audio thread's queue. An ignored message pushes nothing;
    /// a full queue drops the event.
    pub fn handle_message(message: &[u8], producer: &mut Producer<NoteEvent>) -> (outcome: Delivery)
        ensures
            match outcome {
                Delivery::Ignored => {
                    &&& note_event_of(message@) is None
                    &&& handed_to_queue(*final(producer)) == handed_to_queue(*old(producer))
                },
                Delivery::Queued(e) => {
                    &&& note_event_of(message@) == Some(e)
                    &&& handed_to_queue(*final(producer)) == handed_to_queue(*old(producer)).push(e)
                },
                Delivery::Dropped(e) => {
                    &&& note_event_of(message@) == Some(e)
                    &&& handed_to_queue(*final(producer)) == handed_to_queue(*old(producer))
                },
            },
    {
        match decode_message(message) {
            Some(e) => {
                if push_event(producer, e) {
                    Delivery::Queued(e)
                } else {
                    Delivery::Dropped(e)
                }
            },
            None => Delivery::Ignored,
        }
    }
}

} // verus!
