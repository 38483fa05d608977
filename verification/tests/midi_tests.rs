use rtrb::RingBuffer;
use smplsynth::midi::{decode_message, Delivery, MidiHandler, NoteEvent};

#[test]
fn decodes_note_on() {
    assert_eq!(
        decode_message(&[0x90, 60, 100]),
        Some(NoteEvent::NoteOn { channel: 0, note: 60, velocity: 100 })
    );
    assert_eq!(
        decode_message(&[0x97, 61, 1]),
        Some(NoteEvent::NoteOn { channel: 7, note: 61, velocity: 1 })
    );
}

#[test]
fn decodes_note_off_and_silent_note_on() {
    assert_eq!(decode_message(&[0x83, 60, 64]), Some(NoteEvent::NoteOff { channel: 3, note: 60 }));
    assert_eq!(decode_message(&[0x93, 60, 0]), Some(NoteEvent::NoteOff { channel: 3, note: 60 }));
}

#[test]
fn ignores_other_messages() {
    assert_eq!(decode_message(&[0x90, 60]), None);
    assert_eq!(decode_message(&[]), None);
    assert_eq!(decode_message(&[0x98, 60, 100]), None);
    assert_eq!(decode_message(&[0x8F, 60, 100]), None);
    assert_eq!(decode_message(&[0xB0, 7, 100]), None);
    assert_eq!(decode_message(&[0xE0, 0, 64]), None);
    assert_eq!(
        decode_message(&[0x91, 60, 100, 5]),
        Some(NoteEvent::NoteOn { channel: 1, note: 60, velocity: 100 })
    );
}

#[test]
fn handle_message_queues_the_event() {
    let (mut tx, mut rx) = RingBuffer::<NoteEvent>::new(2);
    let sent = MidiHandler::handle_message(&[0x92, 64, 90], &mut tx);
    assert_eq!(sent, Delivery::Queued(NoteEvent::NoteOn { channel: 2, note: 64, velocity: 90 }));
    assert_eq!(rx.pop(), Ok(NoteEvent::NoteOn { channel: 2, note: 64, velocity: 90 }));
    let sent = MidiHandler::handle_message(&[0xC0, 1, 2], &mut tx);
    assert_eq!(sent, Delivery::Ignored);
    assert!(rx.pop().is_err());
}

#[test]
fn handle_message_with_full_queue_drops_the_event() {
    let (mut tx, mut rx) = RingBuffer::<NoteEvent>::new(1);
    let first = MidiHandler::handle_message(&[0x80, 1, 0], &mut tx);
    assert_eq!(first, Delivery::Queued(NoteEvent::NoteOff { channel: 0, note: 1 }));
    let sent = MidiHandler::handle_message(&[0x81, 2, 0], &mut tx);
    assert_eq!(sent, Delivery::Dropped(NoteEvent::NoteOff { channel: 1, note: 2 }));
    assert_eq!(rx.pop(), Ok(NoteEvent::NoteOff { channel: 0, note: 1 }));
    assert!(rx.pop().is_err());
    let again = MidiHandler::handle_message(&[0x81, 3, 0], &mut tx);
    assert_eq!(again, Delivery::Queued(NoteEvent::NoteOff { channel: 1, note: 3 }));
    assert_eq!(rx.pop(), Ok(NoteEvent::NoteOff { channel: 1, note: 3 }));
}

#[test]
fn port_list_and_connection() {
    let mut h = MidiHandler::new();
    assert!(h.port_names().is_empty());
    assert!(!h.is_connected());
    assert_eq!(h.connected_port_name(), None);
    h.refresh_ports(vec![Some("Keys".to_string()), None, Some("Pads".to_string())]);
    assert_eq!(h.port_names(), vec!["Keys".to_string(), "Pads".to_string()]);
    assert_eq!(h.connect(5, 2), Err("Port index 5 out of range".to_string()));
    assert_eq!(h.connect(2, 2), Err("Port index 2 out of range".to_string()));
    assert_eq!(h.connect(0, 2), Ok(()));
    h.record_connection(Some("Keys".to_string()));
    assert!(h.is_connected());
    assert_eq!(h.connected_port_name(), Some("Keys"));
    assert_eq!(h.connect(1, 2), Ok(()));
    assert!(!h.is_connected());
    h.record_connection(None);
    assert_eq!(h.connected_port_name(), Some("Unknown"));
    h.disconnect();
    assert!(!h.is_connected());
    assert_eq!(h.port_names().len(), 2);
}

#[test]
fn handle_message_queues_decoded_events_only() {
    let (mut tx, mut rx) = RingBuffer::<NoteEvent>::new(8);
    assert_eq!(
        MidiHandler::handle_message(&[0x91, 60, 100], &mut tx),
        Delivery::Queued(NoteEvent::NoteOn { channel: 1, note: 60, velocity: 100 })
    );
    assert_eq!(
        MidiHandler::handle_message(&[0x90, 64, 0], &mut tx),
        Delivery::Queued(NoteEvent::NoteOff { channel: 0, note: 64 })
    );
    assert_eq!(MidiHandler::handle_message(&[0x90, 64], &mut tx), Delivery::Ignored);
    assert_eq!(MidiHandler::handle_message(&[0x9A, 64, 10], &mut tx), Delivery::Ignored);
    assert_eq!(MidiHandler::handle_message(&[0xB0, 64, 10], &mut tx), Delivery::Ignored);
    assert_eq!(
        MidiHandler::handle_message(&[0x85, 70, 10, 99], &mut tx),
        Delivery::Queued(NoteEvent::NoteOff { channel: 5, note: 70 })
    );
    assert_eq!(rx.pop(), Ok(NoteEvent::NoteOn { channel: 1, note: 60, velocity: 100 }));
    assert_eq!(rx.pop(), Ok(NoteEvent::NoteOff { channel: 0, note: 64 }));
    assert_eq!(rx.pop(), Ok(NoteEvent::NoteOff { channel: 5, note: 70 }));
    assert!(rx.pop().is_err());
}
