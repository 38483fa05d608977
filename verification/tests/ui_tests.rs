use smplsynth::midi::NoteEvent;
use smplsynth::ui::{midi_status_text, shorten, test_button_events, ChannelSampleState};

#[test]
fn sample_load_success() {
    let mut s = ChannelSampleState::new();
    assert!(s.loaded_name.is_none() && !s.loading && s.error.is_none());
    s.begin_load();
    assert!(s.loading);
    s.finish_load(Ok("kick.wav".to_string()));
    assert!(!s.loading);
    assert_eq!(s.loaded_name.as_deref(), Some("kick.wav"));
    assert!(s.error.is_none());
}

#[test]
fn sample_load_failure_keeps_old_sample() {
    let mut s = ChannelSampleState::new();
    s.finish_load(Ok("kick.wav".to_string()));
    s.begin_load();
    s.finish_load(Err("No audio data decoded".to_string()));
    assert!(!s.loading);
    assert_eq!(s.loaded_name.as_deref(), Some("kick.wav"));
    assert_eq!(s.error.as_deref(), Some("No audio data decoded"));
    s.begin_load();
    assert!(s.error.is_none());
    assert_eq!(s.loaded_name.as_deref(), Some("kick.wav"));
}

#[test]
fn test_buttons_send_edges() {
    let mut held = [false; 4];
    let ev = test_button_events(&mut held, [true, false, true, false]);
    assert_eq!(held, [true, false, true, false]);
    assert_eq!(
        ev,
        vec![
            NoteEvent::NoteOn { channel: 0, note: 60, velocity: 100 },
            NoteEvent::NoteOn { channel: 0, note: 67, velocity: 100 }
        ]
    );
    let ev = test_button_events(&mut held, [true, true, false, false]);
    assert_eq!(
        ev,
        vec![
            NoteEvent::NoteOn { channel: 0, note: 64, velocity: 100 },
            NoteEvent::NoteOff { channel: 0, note: 67 }
        ]
    );
    let ev = test_button_events(&mut held, [true, true, false, false]);
    assert!(ev.is_empty());
    let ev = test_button_events(&mut held, [false, false, false, true]);
    assert_eq!(
        ev,
        vec![
            NoteEvent::NoteOff { channel: 0, note: 60 },
            NoteEvent::NoteOff { channel: 0, note: 64 },
            NoteEvent::NoteOn { channel: 0, note: 72, velocity: 100 }
        ]
    );
}

#[test]
fn shortening() {
    assert_eq!(shorten("short", 30, 27), "short");
    let exact = "a".repeat(30);
    assert_eq!(shorten(&exact, 30, 27), exact);
    let long = "b".repeat(31);
    assert_eq!(shorten(&long, 30, 27), format!("{}...", "b".repeat(27)));
    assert_eq!(shorten("éééééééééééééé", 25, 22), "ééééééééééé...");
}

#[test]
fn midi_status() {
    assert_eq!(midi_status_text(false, Some("Keys")), "MIDI: Disconnected");
    assert_eq!(midi_status_text(true, Some("Keys")), "MIDI: Keys");
    assert_eq!(midi_status_text(true, None), "MIDI: Connected");
    let long = "Port-".repeat(8);
    assert_eq!(midi_status_text(true, Some(&long)), format!("MIDI: {}...", &long[..27]));
}
