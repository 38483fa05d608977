use smplsynth::audio::AdsrStage;
use smplsynth::engine::{ChannelState, Command};

type State = ChannelState<u32, &'static str, (u8, u8, u32, Option<&'static str>)>;

fn make(note: u8, velocity: u8, p: &u32, s: &Option<&'static str>) -> (u8, u8, u32, Option<&'static str>) {
    (note, velocity, *p, *s)
}

fn state() -> State {
    ChannelState::new([10, 11, 12, 13, 14, 15, 16, 17], [None; 8])
}

#[test]
fn note_on_builds_the_voice_from_the_channel() {
    let mut st = state();
    st.process_command(Command::LoadSample { channel: 2, sample: "kick" }, make);
    st.process_command(Command::NoteOn { channel: 2, note: 60, velocity: 90 }, make);
    let v = st.voices.take(0).unwrap();
    assert_eq!(v.channel, 2);
    assert_eq!(v.note, 60);
    assert_eq!(v.stage, AdsrStage::Attack);
    assert_eq!(v.dsp, (60, 90, 12, Some("kick")));
}

#[test]
fn commands_for_missing_channels_change_nothing() {
    let mut st = state();
    st.process_command(Command::NoteOn { channel: 8, note: 60, velocity: 90 }, make);
    st.process_command(Command::UpdateParams { channel: 9, params: 99 }, make);
    st.process_command(Command::LoadSample { channel: 8, sample: "snare" }, make);
    for i in 0..64 {
        assert!(!st.voices.is_occupied(i));
    }
    for c in 0..8 {
        assert_eq!(st.params.get(c), Some(&(10 + c as u32)));
        assert_eq!(st.samples.get(c), Some(&None));
    }
}

#[test]
fn note_off_releases_the_note_on_its_channel_only() {
    let mut st = state();
    st.process_command(Command::NoteOn { channel: 0, note: 60, velocity: 90 }, make);
    st.process_command(Command::NoteOn { channel: 1, note: 60, velocity: 90 }, make);
    st.process_command(Command::NoteOff { channel: 0, note: 60 }, make);
    st.process_command(Command::NoteOff { channel: 8, note: 60 }, make);
    assert_eq!(st.voices.take(0).unwrap().stage, AdsrStage::Release);
    assert_eq!(st.voices.take(1).unwrap().stage, AdsrStage::Attack);
}

#[test]
fn update_params_reaches_later_notes() {
    let mut st = state();
    st.process_command(Command::UpdateParams { channel: 3, params: 42 }, make);
    assert_eq!(st.params.get(3), Some(&42));
    st.process_command(Command::NoteOn { channel: 3, note: 64, velocity: 1 }, make);
    assert_eq!(st.voices.take(0).unwrap().dsp, (64, 1, 42, None));
}
