use smplsynth::audio::AdsrStage;
use smplsynth::pool::{Voice, VoicePool, MAX_VOICES};

fn fill(pool: &mut VoicePool<u32>, count: usize) {
    for i in 0..count {
        pool.note_on(0, (i % 128) as u8 + if i >= 128 { 0 } else { 0 }, i as u32);
    }
}

#[test]
fn new_pool_is_empty() {
    let pool: VoicePool<u32> = VoicePool::new();
    assert_eq!(pool.capacity(), MAX_VOICES);
    assert_eq!(MAX_VOICES, 64);
    for i in 0..MAX_VOICES {
        assert!(!pool.is_occupied(i));
    }
}

#[test]
fn note_on_takes_first_free_slot() {
    let mut pool: VoicePool<u32> = VoicePool::new();
    assert_eq!(pool.note_on(0, 60, 1), 0);
    assert_eq!(pool.note_on(1, 62, 2), 1);
    assert_eq!(pool.note_on(2, 64, 3), 2);
    let taken = pool.take(1).unwrap();
    assert_eq!(taken.note, 62);
    assert_eq!(taken.channel, 1);
    assert_eq!(taken.stage, AdsrStage::Attack);
    assert!(!taken.source_finished);
    assert_eq!(taken.dsp, 2);
    assert!(!pool.is_occupied(1));
    assert_eq!(pool.note_on(3, 65, 4), 1);
}

#[test]
fn repeated_note_releases_the_old_voice() {
    let mut pool: VoicePool<u32> = VoicePool::new();
    assert_eq!(pool.note_on(0, 60, 1), 0);
    assert_eq!(pool.note_on(0, 60, 2), 1);
    let old = pool.take(0).unwrap();
    assert_eq!(old.stage, AdsrStage::Release);
    let new = pool.take(1).unwrap();
    assert_eq!(new.stage, AdsrStage::Attack);
    assert_eq!(new.dsp, 2);
}

#[test]
fn note_off_releases_only_matching_voices() {
    let mut pool: VoicePool<u32> = VoicePool::new();
    pool.note_on(0, 60, 1);
    pool.note_on(1, 60, 2);
    pool.note_on(0, 61, 3);
    pool.note_off(0, 60);
    assert_eq!(pool.take(0).unwrap().stage, AdsrStage::Release);
    assert_eq!(pool.take(1).unwrap().stage, AdsrStage::Attack);
    assert_eq!(pool.take(2).unwrap().stage, AdsrStage::Attack);
}

#[test]
fn note_off_after_note_on_releases_it() {
    let mut pool: VoicePool<u32> = VoicePool::new();
    let slot = pool.note_on(5, 70, 9);
    pool.note_off(5, 70);
    let v = pool.take(slot).unwrap();
    assert_eq!(v.stage, AdsrStage::Release);
    assert_eq!(v.note, 70);
    assert_eq!(v.channel, 5);
}

#[test]
fn full_pool_steals_a_releasing_voice_first() {
    let mut pool: VoicePool<u32> = VoicePool::new();
    for i in 0..MAX_VOICES {
        assert_eq!(pool.note_on(i % 8, (i / 8) as u8, i as u32), i);
    }
    pool.note_off(3, 2);
    // voice on channel 3, note 2 sits in slot 19
    assert_eq!(pool.note_on(7, 100, 999), 19);
    let v = pool.take(19).unwrap();
    assert_eq!(v.note, 100);
    assert_eq!(v.dsp, 999);
}

#[test]
fn full_pool_without_released_voices_steals_slot_zero() {
    let mut pool: VoicePool<u32> = VoicePool::new();
    fill(&mut pool, 0);
    for i in 0..MAX_VOICES {
        pool.note_on(i % 8, (i / 8) as u8, i as u32);
    }
    assert_eq!(pool.note_on(7, 120, 5), 0);
    let v = pool.take(0).unwrap();
    assert_eq!(v.note, 120);
    assert_eq!(v.channel, 7);
}

#[test]
fn full_pool_same_note_again_takes_its_own_released_slot() {
    let mut pool: VoicePool<u32> = VoicePool::new();
    for i in 0..MAX_VOICES {
        pool.note_on(i % 8, (i / 8) as u8, i as u32);
    }
    // channel 2, note 4 is in slot 34; playing it again releases and reuses it
    assert_eq!(pool.note_on(2, 4, 77), 34);
    assert_eq!(pool.take(34).unwrap().stage, AdsrStage::Attack);
}

#[test]
fn settle_drops_finished_voices() {
    let mut pool: VoicePool<u32> = VoicePool::new();
    pool.note_on(0, 60, 1);
    pool.note_on(0, 62, 2);
    let mut v = pool.take(0).unwrap();
    v.stage = AdsrStage::Done;
    pool.settle(0, v);
    assert!(!pool.is_occupied(0));
    let mut w = pool.take(1).unwrap();
    w.source_finished = true;
    pool.settle(1, w);
    assert!(!pool.is_occupied(1));
    let x = Voice::new(3, 40, 8u32);
    pool.settle(2, x);
    assert!(pool.is_occupied(2));
}

#[test]
fn voice_lifecycle() {
    let mut v = Voice::new(1, 50, 0u32);
    assert_eq!(v.stage, AdsrStage::Attack);
    assert!(!v.is_done());
    assert!(!v.silence_if_source_finished());
    assert_eq!(v.stage, AdsrStage::Attack);
    v.release();
    assert_eq!(v.stage, AdsrStage::Release);
    v.source_finished = true;
    assert!(v.is_done());
    assert!(v.silence_if_source_finished());
    assert_eq!(v.stage, AdsrStage::Done);
    v.release();
    assert_eq!(v.stage, AdsrStage::Done);
}
