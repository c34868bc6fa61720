use rustromm::libretro::audio::{AudioBuffer, CAPACITY, OUTPUT_RATE, TARGET_LATENCY_MS, TARGET_SAMPLES};

#[test]
fn an_empty_buffer_yields_silence_and_counts_it() {
    let mut b: AudioBuffer<f32> = AudioBuffer::new();
    let out = b.fill(64, 0.0);
    assert_eq!(out.len(), 64);
    assert!(out.iter().all(|s| *s == 0.0));
    assert_eq!(b.underruns, 64);
}

#[test]
fn samples_come_out_in_the_order_they_went_in() {
    let mut b: AudioBuffer<f32> = AudioBuffer::new();
    b.push(&[1.0, 2.0, 3.0, 4.0]);
    let out = b.fill(4, 0.0);
    assert_eq!(out, vec![1.0, 2.0, 3.0, 4.0]);
    assert_eq!(b.underruns, 0);
    assert!(b.is_empty());
}

#[test]
fn overflow_drops_the_oldest_audio_not_the_newest() {
    let mut b: AudioBuffer<f32> = AudioBuffer::new();
    let cap = b.capacity;
    let flood: Vec<f32> = (0..cap + 1000).map(|i| i as f32).collect();
    b.push(&flood);
    assert_eq!(b.len(), cap);
    assert_eq!(b.overruns, 1000);
    let out = b.fill(1, 0.0);
    assert_eq!(out[0], 1000.0, "the oldest samples should have been dropped");
}

#[test]
fn a_short_queue_is_served_then_padded() {
    let mut b: AudioBuffer<i16> = AudioBuffer::new();
    b.push(&[5, 6]);
    assert_eq!(b.fill(5, 0), vec![5, 6, 0, 0, 0]);
    assert_eq!(b.underruns, 3);
    assert!(b.is_empty());
}

#[test]
fn the_sizes_follow_the_target_latency() {
    let target = (OUTPUT_RATE as f32 * (TARGET_LATENCY_MS as f32 / 1000.0) * 2.0) as usize;
    assert_eq!(TARGET_SAMPLES, target);
    let cap = (OUTPUT_RATE as f32 * 0.080f32 * 4.0) as usize * 2;
    assert_eq!(CAPACITY, cap);
}
