use loopback::{latency_samples, relay_capacity};

#[test]
fn latency_of_sixty_ms_stereo() {
    assert_eq!(latency_samples(60, 48000, 2), Some(5760));
}

#[test]
fn latency_truncates_to_whole_frames() {
    // 10 ms at 44.1 kHz is 441 frames; 1 ms is 44.1, which keeps 44.
    assert_eq!(latency_samples(10, 44100, 1), Some(441));
    assert_eq!(latency_samples(1, 44100, 2), Some(88));
    assert_eq!(latency_samples(0, 48000, 2), Some(0));
}

#[test]
fn latency_too_large_for_usize() {
    assert_eq!(latency_samples(u32::MAX, u32::MAX, u16::MAX), None);
}

#[test]
fn capacity_is_twice_the_preload() {
    assert_eq!(relay_capacity(5760), Some(11520));
    assert_eq!(relay_capacity(1), Some(2));
    assert_eq!(relay_capacity(0), None);
    assert_eq!(relay_capacity(usize::MAX / 2 + 1), None);
    assert_eq!(relay_capacity(usize::MAX / 2), Some(usize::MAX - 1));
}
