use loopback::{latency_samples, relay_capacity, Relay, SILENCE};

fn bits(x: f32) -> u32 {
    x.to_bits()
}

#[test]
fn silence_is_positive_zero() {
    assert_eq!(SILENCE, 0.0f32.to_bits());
}

#[test]
fn preload_scenario() {
    let n = latency_samples(60, 48000, 2).unwrap();
    assert_eq!(n, 5760);
    assert_eq!(relay_capacity(n), Some(11520));
    let mut relay = Relay::preloaded(n);
    assert_eq!(relay.capacity(), 11520);
    assert_eq!(relay.len(), 5760);
    for _ in 0..5760 {
        let s = relay.try_pop().expect("preloaded sample");
        assert_eq!(f32::from_bits(s), 0.0);
    }
    assert_eq!(relay.try_pop(), None);
}

#[test]
fn round_trip_after_draining_preload() {
    let mut relay = Relay::preloaded(5760);
    while relay.try_pop().is_some() {}
    for x in [0.1f32, 0.2, 0.3] {
        assert_eq!(relay.try_push(bits(x)), Ok(()));
    }
    let out: Vec<f32> = (0..3).map(|_| f32::from_bits(relay.try_pop().unwrap())).collect();
    assert_eq!(out, vec![0.1f32, 0.2, 0.3]);
}

#[test]
fn no_double_read() {
    let mut relay = Relay::new(4);
    relay.try_push(1).unwrap();
    relay.try_push(2).unwrap();
    assert_eq!(relay.try_pop(), Some(1));
    assert_eq!(relay.try_pop(), Some(2));
    assert_eq!(relay.try_pop(), None);
    assert_eq!(relay.try_pop(), None);
    assert!(relay.is_empty());
    relay.try_push(3).unwrap();
    assert_eq!(relay.try_pop(), Some(3));
    assert_eq!(relay.try_pop(), None);
}

#[test]
fn count_stays_within_capacity() {
    let mut relay = Relay::new(3);
    let mut next: u32 = 1;
    for step in 0..40u32 {
        if step % 3 == 2 {
            let _ = relay.try_pop();
        } else {
            let _ = relay.try_push(next);
            next += 1;
        }
        assert!(relay.len() <= relay.capacity());
    }
    assert!(relay.is_full() || relay.len() < 3);
}

#[test]
fn fifo_order_of_distinct_values() {
    let mut relay = Relay::new(8);
    let vals = [11u32, 22, 33, 44, 55, 66, 77, 88];
    for v in vals {
        assert_eq!(relay.try_push(v), Ok(()));
    }
    let out: Vec<u32> = (0..8).map(|_| relay.try_pop().unwrap()).collect();
    assert_eq!(out, vals.to_vec());
}

#[test]
fn backpressure_refuses_only_the_last_push() {
    let cap = 5usize;
    let mut relay = Relay::new(cap);
    for v in 0..cap as u32 {
        assert_eq!(relay.try_push(v + 100), Ok(()));
    }
    assert!(relay.is_full());
    assert_eq!(relay.try_push(999), Err(999));
    assert_eq!(relay.len(), cap);
    assert_eq!(relay.try_pop(), Some(100));
}

#[test]
fn underflow_gives_silence() {
    let mut relay = Relay::new(4);
    assert_eq!(relay.try_pop(), None);
    let mut out = [bits(0.7); 3];
    assert!(relay.fill_batch(&mut out));
    assert_eq!(out, [SILENCE; 3]);
}

#[test]
fn fill_batch_partial_then_silence() {
    let mut relay = Relay::new(4);
    relay.try_push(bits(0.5)).unwrap();
    relay.try_push(bits(-0.5)).unwrap();
    let mut out = [bits(0.9); 4];
    assert!(relay.fill_batch(&mut out));
    assert_eq!(out, [bits(0.5), bits(-0.5), SILENCE, SILENCE]);
    assert!(relay.is_empty());
}

#[test]
fn fill_batch_without_underflow() {
    let mut relay = Relay::new(4);
    for v in [1u32, 2, 3] {
        relay.try_push(v).unwrap();
    }
    let mut out = [0u32; 2];
    assert!(!relay.fill_batch(&mut out));
    assert_eq!(out, [1, 2]);
    assert_eq!(relay.len(), 1);
    assert_eq!(relay.try_pop(), Some(3));
}

#[test]
fn push_batch_keeps_what_fits() {
    let mut relay = Relay::new(4);
    relay.try_push(9).unwrap();
    assert!(relay.push_batch(&[1, 2, 3, 4, 5]));
    assert_eq!(relay.len(), 4);
    let out: Vec<u32> = (0..4).map(|_| relay.try_pop().unwrap()).collect();
    assert_eq!(out, vec![9, 1, 2, 3]);
}

#[test]
fn push_batch_that_fits() {
    let mut relay = Relay::new(4);
    assert!(!relay.push_batch(&[7, 8]));
    assert!(!relay.push_batch(&[]));
    assert!(!relay.push_batch(&[9, 10]));
    assert!(relay.is_full());
    assert!(relay.push_batch(&[11]));
}

#[test]
fn split_halves_relay_in_order() {
    let relay = Relay::preloaded(2);
    let (mut prod, mut cons) = relay.split();
    assert!(!prod.push_batch(&[5, 6]));
    assert!(prod.push_batch(&[7]));
    let mut out = [1u32; 6];
    assert!(cons.fill_batch(&mut out));
    assert_eq!(out, [0, 0, 5, 6, SILENCE, SILENCE]);
    let mut more = [1u32; 1];
    assert!(cons.fill_batch(&mut more));
    assert_eq!(more, [SILENCE]);
}
