//! The entropy stream is deterministic in its seed and draws stay in range.

use ray_tracer::entropy::Entropy;

#[test]
fn draws_follow_the_seed() {
    let mut e = Entropy::new(1);
    assert_eq!(e.next_unit(), 28588);
    assert_eq!(e.next_unit(), 34483);
    assert_eq!(e.next_unit(), 57753);
    assert_eq!(e.next_unit(), 21965);
}

#[test]
fn equal_seeds_give_equal_streams() {
    let mut a = Entropy::new(0xDEAD_BEEF);
    let mut b = Entropy::new(0xDEAD_BEEF);
    for _ in 0..100 {
        assert_eq!(a.next_unit(), b.next_unit());
    }
    assert_eq!(a.state, b.state);
}

#[test]
fn draws_stay_in_the_unit_interval() {
    let mut e = Entropy::new(7);
    for _ in 0..1000 {
        let d = e.next_unit();
        assert!(0 <= d && d < 65536);
    }
}
