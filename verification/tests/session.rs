use cands_cyphal::session::Session;

#[test]
fn forty_calls_from_five_give_thirteen() {
    let mut s = Session::with_seed(5);
    for _ in 0..40 {
        s.next_transfer_id();
    }
    assert_eq!(s.transfer_id(), 13);
}

#[test]
fn identifier_is_handed_out_before_it_moves() {
    let mut s = Session::with_seed(30);
    assert_eq!(s.next_transfer_id(), 30);
    assert_eq!(s.next_transfer_id(), 31);
    assert_eq!(s.next_transfer_id(), 0);
    assert_eq!(s.transfer_id(), 1);
}

#[test]
fn seed_is_the_time_modulo_thirty_two() {
    assert_eq!(Session::new(1_700_000_000_123).transfer_id(), (1_700_000_000_123u128 % 32) as u8);
    assert_eq!(Session::new(64).transfer_id(), 0);
    assert_eq!(Session::new(37).transfer_id(), 5);
    assert_eq!(Session::with_seed(37).transfer_id(), 5);
}

#[test]
fn reseed_starts_a_new_session() {
    let mut s = Session::with_seed(5);
    s.reseed(95);
    assert_eq!(s.transfer_id(), 31);
}
