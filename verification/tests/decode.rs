use taskmaid::toplevel::{states_to_codes, State};

#[test]
fn decode_single_active_flag() {
    let v = State::from_bytes(&[2, 0, 0, 0]);
    assert_eq!(v, vec![State::Active]);
}

#[test]
fn decode_every_flag() {
    let v = State::from_bytes(&[0, 0, 0, 0, 1, 0, 0, 0, 2, 0, 0, 0, 3, 0, 0, 0]);
    assert_eq!(
        v,
        vec![State::Maximized, State::Minimized, State::Active, State::Fullscreen]
    );
}

#[test]
fn decode_empty_buffer() {
    let v = State::from_bytes(&[]);
    assert_eq!(v, Vec::<State>::new());
}

#[test]
fn try_decode_rejects_ragged_buffer() {
    assert!(State::try_from_bytes(&[2, 0, 0]).is_none());
    assert!(State::try_from_bytes(&[2, 0, 0, 0, 1]).is_none());
}

#[test]
fn try_decode_rejects_unknown_flag_code() {
    assert!(State::try_from_bytes(&[4, 0, 0, 0]).is_none());
    assert!(State::try_from_bytes(&[0, 1, 0, 0]).is_none());
    assert!(State::try_from_bytes(&[0, 0, 0, 0, 255, 255, 255, 255]).is_none());
}

#[test]
fn try_decode_accepts_well_formed_buffer() {
    let v = State::try_from_bytes(&[3, 0, 0, 0, 2, 0, 0, 0]).unwrap();
    assert_eq!(v, vec![State::Fullscreen, State::Active]);
}

#[test]
fn flag_codes_round_trip() {
    for code in 0u32..4 {
        let s = State::try_from_u32(code).unwrap();
        assert_eq!(s.to_u32(), code);
        assert_eq!(State::from_u32(code), s);
    }
    assert!(State::try_from_u32(4).is_none());
    assert!(State::try_from_u32(u32::MAX).is_none());
}

#[test]
fn codes_of_state_vector() {
    let codes = states_to_codes(&vec![State::Active, State::Maximized]);
    assert_eq!(codes, vec![2, 0]);
}
