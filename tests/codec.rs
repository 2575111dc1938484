use peer_session::actions::{create_input_protocol, set_movement_actions, Actions, Movement};
use peer_session::input::{DecodeError, GameControl, InputFlags, InputProtocol};

fn all_flag_sets() -> Vec<InputFlags> {
    let mut out = Vec::new();
    for bits in 0u8..32 {
        out.push(InputFlags {
            up: bits & 1 != 0,
            down: bits & 2 != 0,
            left: bits & 4 != 0,
            right: bits & 8 != 0,
            fire: bits & 16 != 0,
        });
    }
    out
}

#[test]
fn decode_inverts_encode_for_every_flag_set() {
    for f in all_flag_sets() {
        assert_eq!(InputFlags::decode(f.encode()), Ok(f));
    }
}

#[test]
fn encode_places_each_control_on_its_bit() {
    let up = InputFlags { up: true, down: false, left: false, right: false, fire: false };
    let down = InputFlags { up: false, down: true, left: false, right: false, fire: false };
    let left = InputFlags { up: false, down: false, left: true, right: false, fire: false };
    let right = InputFlags { up: false, down: false, left: false, right: true, fire: false };
    let fire = InputFlags { up: false, down: false, left: false, right: false, fire: true };
    assert_eq!(up.encode(), 1);
    assert_eq!(down.encode(), 2);
    assert_eq!(left.encode(), 4);
    assert_eq!(right.encode(), 8);
    assert_eq!(fire.encode(), 16);
    let all = InputFlags { up: true, down: true, left: true, right: true, fire: true };
    assert_eq!(all.encode(), 31);
    assert_eq!(InputFlags::empty().encode(), 0);
    assert_eq!(all.bits(), 31);
}

#[test]
fn decode_rejects_every_byte_with_a_reserved_bit() {
    for b in 0u16..256 {
        let b = b as u8;
        let r = InputFlags::decode(b);
        if b & 0xe0 != 0 {
            assert_eq!(r, Err(DecodeError::InvalidInputBits(b)));
            assert_eq!(InputFlags::from_bits(b), None);
        } else {
            assert!(r.is_ok());
            assert_eq!(r.unwrap().encode(), b);
        }
    }
}

#[test]
fn decode_reads_each_bit() {
    let f = InputFlags::decode(0b10101).unwrap();
    assert_eq!(f, InputFlags { up: true, down: false, left: true, right: false, fire: true });
    assert!(f.contains(GameControl::Up));
    assert!(!f.contains(GameControl::Down));
    assert!(!f.is_empty());
    assert!(InputFlags::decode(0).unwrap().is_empty());
}

#[test]
fn protocol_carries_the_encoded_byte() {
    let f = InputFlags { up: false, down: true, left: false, right: true, fire: false };
    assert_eq!(InputProtocol::new(f).input, 10);
    assert_eq!(InputProtocol::from(f).input, 10);
    assert_eq!(InputProtocol { input: 10 }.to_flags(), Ok(f));
    assert_eq!(InputProtocol { input: 0x40 }.to_flags(), Err(DecodeError::InvalidInputBits(0x40)));
}

#[test]
fn insert_adds_one_control() {
    let mut f = InputFlags::empty();
    f.insert(GameControl::Fire);
    f.insert(GameControl::Left);
    assert_eq!(f, InputFlags { up: false, down: false, left: true, right: false, fire: true });
}

#[test]
fn pressed_controls_become_one_byte() {
    let p = create_input_protocol(&vec![GameControl::Right, GameControl::Up, GameControl::Right]);
    assert_eq!(p.input, 9);
    assert_eq!(create_input_protocol(&vec![]).input, 0);
    let all = vec![
        GameControl::Fire,
        GameControl::Down,
        GameControl::Left,
        GameControl::Up,
        GameControl::Right,
    ];
    assert_eq!(create_input_protocol(&all).input, 31);
}

#[test]
fn movement_follows_the_input() {
    let mut a = Actions::default();
    assert_eq!(a.player_movement, None);
    assert_eq!(set_movement_actions(&mut a, InputProtocol { input: 1 | 4 }), Ok(()));
    assert_eq!(a.player_movement, Some(Movement { x: -1, y: 1 }));
    assert_eq!(set_movement_actions(&mut a, InputProtocol { input: 2 | 8 }), Ok(()));
    assert_eq!(a.player_movement, Some(Movement { x: 1, y: -1 }));
}

#[test]
fn cancelling_or_fire_only_input_keeps_the_movement() {
    let mut a = Actions { player_movement: Some(Movement { x: 0, y: 1 }) };
    assert_eq!(set_movement_actions(&mut a, InputProtocol { input: 4 | 8 }), Ok(()));
    assert_eq!(a.player_movement, Some(Movement { x: 0, y: 1 }));
    assert_eq!(set_movement_actions(&mut a, InputProtocol { input: 16 }), Ok(()));
    assert_eq!(a.player_movement, Some(Movement { x: 0, y: 1 }));
}

#[test]
fn empty_input_clears_the_movement() {
    let mut a = Actions { player_movement: Some(Movement { x: 1, y: 0 }) };
    assert_eq!(set_movement_actions(&mut a, InputProtocol { input: 0 }), Ok(()));
    assert_eq!(a.player_movement, None);
}

#[test]
fn invalid_input_is_refused_and_changes_nothing() {
    let mut a = Actions { player_movement: Some(Movement { x: 1, y: 0 }) };
    assert_eq!(
        set_movement_actions(&mut a, InputProtocol { input: 0x81 }),
        Err(DecodeError::InvalidInputBits(0x81))
    );
    assert_eq!(a.player_movement, Some(Movement { x: 1, y: 0 }));
}
