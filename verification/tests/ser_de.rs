use game_client::codec::{DecodeError, Wire};
use game_client::protocol::{ClientCommand, GameState, Move, Player, ServerEvent};
use game_client::ser_de::{de, frame, peek, ser};

#[test]
fn test_ser_de() {
    let ping = ClientCommand::Ping;
    let mut vec = ser(ping);
    println!("{:?}", &vec);
    let de: ClientCommand = de(&mut vec).unwrap().unwrap();
    assert_eq!(de, ping);
    assert!(vec.is_empty());
}

fn sample_state() -> ServerEvent {
    ServerEvent::State {
        state: GameState { turn: 7, to_move: Player::Blue, finished: false },
        pov: Player::Red,
    }
}

#[test]
fn frame_puts_the_length_in_front_least_significant_byte_first() {
    assert_eq!(frame(vec![9, 8]), vec![2, 0, 0, 0, 9, 8]);
    let long = frame(vec![5; 300]);
    assert_eq!(long.len(), 304);
    assert_eq!(&long[..4], &[44, 1, 0, 0]);
    assert!(long[4..].iter().all(|byte| *byte == 5));
    let longer = frame(vec![1; 0x01_02_03]);
    assert_eq!(&longer[..4], &[3, 2, 1, 0]);
}

#[test]
fn frame_of_an_empty_payload_is_a_bare_header() {
    assert_eq!(frame(Vec::new()), vec![0, 0, 0, 0]);
}

#[test]
fn ser_gives_header_and_payload() {
    assert_eq!(ser(ClientCommand::Ping), vec![4, 0, 0, 0, 0, 0, 0, 0]);
    assert_eq!(ser(ClientCommand::Join), vec![4, 0, 0, 0, 0, 0, 0, 1]);
    assert_eq!(
        ser(ClientCommand::Move(Move { code: 0x0102_0304 })),
        vec![8, 0, 0, 0, 0, 0, 0, 2, 1, 2, 3, 4]
    );
    assert_eq!(ser(ServerEvent::Pong), vec![4, 0, 0, 0, 0, 0, 0, 0]);
    assert_eq!(
        ser(sample_state()),
        vec![17, 0, 0, 0, 0, 0, 0, 1, 0, 0, 0, 7, 0, 0, 0, 1, 0, 0, 0, 0, 0]
    );
}

#[test]
fn round_trip_of_every_kind_of_message() {
    let commands = [
        ClientCommand::Ping,
        ClientCommand::Join,
        ClientCommand::Move(Move { code: 0 }),
        ClientCommand::Move(Move { code: u32::MAX }),
    ];
    for command in commands {
        let mut buf = ser(command);
        assert_eq!(de::<ClientCommand>(&mut buf), Ok(Some(command)));
        assert!(buf.is_empty());
        assert_eq!(de::<ClientCommand>(&mut buf), Ok(None));
    }
    let events = [
        ServerEvent::Pong,
        sample_state(),
        ServerEvent::State {
            state: GameState { turn: u32::MAX, to_move: Player::Red, finished: true },
            pov: Player::Blue,
        },
    ];
    for event in events {
        let mut buf = ser(event);
        assert_eq!(de::<ServerEvent>(&mut buf), Ok(Some(event)));
        assert!(buf.is_empty());
    }
}

#[test]
fn partial_read_gives_nothing_and_keeps_the_bytes() {
    let whole = ser(sample_state());
    for cut in 0..whole.len() {
        let mut buf = whole[..cut].to_vec();
        assert_eq!(de::<ServerEvent>(&mut buf), Ok(None));
        assert_eq!(buf, whole[..cut].to_vec());
        buf.extend_from_slice(&whole[cut..]);
        assert_eq!(de::<ServerEvent>(&mut buf), Ok(Some(sample_state())));
        assert!(buf.is_empty());
    }
}

#[test]
fn two_messages_in_one_buffer_come_out_in_order() {
    let first = ClientCommand::Move(Move { code: 11 });
    let second = ClientCommand::Ping;
    let mut buf = ser(first);
    buf.extend(ser(second));
    assert_eq!(de::<ClientCommand>(&mut buf), Ok(Some(first)));
    assert_eq!(buf, ser(second));
    assert_eq!(de::<ClientCommand>(&mut buf), Ok(Some(second)));
    assert!(buf.is_empty());
}

#[test]
fn a_message_followed_by_a_partial_one_leaves_the_partial_one() {
    let mut buf = ser(ClientCommand::Join);
    buf.extend_from_slice(&[4, 0, 0]);
    assert_eq!(de::<ClientCommand>(&mut buf), Ok(Some(ClientCommand::Join)));
    assert_eq!(buf, vec![4, 0, 0]);
    assert_eq!(de::<ClientCommand>(&mut buf), Ok(None));
    assert_eq!(buf, vec![4, 0, 0]);
}

#[test]
fn five_bytes_are_never_a_message() {
    let mut empty: Vec<u8> = Vec::new();
    assert_eq!(de::<ClientCommand>(&mut empty), Ok(None));
    let mut bare_header = vec![0, 0, 0, 0];
    assert_eq!(de::<ClientCommand>(&mut bare_header), Ok(None));
    assert_eq!(bare_header, vec![0, 0, 0, 0]);
    let mut one_byte_payload = vec![1, 0, 0, 0, 0];
    assert_eq!(de::<ClientCommand>(&mut one_byte_payload), Ok(None));
    assert_eq!(one_byte_payload, vec![1, 0, 0, 0, 0]);
    assert_eq!(peek(&one_byte_payload), None);
}

#[test]
fn short_payloads_in_a_longer_buffer_are_decoded_and_fail() {
    let mut no_payload = vec![0, 0, 0, 0, 4, 0];
    assert_eq!(peek(&no_payload), Some(0));
    assert_eq!(de::<ClientCommand>(&mut no_payload), Err(DecodeError::Truncated));
    assert_eq!(no_payload, vec![0, 0, 0, 0, 4, 0]);
    let mut one_byte = vec![1, 0, 0, 0, 0, 9];
    assert_eq!(peek(&one_byte), Some(1));
    assert_eq!(de::<ClientCommand>(&mut one_byte), Err(DecodeError::Truncated));
    assert_eq!(one_byte, vec![1, 0, 0, 0, 0, 9]);
}

#[test]
fn peek_tells_the_length_of_a_whole_frame_only() {
    assert_eq!(peek(&vec![2, 0, 0, 0, 7, 7]), Some(2));
    assert_eq!(peek(&vec![2, 0, 0, 0, 7, 7, 7]), Some(2));
    assert_eq!(peek(&vec![3, 0, 0, 0, 7, 7]), None);
    assert_eq!(peek(&vec![0, 1, 0, 0, 7, 7]), None);
    let mut long = vec![0, 1, 0, 0];
    long.extend_from_slice(&[7; 256]);
    assert_eq!(peek(&long), Some(256));
    assert_eq!(peek(&vec![255, 255, 255, 255, 0, 0, 0]), None);
}

#[test]
fn an_unknown_variant_is_invalid_and_stays_in_the_buffer() {
    let mut buf = frame(vec![0, 0, 0, 3]);
    let before = buf.clone();
    assert_eq!(de::<ClientCommand>(&mut buf), Err(DecodeError::Invalid));
    assert_eq!(buf, before);
    let mut event = frame(vec![0, 0, 0, 2]);
    assert_eq!(de::<ServerEvent>(&mut event), Err(DecodeError::Invalid));
    assert_eq!(event, frame(vec![0, 0, 0, 2]));
}

#[test]
fn a_payload_that_ends_early_is_truncated_and_stays_in_the_buffer() {
    let mut buf = frame(vec![0, 0, 0, 2, 0, 0]);
    let before = buf.clone();
    assert_eq!(de::<ClientCommand>(&mut buf), Err(DecodeError::Truncated));
    assert_eq!(buf, before);
    let mut event = frame(vec![0, 0, 0, 1, 0, 0, 0, 7, 0, 0, 0, 1, 0]);
    assert_eq!(de::<ServerEvent>(&mut event), Err(DecodeError::Truncated));
}

#[test]
fn a_bad_side_or_flag_is_invalid() {
    let bad_side = vec![0, 0, 0, 1, 0, 0, 0, 7, 0, 0, 0, 2, 0, 0, 0, 0, 0];
    assert_eq!(ServerEvent::decode(&bad_side), Err(DecodeError::Invalid));
    let bad_flag = vec![0, 0, 0, 1, 0, 0, 0, 7, 0, 0, 0, 1, 2, 0, 0, 0, 0];
    assert_eq!(ServerEvent::decode(&bad_flag), Err(DecodeError::Invalid));
    let bad_pov = vec![0, 0, 0, 1, 0, 0, 0, 7, 0, 0, 0, 1, 1, 0, 0, 1, 0];
    assert_eq!(ServerEvent::decode(&bad_pov), Err(DecodeError::Invalid));
}

#[test]
fn the_first_fault_in_reading_order_is_reported() {
    let bad_side_then_short = vec![0, 0, 0, 1, 0, 0, 0, 7, 0, 0, 0, 9];
    assert_eq!(ServerEvent::decode(&bad_side_then_short), Err(DecodeError::Invalid));
    let short_turn = vec![0, 0, 0, 1, 0, 0];
    assert_eq!(ServerEvent::decode(&short_turn), Err(DecodeError::Truncated));
}

#[test]
fn bytes_after_the_value_are_not_read() {
    assert_eq!(ClientCommand::decode(&[0, 0, 0, 0, 99, 98]), Ok(ClientCommand::Ping));
    assert_eq!(
        ClientCommand::decode(&[0, 0, 0, 2, 0, 0, 1, 0, 5]),
        Ok(ClientCommand::Move(Move { code: 256 }))
    );
}

#[test]
fn encode_is_the_payload_without_header() {
    assert_eq!(ClientCommand::Move(Move { code: 258 }).encode(), vec![0, 0, 0, 2, 0, 0, 1, 2]);
    assert_eq!(
        sample_state().encode(),
        vec![0, 0, 0, 1, 0, 0, 0, 7, 0, 0, 0, 1, 0, 0, 0, 0, 0]
    );
}
