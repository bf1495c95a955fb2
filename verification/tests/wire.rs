use std::io::ErrorKind;
use zelda_server::protocol::client::{Client, ReadOutcome, Step};
use zelda_server::protocol::parsing_error::{DeserializeError, SerializeError};
use zelda_server::protocol::pcap::{hex_address, PCap, PCapLine};
use zelda_server::protocol::error::ErrorCode;
use zelda_server::protocol::flags::CharacterFlags;
use zelda_server::protocol::packet::pkt_accept::Accept;
use zelda_server::protocol::packet::pkt_change_room::ChangeRoom;
use zelda_server::protocol::packet::pkt_character::Character;
use zelda_server::protocol::packet::pkt_error::Error;
use zelda_server::protocol::packet::pkt_fight::Fight;
use zelda_server::protocol::packet::pkt_game::Game;
use zelda_server::protocol::packet::pkt_leave::Leave;
use zelda_server::protocol::packet::pkt_loot::Loot;
use zelda_server::protocol::packet::pkt_message::Message;
use zelda_server::protocol::packet::pkt_pvp_fight::PVPFight;
use zelda_server::protocol::packet::pkt_room::Room;
use zelda_server::protocol::packet::pkt_start::Start;
use zelda_server::protocol::packet::pkt_version::Version;
use zelda_server::protocol::packet::{Packet, Protocol};
use zelda_server::protocol::pkt_type::PktType;

fn pad(s: &str, n: usize) -> Vec<u8> {
    let mut v = s.as_bytes().to_vec();
    v.resize(n, 0);
    v
}

fn le(x: u16) -> Vec<u8> {
    x.to_le_bytes().to_vec()
}

fn character_bytes(
    name: &str,
    flags: u8,
    attack: u16,
    defense: u16,
    regen: u16,
    health: i16,
    gold: u16,
    room: u16,
    desc: &str,
) -> Vec<u8> {
    let mut v = vec![10u8];
    v.extend(pad(name, 32));
    v.push(flags);
    v.extend(le(attack));
    v.extend(le(defense));
    v.extend(le(regen));
    v.extend(health.to_le_bytes());
    v.extend(le(gold));
    v.extend(le(room));
    v.extend(le(desc.len() as u16));
    v.extend(desc.as_bytes());
    v
}

fn message_bytes(recipient: &str, sender: &str, text: &str, narration: bool) -> Vec<u8> {
    let mut v = vec![1u8];
    v.extend(le(text.len() as u16));
    v.extend(pad(recipient, 32));
    v.extend(pad(sender, 30));
    v.extend([0u8, if narration { 1 } else { 0 }]);
    v.extend(text.as_bytes());
    v
}

fn character(name: &str, attack: u16, defense: u16, regen: u16, desc: &str) -> Character {
    Character {
        author: None,
        message_type: PktType::Character,
        name: name.to_string(),
        flags: CharacterFlags::from_bits_truncate(0),
        attack,
        defense,
        regen,
        health: 0,
        gold: 0,
        current_room: 0,
        description_len: desc.len() as u16,
        description: desc.to_string(),
    }
}

#[test]
fn pkt_type_codes_round_trip() {
    for b in 0u8..=14 {
        let t = PktType::from(b);
        assert_eq!(u8::from(t), b);
        assert_eq!(t.code(), b);
    }
    assert_eq!(PktType::from(10u8), PktType::Character);
    assert_eq!(PktType::from(200u8), PktType::Default);
    assert_eq!(PktType::Room.label(), "Room");
    assert_eq!(PktType::PVPFight.label(), "PVPFight");
}

#[test]
fn error_codes_round_trip() {
    for b in 0u8..=8 {
        let e = ErrorCode::from(b);
        assert_eq!(u8::from(e), b);
    }
    assert_eq!(ErrorCode::from(4u8), ErrorCode::STATERROR);
    assert_eq!(ErrorCode::from(77u8), ErrorCode::OTHER);
    assert_eq!(ErrorCode::NOPLAYERCOMBAT.label(), "NoPlayerCombat");
    assert_eq!(ErrorCode::default(), ErrorCode::OTHER);
}

#[test]
fn character_flags_bits() {
    assert_eq!(CharacterFlags::dead().bits(), 0x48);
    assert_eq!(CharacterFlags::alive().bits(), 0xc8);
    assert_eq!(CharacterFlags::reset().bits(), 0xc0);
    let f = CharacterFlags::from_bits_truncate(0xd8);
    assert!(f.is_alive());
    assert!(f.is_battle());
    assert!(f.is_started());
    assert!(f.is_ready());
    let g = CharacterFlags::from_bits_truncate(0x07);
    assert_eq!(g.bits(), 0);
    assert!(!g.is_alive());
    assert!(!CharacterFlags::dead().is_alive());
    assert!(CharacterFlags::dead().is_ready());
    assert!(!CharacterFlags::reset().is_ready());
    let mut h = CharacterFlags::empty();
    h.insert(CharacterFlags::ready_flag());
    assert!(h.contains(CharacterFlags::ready_flag()));
    assert!(!h.contains(CharacterFlags::started_flag()));
    assert_eq!(
        CharacterFlags::monster_flag().union(CharacterFlags::battle_flag()).bits(),
        0x60
    );
}

#[test]
fn character_serializes_to_wire_layout() {
    let mut c = character("Link", 30, 20, 10, "Hero");
    c.flags = CharacterFlags::alive();
    c.health = -5;
    c.gold = 9;
    c.current_room = 3;
    assert_eq!(c.serialize(), character_bytes("Link", 0xc8, 30, 20, 10, -5, 9, 3, "Hero"));
}

#[test]
fn character_round_trips_through_client_read() {
    let mut c = character("Zelda", 1, 2, 3, "Princess of Hyrule");
    c.flags = CharacterFlags::from_bits_truncate(0x88);
    c.health = 42;
    c.gold = 1000;
    c.current_room = 7;
    let bytes = c.serialize();
    let client = Client::new(5);
    match client.read(&bytes) {
        ReadOutcome::Packet(n, Protocol::Character(id, back)) => {
            assert_eq!(n, bytes.len());
            assert_eq!(id, 5);
            assert_eq!(back.author, Some(5));
            assert_eq!(back.name, "Zelda");
            assert_eq!(back.flags.bits(), 0x88);
            assert_eq!(back.attack, 1);
            assert_eq!(back.defense, 2);
            assert_eq!(back.regen, 3);
            assert_eq!(back.health, 42);
            assert_eq!(back.gold, 1000);
            assert_eq!(back.current_room, 7);
            assert_eq!(back.description_len, 18);
            assert_eq!(back.description, "Princess of Hyrule");
        }
        _ => panic!("expected a character"),
    }
}

#[test]
fn read_takes_one_packet_and_leaves_the_rest() {
    let client = Client::new(3);
    let bytes = [2u8, 5, 0, 6];
    match client.read(&bytes) {
        ReadOutcome::Packet(n, Protocol::ChangeRoom(id, cr)) => {
            assert_eq!(n, 3);
            assert_eq!(id, 3);
            assert_eq!(cr.room_number, 5);
            assert_eq!(cr.message_type, PktType::ChangeRoom);
        }
        _ => panic!("expected a change of room"),
    }
    match client.read(&bytes[3..]) {
        ReadOutcome::Packet(1, Protocol::Start(3, s)) => assert_eq!(s, Start::default()),
        _ => panic!("expected a start"),
    }
}

#[test]
fn read_waits_for_missing_bytes() {
    let client = Client::new(1);
    assert!(matches!(client.read(&[]), ReadOutcome::Incomplete));
    assert!(matches!(client.read(&[2u8, 5]), ReadOutcome::Incomplete));
    let mut m = message_bytes("Zelda", "Link", "hello", false);
    m.pop();
    assert!(matches!(client.read(&m), ReadOutcome::Incomplete));
}

#[test]
fn read_refuses_unknown_and_server_only_kinds() {
    let client = Client::new(1);
    assert!(matches!(client.read(&[99u8, 1, 2]), ReadOutcome::Unsupported(99)));
    assert!(matches!(client.read(&[0u8]), ReadOutcome::Unsupported(0)));
    let err = [7u8, 1, 2, 0, b'h', b'i', 3];
    assert!(matches!(client.read(&err), ReadOutcome::Rejected(6)));
    assert!(matches!(client.read(&[8u8, 10]), ReadOutcome::Rejected(2)));
}

#[test]
fn read_message_gives_fields_back() {
    let client = Client::new(9);
    let bytes = message_bytes("Zelda", "Link", "hello there", false);
    match client.read(&bytes) {
        ReadOutcome::Packet(n, Protocol::Message(9, m)) => {
            assert_eq!(n, bytes.len());
            assert_eq!(m.recipient, "Zelda");
            assert_eq!(m.sender, "Link");
            assert_eq!(m.message, "hello there");
            assert_eq!(m.message_len, 11);
            assert!(!m.narration);
        }
        _ => panic!("expected a message"),
    }
}

#[test]
fn narration_marker_is_read_back() {
    let client = Client::new(9);
    let bytes = message_bytes("Zelda", "Narrator", "the wind howls", true);
    match client.read(&bytes) {
        ReadOutcome::Packet(_, Protocol::Message(_, m)) => {
            assert!(m.narration);
            assert_eq!(m.sender, "Narrator");
            assert_eq!(m.recipient, "Zelda");
            assert_eq!(m.message, "the wind howls");
        }
        _ => panic!("expected a message"),
    }
    let n = Message::narrator("Link", "boo");
    let mut body = n.serialize();
    body.remove(0);
    let back = Message::deserialize(&Packet::new(1, 1, body));
    assert!(back.narration);
    assert_eq!(back.sender, "Narrator");
    let mut full = vec![1u8];
    full.extend(le(1));
    full.extend(pad("Link", 32));
    full.extend(pad("A thirty byte long sender name!", 30));
    full.extend([0u8, 1]);
    full.push(b'x');
    match client.read(&full) {
        ReadOutcome::Packet(_, Protocol::Message(_, m)) => {
            assert!(m.narration);
            assert_eq!(m.sender, "A thirty byte long sender name");
        }
        _ => panic!("expected a message"),
    }
}

#[test]
fn read_fight_loot_pvp_leave() {
    let client = Client::new(4);
    assert!(matches!(client.read(&[3u8]), ReadOutcome::Packet(1, Protocol::Fight(4, _))));
    assert!(matches!(client.read(&[12u8]), ReadOutcome::Packet(1, Protocol::Leave(4, _))));
    let mut loot = vec![5u8];
    loot.extend(pad("Slime", 32));
    match client.read(&loot) {
        ReadOutcome::Packet(33, Protocol::Loot(4, l)) => assert_eq!(l.target_name, "Slime"),
        _ => panic!("expected a loot"),
    }
    let mut pvp = vec![4u8];
    pvp.extend(pad("Ganon", 32));
    match client.read(&pvp) {
        ReadOutcome::Packet(33, Protocol::PVPFight(4, p)) => assert_eq!(p.target_name, "Ganon"),
        _ => panic!("expected a fight between players"),
    }
}

#[test]
fn server_packets_serialize() {
    let e = Error::new(ErrorCode::STATERROR, "Invalid stats");
    let mut want = vec![7u8, 4];
    want.extend(le(13));
    want.extend(b"Invalid stats");
    assert_eq!(e.serialize(), want);

    assert_eq!(Accept::new(PktType::Character).serialize(), vec![8u8, 10]);

    let r = Room::new(3, "Hall".to_string(), "Big".to_string());
    let mut want = vec![9u8, 3, 0];
    want.extend(pad("Hall", 32));
    want.extend(le(3));
    want.extend(b"Big");
    assert_eq!(r.serialize(), want);

    let g = Game::new(100, 65535, "Welcome");
    let mut want = vec![11u8];
    want.extend(le(100));
    want.extend(le(65535));
    want.extend(le(7));
    want.extend(b"Welcome");
    assert_eq!(g.serialize(), want);

    assert_eq!(Version::new(2, 3).serialize(), vec![14u8, 2, 3, 0, 0]);
    assert_eq!(Fight::default().serialize(), vec![3u8]);
    assert_eq!(Leave::default().serialize(), vec![12u8]);
    assert_eq!(Start::default().serialize(), vec![6u8]);
    let cr = ChangeRoom { message_type: PktType::ChangeRoom, room_number: 258 };
    assert_eq!(cr.serialize(), vec![2u8, 2, 1]);
    let l = Loot { message_type: PktType::Loot, target_name: "Slime".to_string() };
    let mut want = vec![5u8];
    want.extend(pad("Slime", 32));
    assert_eq!(l.serialize(), want);
    let p = PVPFight { message_type: PktType::PVPFight, target_name: "Ganon".to_string() };
    let mut want = vec![4u8];
    want.extend(pad("Ganon", 32));
    assert_eq!(p.serialize(), want);
}

#[test]
fn messages_from_the_server_and_the_narrator() {
    let m = Message::server("Link", "hi");
    assert_eq!(m.serialize(), message_bytes("Link", "Server", "hi", false));
    let n = Message::narrator("Link", "boo");
    assert_eq!(n.serialize(), message_bytes("Link", "Narrator", "boo", true));
    let long = Message::new("A very very long sender name here!", "Link", "x", false);
    assert_eq!(long.serialize()[35..65].to_vec(), pad("A very very long sender name here!", 30));
}

#[test]
fn deserialize_from_packet_bodies() {
    let body = vec![1u8, 0];
    let cr = ChangeRoom::deserialize(&Packet::new(2, 2, body));
    assert_eq!(cr.room_number, 1);
    let mut body = vec![1u8];
    body.extend(le(2));
    body.extend(b"no");
    let e = Error::deserialize(&Packet::new(2, 7, body));
    assert_eq!(e.error, ErrorCode::BADROOM);
    assert_eq!(e.message, "no");
    let mut body = pad("Tree", 32);
    body.extend(le(0));
    let mut room_body = le(4);
    room_body.extend(body);
    let r = Room::deserialize(&Packet::new(2, 9, room_body));
    assert_eq!(r.room_number, 4);
    assert_eq!(r.room_name, "Tree");
    assert_eq!(r.description, "");
}

#[test]
fn invalid_utf8_is_replaced_when_read() {
    let client = Client::new(1);
    let mut bytes = vec![1u8];
    bytes.extend(le(2));
    bytes.extend(pad("Zelda", 32));
    bytes.extend(pad("Link", 32));
    bytes.extend([0xffu8, b'a']);
    match client.read(&bytes) {
        ReadOutcome::Packet(_, Protocol::Message(_, m)) => assert_eq!(m.message, "\u{FFFD}a"),
        _ => panic!("expected a message"),
    }
}

#[test]
fn pcap_rows_show_offset_hex_and_text() {
    let data = b"Hello, Lurk world!!".to_vec();
    let rows = PCap::rows(&data);
    assert_eq!(rows.len(), 2);
    assert_eq!(rows[0][0], "00000000");
    assert_eq!(rows[0][1], "48 65 6c 6c 6f 2c 20 4c 75 72 6b 20 77 6f 72 6c");
    assert_eq!(rows[0][2], "Hello, Lurk worl");
    assert_eq!(rows[1][0], "00000010");
    assert_eq!(rows[1][1], "64 21 21");
    assert_eq!(rows[1][2], "d!!.............");
    let line = PCapLine::new("00000020".to_string(), vec![0u8, 127, 32, 126]);
    assert_eq!(line.address, "00000020");
    assert_eq!(line.hex, "00 7f 20 7e");
    assert_eq!(line.ascii, ".. ~............");
    assert_eq!(hex_address(0x1_2345_6789), "123456789");
    assert_eq!(hex_address(255), "000000ff");
    assert!(PCap::rows(&Vec::new()).is_empty());
    let table = PCap::build(data);
    assert!(table.contains("00000010"));
    assert!(table.contains("Hello, Lurk worl"));
    assert!(table.contains("64 21 21"));
    assert!(!table.contains("address"));
}

#[test]
fn parsing_errors_keep_kind_and_message() {
    let s = SerializeError::new(ErrorKind::Other, "Failed to write packet".to_string());
    assert_eq!(s.error_kind(), ErrorKind::Other);
    assert_eq!(s.message(), "Failed to write packet");
    let d = DeserializeError::new(ErrorKind::InvalidData, "bad".to_string());
    assert_eq!(d.error_kind(), ErrorKind::InvalidData);
    assert_eq!(d.message(), "bad");
}

#[test]
fn game_description_must_be_utf8() {
    let mut body = le(100);
    body.extend(le(500));
    body.extend(le(2));
    body.extend(b"ok");
    let g = Game::deserialize(&Packet::new(1, 11, body)).unwrap();
    assert_eq!(g.initial_points, 100);
    assert_eq!(g.stat_limit, 500);
    assert_eq!(g.description_len, 2);
    assert_eq!(g.description, "ok");
    let mut bad = le(100);
    bad.extend(le(500));
    bad.extend(le(2));
    bad.extend([0xc3u8, 0x28]);
    assert!(Game::deserialize(&Packet::new(1, 11, bad)).is_none());
}

#[test]
fn later_bytes_do_not_change_a_finished_read() {
    let client = Client::new(2);
    assert!(matches!(client.read(&[99u8]), ReadOutcome::Unsupported(99)));
    assert!(matches!(client.read(&[99u8, 6, 6]), ReadOutcome::Unsupported(99)));
    assert!(matches!(client.read(&[8u8, 10]), ReadOutcome::Rejected(2)));
    assert!(matches!(client.read(&[8u8, 10, 3, 3]), ReadOutcome::Rejected(2)));
    assert!(matches!(client.read(&[6u8]), ReadOutcome::Packet(1, Protocol::Start(2, _))));
    assert!(matches!(client.read(&[6u8, 12]), ReadOutcome::Packet(1, Protocol::Start(2, _))));
}

#[test]
fn next_step_after_each_read() {
    let client = Client::new(8);
    assert!(matches!(client.next_step(&[2u8, 1, 0, 9]), Step::Forward(3, Protocol::ChangeRoom(8, _))));
    assert!(matches!(client.next_step(&[8u8, 10, 6]), Step::Skip(2)));
    assert!(matches!(client.next_step(&[42u8]), Step::Stop));
    assert!(matches!(client.next_step(&[]), Step::ReadMore));
    assert!(matches!(client.next_step(&[5u8, 1, 2]), Step::ReadMore));
}
