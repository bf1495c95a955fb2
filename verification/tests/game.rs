use indexmap::IndexSet;
use std::collections::HashMap;

use zelda_server::logic::command::{Command, ConsoleLine};
use zelda_server::logic::config::{help_for, Config};
use zelda_server::logic::map::{build, Connection, Monster, Room as MapRoom};
use zelda_server::logic::server::greeting;
use zelda_server::logic::state::GameState;
use zelda_server::logic::{ExtendedProtocol, Output};
use zelda_server::protocol::flags::CharacterFlags;
use zelda_server::protocol::packet::pkt_change_room::ChangeRoom;
use zelda_server::protocol::packet::pkt_character::Character;
use zelda_server::protocol::packet::pkt_fight::Fight;
use zelda_server::protocol::packet::pkt_leave::Leave;
use zelda_server::protocol::packet::pkt_loot::Loot;
use zelda_server::protocol::packet::pkt_message::Message;
use zelda_server::protocol::packet::pkt_pvp_fight::PVPFight;
use zelda_server::protocol::packet::pkt_start::Start;
use zelda_server::protocol::packet::Protocol;
use zelda_server::protocol::pkt_type::PktType;

fn pad(s: &str, n: usize) -> Vec<u8> {
    let mut v = s.as_bytes().to_vec();
    v.resize(n, 0);
    v
}

fn le(x: u16) -> Vec<u8> {
    x.to_le_bytes().to_vec()
}

fn character_bytes(
    name: &str,
    flags: u8,
    attack: u16,
    defense: u16,
    regen: u16,
    health: i16,
    gold: u16,
    room: u16,
    desc: &str,
) -> Vec<u8> {
    let mut v = vec![10u8];
    v.extend(pad(name, 32));
    v.push(flags);
    v.extend(le(attack));
    v.extend(le(defense));
    v.extend(le(regen));
    v.extend(health.to_le_bytes());
    v.extend(le(gold));
    v.extend(le(room));
    v.extend(le(desc.len() as u16));
    v.extend(desc.as_bytes());
    v
}

fn message_bytes(recipient: &str, sender: &str, text: &str, narration: bool) -> Vec<u8> {
    let mut v = vec![1u8];
    v.extend(le(text.len() as u16));
    v.extend(pad(recipient, 32));
    v.extend(pad(sender, 30));
    v.extend([0u8, if narration { 1 } else { 0 }]);
    v.extend(text.as_bytes());
    v
}

fn error_bytes(code: u8, text: &str) -> Vec<u8> {
    let mut v = vec![7u8, code];
    v.extend(le(text.len() as u16));
    v.extend(text.as_bytes());
    v
}

fn place_bytes(kind: u8, number: u16, name: &str, desc: &str) -> Vec<u8> {
    let mut v = vec![kind];
    v.extend(le(number));
    v.extend(pad(name, 32));
    v.extend(le(desc.len() as u16));
    v.extend(desc.as_bytes());
    v
}

fn sent(client: u64, bytes: Vec<u8>) -> String {
    format!("send {} {:?}", client, bytes)
}

fn summary(out: &[Output]) -> Vec<String> {
    out.iter()
        .map(|o| match o {
            Output::Send(p) => sent(p.client(), p.serialize()),
            Output::Disconnect(c) => format!("disconnect {}", c),
            Output::Console(s) => format!("console {}", s),
        })
        .collect()
}

fn exit_to(number: u16, title: &str, desc: &str) -> Connection {
    Connection {
        room_number: number,
        title: title.to_string(),
        desc_short: desc.to_string(),
    }
}

fn slime() -> Monster {
    Monster {
        name: "Slime".to_string(),
        current_room: 1,
        max_health: 20,
        health: 20,
        attack: 5,
        defense: 2,
        gold: 7,
        desc: "Goo".to_string(),
    }
}

fn world(initial_points: u16) -> GameState {
    let mut c0 = HashMap::new();
    c0.insert(1u16, exit_to(1, "Hall", "A hall"));
    let mut c1 = HashMap::new();
    c1.insert(0u16, exit_to(0, "Entrance", "Back"));
    let rooms = vec![
        MapRoom {
            room_number: 0,
            title: "Entrance".to_string(),
            connections: c0,
            desc: "The start".to_string(),
            players: IndexSet::new(),
            monsters: None,
        },
        MapRoom {
            room_number: 1,
            title: "Hall".to_string(),
            connections: c1,
            desc: "Big hall".to_string(),
            players: IndexSet::new(),
            monsters: Some(vec![slime()]),
        },
    ];
    let config = Config::new(
        "!".to_string(),
        "map.json".to_string(),
        "desc.txt".to_string(),
        65535,
        initial_points,
        2,
        3,
    );
    GameState::new(build(rooms), config)
}

fn character(name: &str, attack: u16, defense: u16, regen: u16, desc: &str) -> Character {
    Character {
        author: None,
        message_type: PktType::Character,
        name: name.to_string(),
        flags: CharacterFlags::from_bits_truncate(0),
        attack,
        defense,
        regen,
        health: 0,
        gold: 0,
        current_room: 0,
        description_len: desc.len() as u16,
        description: desc.to_string(),
    }
}

fn command(words: &[&str]) -> Command {
    Command {
        kind: words[0].to_ascii_lowercase(),
        argv: words.iter().map(|w| w.to_string()).collect(),
    }
}

/// Link joins as client 1 and starts, standing in the entrance.
fn started_world() -> GameState {
    let mut g = world(100);
    g.handle_character(1, character("Link", 30, 20, 10, "Hero"));
    g.handle_start(1, Start::default());
    g
}

/// Link has walked into the hall, where the slime is.
fn world_in_hall() -> GameState {
    let mut g = started_world();
    g.handle_change_room(1, ChangeRoom { message_type: PktType::ChangeRoom, room_number: 1 });
    g
}

#[test]
fn joining_player_is_accepted_and_shown() {
    let mut g = world(100);
    let out = g.handle_character(1, character("Link", 30, 20, 10, "Hero"));
    assert_eq!(
        summary(&out),
        vec![
            sent(1, vec![8, 10]),
            sent(1, character_bytes("Link", 0xc8, 30, 20, 10, 100, 0, 0, "Hero")),
        ]
    );
    assert_eq!(g.players.len(), 1);
    assert_eq!(g.players[0].author, Some(1));
    assert_eq!(g.players[0].flags.bits(), 0xc8);
}

#[test]
fn stats_over_the_budget_are_refused() {
    let mut g = world(100);
    let out = g.handle_character(1, character("Link", 60, 30, 11, "Hero"));
    assert_eq!(summary(&out), vec![sent(1, error_bytes(4, "Invalid stats"))]);
    assert!(g.players.is_empty());
}

#[test]
fn starting_enters_the_first_room() {
    let mut g = world(100);
    g.handle_character(1, character("Link", 30, 20, 10, "Hero"));
    let out = g.handle_start(1, Start::default());
    let link = character_bytes("Link", 0xd8, 30, 20, 10, 100, 0, 0, "Hero");
    assert_eq!(
        summary(&out),
        vec![
            sent(1, link.clone()),
            sent(1, message_bytes("Link", "Server", "Link has started the game!", false)),
            sent(1, place_bytes(9, 0, "Entrance", "The start")),
            sent(1, place_bytes(13, 1, "Hall", "A hall")),
            sent(1, link),
        ]
    );
}

#[test]
fn start_without_a_ready_player_is_refused() {
    let mut g = world(100);
    let out = g.handle_start(1, Start::default());
    assert!(out.is_empty());
    let mut h = started_world();
    let again = h.handle_character(1, character("Link", 30, 20, 10, "Hero"));
    assert_eq!(
        summary(&again),
        vec![sent(1, error_bytes(2, "Player is already in the game."))]
    );
}

#[test]
fn change_room_moves_the_player() {
    let mut g = started_world();
    let out = g.handle_change_room(1, ChangeRoom { message_type: PktType::ChangeRoom, room_number: 1 });
    let link = character_bytes("Link", 0xd8, 30, 20, 10, 100, 0, 1, "Hero");
    assert_eq!(
        summary(&out),
        vec![
            sent(1, place_bytes(9, 1, "Hall", "Big hall")),
            sent(1, link.clone()),
            sent(1, link.clone()),
            sent(1, place_bytes(13, 0, "Entrance", "Back")),
            sent(1, link),
            sent(1, character_bytes("Slime", 0xe8, 5, 2, 0, 20, 7, 1, "Goo")),
        ]
    );
    assert_eq!(g.players[0].current_room, 1);
    assert!(g.rooms[&1].players.contains("Link"));
    assert!(!g.rooms[&0].players.contains("Link"));
}

#[test]
fn change_room_errors() {
    let mut g = started_world();
    let same = g.handle_change_room(1, ChangeRoom { message_type: PktType::ChangeRoom, room_number: 0 });
    assert_eq!(summary(&same), vec![sent(1, error_bytes(1, "Player is already in the room"))]);
    let nowhere = g.handle_change_room(1, ChangeRoom { message_type: PktType::ChangeRoom, room_number: 9 });
    assert_eq!(summary(&nowhere), vec![sent(1, error_bytes(1, "Invalid connection!"))]);
    let mut fresh = world(100);
    fresh.handle_character(2, character("Zelda", 1, 1, 1, "Princess"));
    let mut h = world(100);
    let stranger = h.handle_change_room(7, ChangeRoom { message_type: PktType::ChangeRoom, room_number: 1 });
    assert!(stranger.is_empty());
}

#[test]
fn fight_kills_the_slime_and_loot_takes_its_gold() {
    let mut g = world_in_hall();
    let out = g.handle_fight(1, Fight::default());
    assert_eq!(
        summary(&out),
        vec![
            sent(1, character_bytes("Link", 0xd8, 30, 20, 10, 110, 0, 1, "Hero")),
            sent(1, character_bytes("Slime", 0x68, 5, 2, 0, -8, 7, 1, "Goo")),
        ]
    );
    let loot = g.handle_loot(1, Loot { message_type: PktType::Loot, target_name: "Slime".to_string() });
    assert_eq!(
        summary(&loot),
        vec![
            sent(1, character_bytes("Link", 0xd8, 30, 20, 10, 110, 7, 1, "Hero")),
            sent(1, character_bytes("Slime", 0x68, 5, 2, 0, -8, 0, 1, "Goo")),
        ]
    );
    let again = g.handle_loot(1, Loot { message_type: PktType::Loot, target_name: "Slime".to_string() });
    assert_eq!(summary(&again), vec![sent(1, error_bytes(3, "Monster already looted!"))]);
    let none = g.handle_fight(1, Fight::default());
    assert_eq!(summary(&none), vec![sent(1, error_bytes(7, "No monsters alive. Let them rest."))]);
}

#[test]
fn loot_errors() {
    let mut g = world_in_hall();
    let alive = g.handle_loot(1, Loot { message_type: PktType::Loot, target_name: "Slime".to_string() });
    assert_eq!(summary(&alive), vec![sent(1, error_bytes(3, "Monster is still alive!"))]);
    let missing = g.handle_loot(1, Loot { message_type: PktType::Loot, target_name: "Ghost".to_string() });
    assert_eq!(summary(&missing), vec![sent(1, error_bytes(3, "Monster doesn't exist!"))]);
    let mut h = started_world();
    let quiet = h.handle_loot(1, Loot { message_type: PktType::Loot, target_name: "Slime".to_string() });
    assert_eq!(summary(&quiet), vec![sent(1, error_bytes(0, "No monsters to loot!"))]);
    let calm = h.handle_fight(1, Fight::default());
    assert_eq!(summary(&calm), vec![sent(1, error_bytes(7, "The room is eerily quiet..."))]);
    assert!(!g.loot_would_overflow(1, &Loot { message_type: PktType::Loot, target_name: "Slime".to_string() }));
}

#[test]
fn acting_before_start_is_refused() {
    let mut g = world(100);
    g.handle_character(1, character("Link", 30, 20, 10, "Hero"));
    let mut p = g.players[0].copy();
    p.flags = CharacterFlags::reset();
    g.players[0] = p;
    let out = g.handle_fight(1, Fight::default());
    assert_eq!(summary(&out), vec![sent(1, error_bytes(5, "Start the game first!"))]);
    let start = g.handle_start(1, Start::default());
    assert_eq!(summary(&start), vec![sent(1, error_bytes(5, "Supply of valid player first!"))]);
}

#[test]
fn acting_needs_both_started_and_ready() {
    let mut g = world(100);
    g.handle_character(1, character("Link", 30, 20, 10, "Hero"));
    assert_eq!(g.players[0].flags.bits(), 0xc8);
    let ready_only = g.handle_loot(1, Loot { message_type: PktType::Loot, target_name: "Slime".to_string() });
    assert_eq!(summary(&ready_only), vec![sent(1, error_bytes(5, "Start the game first!"))]);
    let mut p = g.players[0].copy();
    p.flags = CharacterFlags::from_bits_truncate(0xd0);
    g.players[0] = p;
    let started_only = g.handle_change_room(1, ChangeRoom { message_type: PktType::ChangeRoom, room_number: 1 });
    assert_eq!(summary(&started_only), vec![sent(1, error_bytes(5, "Start the game first!"))]);
    let mut out = Vec::new();
    assert!(!GameState::ensure_started(&g.players[0], 1, &mut out));
    assert_eq!(summary(&out), vec![sent(1, error_bytes(5, "Start the game first!"))]);
    let mut p = g.players[0].copy();
    p.flags = CharacterFlags::from_bits_truncate(0xd8);
    g.players[0] = p;
    let mut none = Vec::new();
    assert!(GameState::ensure_started(&g.players[0], 1, &mut none));
    assert!(none.is_empty());
}

#[test]
fn players_may_not_fight_each_other() {
    let g = started_world();
    let out = g.handle_pvp_fight(1, PVPFight { message_type: PktType::PVPFight, target_name: "Zelda".to_string() });
    assert_eq!(summary(&out), vec![sent(1, error_bytes(8, "No player combat allowed"))]);
}

#[test]
fn messages_reach_the_named_player() {
    let mut g = started_world();
    g.handle_character(2, character("Zelda", 1, 1, 1, "Princess"));
    let m = Message::new("Zelda", "Link", "hi", false);
    let out = g.handle_message(2, m);
    assert_eq!(summary(&out), vec![sent(1, message_bytes("Link", "Zelda", "hi", false))]);
    let lost = g.handle_message(2, Message::new("Zelda", "Ganon", "hi", false));
    assert_eq!(summary(&lost), vec![sent(2, error_bytes(0, "Player not found"))]);
}

#[test]
fn leaving_disconnects_the_client() {
    let mut g = started_world();
    let out = g
        .handle_event(ExtendedProtocol::Client(1, Protocol::Leave(1, Leave::default())))
        .unwrap();
    assert_eq!(summary(&out), vec!["disconnect 1".to_string(), "disconnect 1".to_string()]);
    assert_eq!(g.players[0].author, None);
    assert_eq!(g.players[0].flags.bits(), 0);
}

#[test]
fn events_from_unknown_clients_do_nothing() {
    let mut g = world(100);
    let out = g.handle_event(ExtendedProtocol::Connect(4)).unwrap();
    assert!(out.is_empty());
    let out = g
        .handle_event(ExtendedProtocol::Client(4, Protocol::Start(4, Start::default())))
        .unwrap();
    assert!(out.is_empty());
}

#[test]
fn fight_whose_attack_overflows_is_not_handled() {
    let mut c0 = HashMap::new();
    c0.insert(1u16, exit_to(1, "Hall", "A hall"));
    let mut m = slime();
    m.current_room = 0;
    let rooms = vec![MapRoom {
        room_number: 0,
        title: "Entrance".to_string(),
        connections: c0,
        desc: "The start".to_string(),
        players: IndexSet::new(),
        monsters: Some(vec![m]),
    }];
    let config = Config::new("!".to_string(), "m".to_string(), "d".to_string(), 65535, 65534, 2, 3);
    let mut g = GameState::new(build(rooms), config);
    g.handle_character(1, character("Link", 40000, 0, 0, "Hero"));
    g.handle_character(2, character("Zelda", 40000, 0, 0, "Princess"));
    g.handle_start(1, Start::default());
    g.handle_start(2, Start::default());
    assert!(g.fight_would_overflow(1));
    let r = g.handle_event(ExtendedProtocol::Client(1, Protocol::Fight(1, Fight::default())));
    assert!(r.is_none());
    assert_eq!(g.players[0].health, 100);
}

#[test]
fn help_command_prints_the_help_text() {
    let mut g = started_world();
    let out = g.handle_command(command(&["help"]));
    let text = "Lurk Server CLI:\nUsage:\n    !help                           - Display this help message\n    !broadcast <content>            - Send a message to all players\n    !message <recipient> <content>  - Send a private message to a player\n    !nuke                           - Remove all disconnected players on the map";
    assert_eq!(summary(&out), vec![format!("console {}", text)]);
    assert_eq!(help_for("!"), text);
    assert!(help_for("/").contains("    /nuke"));
}

#[test]
fn broadcast_and_message_commands() {
    let mut g = started_world();
    let out = g.handle_command(command(&["broadcast", "Hello", "all"]));
    assert_eq!(summary(&out), vec![sent(1, message_bytes("Link", "Server", "Hello all", false))]);
    let out = g.handle_command(command(&["message", "Link", "go", "north"]));
    assert_eq!(summary(&out), vec![sent(1, message_bytes("Link", "Server", "go north", false))]);
    let out = g.handle_command(command(&["message", "Ganon", "hi"]));
    assert_eq!(summary(&out), vec!["console Player not found: Ganon".to_string()]);
    let out = g.handle_command(command(&["broadcast"]));
    assert_eq!(
        summary(&out),
        vec!["console Broadcast command requires at least 2 arguments".to_string()]
    );
    let out = g.handle_command(command(&["message", "Link"]));
    assert_eq!(
        summary(&out),
        vec!["console Message command requires at least 3 arguments".to_string()]
    );
    let out = g.handle_command(command(&["dance"]));
    assert_eq!(summary(&out), vec!["console Unsupported command!".to_string()]);
}

#[test]
fn nuke_removes_disconnected_players() {
    let mut g = world_in_hall();
    g.handle_character(2, character("Zelda", 1, 1, 1, "Princess"));
    let out = g.handle_command(command(&["nuke"]));
    assert_eq!(summary(&out), vec!["console No disconnected players".to_string()]);
    g.handle_leave(1, Leave::default());
    let out = g.handle_command(command(&["nuke"]));
    assert_eq!(
        summary(&out),
        vec![sent(
            2,
            message_bytes(
                "Zelda",
                "Server",
                "Disconnected players have been removed; ChangeRoom to update player list!",
                false
            )
        )]
    );
    assert_eq!(g.players.len(), 1);
    assert_eq!(g.players[0].name, "Zelda");
    assert!(!g.rooms[&1].players.contains("Link"));
}

#[test]
fn revive_brings_dead_monsters_back_once() {
    let mut g = world_in_hall();
    let out = g.handle_command(command(&["revive"]));
    assert_eq!(summary(&out), vec!["console No monsters to revive".to_string()]);
    g.handle_fight(1, Fight::default());
    let out = g.handle_command(command(&["revive"]));
    assert_eq!(
        summary(&out),
        vec![
            sent(1, character_bytes("Slime", 0xe8, 5, 2, 0, 20, 7, 1, "Goo")),
            sent(1, message_bytes("Link", "Server", "All dead monsters have been revived!", false)),
        ]
    );
    let again = g.handle_command(command(&["revive"]));
    assert_eq!(summary(&again), vec!["console No monsters to revive".to_string()]);
}

#[test]
fn console_lines_are_parsed_after_the_prefix() {
    match Command::parse("!BroadCast  Hello   World\n", "!") {
        ConsoleLine::Command(c) => {
            assert_eq!(c.kind, "broadcast");
            assert_eq!(c.argv, vec!["BroadCast", "Hello", "World"]);
        }
        _ => panic!("expected a command"),
    }
    assert!(matches!(Command::parse("hello\n", "!"), ConsoleLine::Ignored));
    assert!(matches!(Command::parse("", "!"), ConsoleLine::Ignored));
    assert!(matches!(Command::parse("!  \t\n", "!"), ConsoleLine::Blank));
    match Command::parse("::nuke", "::") {
        ConsoleLine::Command(c) => {
            assert_eq!(c.kind, "nuke");
            assert_eq!(c.argv, vec!["nuke"]);
        }
        _ => panic!("expected a command"),
    }
}

#[test]
fn greeting_sends_version_then_game() {
    let config = Config::new("!".to_string(), "m".to_string(), "d".to_string(), 500, 100, 2, 3);
    let out = greeting(6, &config, "Welcome");
    let mut game = vec![11u8];
    game.extend(le(100));
    game.extend(le(500));
    game.extend(le(7));
    game.extend(b"Welcome");
    assert_eq!(summary(&out), vec![sent(6, vec![14, 2, 3, 0, 0]), sent(6, game)]);
}

#[test]
fn map_keeps_the_last_room_of_a_number() {
    let a = MapRoom {
        room_number: 3,
        title: "First".to_string(),
        connections: HashMap::new(),
        desc: "".to_string(),
        players: IndexSet::new(),
        monsters: None,
    };
    let b = MapRoom {
        room_number: 3,
        title: "Second".to_string(),
        connections: HashMap::new(),
        desc: "".to_string(),
        players: IndexSet::new(),
        monsters: None,
    };
    let m = build(vec![a, b]);
    assert_eq!(m.len(), 1);
    assert_eq!(m[&3].title, "Second");
}

#[test]
fn rejoining_player_leaves_the_list_of_its_old_room() {
    let mut g = world_in_hall();
    assert!(g.rooms[&1].players.contains("Link"));
    assert!(!g.rooms[&0].players.contains("Link"));
    g.handle_leave(1, Leave::default());
    assert!(g.rooms[&1].players.contains("Link"));
    g.handle_character(3, character("Link", 30, 20, 10, "Hero"));
    assert_eq!(g.players.len(), 1);
    assert_eq!(g.players[0].current_room, 0);
    assert_eq!(g.players[0].author, Some(3));
    assert!(!g.rooms[&1].players.contains("Link"));
    assert!(!g.rooms[&0].players.contains("Link"));
    g.handle_start(3, Start::default());
    assert!(g.rooms[&0].players.contains("Link"));
    assert!(!g.rooms[&1].players.contains("Link"));
}
