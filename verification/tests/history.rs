use halloy::buffer::user_context;
use halloy::buffer::Buffer;
use halloy::buffer::DataBuffer;
use halloy::formatting::Color;
use halloy::formatting::Modifier;
use halloy::metadata::file_name;
use halloy::metadata::find_latest_triggers;
use halloy::metadata::Kind;
use halloy::metadata::Message;
use halloy::metadata::Metadata;
use halloy::metadata::ReadMarker;
use halloy::server::Server;
use halloy::user::AccessLevel;
use halloy::user::User;

#[test]
fn latest_triggers_scans_from_the_end() {
    let messages = vec![
        Message { server_time: 1, triggers_unread: true },
        Message { server_time: 2, triggers_unread: false },
        Message { server_time: 3, triggers_unread: true },
        Message { server_time: 4, triggers_unread: false },
    ];
    assert_eq!(find_latest_triggers(&messages), Some(3));
    let quiet = vec![Message { server_time: 9, triggers_unread: false }];
    assert_eq!(find_latest_triggers(&quiet), None);
    assert_eq!(find_latest_triggers(&Vec::new()), None);
}

#[test]
fn read_marker_latest() {
    let messages = vec![
        Message { server_time: 10, triggers_unread: true },
        Message { server_time: 20, triggers_unread: true },
    ];
    let marker = ReadMarker::latest(&messages).expect("marker");
    assert_eq!(marker.date_time(), 20);
    assert!(ReadMarker::latest(&Vec::new()).is_none());
}

#[test]
fn read_marker_rfc3339_round_trip() {
    let marker = ReadMarker::from_rfc3339("1970-01-01T00:00:01Z").expect("parses");
    assert_eq!(marker.date_time(), 1000);
    assert_eq!(marker.to_rfc3339().expect("in range"), "1970-01-01T00:00:01.000Z");

    let marker = ReadMarker::from_rfc3339("2023-07-20T12:30:45.500+02:00").expect("parses");
    let expected = chrono::DateTime::parse_from_rfc3339("2023-07-20T12:30:45.500+02:00")
        .unwrap()
        .timestamp_millis();
    assert_eq!(marker.date_time(), expected);

    assert!(ReadMarker::from_rfc3339("yesterday").is_none());
}

#[test]
fn metadata_from_messages() {
    let messages = vec![Message { server_time: 7, triggers_unread: true }];
    let marker = ReadMarker::latest(&messages);
    let metadata = Metadata::from_messages(marker, &messages);
    assert_eq!(metadata.last_triggers_unread, Some(7));
    assert_eq!(metadata.read_marker.expect("marker").date_time(), 7);
    let empty = Metadata::default();
    assert!(empty.read_marker.is_none());
    assert!(empty.last_triggers_unread.is_none());
}

#[test]
fn metadata_file_names() {
    let server = Server::from("libera");
    let name = file_name(&server, &Kind::Server);
    let expected = format!("{}.json", seahash::hash("libera-metadata".as_bytes()));
    assert_eq!(name, expected);

    let name = file_name(&server, &Kind::Channel("#rust".to_string()));
    let expected = format!("{}.json", seahash::hash("liberachannel#rust-metadata".as_bytes()));
    assert_eq!(name, expected);

    let name = file_name(&server, &Kind::Query("friend".to_string()));
    let expected = format!("{}.json", seahash::hash("liberanicknamefriend-metadata".as_bytes()));
    assert_eq!(name, expected);
}

#[test]
fn palette_codes() {
    assert_eq!(Color::code(0), Some(Color::White));
    assert_eq!(Color::code(1), Some(Color::Black));
    assert_eq!(Color::code(4), Some(Color::Red));
    assert_eq!(Color::code(15), Some(Color::LightGrey));
    assert_eq!(Color::code(16), None);
    assert_eq!(Color::code(99), None);
    assert_eq!(Color::Red.digit(), 4);
    assert_eq!(Color::LightGrey.digit(), 15);
}

#[test]
fn modifier_bytes() {
    assert_eq!(Modifier::Bold.char(), '\u{02}');
    assert_eq!(Modifier::Italics.char(), '\u{1d}');
    assert_eq!(Modifier::Monospace.char(), '\u{11}');
    assert_eq!(Modifier::Color.char(), '\u{03}');
    assert_eq!(Modifier::Reset.char(), '\u{0f}');
}

#[test]
fn buffer_panes() {
    let server = Server::from("net");
    let data = DataBuffer::Channel(server.clone(), "#rust".to_string());
    let mut pane = Buffer::from(data);
    assert_eq!(pane.server().expect("has server").as_str(), "net");
    assert!(matches!(pane.data(), Some(DataBuffer::Channel(_, _))));
    assert!(pane.get_channel(&server, "#rust").is_some());
    assert!(pane.get_channel(&server, "#go").is_none());
    assert!(pane.get_server(&server).is_none());
    assert_eq!(pane.is_scrolled_to_bottom(), Some(true));
    pane.reset();
    assert_eq!(pane.is_scrolled_to_bottom(), Some(true));

    let empty = Buffer::empty();
    assert!(empty.server().is_none());
    assert!(empty.data().is_none());
    assert!(empty.is_scrolled_to_bottom().is_none());

    let server_pane = Buffer::from(DataBuffer::Server(server.clone()));
    assert!(server_pane.get_server(&server).is_some());
}

#[test]
fn context_menu_entries() {
    let server = Server::from("net");
    let channel = DataBuffer::Channel(server.clone(), "#rust".to_string());
    let oper = User { nickname: "op".to_string(), access_levels: vec![AccessLevel::Oper] };
    let plain = User { nickname: "user".to_string(), access_levels: Vec::new() };

    let full = user_context::Entry::list(&channel, Some(&oper));
    assert_eq!(
        full,
        vec![
            user_context::Entry::UserInfo,
            user_context::Entry::Whois,
            user_context::Entry::Query,
            user_context::Entry::ToggleAccessLevelOp,
            user_context::Entry::ToggleAccessLevelVoice,
            user_context::Entry::SendFile,
        ],
    );

    let short = user_context::Entry::list(&channel, Some(&plain));
    assert_eq!(
        short,
        vec![
            user_context::Entry::UserInfo,
            user_context::Entry::Whois,
            user_context::Entry::Query,
            user_context::Entry::SendFile,
        ],
    );

    let query = DataBuffer::Query(server, "friend".to_string());
    let outside = user_context::Entry::list(&query, None);
    assert_eq!(outside, vec![user_context::Entry::Whois, user_context::Entry::SendFile]);
}

#[test]
fn context_menu_update() {
    let event = user_context::update(user_context::Message::Whois("nick".to_string()));
    assert!(matches!(event, user_context::Event::SendWhois(n) if n == "nick"));
    let event = user_context::update(user_context::Message::ToggleAccessLevel(
        "nick".to_string(),
        "+o".to_string(),
    ));
    assert!(
        matches!(event, user_context::Event::ToggleAccessLevel(n, m) if n == "nick" && m == "+o"),
    );
    let event = user_context::update(user_context::Message::SendFile("nick".to_string()));
    assert!(matches!(event, user_context::Event::SendFile(n) if n == "nick"));
}

#[test]
fn user_access_levels() {
    let user = User {
        nickname: "op".to_string(),
        access_levels: vec![AccessLevel::Voice, AccessLevel::Oper],
    };
    assert!(user.has_access_level(AccessLevel::Oper));
    assert!(user.has_access_level(AccessLevel::Voice));
    assert!(!user.has_access_level(AccessLevel::Owner));
    assert_eq!(user.nickname(), "op");
}
