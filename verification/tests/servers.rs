use halloy::bouncer::BouncerNetwork;
use halloy::bouncer::NetworkState;
use halloy::config::Error;
use halloy::config::PasswordSource;
use halloy::config::PasswordTarget;
use halloy::config::Sasl;
use halloy::config::ServerConfig;
use halloy::server::Server;
use halloy::server::ServerMap;
use halloy::strutil::parse_u16;
use halloy::strutil::str_lt_str;
use halloy::strutil::u64_to_dec;

#[test]
fn network_state_from_str() {
    assert!(matches!(NetworkState::from_str("connected"), Ok(NetworkState::Connected)));
    assert!(matches!(NetworkState::from_str("connecting"), Ok(NetworkState::Connecting)));
    assert!(matches!(NetworkState::from_str("disconnected"), Ok(NetworkState::Disconnected)));
    assert!(NetworkState::from_str("offline").is_err());
    assert!(NetworkState::from_str("").is_err());
}

#[test]
fn bouncer_parse_success() {
    let n = BouncerNetwork::parse(
        "7".to_string(),
        "name=Libera;host=irc.libera.chat;port=connected;nickname=me;error=down",
    )
    .expect("parses");
    assert_eq!(n.id, "7");
    assert_eq!(n.name, "Libera");
    assert_eq!(n.host, "irc.libera.chat");
    assert_eq!(n.state, NetworkState::Connected);
    // the state value is no number and no boolean flag
    assert_eq!(n.port, None);
    assert_eq!(n.tls, None);
    assert_eq!(n.nickname.as_deref(), Some("me"));
    assert_eq!(n.realname, None);
    assert_eq!(n.pass, None);
    assert_eq!(n.error.as_deref(), Some("down"));
}

#[test]
fn bouncer_parse_missing_keys() {
    assert!(BouncerNetwork::parse("1".to_string(), "host=h;port=connected").is_none());
    assert!(BouncerNetwork::parse("1".to_string(), "name=n;port=connected").is_none());
    assert!(BouncerNetwork::parse("1".to_string(), "name=n;host=h").is_none());
    // the port value must name a network state
    assert!(BouncerNetwork::parse("1".to_string(), "name=n;host=h;port=6697").is_none());
    assert!(BouncerNetwork::parse("1".to_string(), "").is_none());
}

#[test]
fn bouncer_parse_last_key_wins() {
    let n = BouncerNetwork::parse(
        "2".to_string(),
        "name=first;junk;name=second;host=h;port=disconnected",
    )
    .expect("parses");
    assert_eq!(n.name, "second");
    assert_eq!(n.state, NetworkState::Disconnected);
}

#[test]
fn parse_u16_values() {
    assert_eq!(parse_u16("0"), Some(0));
    assert_eq!(parse_u16("6697"), Some(6697));
    assert_eq!(parse_u16("+80"), Some(80));
    assert_eq!(parse_u16("65535"), Some(65535));
    assert_eq!(parse_u16("65536"), None);
    assert_eq!(parse_u16(""), None);
    assert_eq!(parse_u16("+"), None);
    assert_eq!(parse_u16("1x"), None);
    assert_eq!(parse_u16("-1"), None);
    assert_eq!(parse_u16("00080"), Some(80));
}

#[test]
fn decimal_rendering() {
    assert_eq!(u64_to_dec(0), "0");
    assert_eq!(u64_to_dec(10), "10");
    assert_eq!(u64_to_dec(18446744073709551615), "18446744073709551615");
}

#[test]
fn string_order() {
    assert!(str_lt_str("a", "b"));
    assert!(str_lt_str("", "a"));
    assert!(str_lt_str("ab", "b"));
    assert!(str_lt_str("a", "ab"));
    assert!(!str_lt_str("a", "a"));
    assert!(!str_lt_str("b", "ab"));
}

fn cfg_with_password(pass: Option<&str>) -> ServerConfig {
    let mut c = ServerConfig::default();
    c.password = pass.map(|p| p.to_string());
    c
}

#[test]
fn map_insert_contains_remove() {
    let mut map = ServerMap::default();
    let beta = Server::from("beta");
    let alpha = Server::from("alpha");
    assert!(!map.contains(&alpha));
    map.insert(beta.clone(), cfg_with_password(Some("hunter2")));
    map.insert(alpha.clone(), ServerConfig::default());
    assert!(map.contains(&alpha));
    assert!(map.contains(&beta));
    let keys = map.keys();
    assert_eq!(keys.len(), 2);
    assert_eq!(keys[0].as_str(), "alpha");
    assert_eq!(keys[1].as_str(), "beta");
    map.remove(&alpha);
    assert!(!map.contains(&alpha));
    assert!(map.contains(&beta));
}

#[test]
fn map_insert_replaces() {
    let mut map = ServerMap::default();
    let s = Server::from("one");
    map.insert(s.clone(), cfg_with_password(Some("old")));
    map.insert(s.clone(), cfg_with_password(Some("new")));
    let entries = map.entries();
    assert_eq!(entries.len(), 1);
    assert_eq!(entries[0].config.password.as_deref(), Some("new"));
}

#[test]
fn map_entries_and_bouncer_networks() {
    let mut map = ServerMap::default();
    let s = Server::from("net");
    map.insert(s.clone(), ServerConfig::default());
    let network = BouncerNetwork::parse(
        "9".to_string(),
        "name=N;host=h;port=connecting",
    )
    .expect("parses");
    map.insert_bouncer_network(&s, network);
    let entries = map.entries();
    assert_eq!(entries.len(), 2);
    assert_eq!(entries[0].server.as_str(), "net");
    assert!(entries[0].bouncer_network.is_none());
    assert_eq!(entries[1].server.as_str(), "net");
    let child = entries[1].bouncer_network.as_ref().expect("bouncer row");
    assert_eq!(child.name, "N");
    let primary = map.primary_entries();
    assert_eq!(primary.len(), 1);
    assert!(primary[0].bouncer_network.is_none());
}

#[test]
fn map_insert_bouncer_network_needs_server() {
    let mut map = ServerMap::default();
    let s = Server::from("net");
    let network = BouncerNetwork::parse(
        "9".to_string(),
        "name=N;host=h;port=connecting",
    )
    .expect("parses");
    map.insert_bouncer_network(&s, network);
    assert!(map.entries().is_empty());
}

#[test]
fn password_plan_of_valid_configuration() {
    let mut c = ServerConfig::default();
    c.password_file = Some("pw.txt".to_string());
    c.nick_password_file = Some("nick.txt".to_string());
    c.sasl = Some(Sasl::Plain {
        username: "me".to_string(),
        password: None,
        password_file: None,
        password_command: Some("get-sasl".to_string()),
    });
    let plan = c.password_sources().expect("valid");
    assert_eq!(plan.len(), 3);
    assert_eq!(plan[0].target, PasswordTarget::Password);
    assert!(matches!(&plan[0].source, PasswordSource::File(f) if f == "pw.txt"));
    assert_eq!(plan[1].target, PasswordTarget::NickPassword);
    assert!(matches!(&plan[1].source, PasswordSource::File(f) if f == "nick.txt"));
    assert_eq!(plan[2].target, PasswordTarget::Sasl);
    assert!(matches!(&plan[2].source, PasswordSource::Command(c2) if c2 == "get-sasl"));
}

#[test]
fn password_plan_rejects_duplicates() {
    let mut c = cfg_with_password(Some("literal"));
    c.password_file = Some("pw.txt".to_string());
    assert!(matches!(c.password_sources(), Err(Error::DuplicatePassword)));

    let mut c = cfg_with_password(Some("literal"));
    c.password_command = Some("get".to_string());
    assert!(matches!(c.password_sources(), Err(Error::DuplicatePassword)));

    let mut c = ServerConfig::default();
    c.nick_password = Some("n".to_string());
    c.nick_password_file = Some("nick.txt".to_string());
    assert!(matches!(c.password_sources(), Err(Error::DuplicateNickPassword)));

    // a nick password command conflicts with any server password
    let mut c = cfg_with_password(Some("literal"));
    c.nick_password_command = Some("get-nick".to_string());
    assert!(matches!(c.password_sources(), Err(Error::DuplicateNickPassword)));

    let mut c = ServerConfig::default();
    c.sasl = Some(Sasl::Plain {
        username: "me".to_string(),
        password: Some("p".to_string()),
        password_file: Some("f".to_string()),
        password_command: None,
    });
    assert!(matches!(c.password_sources(), Err(Error::DuplicateSaslPassword)));

    // a plain SASL section with no password at all is rejected too
    let mut c = ServerConfig::default();
    c.sasl = Some(Sasl::Plain {
        username: "me".to_string(),
        password: None,
        password_file: None,
        password_command: None,
    });
    assert!(matches!(c.password_sources(), Err(Error::DuplicateSaslPassword)));
}

#[test]
fn password_plan_of_quiet_configuration() {
    let c = ServerConfig::default();
    let plan = c.password_sources().expect("valid");
    assert!(plan.is_empty());
    let mut c = ServerConfig::default();
    c.sasl = Some(Sasl::External { cert: "cert.pem".to_string() });
    let plan = c.password_sources().expect("valid");
    assert!(plan.is_empty());
}

#[test]
fn store_password_fills_targets() {
    let mut c = ServerConfig::default();
    c.store_password(&PasswordTarget::Password, "pw".to_string());
    assert_eq!(c.password.as_deref(), Some("pw"));
    c.store_password(&PasswordTarget::NickPassword, "npw".to_string());
    assert_eq!(c.nick_password.as_deref(), Some("npw"));
    c.sasl = Some(Sasl::Plain {
        username: "me".to_string(),
        password: None,
        password_file: Some("f".to_string()),
        password_command: None,
    });
    c.store_password(&PasswordTarget::Sasl, "spw".to_string());
    match c.sasl.as_ref().expect("sasl kept") {
        Sasl::Plain { password, password_file, .. } => {
            assert_eq!(password.as_deref(), Some("spw"));
            assert_eq!(password_file.as_deref(), Some("f"));
        },
        Sasl::External { .. } => panic!("sasl kind changed"),
    }
}

#[test]
fn map_store_password() {
    let mut map = ServerMap::default();
    let s = Server::from("net");
    let mut c = ServerConfig::default();
    c.password_file = Some("pw.txt".to_string());
    map.insert(s.clone(), c);
    map.store_password(&s, &PasswordTarget::Password, "from-file".to_string());
    let entries = map.entries();
    assert_eq!(entries[0].config.password.as_deref(), Some("from-file"));
}

#[test]
fn bouncer_parse_non_ascii_values() {
    let n = BouncerNetwork::parse(
        "3".to_string(),
        "name=libéra ✓;host=h;port=connected",
    )
    .expect("parses");
    assert_eq!(n.name, "libéra ✓");
}
