use celld_tcp::config::{
    check_routes, connect_timeout, max_connections, startup_path, startup_path_is_valid,
    ConfigError, TcpIngress,
};
use celld_tcp::metadata::{open_section, Entry, Field, Section};
use celld_tcp::reading::{read, read_section};
use celld_tcp::text::{decimal, is_control};

fn json(text: &str) -> serde_json::Value {
    serde_json::from_str::<serde_json::Value>(text).unwrap()
}

fn classes() -> Vec<String> {
    vec!["EchoContainer".to_string(), "Other".to_string()]
}

fn read_text(text: &str) -> Result<Vec<TcpIngress>, ConfigError> {
    read(&json(text), &classes())
}

fn route(listen_port: u16, object_name: &str) -> TcpIngress {
    TcpIngress {
        listen_port,
        class_name: "EchoContainer".to_string(),
        object_name: object_name.to_string(),
        container_port: 7000,
        startup_path: "/start-tcp".to_string(),
        connect_timeout_ms: 30_000,
        max_connections: 1024,
    }
}

#[test]
fn defaults_have_their_values() {
    assert_eq!(startup_path(), "/start-tcp");
    assert_eq!(connect_timeout(), 30_000);
    assert_eq!(max_connections(), 1024);
}

#[test]
fn metadata_without_a_section_has_no_routes() {
    assert_eq!(read_text("{}"), Ok(vec![]));
    assert_eq!(read_text("{\"udp\": 1}"), Ok(vec![]));
    assert_eq!(read_text("[1, 2]"), Ok(vec![]));
    assert_eq!(read_text("null"), Ok(vec![]));
    assert_eq!(read_text("{\"tcp\": []}"), Ok(vec![]));
}

#[test]
fn omitted_fields_get_their_defaults() {
    let text = "{\"tcp\": [{\"listen_port\": 4543, \"class_name\": \"EchoContainer\", \"object_name\": \"primary\", \"container_port\": 7000}]}";
    assert_eq!(read_text(text), Ok(vec![route(4543, "primary")]));
}

#[test]
fn every_field_is_read_and_order_is_kept() {
    let text = "{\"tcp\": [
        {\"max_connections\": 1, \"connect_timeout_ms\": 500, \"startup_path\": \"/hook\", \"container_port\": 7002,
         \"object_name\": \"o\", \"class_name\": \"Other\", \"listen_port\": 2},
        {\"listen_port\": 1, \"class_name\": \"EchoContainer\", \"object_name\": \"primary\", \"container_port\": 7000}]}";
    let first = TcpIngress {
        listen_port: 2,
        class_name: "Other".to_string(),
        object_name: "o".to_string(),
        container_port: 7002,
        startup_path: "/hook".to_string(),
        connect_timeout_ms: 500,
        max_connections: 1,
    };
    assert_eq!(read_text(text), Ok(vec![first, route(1, "primary")]));
}

#[test]
fn entries_may_list_their_fields() {
    assert_eq!(
        read_text("{\"tcp\": [[4543, \"EchoContainer\", \"primary\", 7000]]}"),
        Ok(vec![route(4543, "primary")])
    );
    let full = read_text("{\"tcp\": [[4543, \"EchoContainer\", \"primary\", 7000, \"/a\", 7, 8]]}").unwrap();
    assert_eq!(full[0].startup_path, "/a");
    assert_eq!(full[0].connect_timeout_ms, 7);
    assert_eq!(full[0].max_connections, 8);
    assert_eq!(
        read_text("{\"tcp\": [[4543, \"EchoContainer\", \"primary\", 7000, \"/a\", 7, 8, 9]]}"),
        Err(ConfigError::Malformed)
    );
    assert_eq!(read_text("{\"tcp\": [[4543, \"EchoContainer\", \"primary\"]]}"), Err(ConfigError::Malformed));
}

#[test]
fn routes_written_in_full_read_back() {
    let routes = vec![route(1, "a"), TcpIngress { connect_timeout_ms: 7, max_connections: 9, ..route(2, "b") }];
    let number = |value: u64| Some(Field::Unsigned(value));
    let text = |value: &str| Some(Field::Text(value.to_string()));
    let entries = routes
        .iter()
        .map(|route| Entry {
            listen_port: number(route.listen_port as u64),
            class_name: text(&route.class_name),
            object_name: text(&route.object_name),
            container_port: number(route.container_port as u64),
            startup_path: text(&route.startup_path),
            connect_timeout_ms: number(route.connect_timeout_ms),
            max_connections: number(route.max_connections as u64),
            surplus: false,
        })
        .collect();
    assert_eq!(read_section(&Section::Entries(entries), &classes()), Ok(routes));
}

#[test]
fn misshapen_sections_are_refused() {
    for section in ["null", "{}", "1", "\"x\"", "[1]", "[null]", "[true]", "[{}]"] {
        let text = format!("{{\"tcp\": {section}}}");
        assert_eq!(read_text(&text), Err(ConfigError::Malformed), "{section}");
    }
}

#[test]
fn fields_have_their_kinds() {
    let entry = |field: &str| {
        format!(
            "{{\"tcp\": [{{\"listen_port\": 4543, \"class_name\": \"EchoContainer\", \"object_name\": \"primary\", \"container_port\": 7000, {field}}}]}}"
        )
    };
    assert!(read_text(&entry("\"max_connections\": 5")).is_ok());
    for field in [
        "\"max_connections\": \"5\"",
        "\"max_connections\": -5",
        "\"max_connections\": 5.0",
        "\"max_connections\": null",
        "\"connect_timeout_ms\": 1.5",
        "\"connect_timeout_ms\": []",
        "\"startup_path\": null",
        "\"startup_path\": 7",
        "\"surprise\": 1",
    ] {
        assert_eq!(read_text(&entry(field)), Err(ConfigError::Malformed), "{field}");
    }
    let port = |port: &str| {
        format!(
            "{{\"tcp\": [{{\"listen_port\": {port}, \"class_name\": \"EchoContainer\", \"object_name\": \"primary\", \"container_port\": 7000}}]}}"
        )
    };
    assert!(read_text(&port("65535")).is_ok());
    assert_eq!(read_text(&port("65536")), Err(ConfigError::Malformed));
    assert_eq!(read_text(&port("\"80\"")), Err(ConfigError::Malformed));
    assert_eq!(read_text(&port("0")), Err(ConfigError::ZeroPort));
}

#[test]
fn sections_open_as_plain_values() {
    assert_eq!(open_section(&json("{}")), Section::Absent);
    assert_eq!(open_section(&json("{\"tcp\": [0]}")), Section::Misshapen);
    let entry = Entry {
        listen_port: Some(Field::Unsigned(9)),
        class_name: Some(Field::Text("C".to_string())),
        object_name: Some(Field::Other),
        container_port: None,
        startup_path: None,
        connect_timeout_ms: None,
        max_connections: None,
        surplus: true,
    };
    assert_eq!(
        open_section(&json(
            "{\"tcp\": [{\"listen_port\": 9, \"class_name\": \"C\", \"object_name\": false, \"extra\": 0}]}"
        )),
        Section::Entries(vec![entry])
    );
}

#[test]
fn opened_sections_are_read_without_json() {
    let entry = Entry {
        listen_port: Some(Field::Unsigned(4543)),
        class_name: Some(Field::Text("EchoContainer".to_string())),
        object_name: Some(Field::Text("primary".to_string())),
        container_port: Some(Field::Unsigned(7000)),
        startup_path: None,
        connect_timeout_ms: None,
        max_connections: None,
        surplus: false,
    };
    let section = Section::Entries(vec![entry]);
    assert_eq!(read_section(&section, &classes()), Ok(vec![route(4543, "primary")]));
    assert_eq!(read_section(&section, &[]), Err(ConfigError::NotAContainer("EchoContainer".to_string())));
    assert_eq!(read_section(&Section::Misshapen, &classes()), Err(ConfigError::Malformed));
    assert_eq!(read_section(&Section::Absent, &[]), Ok(vec![]));
}

fn check_one(route: TcpIngress) -> Result<(), ConfigError> {
    check_routes(&[route], &classes())
}

#[test]
fn each_rule_has_its_fault() {
    assert_eq!(check_one(route(1, "a")), Ok(()));
    assert_eq!(check_one(route(0, "a")), Err(ConfigError::ZeroPort));
    assert_eq!(check_one(TcpIngress { container_port: 0, ..route(1, "a") }), Err(ConfigError::ZeroPort));
    assert_eq!(
        check_one(TcpIngress { class_name: "None".to_string(), ..route(1, "a") }),
        Err(ConfigError::NotAContainer("None".to_string()))
    );
    assert_eq!(check_one(route(1, &"x".repeat(1024))), Ok(()));
    assert_eq!(check_one(route(1, &"x".repeat(1025))), Err(ConfigError::ObjectNameTooLong));
    assert_eq!(check_one(route(1, &"\u{e9}".repeat(512))), Ok(()));
    assert_eq!(check_one(route(1, &"\u{e9}".repeat(513))), Err(ConfigError::ObjectNameTooLong));
    assert_eq!(
        check_one(TcpIngress { startup_path: "start".to_string(), ..route(1, "a") }),
        Err(ConfigError::StartupPath)
    );
    for (millis, limit, good) in [
        (1, 1, true),
        (300_000, 65_536, true),
        (0, 1, false),
        (300_001, 1, false),
        (1, 0, false),
        (1, 65_537, false),
    ] {
        let checked = check_one(TcpIngress { connect_timeout_ms: millis, max_connections: limit, ..route(1, "a") });
        assert_eq!(checked, if good { Ok(()) } else { Err(ConfigError::Limits) });
    }
    assert_eq!(
        check_routes(&[route(1, "a"), route(1, "b")], &classes()),
        Err(ConfigError::DuplicateListenPort(1))
    );
    assert_eq!(check_routes(&[route(1, "a"), route(2, "a")], &classes()), Err(ConfigError::DuplicateTarget));
    let other_hook = TcpIngress { startup_path: "/missing-hook".to_string(), ..route(2, "a") };
    assert_eq!(check_routes(&[route(1, "a"), other_hook], &classes()), Ok(()));
    let other_port = TcpIngress { container_port: 7002, ..route(2, "a") };
    assert_eq!(check_routes(&[route(1, "a"), other_port], &classes()), Ok(()));
}

#[test]
fn the_first_fault_is_reported() {
    let late = TcpIngress { max_connections: 0, ..route(1, "a") };
    assert_eq!(check_routes(&[late, route(0, "b")], &classes()), Err(ConfigError::Limits));
    let both = TcpIngress { max_connections: 0, startup_path: "x".to_string(), ..route(1, "a") };
    assert_eq!(check_one(both), Err(ConfigError::StartupPath));
}

#[test]
fn startup_paths_are_absolute_and_clean() {
    for path in ["/", "/start-tcp", "/a/b", "/a//b", "/\u{e9}", "/a%3Fb"] {
        assert!(startup_path_is_valid(path), "{path:?}");
    }
    for path in ["", "a", "//", "//a", "/a?b", "/a#b", "/a\\b", "/a\nb", "/\u{7f}", "/\u{9f}", "/\u{80}"] {
        assert!(!startup_path_is_valid(path), "{path:?}");
    }
    assert!(startup_path_is_valid(&format!("/{}", "a".repeat(4095))));
    assert!(!startup_path_is_valid(&format!("/{}", "a".repeat(4096))));
}

#[test]
fn control_characters_are_those_of_unicode() {
    for code in 0..0x3000u32 {
        if let Some(c) = char::from_u32(code) {
            assert_eq!(is_control(c), c.is_control(), "{code}");
        }
    }
}

#[test]
fn faults_are_reported_in_words() {
    assert_eq!(ConfigError::Malformed.message(), None);
    for (error, words) in [
        (ConfigError::ZeroPort, "TCP ports must be nonzero"),
        (
            ConfigError::NotAContainer("a\"b".to_string()),
            "TCP class \"a\\\"b\" must declare a container",
        ),
        (ConfigError::ObjectNameTooLong, "TCP object_name exceeds 1024 bytes"),
        (
            ConfigError::StartupPath,
            "TCP startup_path must be an absolute path without query or fragment (at most 4096 bytes)",
        ),
        (
            ConfigError::Limits,
            "TCP connect_timeout_ms must be 1..=300000 and max_connections 1..=65536",
        ),
        (ConfigError::DuplicateListenPort(4543), "duplicate TCP listen_port 4543"),
        (ConfigError::DuplicateTarget, "duplicate TCP target"),
    ] {
        assert_eq!(error.message(), Some(words.to_string()));
    }
}

#[test]
fn chosen_routes_stay_acceptable() {
    let routes = [route(1, "a"), route(2, "b"), route(3, "c")];
    let more = vec!["New".to_string(), "Other".to_string(), "EchoContainer".to_string()];
    for places in [vec![2, 0], vec![1], vec![2, 1, 0], vec![]] {
        let chosen: Vec<TcpIngress> = places.into_iter().map(|place: usize| routes[place].clone()).collect();
        assert_eq!(check_routes(&chosen, &classes()), Ok(()));
        assert_eq!(check_routes(&chosen, &more), Ok(()));
    }
}

#[test]
fn numbers_are_written_in_decimal() {
    for number in [0u64, 7, 10, 204, 65_535, 1_000_000, u64::MAX] {
        assert_eq!(decimal(number), number.to_string());
    }
}

#[test]
fn copies_are_equal() {
    assert_eq!(route(5, "x").clone(), route(5, "x"));
}
