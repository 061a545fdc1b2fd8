use soxy::naming::{virtual_channel_name, Level, NameError, VIRTUAL_CHANNEL_DEFAULT_NAME};
use soxy::service::{lookup, lookup_bytes, services, Kind};

#[test]
fn service_table() {
    let all = services();
    let names: Vec<&str> = all.iter().map(|s| s.name()).collect();
    assert_eq!(names, vec!["clipboard", "command", "forward", "ftp", "input", "socks5", "stage0"]);
    let ports: Vec<u16> = all
        .iter()
        .map(|s| s.frontend().unwrap().tcp().unwrap().default_port)
        .collect();
    assert_eq!(ports, vec![3032, 3031, 0, 2021, 0, 1080, 1082]);
    assert!(!lookup("input").unwrap().backend);
}

#[test]
fn lookup_by_name() {
    let command = lookup("command").unwrap();
    assert_eq!(command.name(), "command");
    assert!(!command.internal());
    assert!(command.backend);
    assert!(lookup("forward").unwrap().internal());
    assert!(!lookup("stage0").unwrap().backend);
    assert!(lookup("bogus").is_none());
    assert!(lookup("Command").is_none());
    assert!(lookup("").is_none());
}

#[test]
fn lookup_by_bytes() {
    assert_eq!(lookup_bytes(b"ftp").unwrap().name(), "ftp");
    assert!(lookup_bytes(b"ftp\0").is_none());
    assert!(lookup_bytes(&[0xff, 0xfe]).is_none());
}

#[test]
fn kinds_differ() {
    assert_ne!(Kind::Backend, Kind::Frontend);
}

#[test]
fn channel_names() {
    assert_eq!(virtual_channel_name(VIRTUAL_CHANNEL_DEFAULT_NAME), Ok([b'S', b'O', b'X', b'Y', 0, 0, 0, 0]));
    assert_eq!(virtual_channel_name("SEVENCH"), Ok(*b"SEVENCH\0"));
    assert_eq!(virtual_channel_name("EIGHTCHR"), Err(NameError::TooLong(8)));
    assert_eq!(virtual_channel_name(""), Ok([0u8; 8]));
}

#[test]
fn log_levels() {
    assert_eq!(Level::parse("warning"), Some(Level::Warn));
    assert_eq!(Level::parse("Warn"), Some(Level::Warn));
    assert_eq!(Level::parse("off"), Some(Level::Off));
    assert_eq!(Level::parse("ERROR"), Some(Level::Error));
    assert_eq!(Level::parse("info"), Some(Level::Info));
    assert_eq!(Level::parse("debug"), Some(Level::Debug));
    assert_eq!(Level::parse("trace"), Some(Level::Trace));
    assert_eq!(Level::parse("verbose"), None);
    assert_eq!(Level::from_upper("warn"), None);
}
