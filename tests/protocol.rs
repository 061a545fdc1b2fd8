use soxy::clipboard;
use soxy::forward;
use soxy::ftp::{BackendMode, ControlCommand, ControlResponse, DataCommand};
use soxy::wire::{deserialize_string, serialize_string, DecodeError};

fn wire_string(s: &str) -> Vec<u8> {
    let mut v = (s.len() as u64).to_le_bytes().to_vec();
    v.extend_from_slice(s.as_bytes());
    v
}

#[test]
fn strings_round_trip() {
    let mut out = Vec::new();
    serialize_string(&mut out, "héllo");
    assert_eq!(out, wire_string("héllo"));
    out.extend_from_slice(b"rest");
    let (s, end) = deserialize_string(&out, 0).unwrap();
    assert_eq!(s, "héllo");
    assert_eq!(end, 14);
}

#[test]
fn strings_incomplete() {
    assert_eq!(deserialize_string(&[3, 0, 0], 0), Err(DecodeError::Incomplete));
    let mut v = wire_string("abc");
    v.pop();
    assert_eq!(deserialize_string(&v, 0), Err(DecodeError::Incomplete));
}

#[test]
fn strings_are_decoded_lossily() {
    let mut v = 2u64.to_le_bytes().to_vec();
    v.extend_from_slice(&[b'a', 0xff]);
    let (s, end) = deserialize_string(&v, 0).unwrap();
    assert_eq!(s, "a\u{FFFD}");
    assert_eq!(end, 10);
}

#[test]
fn clipboard_commands() {
    let mut out = Vec::new();
    clipboard::Command::Read.send(&mut out);
    assert_eq!(out, vec![0x00]);
    let mut out = Vec::new();
    clipboard::Command::WriteText("copy".to_string()).send(&mut out);
    let mut expected = vec![0x01];
    expected.extend(wire_string("copy"));
    assert_eq!(out, expected);
    match clipboard::Command::receive(&out) {
        Ok((clipboard::Command::WriteText(t), n)) => {
            assert_eq!(t, "copy");
            assert_eq!(n, out.len());
        }
        _ => panic!("expected WriteText"),
    }
    assert!(matches!(clipboard::Command::receive(&[0x00, 9]), Ok((clipboard::Command::Read, 1))));
    assert!(matches!(clipboard::Command::receive(&[0x05]), Err(DecodeError::InvalidTag(5))));
    assert!(matches!(clipboard::Command::receive(&[]), Err(DecodeError::Incomplete)));
    assert!(matches!(clipboard::Command::receive(&[0x01, 4, 0]), Err(DecodeError::Incomplete)));
}

#[test]
fn clipboard_responses() {
    let mut out = Vec::new();
    clipboard::Response::Text("pasted".to_string()).send(&mut out);
    clipboard::Response::Failed.send(&mut out);
    clipboard::Response::WriteDone.send(&mut out);
    let (r, n) = clipboard::Response::receive(&out).ok().unwrap();
    match r {
        clipboard::Response::Text(t) => assert_eq!(t, "pasted"),
        _ => panic!("expected Text"),
    }
    assert!(matches!(clipboard::Response::receive(&out[n..]), Ok((clipboard::Response::Failed, 1))));
    assert!(matches!(clipboard::Response::receive(&out[n + 1..]), Ok((clipboard::Response::WriteDone, 1))));
    assert!(matches!(clipboard::Response::receive(&[0x03]), Err(DecodeError::InvalidTag(3))));
}

#[test]
fn forward_messages() {
    let mut out = Vec::new();
    forward::Command::Connect("example.org:443".to_string()).send(&mut out);
    assert_eq!(out[0], 0xF1);
    match forward::Command::receive(&out) {
        Ok((forward::Command::Connect(d), n)) => {
            assert_eq!(d, "example.org:443");
            assert_eq!(n, out.len());
        }
        _ => panic!("expected Connect"),
    }
    assert!(matches!(forward::Command::receive(&[0xF0]), Err(DecodeError::InvalidTag(0xF0))));
    let mut out = Vec::new();
    forward::Response::Connected.send(&mut out);
    forward::Response::Error("refused".to_string()).send(&mut out);
    assert_eq!(out[0], 0xE0);
    assert!(matches!(forward::Response::receive(&out), Ok((forward::Response::Connected, 1))));
    match forward::Response::receive(&out[1..]) {
        Ok((forward::Response::Error(m), n)) => {
            assert_eq!(m, "refused");
            assert_eq!(n, out.len() - 1);
        }
        _ => panic!("expected Error"),
    }
    assert!(matches!(forward::Response::receive(&[]), Err(DecodeError::Incomplete)));
}

#[test]
fn ftp_backend_mode() {
    let mut out = Vec::new();
    BackendMode::Control.send(&mut out);
    BackendMode::Data.send(&mut out);
    assert_eq!(out, vec![0, 1]);
    assert_eq!(BackendMode::receive(&[1]), Ok((BackendMode::Data, 1)));
    assert_eq!(BackendMode::receive(&[0]), Ok((BackendMode::Control, 1)));
    assert_eq!(BackendMode::receive(&[2]), Err(DecodeError::InvalidTag(2)));
    assert_eq!(BackendMode::receive(&[]), Err(DecodeError::Incomplete));
}

#[test]
fn ftp_control_commands() {
    let mut out = Vec::new();
    ControlCommand::Retr("a/b.txt".to_string()).send(&mut out);
    let mut expected = vec![0x0c];
    expected.extend(wire_string("a/b.txt"));
    assert_eq!(out, expected);
    match ControlCommand::receive(&out) {
        Ok((ControlCommand::Retr(p), n)) => {
            assert_eq!(p, "a/b.txt");
            assert_eq!(n, out.len());
        }
        other => panic!("unexpected {other:?}"),
    }
    let mut out = Vec::new();
    ControlCommand::Pwd.send(&mut out);
    assert_eq!(out, vec![0x0a]);
    assert!(matches!(ControlCommand::receive(&out), Ok((ControlCommand::Pwd, 1))));
    assert!(matches!(ControlCommand::receive(&[0x10]), Ok((ControlCommand::User, 1))));
    assert!(matches!(ControlCommand::receive(&[0x11]), Err(DecodeError::InvalidTag(0x11))));
    assert!(matches!(ControlCommand::receive(&[0x01, 1]), Err(DecodeError::Incomplete)));
}

#[test]
fn ftp_control_responses() {
    let mut out = Vec::new();
    ControlResponse::Success(226, Some("done".to_string())).send(&mut out);
    let mut expected = vec![0x00, 226, 0];
    expected.extend(wire_string("done"));
    assert_eq!(out, expected);
    match ControlResponse::receive(&out) {
        Ok((ControlResponse::Success(226, Some(m)), n)) => {
            assert_eq!(m, "done");
            assert_eq!(n, out.len());
        }
        other => panic!("unexpected {other:?}"),
    }
    let mut out = Vec::new();
    ControlResponse::Success(200, None).send(&mut out);
    assert_eq!(out, vec![0x00, 200, 0, 0, 0, 0, 0, 0, 0, 0, 0]);
    assert!(matches!(ControlResponse::receive(&out), Ok((ControlResponse::Success(200, None), 11))));
    let mut out = Vec::new();
    ControlResponse::Error(550).send(&mut out);
    assert_eq!(out, vec![0x01, 0x26, 0x02]);
    assert!(matches!(ControlResponse::receive(&out), Ok((ControlResponse::Error(550), 3))));
    let mut out = Vec::new();
    ControlResponse::Data(DataCommand::Stor("up.bin".to_string())).send(&mut out);
    assert_eq!(out[0], 0x02);
    assert_eq!(out[1], 0x03);
    match ControlResponse::receive(&out) {
        Ok((ControlResponse::Data(DataCommand::Stor(p)), n)) => {
            assert_eq!(p, "up.bin");
            assert_eq!(n, out.len());
        }
        other => panic!("unexpected {other:?}"),
    }
    assert!(matches!(ControlResponse::receive(&[0x05]), Ok((ControlResponse::Pasv, 1))));
    assert!(matches!(ControlResponse::receive(&[0x07]), Err(DecodeError::InvalidTag(7))));
    assert!(matches!(ControlResponse::receive(&[0x01, 1]), Err(DecodeError::Incomplete)));
}

#[test]
fn ftp_data_commands() {
    let mut out = Vec::new();
    DataCommand::List("/".to_string()).send(&mut out);
    assert_eq!(out[0], 0x00);
    match DataCommand::receive(&out) {
        Ok((DataCommand::List(p), n)) => {
            assert_eq!(p, "/");
            assert_eq!(n, 10);
        }
        other => panic!("unexpected {other:?}"),
    }
    assert!(matches!(DataCommand::receive(&[0x04, 0]), Err(DecodeError::InvalidTag(4))));
    assert!(matches!(DataCommand::receive(&[0x01]), Err(DecodeError::Incomplete)));
}

#[test]
fn ftp_client_command_lines() {
    assert!(matches!(soxy::ftp::parse_command("USER anonymous\r\n"), Some(ControlCommand::User)));
    match soxy::ftp::parse_command("cwd /tmp\r\n") {
        Some(ControlCommand::Cwd(p)) => assert_eq!(p, "/tmp"),
        other => panic!("unexpected {other:?}"),
    }
    match soxy::ftp::parse_command("RETR a b\r\n") {
        Some(ControlCommand::Retr(p)) => assert_eq!(p, "a b"),
        other => panic!("unexpected {other:?}"),
    }
    match soxy::ftp::parse_command("size\r\n") {
        Some(ControlCommand::Size(p)) => assert_eq!(p, ""),
        other => panic!("unexpected {other:?}"),
    }
    assert!(matches!(soxy::ftp::parse_command("Pwd\r\n"), Some(ControlCommand::Pwd)));
    assert!(soxy::ftp::parse_command("PWD").is_none());
    assert!(soxy::ftp::parse_command("PWD\n").is_none());
    assert!(soxy::ftp::parse_command("XYZ\r\n").is_none());
    assert!(soxy::ftp::parse_command("\r\n").is_none());
}
