use peerchat::command::{Command, MessageD};
use peerchat::error::CustomError;
use peerchat::user::User;

fn connect(recv: (&str, u16), send: (&str, u16), password: bool, info: &str) -> Command {
    Command::Connect {
        addr_recv: (recv.0.to_string(), recv.1),
        addr_send: (send.0.to_string(), send.1),
        password,
        add_info: info.to_string(),
    }
}

#[test]
fn error_messages() {
    assert_eq!(CustomError::InvalidCommand.message(), "Invalid Command, kys");
    assert_eq!(CustomError::FailedConverting.message(), "FailedConverting, loh");
    assert_eq!(
        CustomError::FailedToChangeHandler.message(),
        "The server's handler function was already initialized"
    );
    assert_eq!(CustomError::NoUserWithThisId.message(), "WTF??");
}

#[test]
fn new_user_is_unspecified_address() {
    let u = User::new();
    assert_eq!(u.get_recv_addr(), ("0.0.0.0".to_string(), 0));
    assert_eq!(u.get_send_addr(), ("0.0.0.0".to_string(), 0));
}

#[test]
fn new_from_keeps_endpoints() {
    let u = User::new_from(("10.0.0.1".to_string(), 8090), ("10.0.0.1".to_string(), 8091));
    assert_eq!(u.get_recv_addr(), ("10.0.0.1".to_string(), 8090));
    assert_eq!(u.get_send_addr(), ("10.0.0.1".to_string(), 8091));
    let c = u.clone();
    assert_eq!(c.get_recv_addr(), u.get_recv_addr());
    assert_eq!(c.get_send_addr(), u.get_send_addr());
}

#[test]
fn from_command_reads_connect() {
    let (u, info) = User::from_command(connect(("1.2.3.4", 5), ("6.7.8.9", 10), true, "hi")).unwrap();
    assert_eq!(u.get_recv_addr(), ("1.2.3.4".to_string(), 5));
    assert_eq!(u.get_send_addr(), ("6.7.8.9".to_string(), 10));
    assert_eq!(info, "hi");
}

#[test]
fn from_command_refuses_other_commands() {
    let d = Command::Disconnect { addr: "x".to_string(), port: 1 };
    assert_eq!(User::from_command(d).unwrap_err(), CustomError::InvalidCommand);
    let m = Command::Message { id: 3, data: MessageD::Text { message: "m".to_string() } };
    assert_eq!(User::from_command(m).unwrap_err(), CustomError::InvalidCommand);
}

#[test]
fn to_command_announces_user() {
    let u = User::new_from(("a".to_string(), 1), ("b".to_string(), 2));
    let c = u.to_command(connect(("", 0), ("", 0), true, "old"), "7".to_string()).unwrap();
    assert_eq!(c, connect(("a", 1), ("b", 2), false, "7"));
}

#[test]
fn to_command_refuses_other_commands() {
    let u = User::new();
    let d = Command::Disconnect { addr: String::new(), port: 0 };
    assert_eq!(u.to_command(d, String::new()).unwrap_err(), CustomError::FailedConverting);
    let m = Command::Message { id: 0, data: MessageD::Text { message: String::new() } };
    assert_eq!(u.to_command(m, String::new()).unwrap_err(), CustomError::FailedConverting);
}

#[test]
fn announce_then_read_round_trip() {
    let u = User::new_from(("192.168.0.2".to_string(), 4000), ("192.168.0.2".to_string(), 4001));
    let c = u.to_command(connect(("", 0), ("", 0), false, ""), "12".to_string()).unwrap();
    let (back, info) = User::from_command(c).unwrap();
    assert_eq!(back.get_recv_addr(), u.get_recv_addr());
    assert_eq!(back.get_send_addr(), u.get_send_addr());
    assert_eq!(info, "12");
}

#[test]
fn read_then_announce_round_trip() {
    let original = connect(("h", 9), ("k", 11), false, "note");
    let (u, info) = User::from_command(original.clone()).unwrap();
    let again = u.to_command(connect(("", 0), ("", 0), false, ""), info).unwrap();
    assert_eq!(again, original);
}

#[test]
fn command_clone_is_equal() {
    let c = connect(("h", 9), ("k", 11), true, "note");
    assert_eq!(c.clone(), c);
    let m = Command::Message { id: -4, data: MessageD::Text { message: "x".to_string() } };
    assert_eq!(m.clone(), m);
}
