use peerchat::command::Command;
use peerchat::console::{classify_client_line, parse_ports, parse_server_console_line, ClientInput};
use peerchat::endpoint::{endpoint_text, parse_timeout_target};
use peerchat::socket::{CustomSocket, SocketType};

#[test]
fn endpoint_text_joins_address_and_port() {
    assert_eq!(endpoint_text("127.0.0.1", 8081), "127.0.0.1:8081");
    assert_eq!(endpoint_text("", 0), ":0");
}

#[test]
fn timeout_target_cases() {
    assert_eq!(parse_timeout_target("127.0.0.1:8090|abc"), Some(("127.0.0.1".to_string(), 8090)));
    assert_eq!(parse_timeout_target("10.0.0.2:9"), Some(("10.0.0.2".to_string(), 9)));
    assert_eq!(parse_timeout_target("1.2.3.4:80:9|q"), Some(("1.2.3.4".to_string(), 80)));
    assert_eq!(parse_timeout_target("no-colon|x:1"), None);
    assert_eq!(parse_timeout_target("a:b"), None);
    assert_eq!(parse_timeout_target("a:70000|"), None);
    assert_eq!(parse_timeout_target(""), None);
    assert_eq!(parse_timeout_target(":1"), Some((String::new(), 1)));
}

#[test]
fn timeout_target_reads_endpoint_text() {
    let report = format!("{}|42", endpoint_text("192.168.1.20", 4242));
    assert_eq!(parse_timeout_target(&report), Some(("192.168.1.20".to_string(), 4242)));
}

#[test]
fn ports_from_a_line() {
    assert_eq!(parse_ports("8090 8091\n"), Some((8090, 8091)));
    assert_eq!(parse_ports("  1\t2  3"), Some((1, 2)));
    assert_eq!(parse_ports("1\u{3000}2"), Some((1, 2)));
    assert_eq!(parse_ports("1"), None);
    assert_eq!(parse_ports(""), None);
    assert_eq!(parse_ports("1 x"), None);
    assert_eq!(parse_ports("70000 1"), None);
}

#[test]
fn server_console_connect_line() {
    let c = parse_server_console_line("0127.0.0.1,8090,127.0.0.2,8091").unwrap();
    assert_eq!(
        c,
        Command::Connect {
            addr_recv: ("127.0.0.1".to_string(), 8090),
            addr_send: ("127.0.0.2".to_string(), 8091),
            password: false,
            add_info: String::new(),
        }
    );
    let extra = parse_server_console_line("0a,1,b,2,c").unwrap();
    assert_eq!(
        extra,
        Command::Connect {
            addr_recv: ("a".to_string(), 1),
            addr_send: ("b".to_string(), 2),
            password: false,
            add_info: String::new(),
        }
    );
}

#[test]
fn server_console_other_lines() {
    assert_eq!(
        parse_server_console_line("1"),
        Some(Command::Disconnect { addr: String::new(), port: 0 })
    );
    assert_eq!(
        parse_server_console_line("1 anything"),
        Some(Command::Disconnect { addr: String::new(), port: 0 })
    );
    assert_eq!(parse_server_console_line(""), None);
    assert_eq!(parse_server_console_line("x"), None);
    assert_eq!(parse_server_console_line("0a,b"), None);
    assert_eq!(parse_server_console_line("0a,x,b,2"), None);
    assert_eq!(parse_server_console_line("0a,1,b,"), None);
}

#[test]
fn client_console_lines() {
    assert_eq!(classify_client_line("dis"), Some(ClientInput::Disconnect));
    assert_eq!(classify_client_line("message"), Some(ClientInput::Message));
    assert_eq!(classify_client_line("ht"), Some(ClientInput::ShowTable));
    assert_eq!(classify_client_line("dos"), Some(ClientInput::Flood));
    assert_eq!(classify_client_line("-1"), Some(ClientInput::Select(-1)));
    assert_eq!(classify_client_line("17"), Some(ClientInput::Select(17)));
    assert_eq!(classify_client_line("dis "), None);
    assert_eq!(classify_client_line("hello"), None);
    assert_eq!(classify_client_line(""), None);
}

#[test]
fn socket_recv_check() {
    let recv = CustomSocket::new("0.0.0.0".to_string(), 9000, SocketType::Recv);
    assert_eq!(recv.recv_check(true), Ok(()));
    assert_eq!(recv.recv_check(false), Err("Socket hasn't been created".to_string()));
    let send = CustomSocket::new("0.0.0.0".to_string(), 9001, SocketType::Send);
    assert_eq!(send.recv_check(true), Err("Uncorrect socket type".to_string()));
    assert_eq!(send.recv_check(false), Err("Uncorrect socket type".to_string()));
    assert_eq!(recv.bind_text(), "0.0.0.0:9000");
}
