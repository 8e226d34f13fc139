use peerchat::client::{flood_batch, Client, SendObj};
use peerchat::command::{Command, MessageD};
use peerchat::error::CustomError;
use peerchat::header::ServerHeader;
use peerchat::server::{IdCounter, MainServer, MyRecvHandler, RecvAction};
use peerchat::table::UserTable;
use peerchat::user::User;

fn user(addr: &str, port: u16) -> User {
    User::new_from((addr.to_string(), port), (addr.to_string(), port + 1))
}

fn connect_for(addr: &str, port: u16, info: &str) -> Command {
    Command::Connect {
        addr_recv: (addr.to_string(), port),
        addr_send: (addr.to_string(), port + 1),
        password: false,
        add_info: info.to_string(),
    }
}

fn sorted(mut p: Vec<(String, u16, Command)>) -> Vec<(String, u16, String)> {
    let mut out: Vec<(String, u16, String)> = p
        .drain(..)
        .map(|(a, port, c)| (a, port, format!("{:?}", c)))
        .collect();
    out.sort();
    out
}

#[test]
fn header_defaults() {
    let h = ServerHeader::new();
    assert_eq!(h.id, None);
    assert_eq!(h.recv, (String::new(), 0));
    assert_eq!(h.send, (String::new(), 1));
    let h = ServerHeader::with_endpoints("127.0.0.1".to_string(), 8090, 8091);
    assert_eq!(h.id, None);
    assert_eq!(h.recv, ("127.0.0.1".to_string(), 8090));
    assert_eq!(h.send, ("127.0.0.1".to_string(), 8091));
}

#[test]
fn header_message_command() {
    let mut h = ServerHeader::new();
    assert_eq!(h.message_command("hi".to_string()), None);
    h.id = Some(5);
    assert_eq!(
        h.message_command("hi".to_string()),
        Some(Command::Message { id: 5, data: MessageD::Text { message: "hi".to_string() } })
    );
}

#[test]
fn user_table_operations() {
    let mut t = UserTable::new();
    assert_eq!(t.len(), 0);
    t.insert(3, user("a", 10));
    t.insert(-1, user("s", 20));
    assert_eq!(t.len(), 2);
    assert_eq!(t.recv_addr_of(3), Some(("a".to_string(), 10)));
    assert_eq!(t.recv_addr_of(4), None);
    t.insert(3, user("b", 30));
    assert_eq!(t.recv_addr_of(3), Some(("b".to_string(), 30)));
    let mut ids: Vec<i32> = t.snapshot().iter().map(|(id, _)| *id).collect();
    ids.sort();
    assert_eq!(ids, vec![-1, 3]);
    t.remove(3);
    assert_eq!(t.recv_addr_of(3), None);
    assert_eq!(t.len(), 1);
    t.remove(99);
    assert_eq!(t.len(), 1);
}

#[test]
fn counter_hands_out_consecutive_ids() {
    let mut c = IdCounter::new();
    assert_eq!(c.peek(), 0);
    assert_eq!(c.take(), 0);
    assert_eq!(c.take(), 1);
    assert_eq!(c.peek(), 2);
}

#[test]
fn main_server_registers_and_forgets() {
    let mut s = MainServer::new("127.0.0.1".to_string(), 8090, 8091);
    assert_eq!(s.header.recv, ("127.0.0.1".to_string(), 8090));
    assert_eq!(s.header.send, ("127.0.0.1".to_string(), 8091));
    let mut c = IdCounter::new();
    s.connect_user(&mut c, user("a", 1));
    s.connect_user(&mut c, user("b", 2));
    assert_eq!(s.users.recv_addr_of(0), Some(("a".to_string(), 1)));
    assert_eq!(s.users.recv_addr_of(1), Some(("b".to_string(), 2)));
    s.disconnect_user(0);
    assert_eq!(s.users.recv_addr_of(0), None);
    assert_eq!(s.users.len(), 1);
}

#[test]
fn first_connect_is_told_only_about_itself() {
    let mut h = MyRecvHandler::new();
    let mut c = IdCounter::new();
    match h.on_recv(&mut c, connect_for("10.0.0.1", 5000, "")) {
        RecvAction::Send(p) => {
            assert_eq!(p, vec![("10.0.0.1".to_string(), 5000, connect_for("10.0.0.1", 5000, "0"))]);
        }
        RecvAction::ShowUsers => panic!("expected packets"),
    }
    assert_eq!(c.peek(), 1);
    assert_eq!(h.users.recv_addr_of(0), Some(("10.0.0.1".to_string(), 5000)));
}

#[test]
fn second_connect_gets_table_then_everyone_is_told() {
    let mut h = MyRecvHandler::new();
    let mut c = IdCounter::new();
    h.on_recv(&mut c, connect_for("10.0.0.1", 5000, ""));
    match h.on_recv(&mut c, connect_for("10.0.0.2", 6000, "ignored")) {
        RecvAction::Send(p) => {
            assert_eq!(p.len(), 3);
            assert_eq!(p[0], ("10.0.0.2".to_string(), 6000, connect_for("10.0.0.1", 5000, "0")));
            let notices = sorted(p[1..].to_vec());
            let expected = sorted(vec![
                ("10.0.0.1".to_string(), 5000, connect_for("10.0.0.2", 6000, "1")),
                ("10.0.0.2".to_string(), 6000, connect_for("10.0.0.2", 6000, "1")),
            ]);
            assert_eq!(notices, expected);
        }
        RecvAction::ShowUsers => panic!("expected packets"),
    }
    assert_eq!(h.users.len(), 2);
    assert_eq!(c.peek(), 2);
}

#[test]
fn disconnect_shows_users() {
    let mut h = MyRecvHandler::new();
    let mut c = IdCounter::new();
    h.on_recv(&mut c, connect_for("10.0.0.1", 5000, ""));
    let d = Command::Disconnect { addr: String::new(), port: 0 };
    assert!(matches!(h.on_recv(&mut c, d), RecvAction::ShowUsers));
    assert_eq!(h.users.len(), 1);
    assert_eq!(c.peek(), 1);
    let shown = h.show_users();
    assert_eq!(shown.len(), 1);
    assert_eq!(shown[0].0, 0);
    assert_eq!(shown[0].1.get_recv_addr(), ("10.0.0.1".to_string(), 5000));
}

#[test]
fn notify_and_send_table_directly() {
    let mut h = MyRecvHandler::new();
    h.users.insert(7, user("x", 70));
    h.users.insert(-3, user("y", 80));
    let note = sorted(h.notify(7));
    assert_eq!(
        note,
        sorted(vec![
            ("x".to_string(), 70, connect_for("x", 70, "7")),
            ("y".to_string(), 80, connect_for("x", 70, "7")),
        ])
    );
    let newcomer = (user("z", 90), "z-info".to_string());
    let table = sorted(h.send_table(&newcomer));
    assert_eq!(
        table,
        sorted(vec![
            ("z".to_string(), 90, connect_for("x", 70, "7")),
            ("z".to_string(), 90, connect_for("y", 80, "-3")),
        ])
    );
    let empty = MyRecvHandler::new();
    assert!(empty.send_table(&newcomer).is_empty());
}

#[test]
fn client_reaches_main_server_after_connecting() {
    let mut cl = Client::new("10.10.15.128".to_string(), 7000, 7001);
    let ms = user("10.10.15.1", 8090);
    let p = cl.connect_main_server(ms).unwrap();
    assert_eq!(
        p,
        (
            "10.10.15.1".to_string(),
            8090,
            Command::Connect {
                addr_recv: ("10.10.15.128".to_string(), 7000),
                addr_send: ("10.10.15.128".to_string(), 7001),
                password: false,
                add_info: String::new(),
            }
        )
    );
    let d = Command::Disconnect { addr: String::new(), port: 0 };
    assert_eq!(cl.send(SendObj::SERVER, d.clone()), Ok(("10.10.15.1".to_string(), 8090, d.clone())));
    assert_eq!(cl.send(SendObj::CLIENT(-1), d.clone()), Ok(("10.10.15.1".to_string(), 8090, d)));
}

#[test]
fn client_send_to_unknown_peer_fails() {
    let cl = Client::new("h".to_string(), 1, 2);
    let d = Command::Disconnect { addr: String::new(), port: 0 };
    assert_eq!(cl.send(SendObj::SERVER, d.clone()), Err(CustomError::NoUserWithThisId));
    assert_eq!(cl.send(SendObj::CLIENT(4), d), Err(CustomError::NoUserWithThisId));
}

#[test]
fn client_registers_and_forgets_peers() {
    let mut cl = Client::new("h".to_string(), 1, 2);
    let mut c = IdCounter::new();
    cl.connect_user(&mut c, user("p", 3));
    let d = Command::Disconnect { addr: String::new(), port: 0 };
    assert_eq!(cl.send(SendObj::CLIENT(0), d.clone()), Ok(("p".to_string(), 3, d.clone())));
    cl.disconnect_user(0);
    assert_eq!(cl.send(SendObj::CLIENT(0), d), Err(CustomError::NoUserWithThisId));
}

#[test]
fn flood_batch_contents() {
    let b = flood_batch(9);
    assert_eq!(b.len(), 1001);
    for c in &b[..1000] {
        assert_eq!(
            *c,
            Command::Message {
                id: 9,
                data: MessageD::Text { message: "Hello how are you? I am fine btw".to_string() }
            }
        );
    }
    assert_eq!(b[1000], Command::Message { id: 9, data: MessageD::Text { message: "it's the end".to_string() } });
}

#[test]
fn register_then_forget_restores_table() {
    let mut s = MainServer::new("h".to_string(), 1, 2);
    let mut c = IdCounter::new();
    s.connect_user(&mut c, user("a", 10));
    let before: Vec<(i32, (String, u16))> = {
        let mut v: Vec<(i32, (String, u16))> =
            s.users.snapshot().iter().map(|(id, u)| (*id, u.get_recv_addr())).collect();
        v.sort();
        v
    };
    let fresh = c.peek();
    s.connect_user(&mut c, user("b", 20));
    assert_eq!(s.users.recv_addr_of(0), Some(("a".to_string(), 10)));
    s.disconnect_user(fresh);
    let mut after: Vec<(i32, (String, u16))> =
        s.users.snapshot().iter().map(|(id, u)| (*id, u.get_recv_addr())).collect();
    after.sort();
    assert_eq!(after, before);
}
