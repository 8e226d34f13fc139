use vstd::prelude::*;
use crate::command::{Command, MessageD};
use crate::error::CustomError;
use crate::header::ServerHeader;
use crate::server::{IdCounter, Packet};
use crate::table::UserTable;
use crate::user::User;

verus! {

/// Whom a client sends to: the main server, or the peer with the given id.
#[derive(Debug, Clone, Copy, PartialEq, Eq, Structural)]
pub enum SendObj {
    SERVER,
    CLIENT(i32),
}

/// The id under which a client keeps the peer that `o` names; the main
/// server is always under -1.
pub open spec fn target_id(o: SendObj) -> i32 {
    match o {
        SendObj::SERVER => -1i32,
        SendObj::CLIENT(id) => id,
    }
}

/// Where a client sends to reach the peer that `o` names: the endpoint that
/// peer receives on, or `NoUserWithThisId` when the client does not know it.
pub open spec fn route(users: Map<i32, User>, o: SendObj) -> Result<(String, u16), CustomError> {
    if users.contains_key(target_id(o)) {
        Ok(users[target_id(o)].recv_endpoint())
    } else {
        Err(CustomError::NoUserWithThisId)
    }
}

/// A client of the main server: what it knows of itself and the peers it
/// knows, the main server under id -1.
#[derive(Debug)]
pub struct Client {
    pub header: ServerHeader,
    pub users: UserTable,
}

impl Client {
    /// A client that receives on `addr:recv_port`, sends from
    /// `addr:send_port`, and knows no peers.
    pub fn new(addr: String, recv_port: u16, send_port: u16) -> (c: Client)
        ensures
            c.header.id is None,
            c.header.recv == (addr, recv_port),
            c.header.send == (addr, send_port),
            c.users.entries() == Map::<i32, User>::empty(),
    {
        Client { header: ServerHeader::with_endpoints(addr, recv_port, send_port), users: UserTable::new() }
    }

    /// Keeps `ms` as the main server and makes the packet that announces this
    /// client to it: the client's own endpoints, no password and no text.
    pub fn connect_main_server(&mut self, ms: User) -> (res: Result<Packet, CustomError>)
        ensures
            final(self).users.entries() == old(self).users.entries().insert(-1i32, ms),
            final(self).header == old(self).header,
            res is Ok,
            res matches Ok(p) ==> (p.0, p.1) == ms.recv_endpoint() && (p.2 matches Command::Connect {
                addr_recv,
                addr_send,
                password,
                add_info,
            } && addr_recv == old(self).header.recv && addr_send == old(self).header.send && !password
                && add_info@ == Seq::<char>::empty()),
    {
        self.users.insert(-1i32, ms);
        let recv = (self.header.recv.0.clone(), self.header.recv.1);
        let send = (self.header.send.0.clone(), self.header.send.1);
        let command = Command::Connect { addr_recv: recv, addr_send: send, password: false, add_info: String::new() };
        self.send(SendObj::SERVER, command)
    }

    /// Keeps `user` under the next id.
    pub fn connect_user(&mut self, counter: &mut IdCounter, user: User)
        requires
            old(counter).value() < i32::MAX,
        ensures
            final(counter).value() == old(counter).value() + 1,
            final(self).users.entries() == old(self).users.entries().insert(old(counter).value(), user),
            final(self).header == old(self).header,
    {
        let user_id = counter.take();
        self.users.insert(user_id, user);
    }

    /// Forgets the peer under `user_id`, if there is one.
    pub fn disconnect_user(&mut self, user_id: i32)
        ensures
            final(self).users.entries() == old(self).users.entries().remove(user_id),
            final(self).header == old(self).header,
    {
        self.users.remove(user_id);
    }

    /// The packet that carries `cmd` to the peer that `send_obj` names, or
    /// `NoUserWithThisId` when the client does not know that peer.
    pub fn send(&self, send_obj: SendObj, cmd: Command) -> (res: Result<Packet, CustomError>)
        ensures
            match route(self.users.entries(), send_obj) {
                Ok(dest) => res == Ok::<Packet, CustomError>((dest.0, dest.1, cmd)),
                Err(e) => res == Err::<Packet, CustomError>(e),
            },
    {
        let user_id = match send_obj {
            SendObj::SERVER => -1i32,
            SendObj::CLIENT(id) => id,
        };
        match self.users.recv_addr_of(user_id) {
            None => Err(CustomError::NoUserWithThisId),
            Some(dest) => Ok((dest.0, dest.1, cmd)),
        }
    }
}

/// The burst of text messages a client sends under the id `id`: a thousand
/// greetings and then a last message that says it is the end.
pub fn flood_batch(id: u16) -> (res: Vec<Command>)
    ensures
        res.len() == 1001,
        forall|i: int|
            0 <= i < 1000 ==> (#[trigger] res@[i] matches Command::Message { id: to, data: MessageD::Text { message } }
                && to == id as i32 && message@ == "Hello how are you? I am fine btw"@),
        res@[1000] matches Command::Message { id: to, data: MessageD::Text { message } } && to == id as i32
            && message@ == "it's the end"@,
{
    let mut res: Vec<Command> = Vec::new();
    let mut i: usize = 0;
    while i < 1000
        invariant
            i <= 1000,
            res.len() == i,
            forall|j: int|
                0 <= j < i ==> (#[trigger] res@[j] matches Command::Message { id: to, data: MessageD::Text { message } }
                    && to == id as i32 && message@ == "Hello how are you? I am fine btw"@),
        decreases 1000 - i,
    {
        res.push(
            Command::Message {
                id: id as i32,
                data: MessageD::Text { message: "Hello how are you? I am fine btw".to_owned() },
            },
        );
        i = i + 1;
    }
    res.push(Command::Message { id: id as i32, data: MessageD::Text { message: "it's the end".to_owned() } });
    res
}

/// Once a client keeps a main server, sending to the server reaches the
/// endpoint that server receives on.
pub proof fn law_server_reachable(users: Map<i32, User>, ms: User)
    ensures
        route(users.insert(-1i32, ms), SendObj::SERVER) == Ok::<(String, u16), CustomError>(
            ms.recv_endpoint(),
        ),
{
}

/// Once a client keeps a peer under an id, sending to that id reaches the
/// endpoint the peer receives on.
pub proof fn law_registered_reachable(users: Map<i32, User>, id: i32, u: User)
    ensures
        route(users.insert(id, u), SendObj::CLIENT(id)) == Ok::<(String, u16), CustomError>(
            u.recv_endpoint(),
        ),
{
}

/// Once a client forgets a peer, sending to it is refused.
pub proof fn law_forgotten_unreachable(users: Map<i32, User>, id: i32)
    ensures
        route(users.remove(id), SendObj::CLIENT(id)) == Err::<(String, u16), CustomError>(
            CustomError::NoUserWithThisId,
        ),
{
}

} // verus!
