use vstd::prelude::*;
use crate::command::Command;
use crate::error::CustomError;

verus! {

/// A peer known to a server: the endpoint it receives on and the endpoint it
/// sends from.
#[derive(Debug)]
pub struct User {
    addr_recv: (String, u16),
    addr_send: (String, u16),
}

/// The command that announces `u` with the text `add_info`.
pub open spec fn connect_command(u: User, add_info: String) -> Command {
    Command::Connect {
        addr_recv: u.recv_endpoint(),
        addr_send: u.send_endpoint(),
        password: false,
        add_info,
    }
}

/// What a command announces: the receiving and sending endpoints and the
/// text of a `Connect`; any other command announces nobody.
pub open spec fn announced(cmd: Command) -> Result<((String, u16), (String, u16), String), CustomError> {
    match cmd {
        Command::Connect { addr_recv, addr_send, add_info, .. } => Ok((addr_recv, addr_send, add_info)),
        _ => Err(CustomError::InvalidCommand),
    }
}

impl User {
    /// The endpoint the user receives on.
    pub closed spec fn recv_endpoint(self) -> (String, u16) {
        self.addr_recv
    }

    /// The endpoint the user sends from.
    pub closed spec fn send_endpoint(self) -> (String, u16) {
        self.addr_send
    }

    /// Two users with the same endpoints are the same user.
    pub proof fn lemma_same_endpoints(a: User, b: User)
        requires
            a.recv_endpoint() == b.recv_endpoint(),
            a.send_endpoint() == b.send_endpoint(),
        ensures
            a == b,
    {
    }

    /// A user on the unspecified address `0.0.0.0`, port 0, for both endpoints.
    pub fn new() -> (u: User)
        ensures
            u.recv_endpoint().0@ == "0.0.0.0"@,
            u.recv_endpoint().1 == 0,
            u.send_endpoint().0@ == "0.0.0.0"@,
            u.send_endpoint().1 == 0,
    {
        User { addr_send: ("0.0.0.0".to_owned(), 0), addr_recv: ("0.0.0.0".to_owned(), 0) }
    }

    /// A user with the given endpoints.
    pub fn new_from(addr_recv: (String, u16), addr_send: (String, u16)) -> (u: User)
        ensures
            u.recv_endpoint() == addr_recv,
            u.send_endpoint() == addr_send,
    {
        User { addr_recv, addr_send }
    }

    /// The user that a `Connect` command announces, with the command's
    /// `add_info`; any other command is refused as `InvalidCommand`.
    pub fn from_command(cmd: Command) -> (res: Result<(User, String), CustomError>)
        ensures
            match announced(cmd) {
                Ok((r, s, text)) => res matches Ok((u, info)) && u.recv_endpoint() == r
                    && u.send_endpoint() == s && info == text,
                Err(e) => res == Err::<(User, String), CustomError>(e),
            },
    {
        match cmd {
            Command::Connect { addr_recv, addr_send, password: _, add_info } => {
                Ok((User::new_from(addr_recv, addr_send), add_info))
            },
            _ => Err(CustomError::InvalidCommand),
        }
    }

    /// Turns a `Connect` command into one that announces this user, with
    /// `add_info` and no password; any other command is refused as
    /// `FailedConverting`.
    pub fn to_command(&self, cmd: Command, add_info: String) -> (res: Result<Command, CustomError>)
        ensures
            cmd is Connect ==> res == Ok::<Command, CustomError>(connect_command(*self, add_info)),
            !(cmd is Connect) ==> res == Err::<Command, CustomError>(CustomError::FailedConverting),
    {
        match cmd {
            Command::Connect { .. } => Ok(
                Command::Connect {
                    addr_recv: self.get_recv_addr(),
                    addr_send: self.get_send_addr(),
                    password: false,
                    add_info,
                },
            ),
            _ => Err(CustomError::FailedConverting),
        }
    }

    /// A copy of the endpoint the user receives on.
    pub fn get_recv_addr(&self) -> (res: (String, u16))
        ensures
            res == self.recv_endpoint(),
    {
        (self.addr_recv.0.clone(), self.addr_recv.1)
    }

    /// A copy of the endpoint the user sends from.
    pub fn get_send_addr(&self) -> (res: (String, u16))
        ensures
            res == self.send_endpoint(),
    {
        (self.addr_send.0.clone(), self.addr_send.1)
    }
}

impl Clone for User {
    fn clone(&self) -> (res: Self)
        ensures
            res == *self,
    {
        User { addr_recv: self.get_recv_addr(), addr_send: self.get_send_addr() }
    }
}

/// Reading back the announcement of a user gives that user's endpoints and
/// the same text.
pub proof fn law_announce_then_read(u: User, add_info: String)
    ensures
        announced(connect_command(u, add_info)) == Ok::<
            ((String, u16), (String, u16), String),
            CustomError,
        >((u.recv_endpoint(), u.send_endpoint(), add_info)),
{
}

/// Announcing again the user that a password-free `Connect` announces, with
/// its text, gives back that command.
pub proof fn law_read_then_announce(cmd: Command, u: User)
    requires
        cmd matches Command::Connect { password, .. } && !password,
        announced(cmd) matches Ok((r, s, _)) && u.recv_endpoint() == r && u.send_endpoint() == s,
    ensures
        announced(cmd) matches Ok((_, _, text)) && connect_command(u, text) == cmd,
{
}

} // verus!
