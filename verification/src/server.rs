use vstd::prelude::*;
use crate::command::Command;
use crate::header::ServerHeader;
use crate::numeral::{i32_text, int_text};
use crate::table::{lists, UserTable};
use crate::user::{announced, User};

verus! {

/// A datagram to send: the address and port it goes to, and the command it
/// carries.
pub type Packet = (String, u16, Command);

/// The source of user ids: each id handed out is the one before plus one,
/// starting at 0.
#[derive(Debug)]
pub struct IdCounter {
    next: i32,
}

impl IdCounter {
    /// The id that will be handed out next.
    pub closed spec fn value(&self) -> i32 {
        self.next
    }

    /// A counter that hands out 0 first.
    pub fn new() -> (c: IdCounter)
        ensures
            c.value() == 0,
    {
        IdCounter { next: 0 }
    }

    /// The id that will be handed out next.
    pub fn peek(&self) -> (id: i32)
        ensures
            id == self.value(),
    {
        self.next
    }

    /// Hands out the next id.
    pub fn take(&mut self) -> (id: i32)
        requires
            old(self).value() < i32::MAX,
        ensures
            id == old(self).value(),
            final(self).value() == old(self).value() + 1,
    {
        let id = self.next;
        self.next = self.next + 1;
        id
    }
}

/// Every id in `users` is one that a counter now at `next` has handed out.
pub open spec fn registered_below(users: Map<i32, User>, next: int) -> bool {
    forall|id: i32| #[trigger] users.contains_key(id) ==> 0 <= id < next
}

/// The main server: what it knows of itself and the users it has
/// registered.
#[derive(Debug)]
pub struct MainServer {
    pub header: ServerHeader,
    pub users: UserTable,
}

impl MainServer {
    /// A server that receives on `addr:recv_port`, sends from
    /// `addr:send_port`, and knows no users.
    pub fn new(addr: String, recv_port: u16, send_port: u16) -> (s: MainServer)
        ensures
            s.header.id is None,
            s.header.recv == (addr, recv_port),
            s.header.send == (addr, send_port),
            s.users.entries() == Map::<i32, User>::empty(),
    {
        MainServer { header: ServerHeader::with_endpoints(addr, recv_port, send_port), users: UserTable::new() }
    }

    /// Registers `user` under the next id.
    pub fn connect_user(&mut self, counter: &mut IdCounter, user: User)
        requires
            old(counter).value() < i32::MAX,
        ensures
            final(counter).value() == old(counter).value() + 1,
            final(self).users.entries() == old(self).users.entries().insert(old(counter).value(), user),
            final(self).header == old(self).header,
    {
        let user_id = counter.take();
        self.users.insert(user_id, user);
    }

    /// Forgets the user under `user_id`, if there is one.
    pub fn disconnect_user(&mut self, user_id: i32)
        ensures
            final(self).users.entries() == old(self).users.entries().remove(user_id),
            final(self).header == old(self).header,
    {
        self.users.remove(user_id);
    }
}

/// Registering a user under the counter's next id keeps every registered user
/// where it was and keeps all ids below the advanced counter; forgetting that
/// id afterwards gives back the table as it was.
pub proof fn law_register_then_forget(users: Map<i32, User>, next: i32, user: User)
    requires
        registered_below(users, next as int),
        0 <= next < i32::MAX,
    ensures
        !users.contains_key(next),
        registered_below(users.insert(next, user), next + 1),
        forall|id: i32| #[trigger] users.contains_key(id) ==> users.insert(next, user)[id] == users[id],
        users.insert(next, user).remove(next) == users,
{
    assert(users.insert(next, user).remove(next) =~= users);
}

/// Forgetting a user keeps all ids below the counter.
pub proof fn law_forget_keeps_ids(users: Map<i32, User>, next: i32, id: i32)
    requires
        registered_below(users, next as int),
    ensures
        registered_below(users.remove(id), next as int),
{
}

/// `c` is the `Connect` that announces `u` under the id `id`: the user's
/// endpoints, no password, and the id's decimal text as `add_info`.
pub open spec fn announces(c: Command, u: User, id: i32) -> bool {
    c matches Command::Connect { addr_recv, addr_send, password, add_info }
        && addr_recv == u.recv_endpoint() && addr_send == u.send_endpoint() && !password
        && add_info@ == int_text(id as int)
}

/// `p` tells the peer at `dest` about every user of `users`, one packet per
/// user, in some order of the users.
pub open spec fn table_packets(p: Seq<Packet>, users: Map<i32, User>, dest: (String, u16)) -> bool {
    exists|s: Seq<(i32, User)>|
        #![trigger lists(s, users)]
        lists(s, users) && p.len() == s.len() && forall|i: int|
            0 <= i < p.len() ==> (#[trigger] p[i]).0 == dest.0 && p[i].1 == dest.1 && announces(
                p[i].2,
                s[i].1,
                s[i].0,
            )
}

/// `p` tells every user of `users`, at the endpoint it receives on, about the
/// user under `id`, one packet per user, in some order of the users.
pub open spec fn notice_packets(p: Seq<Packet>, users: Map<i32, User>, id: i32) -> bool {
    exists|s: Seq<(i32, User)>|
        #![trigger lists(s, users)]
        lists(s, users) && p.len() == s.len() && forall|i: int|
            0 <= i < p.len() ==> ((#[trigger] p[i]).0, p[i].1) == s[i].1.recv_endpoint() && announces(
                p[i].2,
                users[id],
                id,
            )
}

/// The `Connect` that announces `u` under `id`.
fn announcement(u: &User, id: i32) -> (c: Command)
    ensures
        announces(c, *u, id),
{
    let template = Command::Connect {
        addr_recv: (String::new(), 0),
        addr_send: (String::new(), 0),
        password: false,
        add_info: String::new(),
    };
    let text = i32_text(id);
    match u.to_command(template, text) {
        Ok(c) => c,
        Err(_) => {
            assert(false);
            Command::Disconnect { addr: String::new(), port: 0 }
        },
    }
}

/// What the main server's receive handler does with a command.
pub enum RecvAction {
    /// Send these packets, in this order.
    Send(Vec<Packet>),
    /// Show the users the handler knows.
    ShowUsers,
}

/// The receive handler of the main server: the users it has registered.
#[derive(Debug)]
pub struct MyRecvHandler {
    pub users: UserTable,
}

impl MyRecvHandler {
    /// A handler that knows no users.
    pub fn new() -> (h: MyRecvHandler)
        ensures
            h.users.entries() == Map::<i32, User>::empty(),
    {
        MyRecvHandler { users: UserTable::new() }
    }

    /// Every registered user, each once, for showing.
    pub fn show_users(&self) -> (res: Vec<(i32, User)>)
        ensures
            lists(res@, self.users.entries()),
    {
        self.users.snapshot()
    }

    /// The packets that tell every registered user about the user under
    /// `new_user_id`.
    pub fn notify(&self, new_user_id: i32) -> (res: Vec<Packet>)
        requires
            self.users.entries().contains_key(new_user_id),
        ensures
            notice_packets(res@, self.users.entries(), new_user_id),
    {
        let ghost m = self.users.entries();
        let all = self.users.snapshot();
        let mut res: Vec<Packet> = Vec::new();
        let mut new_user: Option<&User> = None;
        let mut k: usize = 0;
        while k < all.len()
            invariant
                k <= all.len(),
                lists(all@, m),
                new_user matches Some(u) ==> *u == m[new_user_id],
                new_user is None ==> forall|i: int| 0 <= i < k ==> all@[i].0 != new_user_id,
            decreases all.len() - k,
        {
            if all[k].0 == new_user_id {
                new_user = Some(&all[k].1);
            }
            k = k + 1;
        }
        let new_user = match new_user {
            Some(u) => u,
            None => {
                proof {
                    let i = choose|i: int| 0 <= i < all@.len() && #[trigger] all@[i].0 == new_user_id;
                }
                return res;
            },
        };
        let mut i: usize = 0;
        while i < all.len()
            invariant
                i <= all.len(),
                lists(all@, m),
                *new_user == m[new_user_id],
                res.len() == i,
                forall|j: int|
                    0 <= j < i ==> ((#[trigger] res@[j]).0, res@[j].1) == all@[j].1.recv_endpoint()
                        && announces(res@[j].2, m[new_user_id], new_user_id),
            decreases all.len() - i,
        {
            let dest = all[i].1.get_recv_addr();
            let c = announcement(new_user, new_user_id);
            res.push((dest.0, dest.1, c));
            i = i + 1;
        }
        assert(lists(all@, m));
        res
    }

    /// The packets that tell the peer `new_user` about every registered user.
    pub fn send_table(&self, new_user: &(User, String)) -> (res: Vec<Packet>)
        ensures
            table_packets(res@, self.users.entries(), new_user.0.recv_endpoint()),
    {
        let ghost m = self.users.entries();
        let all = self.users.snapshot();
        let dest = new_user.0.get_recv_addr();
        let mut res: Vec<Packet> = Vec::new();
        let mut i: usize = 0;
        while i < all.len()
            invariant
                i <= all.len(),
                lists(all@, m),
                dest == new_user.0.recv_endpoint(),
                res.len() == i,
                forall|j: int|
                    0 <= j < i ==> (#[trigger] res@[j]).0 == dest.0 && res@[j].1 == dest.1
                        && announces(res@[j].2, all@[j].1, all@[j].0),
            decreases all.len() - i,
        {
            let c = announcement(&all[i].1, all[i].0);
            res.push((dest.0.clone(), dest.1, c));
            i = i + 1;
        }
        assert(lists(all@, m));
        res
    }

    /// Handles a command that arrived: a `Connect` registers the peer it
    /// announces under the next id, after telling it about every user
    /// registered before, and then tells every user, the new one included,
    /// about it; a `Disconnect` asks to show the users. A `Message` is not for
    /// this handler.
    pub fn on_recv(&mut self, counter: &mut IdCounter, cmd: Command) -> (res: RecvAction)
        requires
            !(cmd is Message),
            cmd is Connect ==> old(counter).value() < i32::MAX,
        ensures
            cmd is Disconnect ==> {
                &&& res is ShowUsers
                &&& final(self).users.entries() == old(self).users.entries()
                &&& final(counter).value() == old(counter).value()
            },
            cmd is Connect ==> {
                let id = old(counter).value();
                let before = old(self).users.entries();
                let after = final(self).users.entries();
                &&& final(counter).value() == id + 1
                &&& after.contains_key(id)
                &&& announced(cmd) matches Ok((r, s, _)) && after[id].recv_endpoint() == r
                    && after[id].send_endpoint() == s
                &&& after == before.insert(id, after[id])
                &&& res matches RecvAction::Send(p) && p@.len() == before.len() + after.len()
                    && table_packets(p@.take(before.len() as int), before, after[id].recv_endpoint())
                    && notice_packets(p@.skip(before.len() as int), after, id)
            },
    {
        match cmd {
            Command::Connect { .. } => {
                let user = match User::from_command(cmd) {
                    Ok(user) => user,
                    Err(_) => {
                        assert(false);
                        return RecvAction::ShowUsers;
                    },
                };
                let ghost before = self.users.entries();
                let mut out = self.send_table(&user);
                let id = counter.take();
                self.users.insert(id, user.0);
                let notes = self.notify(id);
                let ghost table = out@;
                let mut notes = notes;
                let ghost noted = notes@;
                out.append(&mut notes);
                proof {
                    lemma_table_len(table, before, self.users.entries()[id].recv_endpoint());
                    assert(out@.take(before.len() as int) =~= table);
                    assert(out@.skip(before.len() as int) =~= noted);
                }
                RecvAction::Send(out)
            },
            _ => RecvAction::ShowUsers,
        }
    }
}

proof fn lemma_table_len(p: Seq<Packet>, users: Map<i32, User>, dest: (String, u16))
    requires
        table_packets(p, users, dest),
    ensures
        p.len() == users.len(),
{
    let s = choose|s: Seq<(i32, User)>|
        #![trigger lists(s, users)]
        lists(s, users) && p.len() == s.len() && forall|i: int|
            0 <= i < p.len() ==> (#[trigger] p[i]).0 == dest.0 && p[i].1 == dest.1 && announces(
                p[i].2,
                s[i].1,
                s[i].0,
            );
}

} // verus!
