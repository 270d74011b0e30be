//! Connection profiles and the list they are kept in.

use crate::text::str_eq;
use uuid::Uuid;
use vstd::prelude::*;
use vstd::string::*;

verus! {

/// How a profile authenticates.
#[derive(Debug, Clone, Copy, PartialEq, Eq, Structural)]
pub enum AuthType {
    Password,
    KeyFile,
}

/// A named connection profile.
#[derive(Debug, Clone)]
pub struct Connection {
    pub id: String,
    pub name: String,
    pub host: String,
    pub port: u16,
    pub username: String,
    pub auth_type: AuthType,
    pub password: Option<String>,
    pub private_key_path: Option<String>,
    pub passphrase: Option<String>,
}

/// What `Connection` holds, with its strings as character sequences.
pub struct ConnectionView {
    pub id: Seq<char>,
    pub name: Seq<char>,
    pub host: Seq<char>,
    pub port: u16,
    pub username: Seq<char>,
    pub auth_type: AuthType,
    pub password: Option<Seq<char>>,
    pub private_key_path: Option<Seq<char>>,
    pub passphrase: Option<Seq<char>>,
}

/// The characters of an optional string.
pub open spec fn opt_view(s: Option<String>) -> Option<Seq<char>> {
    match s {
        Some(t) => Some(t@),
        None => None,
    }
}

impl View for Connection {
    type V = ConnectionView;

    open spec fn view(&self) -> ConnectionView {
        ConnectionView {
            id: self.id@,
            name: self.name@,
            host: self.host@,
            port: self.port,
            username: self.username@,
            auth_type: self.auth_type,
            password: opt_view(self.password),
            private_key_path: opt_view(self.private_key_path),
            passphrase: opt_view(self.passphrase),
        }
    }
}

/// The length of an identifier in its text form.
pub const ID_LENGTH: usize = 36;

/// Draws a random identifier: calls `Uuid::new_v4` of the uuid crate and
/// formats it, which gives the hyphenated form of 36 characters. Which
/// identifier comes out is left open. The call gives up only where the
/// operating system has no random bytes to offer.
#[verifier::external_body]
pub(crate) fn fresh_id() -> (id: String)
    ensures
        id@.len() == ID_LENGTH,
{
    Uuid::new_v4().to_string()
}

impl Connection {
    /// A profile under the given identifier.
    pub fn with_id(
        id: String,
        name: String,
        host: String,
        port: u16,
        username: String,
        auth_type: AuthType,
        password: Option<String>,
        private_key_path: Option<String>,
        passphrase: Option<String>,
    ) -> (c: Connection)
        ensures
            c@ == (ConnectionView {
                id: id@,
                name: name@,
                host: host@,
                port,
                username: username@,
                auth_type,
                password: opt_view(password),
                private_key_path: opt_view(private_key_path),
                passphrase: opt_view(passphrase),
            }),
    {
        Connection {
            id,
            name,
            host,
            port,
            username,
            auth_type,
            password,
            private_key_path,
            passphrase,
        }
    }

    /// A profile under a freshly drawn identifier.
    pub fn new(
        name: String,
        host: String,
        port: u16,
        username: String,
        auth_type: AuthType,
        password: Option<String>,
        private_key_path: Option<String>,
        passphrase: Option<String>,
    ) -> (c: Connection)
        ensures
            c.id@.len() == ID_LENGTH,
            c@ == (ConnectionView {
                id: c.id@,
                name: name@,
                host: host@,
                port,
                username: username@,
                auth_type,
                password: opt_view(password),
                private_key_path: opt_view(private_key_path),
                passphrase: opt_view(passphrase),
            }),
    {
        Connection::with_id(
            fresh_id(),
            name,
            host,
            port,
            username,
            auth_type,
            password,
            private_key_path,
            passphrase,
        )
    }
}

/// The views of a sequence of profiles.
pub open spec fn connection_views(s: Seq<Connection>) -> Seq<ConnectionView> {
    s.map_values(|c: Connection| c@)
}

/// The index of the first profile with the given identifier, or the length
/// of the sequence where none has it.
pub open spec fn first_with_id(s: Seq<ConnectionView>, id: Seq<char>) -> int
    decreases s.len(),
{
    if s.len() == 0 {
        0
    } else if s[0].id == id {
        0
    } else {
        1 + first_with_id(s.drop_first(), id)
    }
}

/// `first_with_id` is in range, no earlier profile has the identifier, and
/// the profile it points at has it.
pub proof fn law_first_with_id_is_first(s: Seq<ConnectionView>, id: Seq<char>)
    ensures
        0 <= first_with_id(s, id) <= s.len(),
        forall|j: int| 0 <= j < first_with_id(s, id) ==> s[j].id != id,
        first_with_id(s, id) < s.len() ==> s[first_with_id(s, id)].id == id,
    decreases s.len(),
{
    if s.len() > 0 && s[0].id != id {
        let t = s.drop_first();
        law_first_with_id_is_first(t, id);
        assert forall|j: int| 0 <= j < first_with_id(s, id) implies s[j].id != id by {
            if j > 0 {
                assert(t[j - 1] == s[j]);
            }
        }
    }
}

/// The test "has another identifier than `id`".
pub open spec fn other_than(id: Seq<char>) -> spec_fn(ConnectionView) -> bool {
    |c: ConnectionView| c.id != id
}

/// The stored connection profiles, in the order they were saved.
pub struct ConnectionStore {
    connections: Vec<Connection>,
}

impl View for ConnectionStore {
    type V = Seq<ConnectionView>;

    closed spec fn view(&self) -> Seq<ConnectionView> {
        connection_views(self.connections@)
    }
}

impl ConnectionStore {
    /// A store over the profiles that were loaded.
    pub fn new(connections: Vec<Connection>) -> (store: ConnectionStore)
        ensures
            store@ == connection_views(connections@),
    {
        ConnectionStore { connections }
    }

    /// The profiles, for saving.
    pub fn connections(&self) -> (list: &Vec<Connection>)
        ensures
            connection_views(list@) == self@,
    {
        &self.connections
    }

    /// Gives the profiles up.
    pub fn into_connections(self) -> (list: Vec<Connection>)
        ensures
            connection_views(list@) == self@,
    {
        self.connections
    }

    /// The position of the first profile with the identifier.
    fn position(&self, id: &str) -> (pos: usize)
        ensures
            pos as int == first_with_id(self@, id@),
            pos <= self.connections.len(),
    {
        let mut i: usize = 0;
        proof {
            assert(self@.skip(0) =~= self@);
        }
        while i < self.connections.len()
            invariant
                i <= self.connections.len(),
                self@.len() == self.connections.len(),
                first_with_id(self@, id@) == i + first_with_id(self@.skip(i as int), id@),
            decreases self.connections.len() - i,
        {
            proof {
                assert(self@.skip(i as int)[0] == self.connections@[i as int]@);
                assert(self@.skip(i as int).drop_first() =~= self@.skip(i + 1));
            }
            if str_eq(self.connections[i].id.as_str(), id) {
                return i;
            }
            i = i + 1;
        }
        i
    }

    /// The first profile with the identifier, if there is one.
    pub fn find(&self, id: &str) -> (found: Option<&Connection>)
        ensures
            ({
                let pos = first_with_id(self@, id@);
                match found {
                    Some(c) => pos < self@.len() && c@ == self@[pos],
                    None => pos == self@.len(),
                }
            }),
    {
        let pos = self.position(id);
        if pos < self.connections.len() {
            Some(&self.connections[pos])
        } else {
            None
        }
    }

    /// Appends a profile.
    pub fn add(&mut self, connection: Connection)
        ensures
            final(self)@ == old(self)@.push(connection@),
    {
        self.connections.push(connection);
        assert(self@ =~= old(self)@.push(connection@));
    }

    /// Puts `connection` in the place of the first profile with its
    /// identifier. Where no profile has it, the store is left as it is and
    /// the error says so.
    pub fn update(&mut self, connection: Connection) -> (r: Result<(), String>)
        ensures
            ({
                let pos = first_with_id(old(self)@, connection.id@);
                match r {
                    Ok(_) => pos < old(self)@.len() && final(self)@ == old(self)@.update(
                        pos,
                        connection@,
                    ),
                    Err(e) => pos == old(self)@.len() && final(self)@ == old(self)@ && e@
                        == "Connection not found"@,
                }
            }),
    {
        let pos = self.position(connection.id.as_str());
        if pos < self.connections.len() {
            self.connections.set(pos, connection);
            assert(self@ =~= old(self)@.update(pos as int, connection@));
            Ok(())
        } else {
            Err("Connection not found".to_owned())
        }
    }

    /// Drops every profile with the identifier.
    pub fn delete(&mut self, id: &str)
        ensures
            final(self)@ == old(self)@.filter(other_than(id@)),
    {
        let mut taken: Vec<Connection> = Vec::new();
        core::mem::swap(&mut self.connections, &mut taken);
        let ghost all = connection_views(taken@);
        proof {
            reveal(Seq::filter);
            assert(all.take(0) =~= Seq::<ConnectionView>::empty());
            assert(self@ =~= all.take(0).filter(other_than(id@)));
        }
        for c in it: taken
            invariant
                it.seq() == taken@,
                all == connection_views(taken@),
                self@ == all.take(it.index() as int).filter(other_than(id@)),
        {
            let ghost n = it.index() as int;
            let ghost before = self@;
            proof {
                reveal(Seq::filter);
                assert(all[n] == c@);
                assert(all.take(n + 1).drop_last() =~= all.take(n));
            }
            if !str_eq(c.id.as_str(), id) {
                self.connections.push(c);
                assert(self@ =~= before.push(c@));
            }
        }
        proof {
            assert(all.take(all.len() as int) =~= all);
        }
    }
}

} // verus!
