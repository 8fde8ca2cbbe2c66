//! The content-server client: which server a request goes to, and where.
use vstd::prelude::*;

use crate::cdn::server::{
    chunk_url_text, manifest_blob_url_text, server_url, CdnServer, CdnServerPool,
};

verus! {

broadcast use vstd::string::group_string_axioms;

/// Why a content request could not be made.
#[derive(Debug, Clone, PartialEq, Eq)]
pub enum CdnError {
    /// There is no server to ask.
    NoServers,
    /// The server answered with a status that is not a success.
    HttpStatus(u16),
}

/// The servers a client asks in turn, and the tokens it holds per server.
pub struct CdnClient {
    server_pool: CdnServerPool,
    auth_tokens: Vec<(String, String)>,
}

/// The tokens that a sequence of settings leaves, a later one for the same
/// server replacing an earlier one.
pub open spec fn tokens_after(settings: Seq<(String, String)>) -> Map<Seq<char>, Seq<char>>
    decreases settings.len(),
{
    if settings.len() == 0 {
        Map::empty()
    } else {
        tokens_after(settings.drop_last()).insert(settings.last().0@, settings.last().1@)
    }
}

/// `{url}/depot/{depot}/chunk/{chunk}_001` for a server.
pub open spec fn chunk_url_of(s: CdnServer, depot_id: u32, chunk_id: Seq<char>) -> Seq<char> {
    chunk_url_text(server_url(s.host@, s.port, s.https), depot_id, chunk_id)
}

/// `{url}/depot/{depot}/manifest/{manifest}/blob` for a server.
pub open spec fn manifest_url_of(s: CdnServer, depot_id: u32, manifest_id: u64) -> Seq<char> {
    manifest_blob_url_text(server_url(s.host@, s.port, s.https), depot_id, manifest_id)
}

/// The three Valve content servers that are asked by default: plain HTTP on
/// port 80, weight 100.
pub open spec fn default_server(s: CdnServer, host: Seq<char>) -> bool {
    &&& s.host@ == host
    &&& s.port == 80
    &&& !s.https
    &&& s.weight == 100
    &&& s.proxy_server is None
}

impl CdnClient {
    #[verifier::type_invariant]
    closed spec fn pool_cursor_in_range(self) -> bool {
        &&& self.server_pool.cursor_in_range()
        &&& self.server_pool.servers().len() == 0 ==> self.server_pool.cursor() == 0
    }

    /// The pool the client asks from.
    pub closed spec fn pool(&self) -> CdnServerPool {
        self.server_pool
    }

    /// The tokens held, by server.
    pub closed spec fn tokens(&self) -> Map<Seq<char>, Seq<char>> {
        tokens_after(self.auth_tokens@)
    }

    /// What a content server's answer gives: its body for a 2xx status,
    /// else an error naming the status.
    pub fn body_from_response(status: u16, body: Vec<u8>) -> (r: Result<Vec<u8>, CdnError>)
        ensures
            200 <= status <= 299 ==> r == Ok::<Vec<u8>, CdnError>(body),
            !(200 <= status <= 299) ==> r == Err::<Vec<u8>, CdnError>(CdnError::HttpStatus(status)),
    {
        if 200 <= status && status <= 299 {
            Ok(body)
        } else {
            Err(CdnError::HttpStatus(status))
        }
    }

    /// A client with no servers and no tokens.
    pub fn new() -> (c: Self)
        ensures
            c.pool().servers() == Seq::<CdnServer>::empty(),
            c.tokens() == Map::<Seq<char>, Seq<char>>::empty(),
    {
        CdnClient { server_pool: CdnServerPool::new(Vec::new()), auth_tokens: Vec::new() }
    }

    /// Asks the given servers from now on, starting with the first.
    pub fn set_servers(&mut self, servers: Vec<CdnServer>)
        ensures
            final(self).pool().servers() == servers@,
            final(self).pool().cursor() == 0,
            final(self).tokens() == old(self).tokens(),
    {
        self.server_pool = CdnServerPool::new(servers);
    }

    /// Adds a server at the end of the pool.
    pub fn add_server(&mut self, server: CdnServer)
        ensures
            final(self).pool().servers() == old(self).pool().servers().push(server),
            final(self).pool().cursor() == old(self).pool().cursor(),
            final(self).tokens() == old(self).tokens(),
    {
        proof {
            use_type_invariant(&*self);
        }
        let mut pool = CdnServerPool::new(Vec::new());
        std::mem::swap(&mut pool, &mut self.server_pool);
        pool.add_server(server);
        self.server_pool = pool;
    }

    /// Holds a token for a server, replacing any earlier one.
    pub fn set_auth_token(&mut self, server: &str, token: String)
        ensures
            final(self).tokens() == old(self).tokens().insert(server@, token@),
            final(self).pool() == old(self).pool(),
    {
        proof {
            use_type_invariant(&*self);
        }
        let ghost before = self.auth_tokens@;
        let mut tokens: Vec<(String, String)> = Vec::new();
        std::mem::swap(&mut tokens, &mut self.auth_tokens);
        tokens.push((String::from_str(server), token));
        assert(tokens@.drop_last() =~= before);
        self.auth_tokens = tokens;
    }

    /// The servers asked by default: `valve1`, `valve2` and `valve3` of
    /// `steamcontent.com`, plain HTTP on port 80, weight 100.
    pub fn fetch_server_list(&self) -> (servers: Vec<CdnServer>)
        ensures
            servers@.len() == 3,
            default_server(servers@[0], "valve1.steamcontent.com"@),
            default_server(servers@[1], "valve2.steamcontent.com"@),
            default_server(servers@[2], "valve3.steamcontent.com"@),
    {
        let mut servers: Vec<CdnServer> = Vec::new();
        servers.push(
            CdnServer::new(String::from_str("valve1.steamcontent.com"), 80, false).with_weight(100),
        );
        servers.push(
            CdnServer::new(String::from_str("valve2.steamcontent.com"), 80, false).with_weight(100),
        );
        servers.push(
            CdnServer::new(String::from_str("valve3.steamcontent.com"), 80, false).with_weight(100),
        );
        servers
    }

    /// The next server in turn, or nothing when there is none.
    pub fn get_server(&mut self) -> (r: Option<&CdnServer>)
        ensures
            old(self).pool().servers().len() == 0 ==> r is None && final(self).pool() == old(
                self,
            ).pool(),
            old(self).pool().servers().len() > 0 ==> {
                &&& r matches Some(s) && *s == old(self).pool().servers()[old(
                    self,
                ).pool().cursor() as int]
                &&& final(self).pool().servers() == old(self).pool().servers()
                &&& final(self).pool().cursor() == (old(self).pool().cursor() + 1) % (old(
                    self,
                ).pool().servers().len() as nat)
            },
            final(self).tokens() == old(self).tokens(),
    {
        proof {
            use_type_invariant(&*self);
        }
        self.server_pool.get_server()
    }

    /// The number of servers.
    pub fn get_server_count(&self) -> (n: usize)
        ensures
            n == self.pool().servers().len(),
    {
        self.server_pool.server_count()
    }

    /// Where the next server in turn serves a manifest:
    /// `{url}/depot/{depot}/manifest/{manifest}/blob`.
    pub fn next_manifest_url(&mut self, depot_id: u32, manifest_id: u64) -> (r: Result<
        String,
        CdnError,
    >)
        ensures
            old(self).pool().servers().len() == 0 ==> r == Err::<String, CdnError>(
                CdnError::NoServers,
            ),
            old(self).pool().servers().len() > 0 ==> {
                &&& r matches Ok(u) && u@ == manifest_url_of(
                    old(self).pool().servers()[old(self).pool().cursor() as int],
                    depot_id,
                    manifest_id,
                )
                &&& final(self).pool().servers() == old(self).pool().servers()
                &&& final(self).pool().cursor() == (old(self).pool().cursor() + 1) % (old(
                    self,
                ).pool().servers().len() as nat)
            },
            final(self).tokens() == old(self).tokens(),
    {
        match self.get_server() {
            Some(server) => Ok(server.manifest_url(depot_id, manifest_id)),
            None => Err(CdnError::NoServers),
        }
    }

    /// Where the next server in turn serves a chunk:
    /// `{url}/depot/{depot}/chunk/{chunk}_001`.
    pub fn next_chunk_url(&mut self, depot_id: u32, chunk_id: &str) -> (r: Result<
        String,
        CdnError,
    >)
        ensures
            old(self).pool().servers().len() == 0 ==> r == Err::<String, CdnError>(
                CdnError::NoServers,
            ),
            old(self).pool().servers().len() > 0 ==> {
                &&& r matches Ok(u) && u@ == chunk_url_of(
                    old(self).pool().servers()[old(self).pool().cursor() as int],
                    depot_id,
                    chunk_id@,
                )
                &&& final(self).pool().servers() == old(self).pool().servers()
                &&& final(self).pool().cursor() == (old(self).pool().cursor() + 1) % (old(
                    self,
                ).pool().servers().len() as nat)
            },
            final(self).tokens() == old(self).tokens(),
    {
        match self.get_server() {
            Some(server) => Ok(server.chunk_url(depot_id, chunk_id)),
            None => Err(CdnError::NoServers),
        }
    }
}

impl Default for CdnClient {
    /// A client with no servers and no tokens.
    fn default() -> (c: Self)
        ensures
            c.pool().servers() == Seq::<CdnServer>::empty(),
            c.tokens() == Map::<Seq<char>, Seq<char>>::empty(),
    {
        Self::new()
    }
}

} // verus!
