//! Content servers and the pool that hands them out.
use vstd::prelude::*;

use crate::text::{decimal, push_decimal, push_str};

verus! {

broadcast use vstd::string::group_string_axioms;

/// A content server.
#[derive(Debug, Clone)]
pub struct CdnServer {
    pub host: String,
    pub port: u16,
    pub https: bool,
    pub weight: u32,
    pub proxy_server: Option<String>,
}

pub open spec fn scheme_text(https: bool) -> Seq<char> {
    if https {
        seq!['h', 't', 't', 'p', 's']
    } else {
        seq!['h', 't', 't', 'p']
    }
}

/// `scheme://host:port` for a server.
pub open spec fn server_url(host: Seq<char>, port: u16, https: bool) -> Seq<char> {
    scheme_text(https) + seq![':', '/', '/'] + host + seq![':'] + decimal(port as nat)
}

pub open spec fn depot_path(depot_id: u32) -> Seq<char> {
    seq!['/', 'd', 'e', 'p', 'o', 't', '/'] + decimal(depot_id as nat)
}

/// `{url}/depot/{depot}/manifest/{manifest}/chunk`.
pub open spec fn depot_url_text(url: Seq<char>, depot_id: u32, manifest_id: u64) -> Seq<char> {
    url + depot_path(depot_id) + seq!['/', 'm', 'a', 'n', 'i', 'f', 'e', 's', 't', '/']
        + decimal(manifest_id as nat) + seq!['/', 'c', 'h', 'u', 'n', 'k']
}

/// `{url}/depot/{depot}/manifest/{manifest}/blob`.
pub open spec fn manifest_blob_url_text(url: Seq<char>, depot_id: u32, manifest_id: u64) -> Seq<
    char,
> {
    url + depot_path(depot_id) + seq!['/', 'm', 'a', 'n', 'i', 'f', 'e', 's', 't', '/']
        + decimal(manifest_id as nat) + seq!['/', 'b', 'l', 'o', 'b']
}

/// `{url}/depot/{depot}/chunk/{chunk}_001`.
pub open spec fn chunk_url_text(url: Seq<char>, depot_id: u32, chunk_id: Seq<char>) -> Seq<char> {
    url + depot_path(depot_id) + seq!['/', 'c', 'h', 'u', 'n', 'k', '/'] + chunk_id + seq![
        '_',
        '0',
        '0',
        '1',
    ]
}

impl CdnServer {
    /// A server of weight one, without a proxy.
    pub fn new(host: String, port: u16, https: bool) -> (s: Self)
        ensures
            s.host == host,
            s.port == port,
            s.https == https,
            s.weight == 1,
            s.proxy_server is None,
    {
        CdnServer { host, port, https, weight: 1, proxy_server: None }
    }

    /// The same server with its weight set.
    pub fn with_weight(self, weight: u32) -> (s: Self)
        ensures
            s == (CdnServer { weight, ..self }),
    {
        let mut s = self;
        s.weight = weight;
        s
    }

    /// The same server with a proxy.
    pub fn with_proxy(self, proxy: String) -> (s: Self)
        ensures
            s == (CdnServer { proxy_server: Some(proxy), ..self }),
    {
        let mut s = self;
        s.proxy_server = Some(proxy);
        s
    }

    /// `scheme://host:port`, with `https` when the server takes TLS.
    pub fn url(&self) -> (u: String)
        ensures
            u@ == server_url(self.host@, self.port, self.https),
    {
        let mut u = String::new();
        proof {
            reveal_strlit("https");
            reveal_strlit("http");
            reveal_strlit("://");
            reveal_strlit(":");
        }
        if self.https {
            push_str(&mut u, "https");
        } else {
            push_str(&mut u, "http");
        }
        push_str(&mut u, "://");
        push_str(&mut u, self.host.as_str());
        push_str(&mut u, ":");
        push_decimal(&mut u, self.port as u64);
        assert(u@ =~= server_url(self.host@, self.port, self.https));
        u
    }

    /// The same as `url`.
    pub fn base_url(&self) -> (u: String)
        ensures
            u@ == server_url(self.host@, self.port, self.https),
    {
        self.url()
    }

    /// `{url}/depot/{depot}/manifest/{manifest}/chunk`.
    pub fn depot_url(&self, depot_id: u32, manifest_id: u64) -> (u: String)
        ensures
            u@ == depot_url_text(server_url(self.host@, self.port, self.https), depot_id, manifest_id),
    {
        let mut u = self.url();
        proof {
            reveal_strlit("/depot/");
            reveal_strlit("/manifest/");
            reveal_strlit("/chunk");
        }
        push_str(&mut u, "/depot/");
        push_decimal(&mut u, depot_id as u64);
        push_str(&mut u, "/manifest/");
        push_decimal(&mut u, manifest_id);
        push_str(&mut u, "/chunk");
        assert(u@ =~= depot_url_text(
            server_url(self.host@, self.port, self.https),
            depot_id,
            manifest_id,
        ));
        u
    }

    /// `{url}/depot/{depot}/manifest/{manifest}/blob`, where a manifest is
    /// downloaded from.
    pub fn manifest_url(&self, depot_id: u32, manifest_id: u64) -> (u: String)
        ensures
            u@ == manifest_blob_url_text(
                server_url(self.host@, self.port, self.https),
                depot_id,
                manifest_id,
            ),
    {
        let mut u = self.url();
        proof {
            reveal_strlit("/depot/");
            reveal_strlit("/manifest/");
            reveal_strlit("/blob");
        }
        push_str(&mut u, "/depot/");
        push_decimal(&mut u, depot_id as u64);
        push_str(&mut u, "/manifest/");
        push_decimal(&mut u, manifest_id);
        push_str(&mut u, "/blob");
        assert(u@ =~= manifest_blob_url_text(
            server_url(self.host@, self.port, self.https),
            depot_id,
            manifest_id,
        ));
        u
    }

    /// `{url}/depot/{depot}/chunk/{chunk}_001`.
    pub fn chunk_url(&self, depot_id: u32, chunk_id: &str) -> (u: String)
        ensures
            u@ == chunk_url_text(server_url(self.host@, self.port, self.https), depot_id, chunk_id@),
    {
        let mut u = self.url();
        proof {
            reveal_strlit("/depot/");
            reveal_strlit("/chunk/");
            reveal_strlit("_001");
        }
        push_str(&mut u, "/depot/");
        push_decimal(&mut u, depot_id as u64);
        push_str(&mut u, "/chunk/");
        push_str(&mut u, chunk_id);
        push_str(&mut u, "_001");
        assert(u@ =~= chunk_url_text(
            server_url(self.host@, self.port, self.https),
            depot_id,
            chunk_id@,
        ));
        u
    }
}

// ---------------------------------------------------------------------------
// The pool
// ---------------------------------------------------------------------------

/// The sum of the weights of `servers`.
pub open spec fn weight_sum(servers: Seq<CdnServer>) -> nat
    decreases servers.len(),
{
    if servers.len() == 0 {
        0
    } else {
        weight_sum(servers.drop_last()) + servers.last().weight as nat
    }
}

/// The position picked by a draw `x` below the total weight: the first
/// server whose weight, added to those before it, exceeds `x`.
pub open spec fn pick_by_weight(servers: Seq<CdnServer>, x: int) -> Option<int>
    decreases servers.len(),
{
    if servers.len() == 0 {
        None
    } else if x < servers[0].weight {
        Some(0)
    } else {
        match pick_by_weight(servers.drop_first(), x - servers[0].weight) {
            Some(i) => Some(i + 1),
            None => None,
        }
    }
}

/// The server that a draw `x` picks.
pub open spec fn pick_server(servers: Seq<CdnServer>, x: int) -> Option<CdnServer> {
    match pick_by_weight(servers, x) {
        Some(i) => Some(servers[i]),
        None => None,
    }
}

/// The servers with the given host removed, the others kept in order.
pub open spec fn without_host(servers: Seq<CdnServer>, host: Seq<char>) -> Seq<CdnServer>
    decreases servers.len(),
{
    if servers.len() == 0 {
        servers
    } else {
        let rest = without_host(servers.drop_last(), host);
        if servers.last().host@ == host {
            rest
        } else {
            rest.push(servers.last())
        }
    }
}

/// Content servers handed out in turn.
#[derive(Debug, Clone)]
pub struct CdnServerPool {
    servers: Vec<CdnServer>,
    current_index: usize,
}

impl CdnServerPool {
    /// The servers of the pool, in order.
    pub closed spec fn servers(&self) -> Seq<CdnServer> {
        self.servers@
    }

    /// The position of the server that is handed out next.
    pub closed spec fn cursor(&self) -> nat {
        self.current_index as nat
    }

    /// Handing out a server from this pool does not index past its end.
    pub open spec fn cursor_in_range(&self) -> bool {
        self.servers().len() == 0 || self.cursor() < self.servers().len()
    }

    /// A pool of the given servers that starts with the first.
    pub fn new(servers: Vec<CdnServer>) -> (p: Self)
        ensures
            p.servers() == servers@,
            p.cursor() == 0,
    {
        CdnServerPool { servers, current_index: 0 }
    }

    /// The next server in turn, or nothing for an empty pool; the turn moves
    /// on by one, back to the first after the last.
    pub fn get_server(&mut self) -> (r: Option<&CdnServer>)
        requires
            old(self).cursor_in_range(),
        ensures
            old(self).servers().len() == 0 ==> r is None && *final(self) == *old(self),
            old(self).servers().len() > 0 ==> {
                &&& r matches Some(s) && *s == old(self).servers()[old(self).cursor() as int]
                &&& final(self).servers() == old(self).servers()
                &&& final(self).cursor() == (old(self).cursor() + 1) % (old(
                    self,
                ).servers().len() as nat)
                &&& handed_on(*old(self), *final(self))
            },
        no_unwind
    {
        if self.servers.len() == 0 {
            return None;
        }
        let idx = self.current_index;
        self.current_index = (self.current_index + 1) % self.servers.len();
        Some(&self.servers[idx])
    }

    /// The server that a draw `x` below the total weight picks, the first
    /// server if the weights run out first, or nothing for an empty pool.
    pub fn select_by_weight(&self, x: u32) -> (r: Option<&CdnServer>)
        ensures
            self.servers().len() == 0 ==> r is None,
            self.servers().len() > 0 ==> match pick_by_weight(self.servers(), x as int) {
                Some(i) => r matches Some(s) && *s == self.servers()[i],
                None => r matches Some(s) && *s == self.servers()[0],
            },
    {
        let ghost all = self.servers@;
        let mut rng: u32 = x;
        let mut i: usize = 0;
        assert(all.skip(0) =~= all);
        while i < self.servers.len()
            invariant
                i <= self.servers.len(),
                all == self.servers@,
                pick_by_weight(all, x as int) == match pick_by_weight(all.skip(i as int), rng as int) {
                    Some(k) => Some(k + i),
                    None => None::<int>,
                },
            decreases self.servers.len() - i,
        {
            let ghost rest = all.skip(i as int);
            assert(rest[0] == all[i as int]);
            assert(rest.drop_first() =~= all.skip(i + 1));
            let w = self.servers[i].weight;
            if rng < w {
                return Some(&self.servers[i]);
            }
            rng = rng - w;
            i = i + 1;
        }
        assert(all.skip(i as int) =~= Seq::<CdnServer>::empty());
        if self.servers.len() == 0 {
            None
        } else {
            Some(&self.servers[0])
        }
    }

    /// The total weight of the servers.
    pub fn total_weight(&self) -> (t: u32)
        requires
            weight_sum(self.servers()) <= u32::MAX,
        ensures
            t == weight_sum(self.servers()),
    {
        let ghost all = self.servers@;
        let mut t: u32 = 0;
        let mut i: usize = 0;
        while i < self.servers.len()
            invariant
                i <= self.servers.len(),
                all == self.servers@,
                weight_sum(all) <= u32::MAX,
                t == weight_sum(all.take(i as int)),
            decreases self.servers.len() - i,
        {
            proof {
                lemma_weight_sum_prefix(all, i + 1);
                assert(all.take(i + 1).drop_last() =~= all.take(i as int));
            }
            t = t + self.servers[i].weight;
            i = i + 1;
        }
        assert(all.take(i as int) =~= all);
        t
    }

    /// A server drawn at random in proportion to the weights; when all
    /// weights are zero, the next server in turn.
    pub fn get_server_by_weight(&mut self) -> (r: Option<&CdnServer>)
        requires
            weight_sum(old(self).servers()) == 0 ==> old(self).cursor_in_range(),
            weight_sum(old(self).servers()) <= u32::MAX,
        ensures
            old(self).servers().len() == 0 ==> r is None,
            old(self).servers().len() > 0 && weight_sum(old(self).servers()) == 0 ==> {
                &&& r matches Some(s) && *s == old(self).servers()[old(self).cursor() as int]
                &&& final(self).servers() == old(self).servers()
                &&& final(self).cursor() == (old(self).cursor() + 1) % (old(
                    self,
                ).servers().len() as nat)
            },
            weight_sum(old(self).servers()) > 0 ==> {
                &&& *final(self) == *old(self)
                &&& r is Some
                &&& exists|x: int|
                    0 <= x < weight_sum(old(self).servers()) && #[trigger] pick_server(
                        old(self).servers(),
                        x,
                    ) == Some(*r.unwrap())
            },
    {
        if self.servers.len() == 0 {
            return None;
        }
        let total = self.total_weight();
        if total == 0 {
            return self.get_server();
        }
        let x = random_u32() % total;
        proof {
            lemma_pick_below_total(self.servers(), x as int);
        }
        let r = self.select_by_weight(x);
        assert(pick_server(self.servers(), x as int) == Some(*r.unwrap()));
        r
    }

    /// Adds a server at the end.
    pub fn add_server(&mut self, server: CdnServer)
        ensures
            final(self).servers() == old(self).servers().push(server),
            final(self).cursor() == old(self).cursor(),
    {
        self.servers.push(server);
    }

    /// Removes every server with the given host, keeping the others in order.
    /// The turn is left where it was.
    pub fn remove_server(&mut self, host: &str)
        ensures
            final(self).servers() == without_host(old(self).servers(), host@),
            final(self).cursor() == old(self).cursor(),
    {
        let mut kept: Vec<CdnServer> = Vec::new();
        let mut old_servers: Vec<CdnServer> = Vec::new();
        std::mem::swap(&mut old_servers, &mut self.servers);
        let ghost all = old_servers@;
        let mut i: usize = 0;
        for s in it: old_servers
            invariant
                all == it.seq(),
                kept@ == without_host(all.take(it.index() as int), host@),
        {
            let ghost idx = it.index();
            assert(all.take(idx + 1).drop_last() =~= all.take(idx as int));
            assert(all.take(idx + 1).last() == s);
            if !crate::text::str_equal(s.host.as_str(), host) {
                kept.push(s);
            }
        }
        assert(all.take(all.len() as int) =~= all);
        self.servers = kept;
    }

    /// The number of servers.
    pub fn server_count(&self) -> (n: usize)
        ensures
            n == self.servers().len(),
    {
        self.servers.len()
    }
}

proof fn lemma_weight_sum_prefix(servers: Seq<CdnServer>, i: int)
    requires
        0 <= i <= servers.len(),
    ensures
        weight_sum(servers.take(i)) <= weight_sum(servers),
    decreases servers.len() - i,
{
    if i < servers.len() {
        lemma_weight_sum_prefix(servers, i + 1);
        assert(servers.take(i + 1).drop_last() =~= servers.take(i));
    } else {
        assert(servers.take(i) =~= servers);
    }
}

proof fn lemma_weight_sum_front(servers: Seq<CdnServer>)
    requires
        servers.len() > 0,
    ensures
        weight_sum(servers) == servers[0].weight + weight_sum(servers.drop_first()),
    decreases servers.len(),
{
    if servers.len() > 1 {
        lemma_weight_sum_front(servers.drop_last());
        assert(servers.drop_last().drop_first() =~= servers.drop_first().drop_last());
        assert(servers.drop_first().last() == servers.last());
        assert(servers.drop_last()[0] == servers[0]);
    } else {
        assert(servers.drop_first() =~= Seq::<CdnServer>::empty());
        assert(servers.drop_last() =~= Seq::<CdnServer>::empty());
    }
}

/// A draw below the total weight always picks a server.
pub proof fn lemma_pick_below_total(servers: Seq<CdnServer>, x: int)
    requires
        0 <= x < weight_sum(servers),
    ensures
        pick_by_weight(servers, x) matches Some(i) && 0 <= i < servers.len(),
    decreases servers.len(),
{
    if servers.len() == 0 {
    } else {
        lemma_weight_sum_front(servers);
        if x >= servers[0].weight {
            lemma_pick_below_total(servers.drop_first(), x - servers[0].weight);
        }
    }
}

/// The turn after `k` servers have been handed out from a pool of `n`,
/// starting at `cursor`.
pub open spec fn turn_after(cursor: nat, n: nat, k: nat) -> nat
    decreases k,
{
    if k == 0 {
        cursor
    } else {
        (turn_after(cursor, n, (k - 1) as nat) + 1) % n
    }
}

/// Handing servers out in turn: after `k` servers the turn is `k` places
/// on, so after as many servers as the pool holds it is back where it
/// started, every server having been handed out once.
pub proof fn law_round_robin(cursor: nat, n: nat, k: nat)
    requires
        n > 0,
        cursor < n,
    ensures
        turn_after(cursor, n, k) == (cursor as int + k as int) % (n as int),
        turn_after(cursor, n, n) == cursor,
{
    lemma_turn_after_mod(cursor, n, k);
    lemma_turn_after_mod(cursor, n, n);
    vstd::arithmetic::div_mod::lemma_mod_add_multiples_vanish(cursor as int, n as int);
    vstd::arithmetic::div_mod::lemma_small_mod(cursor, n);
}

proof fn lemma_turn_after_mod(cursor: nat, n: nat, k: nat)
    requires
        n > 0,
        cursor < n,
    ensures
        turn_after(cursor, n, k) == (cursor as int + k as int) % (n as int),
    decreases k,
{
    if k == 0 {
        vstd::arithmetic::div_mod::lemma_small_mod(cursor, n);
    } else {
        lemma_turn_after_mod(cursor, n, (k - 1) as nat);
        let a = cursor as int + (k - 1) as int;
        vstd::arithmetic::div_mod::lemma_add_mod_noop(a, 1, n as int);
        if n == 1 {
            vstd::arithmetic::div_mod::lemma_mod_bound(a, n as int);
            vstd::arithmetic::div_mod::lemma_mod_bound(a + 1, n as int);
            vstd::arithmetic::div_mod::lemma_mod_bound(a % (n as int) + 1, n as int);
        } else {
            vstd::arithmetic::div_mod::lemma_small_mod(1, n);
        }
    }
}

/// `q` is `p` after one server has been handed out in turn, as
/// `get_server` leaves it.
pub open spec fn handed_on(p: CdnServerPool, q: CdnServerPool) -> bool {
    &&& q.servers() == p.servers()
    &&& q.cursor() == (p.cursor() + 1) % (p.servers().len() as nat)
}

proof fn lemma_handed_on_turns(pools: Seq<CdnServerPool>, i: int)
    requires
        0 <= i < pools.len(),
        pools[0].servers().len() > 0,
        forall|j: int| 0 <= j < pools.len() - 1 ==> handed_on(#[trigger] pools[j], pools[j + 1]),
    ensures
        pools[i].servers() == pools[0].servers(),
        pools[i].cursor() == turn_after(pools[0].cursor(), pools[0].servers().len(), i as nat),
    decreases i,
{
    if i > 0 {
        lemma_handed_on_turns(pools, i - 1);
        assert(handed_on(pools[i - 1], pools[i]));
    }
}

/// Servers are handed out in turn: in a run of pools, each the one before
/// after one hand-out, the pool after `i` hand-outs holds the same servers
/// and hands out next the server at `(start + i) % n`. So a fresh pool
/// hands out `servers[k % n]` at its `k`-th call, and any `n` calls in a
/// row hand out every server once.
pub proof fn law_hand_outs_in_turn(pools: Seq<CdnServerPool>)
    requires
        pools.len() > 0,
        pools[0].servers().len() > 0,
        pools[0].cursor() < pools[0].servers().len(),
        forall|j: int| 0 <= j < pools.len() - 1 ==> handed_on(#[trigger] pools[j], pools[j + 1]),
    ensures
        forall|i: int|
            0 <= i < pools.len() ==> (#[trigger] pools[i]).servers() == pools[0].servers()
                && pools[i].cursor() == (pools[0].cursor() + i) % (pools[0].servers().len() as int)
                && pools[i].servers()[pools[i].cursor() as int] == pools[0].servers()[(
                pools[0].cursor() + i) % (pools[0].servers().len() as int)],
{
    assert forall|i: int| 0 <= i < pools.len() implies (#[trigger] pools[i]).servers()
        == pools[0].servers() && pools[i].cursor() == (pools[0].cursor() + i) % (
        pools[0].servers().len() as int) && pools[i].servers()[pools[i].cursor() as int]
        == pools[0].servers()[(pools[0].cursor() + i) % (pools[0].servers().len() as int)] by {
        lemma_handed_on_turns(pools, i);
        law_round_robin(pools[0].cursor(), pools[0].servers().len(), i as nat);
    }
}

/// A draw picks only a server of positive weight.
pub proof fn law_pick_has_weight(servers: Seq<CdnServer>, x: int)
    requires
        0 <= x,
    ensures
        pick_by_weight(servers, x) matches Some(i) ==> 0 <= i < servers.len()
            && servers[i].weight > 0,
    decreases servers.len(),
{
    if servers.len() > 0 && x >= servers[0].weight {
        law_pick_has_weight(servers.drop_first(), x - servers[0].weight);
    }
}

/// A random `u32` (`rand::random`). Nothing is promised of the value.
#[verifier::external_body]
fn random_u32() -> u32 {
    rand::random::<u32>()
}

} // verus!
