//! The RPC endpoint's bookkeeping: which worker each connected peer
//! subscribed as, and what each call asks of the other services.

use vstd::prelude::*;
use crate::decimal::{decimal, decimal_string};
use crate::json::{
    all_plain, joined_quoted, json_array_text, json_submit_params, json_subscribe_params, plain_json_text,
    read_submit_params, read_subscribe_params,
};
use crate::node::NodeRequest;
use crate::shares::SharesRequest;

verus! {

/// The address of a connected peer, as plain values: the IP version, the
/// address bits (an IPv4 address in the low 32 bits), the port, and for
/// IPv6 the flow information and scope id (zero for IPv4).
#[derive(Clone, Copy, Debug, PartialEq, Eq, Structural)]
pub struct PeerAddr {
    pub is_v6: bool,
    pub ip: u128,
    pub port: u16,
    pub flowinfo: u32,
    pub scope_id: u32,
}

/// The name and key a worker subscribed with.
pub struct Credentials {
    pub workername: String,
    pub apikey: String,
}

impl View for Credentials {
    type V = (Seq<char>, Seq<char>);

    open spec fn view(&self) -> (Seq<char>, Seq<char>) {
        (self.workername@, self.apikey@)
    }
}

impl Clone for Credentials {
    fn clone(&self) -> (r: Self)
        ensures
            r@ == self@,
    {
        Credentials { workername: self.workername.clone(), apikey: self.apikey.clone() }
    }
}

/// The registered peers, in the order they connected, each with the
/// credentials it subscribed with, if it did.
pub type ClientEntries = Seq<(PeerAddr, Option<Credentials>)>;

/// The credentials of a peer, if it subscribed, taken by their view.
pub open spec fn creds_view(c: Option<Credentials>) -> Option<(Seq<char>, Seq<char>)> {
    match c {
        Some(c) => Some(c@),
        None => None,
    }
}

/// `k` is registered in `s`.
pub open spec fn has_peer(s: ClientEntries, k: PeerAddr) -> bool {
    exists|i: int| 0 <= i < s.len() && (#[trigger] s[i]).0 == k
}

/// No peer is registered twice in `s`.
pub open spec fn unique_peers(s: ClientEntries) -> bool {
    forall|i: int, j: int| 0 <= i < j < s.len() ==> (#[trigger] s[i]).0 != (#[trigger] s[j]).0
}

/// The position of `k` in `s`.
pub open spec fn peer_index(s: ClientEntries, k: PeerAddr) -> int {
    choose|i: int| 0 <= i < s.len() && (#[trigger] s[i]).0 == k
}

/// The registry as a map from peer to the credentials it subscribed with
/// (`None` while it has not subscribed).
pub open spec fn entries_view(s: ClientEntries) -> Map<PeerAddr, Option<(Seq<char>, Seq<char>)>> {
    Map::new(|k: PeerAddr| has_peer(s, k), |k: PeerAddr| creds_view(s[peer_index(s, k)].1))
}

/// The text answered to a subscription: `["subscribe", "<nonce>", "<address>"]`.
pub open spec fn subscribe_response_text(nonce: Seq<char>, address: Seq<char>) -> Seq<char> {
    "[\"subscribe\", \""@ + nonce + "\", \""@ + address + "\"]"@
}

/// The nonce announced when none is configured.
pub open spec fn default_nonce() -> Seq<char> {
    "NONCE"@
}

/// The pool address announced when none is configured.
pub open spec fn default_pool_address() -> Seq<char> {
    "aleo15te0tcennt8lmrd4e0wjvgwr775cpq5rcsvws0ckgenqx6aaxv8sjlgg9a"@
}

/// The port the endpoint listens on when none is configured.
pub open spec fn default_rpc_port() -> Seq<char> {
    "52066"@
}

/// An option of a string taken by its view, or a default.
pub open spec fn text_or(o: Option<String>, default: Seq<char>) -> Seq<char> {
    match o {
        Some(s) => s@,
        None => default,
    }
}

/// Why a call was refused.
#[derive(Debug, PartialEq, Eq, Structural)]
pub enum RpcError {
    /// The parameters are not what the method takes.
    InvalidParams,
}

/// What a successful subscription gives: the text sent back to the device,
/// and the notice for the shares service when the peer was registered.
pub struct SubscribeReply {
    pub response: String,
    pub connect: Option<SharesRequest>,
}

/// The endpoint's state: the registered peers and the peer of the
/// connection being served.
///
/// The peers are kept in a vector with each peer once, not in a `HashMap`:
/// vstd models hash maps only for primitive keys, and a peer address
/// (address bits, port, flow information, scope id) fits in no single one.
pub struct Rpc {
    clients: Vec<(PeerAddr, Option<Credentials>)>,
    current_socketaddr: Option<PeerAddr>,
}

/// `r` is a notice to the shares service that `w`, `a` came (`up`) or went.
pub open spec fn is_connect_notice(r: SharesRequest, w: Seq<char>, a: Seq<char>, up: bool) -> bool {
    match r {
        SharesRequest::Connect(rw, ra, rb) => rw@ == w && ra@ == a && rb == up,
        _ => false,
    }
}

impl Rpc {
    /// Every peer is registered once.
    pub closed spec fn wf(&self) -> bool {
        unique_peers(self.clients@)
    }

    /// The registered peers and their credentials.
    pub closed spec fn clients_view(&self) -> Map<PeerAddr, Option<(Seq<char>, Seq<char>)>> {
        entries_view(self.clients@)
    }

    /// The peer of the connection being served, if one connected.
    pub closed spec fn current_peer(&self) -> Option<PeerAddr> {
        self.current_socketaddr
    }

    /// An endpoint with no peer.
    pub fn new() -> (r: Rpc)
        ensures
            r.wf(),
            r.clients_view() == Map::<PeerAddr, Option<(Seq<char>, Seq<char>)>>::empty(),
            r.current_peer() is None,
    {
        let r = Rpc { clients: Vec::new(), current_socketaddr: None };
        assert(entries_view(r.clients@) =~= Map::<PeerAddr, Option<(Seq<char>, Seq<char>)>>::empty());
        r
    }

    /// The number of registered peers.
    pub fn client_count(&self) -> (n: usize)
        requires
            self.wf(),
        ensures
            n == self.clients_view().len(),
            self.clients_view().dom().finite(),
    {
        proof {
            lemma_entries_view_len(self.clients@);
        }
        self.clients.len()
    }

    fn find(&self, addr: PeerAddr) -> (r: Option<usize>)
        ensures
            match r {
                Some(i) => i < self.clients@.len() && self.clients@[i as int].0 == addr,
                None => !has_peer(self.clients@, addr),
            },
    {
        let mut i: usize = 0;
        while i < self.clients.len()
            invariant
                i <= self.clients@.len(),
                forall|j: int| 0 <= j < i ==> (#[trigger] self.clients@[j]).0 != addr,
            decreases self.clients@.len() - i,
        {
            if self.clients[i].0 == addr {
                return Some(i);
            }
            i = i + 1;
        }
        None
    }

    /// `addr` is connected (registered, subscribed or not).
    pub fn is_connected(&self, addr: PeerAddr) -> (b: bool)
        requires
            self.wf(),
        ensures
            b == self.clients_view().contains_key(addr),
    {
        self.find(addr).is_some()
    }

    /// The credentials `addr` subscribed with, if it is registered and
    /// subscribed.
    pub fn client(&self, addr: PeerAddr) -> (r: Option<Credentials>)
        requires
            self.wf(),
        ensures
            match r {
                Some(c) => self.clients_view().contains_key(addr) && self.clients_view()[addr]
                    == Some(c@),
                None => !self.clients_view().contains_key(addr) || self.clients_view()[addr]
                    is None,
            },
    {
        match self.find(addr) {
            Some(i) => {
                proof {
                    lemma_peer_index_unique(self.clients@, i as int);
                }
                match &self.clients[i].1 {
                    Some(c) => Some(c.clone()),
                    None => None,
                }
            },
            None => None,
        }
    }

    fn register(&mut self, addr: PeerAddr, creds: Option<Credentials>)
        requires
            old(self).wf(),
        ensures
            final(self).wf(),
            final(self).clients_view() == old(self).clients_view().insert(addr, creds_view(creds)),
            final(self).current_socketaddr == old(self).current_socketaddr,
    {
        let ghost old_s = self.clients@;
        match self.find(addr) {
            Some(i) => {
                self.clients.set(i, (addr, creds));
                proof {
                    lemma_update_view(old_s, i as int, addr, self.clients@[i as int].1);
                }
            },
            None => {
                self.clients.push((addr, creds));
                proof {
                    lemma_push_view(old_s, addr, self.clients@[old_s.len() as int].1);
                }
            },
        }
    }

    fn unregister(&mut self, addr: PeerAddr) -> (r: Option<Option<Credentials>>)
        requires
            old(self).wf(),
        ensures
            final(self).wf(),
            final(self).clients_view() == old(self).clients_view().remove(addr),
            final(self).current_socketaddr == old(self).current_socketaddr,
            match r {
                Some(c) => old(self).clients_view().contains_key(addr) && old(
                    self,
                ).clients_view()[addr] == creds_view(c),
                None => !old(self).clients_view().contains_key(addr),
            },
    {
        let ghost old_s = self.clients@;
        match self.find(addr) {
            Some(i) => {
                proof {
                    lemma_peer_index_unique(old_s, i as int);
                    lemma_remove_view(old_s, i as int);
                }
                let (_, creds) = self.clients.remove(i);
                Some(creds)
            },
            None => {
                proof {
                    assert(entries_view(old_s) =~= entries_view(old_s).remove(addr));
                }
                None
            },
        }
    }

    /// A connection from `remote_addr` is being served: it becomes the
    /// current peer, and is registered, not yet subscribed, unless it is
    /// registered already.
    pub fn on_connect(&mut self, remote_addr: PeerAddr)
        requires
            old(self).wf(),
        ensures
            final(self).wf(),
            final(self).clients_view() == if old(self).clients_view().contains_key(remote_addr) {
                old(self).clients_view()
            } else {
                old(self).clients_view().insert(remote_addr, None)
            },
            final(self).current_peer() == Some(remote_addr),
    {
        if self.find(remote_addr).is_none() {
            self.register(remote_addr, None);
        }
        self.current_socketaddr = Some(remote_addr);
    }

    /// The notice to the shares service that a worker came or went.
    pub fn on_client_connet(&self, workername: String, apikey: String, is_connected: bool) -> (r:
        SharesRequest)
        ensures
            is_connect_notice(r, workername@, apikey@, is_connected),
    {
        SharesRequest::Connect(workername, apikey, is_connected)
    }

    /// The text answered to a subscription, with the configured nonce and
    /// pool address or their defaults.
    pub fn subscribe_response(nonce: Option<String>, address: Option<String>) -> (r: String)
        ensures
            r@ == subscribe_response_text(
                text_or(nonce, default_nonce()),
                text_or(address, default_pool_address()),
            ),
    {
        let n = match nonce {
            Some(n) => n,
            None => String::from_str("NONCE"),
        };
        let a = match address {
            Some(a) => a,
            None => String::from_str("aleo15te0tcennt8lmrd4e0wjvgwr775cpq5rcsvws0ckgenqx6aaxv8sjlgg9a"),
        };
        let mut r = String::from_str("[\"subscribe\", \"");
        r.append(n.as_str());
        r.append("\", \"");
        r.append(a.as_str());
        r.append("\"]");
        r
    }

    /// A device subscribes with `params`, the JSON array
    /// `[agent, protocol, workername, apikey]`. When the connection's peer is
    /// known it is registered under that worker, and the shares service is
    /// told the worker came. The answer carries the nonce and pool address.
    pub fn on_subscribe(
        &mut self,
        params: &str,
        nonce: Option<String>,
        address: Option<String>,
    ) -> (r: Result<SubscribeReply, RpcError>)
        requires
            old(self).wf(),
        ensures
            final(self).wf(),
            final(self).current_peer() == old(self).current_peer(),
            match json_subscribe_params(params@) {
                None => r == Err::<SubscribeReply, RpcError>(RpcError::InvalidParams)
                    && final(self).clients_view() == old(self).clients_view(),
                Some((_agent, _protocol, w, a)) => r is Ok && r->Ok_0.response@
                    == subscribe_response_text(
                    text_or(nonce, default_nonce()),
                    text_or(address, default_pool_address()),
                ) && match old(self).current_peer() {
                    Some(peer) => final(self).clients_view() == old(self).clients_view().insert(
                        peer,
                        Some((w, a)),
                    ) && r->Ok_0.connect is Some && is_connect_notice(
                        r->Ok_0.connect->Some_0,
                        w,
                        a,
                        true,
                    ),
                    None => final(self).clients_view() == old(self).clients_view()
                        && r->Ok_0.connect is None,
                },
            },
    {
        match read_subscribe_params(params) {
            Ok((_agent, _protocol, workername, apikey)) => {
                let connect = match self.current_socketaddr {
                    Some(remote_addr) => {
                        let creds = Credentials {
                            workername: workername.clone(),
                            apikey: apikey.clone(),
                        };
                        self.register(remote_addr, Some(creds));
                        Some(self.on_client_connet(workername, apikey, true))
                    },
                    None => None,
                };
                let response = Rpc::subscribe_response(nonce, address);
                Ok(SubscribeReply { response, connect })
            },
            Err(_) => Err(RpcError::InvalidParams),
        }
    }

    /// The connection from `remote_addr` closed. The peer is dropped, and
    /// when it had subscribed the shares service is told its worker went.
    pub fn on_disconnect(&mut self, remote_addr: PeerAddr) -> (r: Option<SharesRequest>)
        requires
            old(self).wf(),
        ensures
            final(self).wf(),
            final(self).current_peer() == old(self).current_peer(),
            final(self).clients_view() == old(self).clients_view().remove(remote_addr),
            match r {
                Some(n) => old(self).clients_view().contains_key(remote_addr) && old(
                    self,
                ).clients_view()[remote_addr] is Some && is_connect_notice(
                    n,
                    old(self).clients_view()[remote_addr]->Some_0.0,
                    old(self).clients_view()[remote_addr]->Some_0.1,
                    false,
                ),
                None => !old(self).clients_view().contains_key(remote_addr) || old(
                    self,
                ).clients_view()[remote_addr] is None,
            },
    {
        match self.unregister(remote_addr) {
            Some(Some(creds)) => Some(self.on_client_connet(creds.workername, creds.apikey, false)),
            _ => None,
        }
    }

    /// A device submits work with `params`, the JSON array
    /// `[workername, apikey, count]`: the node is asked for a new block.
    pub fn on_submit(&self, params: &str) -> (r: Option<NodeRequest>)
        ensures
            match json_submit_params(params@) {
                None => r is None,
                Some((w, a, c)) => match r {
                    Some(NodeRequest::NewBlock(rw, ra, rc)) => rw@ == w && ra@ == a && rc == c,
                    None => false,
                },
            },
    {
        match read_submit_params(params) {
            Ok((workername, apikey, count)) => Some(NodeRequest::NewBlock(workername, apikey, count)),
            Err(_) => None,
        }
    }

    /// The status line: `connected client count=<n>`.
    pub fn status(&self) -> (r: String)
        requires
            self.wf(),
        ensures
            r@ == "connected client count="@ + decimal(self.clients_view().len()),
    {
        let n = self.client_count();
        let mut r = String::from_str("connected client count=");
        let d = decimal_string(n as u64);
        r.append(d.as_str());
        r
    }

    /// The address the endpoint listens on: `0.0.0.0:<port>`, with the
    /// configured port or the default one.
    pub fn listen_addr(port: Option<String>) -> (r: String)
        ensures
            r@ == "0.0.0.0:"@ + text_or(port, default_rpc_port()),
    {
        let p = match port {
            Some(p) => p,
            None => String::from_str("52066"),
        };
        let mut r = String::from_str("0.0.0.0:");
        r.append(p.as_str());
        r
    }
}

/// A peer that was not registered, connects, subscribes as `(w, a)` and
/// then disconnects, leaves the registry as it found it: on connecting it is
/// registered without credentials, on subscribing it holds `(w, a)`, which the
/// notice of its leaving names.
pub proof fn law_subscribe_then_disconnect(
    before: Map<PeerAddr, Option<(Seq<char>, Seq<char>)>>,
    peer: PeerAddr,
    w: Seq<char>,
    a: Seq<char>,
)
    requires
        !before.contains_key(peer),
    ensures
        before.insert(peer, None).contains_key(peer),
        before.insert(peer, None)[peer] is None,
        before.insert(peer, None).insert(peer, Some((w, a)))[peer] == Some((w, a)),
        before.insert(peer, None).insert(peer, Some((w, a))).remove(peer) == before,
{
    assert(before.insert(peer, None).insert(peer, Some((w, a))).remove(peer) =~= before);
}

/// The answer to a subscription is the JSON array of `subscribe`, the nonce
/// and the address; when neither needs an escape, it is an array of strings
/// that need none, so a device reading it gets those three strings back.
pub proof fn law_subscribe_answer_is_json_array(nonce: Seq<char>, address: Seq<char>)
    ensures
        subscribe_response_text(nonce, address) == json_array_text(
            seq!["subscribe"@, nonce, address],
        ),
        plain_json_text(nonce) && plain_json_text(address) ==> all_plain(
            seq!["subscribe"@, nonce, address],
        ),
{
    reveal_strlit("subscribe");
    reveal_strlit("[\"subscribe\", \"");
    reveal_strlit("\", \"");
    reveal_strlit("\"]");
    let items = seq!["subscribe"@, nonce, address];
    reveal_with_fuel(joined_quoted, 3);
    assert(items.drop_last() =~= seq!["subscribe"@, nonce]);
    assert(items.drop_last().drop_last() =~= seq!["subscribe"@]);
    assert(subscribe_response_text(nonce, address) =~= json_array_text(items));
    assert(plain_json_text("subscribe"@));
}

/// A peer that connects and leaves without subscribing leaves the registry
/// as it found it, and no notice is sent for it.
pub proof fn law_connect_then_disconnect(
    before: Map<PeerAddr, Option<(Seq<char>, Seq<char>)>>,
    peer: PeerAddr,
)
    requires
        !before.contains_key(peer),
    ensures
        before.insert(peer, None)[peer] is None,
        before.insert(peer, None).remove(peer) == before,
{
    assert(before.insert(peer, None).remove(peer) =~= before);
}

/// A peer that subscribes again keeps one entry, under its latest worker.
pub proof fn law_resubscribe_replaces(
    before: Map<PeerAddr, Option<(Seq<char>, Seq<char>)>>,
    peer: PeerAddr,
    first: (Seq<char>, Seq<char>),
    second: (Seq<char>, Seq<char>),
)
    requires
        before.dom().finite(),
    ensures
        before.insert(peer, Some(first)).insert(peer, Some(second)) == before.insert(
            peer,
            Some(second),
        ),
        before.insert(peer, Some(first)).insert(peer, Some(second)).len() == before.insert(
            peer,
            Some(first),
        ).len(),
{
    assert(before.insert(peer, Some(first)).insert(peer, Some(second)) =~= before.insert(
        peer,
        Some(second),
    ));
    assert(before.insert(peer, Some(first)).dom().insert(peer) =~= before.insert(
        peer,
        Some(first),
    ).dom());
}

/// With unique peers, the position of the entry at `i` is `i`.
pub proof fn lemma_peer_index_unique(s: ClientEntries, i: int)
    requires
        unique_peers(s),
        0 <= i < s.len(),
    ensures
        has_peer(s, s[i].0),
        peer_index(s, s[i].0) == i,
        entries_view(s)[s[i].0] == creds_view(s[i].1),
{
    let k = s[i].0;
    assert(has_peer(s, k));
    let j = peer_index(s, k);
    if j != i {
        if j < i {
            assert(s[j].0 != s[i].0);
        } else {
            assert(s[i].0 != s[j].0);
        }
    }
}

/// Replacing the credentials at `i` (same peer) updates the map there.
pub proof fn lemma_update_view(s: ClientEntries, i: int, k: PeerAddr, c: Option<Credentials>)
    requires
        unique_peers(s),
        0 <= i < s.len(),
        s[i].0 == k,
    ensures
        unique_peers(s.update(i, (k, c))),
        entries_view(s.update(i, (k, c))) == entries_view(s).insert(k, creds_view(c)),
{
    let t = s.update(i, (k, c));
    assert(unique_peers(t)) by {
        assert forall|a: int, b: int| 0 <= a < b < t.len() implies (#[trigger] t[a]).0 != (
        #[trigger] t[b]).0 by {
            assert(s[a].0 != s[b].0);
        }
    }
    assert forall|q: PeerAddr| has_peer(t, q) == has_peer(s, q) by {
        if has_peer(s, q) {
            let j = choose|j: int| 0 <= j < s.len() && (#[trigger] s[j]).0 == q;
            assert(t[j].0 == q);
        }
        if has_peer(t, q) {
            let j = choose|j: int| 0 <= j < t.len() && (#[trigger] t[j]).0 == q;
            assert(s[j].0 == q);
        }
    }
    assert forall|q: PeerAddr| #[trigger] has_peer(t, q) implies entries_view(t)[q] == (if q
        == k {
        creds_view(c)
    } else {
        entries_view(s)[q]
    }) by {
        let j = choose|j: int| 0 <= j < t.len() && (#[trigger] t[j]).0 == q;
        lemma_peer_index_unique(t, j);
        lemma_peer_index_unique(s, j);
    }
    assert(has_peer(s, k)) by {
        assert(s[i].0 == k);
    }
    assert(entries_view(t) =~= entries_view(s).insert(k, creds_view(c)));
}

/// Appending a new peer adds it to the map.
pub proof fn lemma_push_view(s: ClientEntries, k: PeerAddr, c: Option<Credentials>)
    requires
        unique_peers(s),
        !has_peer(s, k),
    ensures
        unique_peers(s.push((k, c))),
        entries_view(s.push((k, c))) == entries_view(s).insert(k, creds_view(c)),
{
    let t = s.push((k, c));
    assert(unique_peers(t)) by {
        assert forall|a: int, b: int| 0 <= a < b < t.len() implies (#[trigger] t[a]).0 != (
        #[trigger] t[b]).0 by {
            if b < s.len() {
                assert(s[a].0 != s[b].0);
            } else {
                assert(t[a] == s[a]);
            }
        }
    }
    assert forall|q: PeerAddr| has_peer(t, q) == (has_peer(s, q) || q == k) by {
        if has_peer(s, q) {
            let j = choose|j: int| 0 <= j < s.len() && (#[trigger] s[j]).0 == q;
            assert(t[j].0 == q);
        }
        if has_peer(t, q) {
            let j = choose|j: int| 0 <= j < t.len() && (#[trigger] t[j]).0 == q;
            if j < s.len() {
                assert(s[j].0 == q);
            }
        }
        if q == k {
            assert(t[s.len() as int].0 == q);
        }
    }
    assert forall|q: PeerAddr| #[trigger] has_peer(t, q) implies entries_view(t)[q] == (if q
        == k {
        creds_view(c)
    } else {
        entries_view(s)[q]
    }) by {
        let j = choose|j: int| 0 <= j < t.len() && (#[trigger] t[j]).0 == q;
        lemma_peer_index_unique(t, j);
        if j < s.len() {
            lemma_peer_index_unique(s, j);
        }
    }
    assert(entries_view(t) =~= entries_view(s).insert(k, creds_view(c)));
}

/// Removing the entry at `i` removes its peer from the map.
pub proof fn lemma_remove_view(s: ClientEntries, i: int)
    requires
        unique_peers(s),
        0 <= i < s.len(),
    ensures
        unique_peers(s.remove(i)),
        entries_view(s.remove(i)) == entries_view(s).remove(s[i].0),
{
    let k = s[i].0;
    let t = s.remove(i);
    assert(unique_peers(t)) by {
        assert forall|a: int, b: int| 0 <= a < b < t.len() implies (#[trigger] t[a]).0 != (
        #[trigger] t[b]).0 by {
            let a2 = if a < i { a } else { a + 1 };
            let b2 = if b < i { b } else { b + 1 };
            assert(t[a] == s[a2]);
            assert(t[b] == s[b2]);
            assert(s[a2].0 != s[b2].0);
        }
    }
    assert forall|q: PeerAddr| has_peer(t, q) == (has_peer(s, q) && q != k) by {
        if has_peer(s, q) && q != k {
            let j = choose|j: int| 0 <= j < s.len() && (#[trigger] s[j]).0 == q;
            let j2 = if j < i { j } else { j - 1 };
            assert(t[j2] == s[j]);
        }
        if has_peer(t, q) {
            let j = choose|j: int| 0 <= j < t.len() && (#[trigger] t[j]).0 == q;
            let j2 = if j < i { j } else { j + 1 };
            assert(t[j] == s[j2]);
            if q == k {
                if j2 < i {
                    assert(s[j2].0 != s[i].0);
                } else {
                    assert(s[i].0 != s[j2].0);
                }
            }
        }
    }
    assert forall|q: PeerAddr| #[trigger] has_peer(t, q) implies entries_view(t)[q]
        == entries_view(s)[q] by {
        let j = choose|j: int| 0 <= j < t.len() && (#[trigger] t[j]).0 == q;
        let j2 = if j < i { j } else { j + 1 };
        assert(t[j] == s[j2]);
        lemma_peer_index_unique(t, j);
        lemma_peer_index_unique(s, j2);
    }
    assert(entries_view(t) =~= entries_view(s).remove(k));
}

/// The map has as many peers as there are entries.
pub proof fn lemma_entries_view_len(s: ClientEntries)
    requires
        unique_peers(s),
    ensures
        entries_view(s).dom().finite(),
        entries_view(s).len() == s.len(),
    decreases s.len(),
{
    if s.len() == 0 {
        assert(entries_view(s).dom() =~= Set::<PeerAddr>::empty());
    } else {
        let last = (s.len() - 1) as int;
        let p = s.drop_last();
        assert(unique_peers(p)) by {
            assert forall|a: int, b: int| 0 <= a < b < p.len() implies (#[trigger] p[a]).0 != (
            #[trigger] p[b]).0 by {
                assert(s[a].0 != s[b].0);
            }
        }
        lemma_entries_view_len(p);
        assert(!has_peer(p, s[last].0)) by {
            if has_peer(p, s[last].0) {
                let j = choose|j: int| 0 <= j < p.len() && (#[trigger] p[j]).0 == s[last].0;
                assert(s[j].0 != s[last].0);
            }
        }
        lemma_push_view(p, s[last].0, s[last].1);
        assert(p.push((s[last].0, s[last].1)) =~= s);
    }
}


/// A configured value is used as given, whatever it holds; the default
/// stands only when nothing is configured.
pub proof fn law_text_or(s: String, default: Seq<char>)
    ensures
        text_or(Some(s), default) == s@,
        text_or(None, default) == default,
{
}


/// A notice that a worker came or went names that worker's name and key and
/// whether it came, and nothing else is such a notice.
pub proof fn law_connect_notice(
    w: String,
    a: String,
    up: bool,
    name: Seq<char>,
    key: Seq<char>,
    came: bool,
    h: u32,
    bh: String,
    bw: String,
    bk: String,
)
    ensures
        is_connect_notice(SharesRequest::Connect(w, a, up), name, key, came) <==> (w@ == name
            && a@ == key && up == came),
        !is_connect_notice(SharesRequest::NewBlock(h, bh, bw, bk), name, key, came),
{
}

} // verus!
