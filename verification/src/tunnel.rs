//! Routing of HTTP requests to the agents that serve their subdomains.
use vstd::prelude::*;
use std::collections::HashMap;
use crate::ids::{fresh_id, is_uuid_text};
use crate::db::Server;
use crate::proto::Message;

verus! {

/// Where a request for a subdomain goes.
#[derive(Debug)]
pub enum ProxyRoute {
    /// To the agent with this id, connected here.
    Forward(String),
    /// To another server: answer with a temporary redirect to this URL.
    Redirect(String),
    /// Nowhere: no agent serves the subdomain.
    NotFound,
}

/// `s` without its leading slashes.
pub open spec fn trim_leading_slashes(s: Seq<char>) -> Seq<char>
    decreases s.len(),
{
    if s.len() > 0 && s[0] == '/' {
        trim_leading_slashes(s.drop_first())
    } else {
        s
    }
}

/// The URL on `server` of the request path `/` + `path`.
pub open spec fn redirect_url(server: Seq<char>, path: Seq<char>) -> Seq<char> {
    "http://"@ + server + "/"@ + trim_leading_slashes(seq!['/'] + path)
}

/// `s` without its leading slashes.
pub fn trim_slashes(s: &str) -> (r: String)
    ensures
        r@ == trim_leading_slashes(s@),
{
    let n = s.unicode_len();
    let mut i: usize = 0;
    assert(s@.skip(0) =~= s@);
    while i < n && s.get_char(i) == '/'
        invariant
            n == s@.len(),
            i <= n,
            trim_leading_slashes(s@.skip(i as int)) == trim_leading_slashes(s@),
        decreases n - i,
    {
        assert(s@.skip(i as int).drop_first() =~= s@.skip(i + 1));
        i = i + 1;
    }
    let rest = s.substring_char(i, n);
    assert(rest@ =~= s@.skip(i as int));
    String::from_str(rest)
}

/// Where a request for `/` + `path` goes, given the agent serving its
/// subdomain here, if any, and otherwise the server that agent is on: the
/// client is redirected to that server's HTTP host.
pub fn route_request(path: &str, local_agent: &Option<String>, remote_server: &Option<Server>) -> (r: ProxyRoute)
    ensures
        match *local_agent {
            Some(id) => (r matches ProxyRoute::Forward(a) && a@ == id@),
            None => match *remote_server {
                Some(s) => (r matches ProxyRoute::Redirect(u) && u@ == redirect_url(s.http_host@, path@)),
                None => r is NotFound,
            },
        },
{
    match local_agent {
        Some(id) => ProxyRoute::Forward(id.clone()),
        None => match remote_server {
            Some(remote) => {
                let server = &remote.http_host;
                let mut full = String::from_str("/");
                full.append(path);
                proof {
                    reveal_strlit("/");
                }
                let mut url = String::from_str("http://");
                url.append(server.as_str());
                url.append("/");
                assert(full@ =~= seq!['/'] + path@);
                let tail = trim_slashes(full.as_str());
                url.append(tail.as_str());
                assert(url@ =~= redirect_url(server@, path@));
                ProxyRoute::Redirect(url)
            },
            None => ProxyRoute::NotFound,
        },
    }
}

/// The message that forwards a request for `/` + `path` to an agent.
pub fn http_request_message(request_id: String, method: String, path: &str, headers: HashMap<String, String>, body: Vec<u8>) -> (r: Message)
    ensures
        r matches Message::HttpRequest { request_id: rid, method: m, path: p, headers: h, body: Some(b) } && rid == request_id
            && m == method && p@ == seq!['/'] + path@ && h == headers && b == body,
{
    let mut full = String::from_str("/");
    full.append(path);
    proof {
        reveal_strlit("/");
    }
    Message::HttpRequest { request_id, method, path: full, headers, body: Some(body) }
}

/// A request for `/` + `path` to forward to an agent, under a fresh random
/// request id, with that id.
pub fn new_request_message(method: String, path: &str, headers: HashMap<String, String>, body: Vec<u8>) -> (r: (String, Message))
    ensures
        is_uuid_text(r.0@),
        r.1 matches Message::HttpRequest { request_id: rid, method: m, path: p, headers: h, body: Some(b) } && rid == r.0
            && m == method && p@ == seq!['/'] + path@ && h == headers && b == body,
{
    let request_id = fresh_id();
    let message = http_request_message(request_id.clone(), method, path, headers, body);
    (request_id, message)
}

/// Whether `k` counts the slashes that `s` starts with.
pub open spec fn leading_slashes(s: Seq<char>, k: int) -> bool {
    &&& 0 <= k <= s.len()
    &&& forall|i: int| 0 <= i < k ==> s[i] == '/'
    &&& (k == s.len() || s[k] != '/')
}

proof fn lemma_trim_is_skip(s: Seq<char>, k: int)
    requires
        leading_slashes(s, k),
    ensures
        trim_leading_slashes(s) == s.skip(k),
    decreases s.len(),
{
    if s.len() > 0 && s[0] == '/' {
        assert(k > 0);
        let t = s.drop_first();
        assert forall|i: int| 0 <= i < k - 1 implies t[i] == '/' by {
            assert(t[i] == s[i + 1]);
        }
        if k - 1 < t.len() {
            assert(t[k - 1] == s[k]);
        }
        lemma_trim_is_skip(t, k - 1);
        assert(t.skip(k - 1) =~= s.skip(k));
    } else {
        assert(k == 0);
        assert(s.skip(0) =~= s);
    }
}

/// The redirect for the request path `/` + `path` is `http://`, the host,
/// `/`, and the path with only its leading slashes removed: everything
/// after them is kept, so the URL ends as the path does.
pub proof fn lemma_redirect_keeps_path(server: Seq<char>, path: Seq<char>, k: int)
    requires
        leading_slashes(path, k),
    ensures
        redirect_url(server, path) == "http://"@ + server + "/"@ + path.skip(k),
        k < path.len() ==> redirect_url(server, path).last() == path.last(),
{
    let full = seq!['/'] + path;
    assert forall|i: int| 0 <= i < k + 1 implies full[i] == '/' by {
        if i > 0 {
            assert(full[i] == path[i - 1]);
        }
    }
    if k < path.len() {
        assert(full[k + 1] == path[k]);
    }
    lemma_trim_is_skip(full, k + 1);
    assert(full.skip(k + 1) =~= path.skip(k));
}

} // verus!
