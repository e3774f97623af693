//! ICE server descriptions.
//!
//! Two shapes: [`IceServer`], a catalogue entry with optional credentials,
//! and [`IceServerConfig`], the serializable form forwarded to clients and
//! used to configure transports (credentials as plain strings, empty when
//! absent).

use vstd::prelude::*;

verus! {

/// One ICE server group: a set of URLs reachable with one set of
/// (optional) credentials.
#[derive(Debug, PartialEq, Eq)]
pub struct IceServer {
    pub urls: Vec<String>,
    pub username: Option<String>,
    pub credential: Option<String>,
}

/// ICE server configuration in the form forwarded to clients: credentials
/// are plain strings, empty when the group needs none.
#[derive(Debug, PartialEq, Eq)]
pub struct IceServerConfig {
    pub urls: Vec<String>,
    pub username: String,
    pub credential: String,
}

impl Clone for IceServerConfig {
    fn clone(&self) -> (r: Self)
        ensures
            r.urls@ == self.urls@,
            r.username == self.username,
            r.credential == self.credential,
    {
        let mut urls: Vec<String> = Vec::new();
        let mut i: usize = 0;
        while i < self.urls.len()
            invariant
                i <= self.urls@.len(),
                urls@ == self.urls@.subrange(0, i as int),
            decreases self.urls@.len() - i,
        {
            urls.push(self.urls[i].clone());
            proof {
                assert(urls@ =~= self.urls@.subrange(0, i + 1 as int));
            }
            i = i + 1;
        }
        proof {
            assert(urls@ =~= self.urls@);
        }
        IceServerConfig {
            urls,
            username: self.username.clone(),
            credential: self.credential.clone(),
        }
    }
}

/// The two configuration lists carry the same servers: same length, and
/// the same URLs and credentials at each position.
pub open spec fn ice_lists_equiv(a: Seq<IceServerConfig>, b: Seq<IceServerConfig>) -> bool {
    &&& a.len() == b.len()
    &&& forall|i: int|
        0 <= i < a.len() ==> (#[trigger] a[i]).urls@ == b[i].urls@ && a[i].username == b[i].username
            && a[i].credential == b[i].credential
}

/// An element-wise copy of a configuration list.
pub fn clone_ice_configs(v: &Vec<IceServerConfig>) -> (r: Vec<IceServerConfig>)
    ensures
        ice_lists_equiv(r@, v@),
{
    let n = v.len();
    let mut r: Vec<IceServerConfig> = Vec::new();
    let mut i: usize = 0;
    while i < n
        invariant
            n == v@.len(),
            i <= n,
            r@.len() == i,
            forall|j: int|
                0 <= j < i ==> (#[trigger] r@[j]).urls@ == v@[j].urls@ && r@[j].username
                    == v@[j].username && r@[j].credential == v@[j].credential,
        decreases n - i,
    {
        r.push(v[i].clone());
        i = i + 1;
    }
    r
}

/// The group holds exactly the one URL and needs no credentials.
pub open spec fn is_stun_group(s: IceServer, url: Seq<char>) -> bool {
    &&& s.urls@.len() == 1
    &&& s.urls@[0]@ == url
    &&& s.username is None
    &&& s.credential is None
}

/// The group carries these credentials.
pub open spec fn group_credentials(s: IceServer, user: Seq<char>, cred: Seq<char>) -> bool {
    &&& s.username matches Some(u) && u@ == user
    &&& s.credential matches Some(c) && c@ == cred
}

/// A STUN-only group with a single URL.
fn stun_server(url: &str) -> (r: IceServer)
    ensures
        is_stun_group(r, url@),
{
    let mut urls: Vec<String> = Vec::new();
    urls.push(String::from_str(url));
    IceServer { urls, username: None, credential: None }
}

/// The built-in catalogue of public ICE servers: nine STUN groups that
/// need no credentials, then three TURN groups with their published
/// credentials.
pub fn get_ice_servers() -> (r: Vec<IceServer>)
    ensures
        r@.len() == 12,
        is_stun_group(r@[0], "stun:stun.l.google.com:19302"@),
        is_stun_group(r@[1], "stun:stun1.l.google.com:19302"@),
        is_stun_group(r@[2], "stun:stun2.l.google.com:19302"@),
        is_stun_group(r@[3], "stun:stun3.l.google.com:19302"@),
        is_stun_group(r@[4], "stun:stun4.l.google.com:19302"@),
        is_stun_group(r@[5], "stun:stun.cloudflare.com:3478"@),
        is_stun_group(r@[6], "stun:stun.services.mozilla.com:3478"@),
        is_stun_group(r@[7], "stun:stun.stunprotocol.org:3478"@),
        is_stun_group(r@[8], "stun:freestun.net:3478"@),
        r@[9].urls@.len() == 3,
        r@[9].urls@[0]@ == "turn:openrelay.metered.ca:80"@,
        r@[9].urls@[1]@ == "turn:openrelay.metered.ca:443"@,
        r@[9].urls@[2]@ == "turn:openrelay.metered.ca:443?transport=tcp"@,
        group_credentials(r@[9], "openrelayproject"@, "openrelayproject"@),
        r@[10].urls@.len() == 1,
        r@[10].urls@[0]@ == "turn:freestun.net:3478"@,
        group_credentials(r@[10], "free"@, "free"@),
        r@[11].urls@.len() == 2,
        r@[11].urls@[0]@ == "turn:turnix.io:80"@,
        r@[11].urls@[1]@ == "turn:turnix.io:443?transport=tcp"@,
        group_credentials(r@[11], "guest"@, "password"@),
{
    let mut r: Vec<IceServer> = Vec::new();
    r.push(stun_server("stun:stun.l.google.com:19302"));
    r.push(stun_server("stun:stun1.l.google.com:19302"));
    r.push(stun_server("stun:stun2.l.google.com:19302"));
    r.push(stun_server("stun:stun3.l.google.com:19302"));
    r.push(stun_server("stun:stun4.l.google.com:19302"));
    r.push(stun_server("stun:stun.cloudflare.com:3478"));
    r.push(stun_server("stun:stun.services.mozilla.com:3478"));
    r.push(stun_server("stun:stun.stunprotocol.org:3478"));
    r.push(stun_server("stun:freestun.net:3478"));

    let mut openrelay_urls: Vec<String> = Vec::new();
    openrelay_urls.push(String::from_str("turn:openrelay.metered.ca:80"));
    openrelay_urls.push(String::from_str("turn:openrelay.metered.ca:443"));
    openrelay_urls.push(String::from_str("turn:openrelay.metered.ca:443?transport=tcp"));
    r.push(IceServer {
        urls: openrelay_urls,
        username: Some(String::from_str("openrelayproject")),
        credential: Some(String::from_str("openrelayproject")),
    });

    let mut freestun_urls: Vec<String> = Vec::new();
    freestun_urls.push(String::from_str("turn:freestun.net:3478"));
    r.push(IceServer {
        urls: freestun_urls,
        username: Some(String::from_str("free")),
        credential: Some(String::from_str("free")),
    });

    let mut turnix_urls: Vec<String> = Vec::new();
    turnix_urls.push(String::from_str("turn:turnix.io:80"));
    turnix_urls.push(String::from_str("turn:turnix.io:443?transport=tcp"));
    r.push(IceServer {
        urls: turnix_urls,
        username: Some(String::from_str("guest")),
        credential: Some(String::from_str("password")),
    });

    r
}

} // verus!
