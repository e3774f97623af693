//! TURN credential provisioning: the computable part of fetching ICE
//! servers from the external credential service.
//!
//! The service is queried over HTTP by the edge; everything around that
//! call lives here, verified: whether the configured credentials are
//! usable at all, the request URL and the basic-auth token, the
//! splitting of the returned URL list into a STUN group and a TURN
//! group, and the public-STUN fallback used on any failure.

use vstd::prelude::*;
use vstd::string::StringSliceAdditionalSpecFns;
use vstd::string::StrSliceExecFns;
use vstd::string::StringExecFns;

use crate::ice::IceServerConfig;
use crate::strings::{starts_with, str_starts_with};

verus! {

/// The characters that the standard padded base64 alphabet assigns to a
/// byte string. Named, not spelled out: the encoding is the base64
/// crate's business, and callers only pass the result along.
pub uninterp spec fn base64_std(data: Seq<u8>) -> Seq<char>;

/// Relies on base64's `engine::general_purpose::STANDARD` (standard
/// alphabet, padded): the encoding depends on the input bytes alone, and
/// a padded encoding is four characters for every started triple of
/// bytes.
#[verifier::external_body]
fn b64_standard(data: &[u8]) -> (r: String)
    ensures
        r@ == base64_std(data@),
        r@.len() == 4 * ((data@.len() + 2) / 3),
{
    base64::Engine::encode(&base64::engine::general_purpose::STANDARD, data)
}

/// Whether the configured credentials can be used at all: the provider
/// is only queried when both the username and the secret are non-empty.
pub fn xirsys_creds_present(username: &str, secret: &str) -> (r: bool)
    ensures
        r == (username@.len() > 0 && secret@.len() > 0),
{
    username.unicode_len() > 0 && secret.unicode_len() > 0
}

/// The channel the provider is asked for: the configured one, or the
/// service's default channel when none is configured.
pub fn xirsys_channel(channel: Option<String>) -> (r: String)
    ensures
        match channel {
            Some(c) => r == c,
            None => r@ == "webhangin"@,
        },
{
    match channel {
        Some(c) => c,
        None => String::from_str("webhangin"),
    }
}

/// The provider URL for a channel.
pub fn xirsys_request_url(channel: &str) -> (r: String)
    ensures
        r@ == "https://global.xirsys.net/_turn/"@ + channel@,
{
    String::from_str("https://global.xirsys.net/_turn/").concat(channel)
}

/// The basic-auth token for the provider: the base64 encoding of
/// `username:secret`.
pub fn xirsys_basic_auth(username: &str, secret: &str) -> (r: String)
    ensures
        r@ == base64_std(username.spec_bytes() + seq![58u8] + secret.spec_bytes()),
{
    let mut data = username.as_bytes_vec();
    data.push(58);  // the byte of ':'
    let mut tail = secret.as_bytes_vec();
    data.append(&mut tail);
    proof {
        assert(data@ =~= username.spec_bytes() + seq![58u8] + secret.spec_bytes());
    }
    b64_standard(data.as_slice())
}

/// What the provider's answer carries once decoded: one flat URL list
/// and one optional set of credentials.
#[derive(Debug, PartialEq, Eq)]
pub struct XirsysIceUrls {
    pub urls: Vec<String>,
    pub username: Option<String>,
    pub credential: Option<String>,
}

/// The URLs of the list that are STUN URLs, in order.
pub open spec fn stun_urls(urls: Seq<String>) -> Seq<String>
    decreases urls.len(),
{
    if urls.len() == 0 {
        Seq::empty()
    } else {
        let rest = stun_urls(urls.drop_last());
        if starts_with(urls.last()@, "stun:"@) {
            rest.push(urls.last())
        } else {
            rest
        }
    }
}

/// The URLs of the list that are TURN (or TURNS) URLs, in order.
pub open spec fn turn_urls(urls: Seq<String>) -> Seq<String>
    decreases urls.len(),
{
    if urls.len() == 0 {
        Seq::empty()
    } else {
        let rest = turn_urls(urls.drop_last());
        if starts_with(urls.last()@, "turn:"@) || starts_with(urls.last()@, "turns:"@) {
            rest.push(urls.last())
        } else {
            rest
        }
    }
}

/// The credentials string taken from an optional field: the value when
/// present, empty when absent.
pub open spec fn cred_or_empty(c: Option<String>) -> Seq<char> {
    match c {
        Some(s) => s@,
        None => Seq::empty(),
    }
}

/// Split a provider answer into ICE server groups: one STUN group
/// without credentials if any STUN URL came back, then one TURN group
/// carrying the returned credentials if any TURN URL came back.
#[verifier::loop_isolation(false)]
pub fn servers_from_xirsys(ice: &XirsysIceUrls) -> (r: Vec<IceServerConfig>)
    ensures
        ({
            let st = stun_urls(ice.urls@);
            let tu = turn_urls(ice.urls@);
            &&& r@.len() == (if st.len() > 0 {
                1int
            } else {
                0int
            }) + (if tu.len() > 0 {
                1int
            } else {
                0int
            })
            &&& st.len() > 0 ==> r@[0].urls@ == st && r@[0].username@ == Seq::<char>::empty()
                && r@[0].credential@ == Seq::<char>::empty()
            &&& tu.len() > 0 ==> ({
                let ti = if st.len() > 0 {
                    1int
                } else {
                    0int
                };
                &&& r@[ti].urls@ == tu
                &&& r@[ti].username@ == cred_or_empty(ice.username)
                &&& r@[ti].credential@ == cred_or_empty(ice.credential)
            })
        }),
{
    let n = ice.urls.len();
    let mut stun: Vec<String> = Vec::new();
    let mut turn: Vec<String> = Vec::new();
    let mut i: usize = 0;
    while i < n
        invariant
            i <= n,
            stun@ == stun_urls(ice.urls@.subrange(0, i as int)),
            turn@ == turn_urls(ice.urls@.subrange(0, i as int)),
        decreases n - i,
    {
        proof {
            let ext = ice.urls@.subrange(0, i + 1 as int);
            assert(ext.drop_last() =~= ice.urls@.subrange(0, i as int));
            assert(ext.last() == ice.urls@[i as int]);
        }
        if str_starts_with(ice.urls[i].as_str(), "stun:") {
            stun.push(ice.urls[i].clone());
        }
        if str_starts_with(ice.urls[i].as_str(), "turn:") || str_starts_with(
            ice.urls[i].as_str(),
            "turns:",
        ) {
            turn.push(ice.urls[i].clone());
        }
        proof {
            let ext = ice.urls@.subrange(0, i + 1 as int);
            assert(stun@ =~= stun_urls(ext));
            assert(turn@ =~= turn_urls(ext));
        }
        i = i + 1;
    }
    proof {
        assert(ice.urls@.subrange(0, n as int) =~= ice.urls@);
    }
    let mut r: Vec<IceServerConfig> = Vec::new();
    let have_stun = stun.len() > 0;
    if have_stun {
        r.push(
            IceServerConfig { urls: stun, username: String::new(), credential: String::new() },
        );
    }
    if turn.len() > 0 {
        let username = match &ice.username {
            Some(u) => u.clone(),
            None => String::new(),
        };
        let credential = match &ice.credential {
            Some(c) => c.clone(),
            None => String::new(),
        };
        r.push(IceServerConfig { urls: turn, username, credential });
    }
    r
}

/// The fixed fallback: public STUN servers, one group, no credentials.
pub open spec fn is_default_ice(r: Seq<IceServerConfig>) -> bool {
    &&& r.len() == 1
    &&& r[0].urls@.len() == 3
    &&& r[0].urls@[0]@ == "stun:stun.l.google.com:19302"@
    &&& r[0].urls@[1]@ == "stun:stun1.l.google.com:19302"@
    &&& r[0].urls@[2]@ == "stun:stun.cloudflare.com:3478"@
    &&& r[0].username@ == Seq::<char>::empty()
    &&& r[0].credential@ == Seq::<char>::empty()
}

/// The fallback ICE configuration used when the provider cannot be
/// queried or answers nothing usable.
pub fn default_ice_servers() -> (r: Vec<IceServerConfig>)
    ensures
        is_default_ice(r@),
{
    let mut urls: Vec<String> = Vec::new();
    urls.push(String::from_str("stun:stun.l.google.com:19302"));
    urls.push(String::from_str("stun:stun1.l.google.com:19302"));
    urls.push(String::from_str("stun:stun.cloudflare.com:3478"));
    let mut r: Vec<IceServerConfig> = Vec::new();
    r.push(IceServerConfig { urls, username: String::new(), credential: String::new() });
    r
}

/// The ICE server list the process starts with, given what came back
/// from the provider: `None` when the query failed in any way (missing
/// credentials, transport error, bad status, unreadable answer). Any
/// failure, and an answer without a single usable URL, falls back to the
/// public STUN list.
pub fn xirsys_or_fallback(parsed: Option<XirsysIceUrls>) -> (r: Vec<IceServerConfig>)
    ensures
        match parsed {
            None => is_default_ice(r@),
            Some(ice) => {
                let st = stun_urls(ice.urls@);
                let tu = turn_urls(ice.urls@);
                if st.len() == 0 && tu.len() == 0 {
                    is_default_ice(r@)
                } else {
                    &&& r@.len() == (if st.len() > 0 {
                        1int
                    } else {
                        0int
                    }) + (if tu.len() > 0 {
                        1int
                    } else {
                        0int
                    })
                    &&& st.len() > 0 ==> r@[0].urls@ == st && r@[0].username@ == Seq::<
                        char,
                    >::empty() && r@[0].credential@ == Seq::<char>::empty()
                    &&& tu.len() > 0 ==> ({
                        let ti = if st.len() > 0 {
                            1int
                        } else {
                            0int
                        };
                        &&& r@[ti].urls@ == tu
                        &&& r@[ti].username@ == cred_or_empty(ice.username)
                        &&& r@[ti].credential@ == cred_or_empty(ice.credential)
                    })
                }
            },
        },
{
    match parsed {
        Some(ice) => {
            let servers = servers_from_xirsys(&ice);
            if servers.is_empty() {
                default_ice_servers()
            } else {
                servers
            }
        },
        None => default_ice_servers(),
    }
}

} // verus!
