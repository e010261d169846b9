//! The provider updater: builds the dynamic-DNS update request and
//! interprets the provider's answer.
//!
//! An update is only ever sent when at least one address family resolved an
//! externally reportable address; purely local churn triggers no provider
//! contact.  The request is `GET https://{server}/nic/update?hostname=
//! {hostname}&myip={myip}` with HTTP basic authentication, where `myip` is
//! the comma-joined list of whichever external addresses are present, IPv4
//! first.  Success means an HTTP 2xx status whose trimmed body is exactly
//! the literal token `good`; anything else is a logged non-update, not an
//! error.

use vstd::prelude::*;

use crate::addr::{
    Ipv4Address, Ipv6Address, spec_format_ipv4, spec_format_ipv6, format_ipv4, format_ipv6,
};
use crate::check::{Ipv4CheckResult, Ipv6CheckResult};
use crate::text::{spec_trim, trim_bytes, bytes_eq};

verus! {

/// The bytes of `https://`.
pub open spec fn spec_scheme_prefix() -> Seq<u8> {
    seq![104u8, 116, 116, 112, 115, 58, 47, 47]
}

/// The bytes of `/nic/update?hostname=`.
pub open spec fn spec_update_path() -> Seq<u8> {
    seq![47u8, 110, 105, 99, 47, 117, 112, 100, 97, 116, 101, 63, 104, 111, 115, 116, 110, 97,
        109, 101, 61]
}

/// The bytes of `&myip=`.
pub open spec fn spec_myip_param() -> Seq<u8> {
    seq![38u8, 109, 121, 105, 112, 61]
}

/// The bytes of the provider's success token `good`.
pub open spec fn spec_good_token() -> Seq<u8> {
    seq![103u8, 111, 111, 100]
}

/// The `myip` parameter text: whichever external addresses are present,
/// IPv4 first, comma-joined.
pub open spec fn spec_myip_text(v4: Option<Ipv4Address>, v6: Option<Ipv6Address>) -> Seq<u8> {
    match (v4, v6) {
        (Some(a), Some(b)) => spec_format_ipv4(a) + seq![44u8] + spec_format_ipv6(b),
        (Some(a), None) => spec_format_ipv4(a),
        (None, Some(b)) => spec_format_ipv6(b),
        (None, None) => Seq::<u8>::empty(),
    }
}

/// The full update URL for a server, hostname and `myip` text.
pub open spec fn spec_update_url(server: Seq<u8>, hostname: Seq<u8>, myip: Seq<u8>) -> Seq<u8> {
    spec_scheme_prefix() + server + spec_update_path() + hostname + spec_myip_param() + myip
}

/// Appends one byte string to another.
fn append_bytes(out: &mut Vec<u8>, part: &[u8])
    ensures
        final(out)@ =~= old(out)@ + part@,
{
    let mut i: usize = 0;
    while i < part.len()
        invariant
            i <= part@.len(),
            out@ =~= old(out)@ + part@.subrange(0, i as int),
        decreases part@.len() - i,
    {
        out.push(part[i]);
        i = i + 1;
    }
    proof {
        assert(part@.subrange(0, part@.len() as int) =~= part@);
    }
}

/// The scheme prefix as bytes.
fn scheme_prefix() -> (r: Vec<u8>)
    ensures
        r@ =~= spec_scheme_prefix(),
{
    let mut v: Vec<u8> = Vec::new();
    v.push(104);
    v.push(116);
    v.push(116);
    v.push(112);
    v.push(115);
    v.push(58);
    v.push(47);
    v.push(47);
    v
}

/// The update path and `hostname` key as bytes.
fn update_path() -> (r: Vec<u8>)
    ensures
        r@ =~= spec_update_path(),
{
    let mut v: Vec<u8> = Vec::new();
    v.push(47);
    v.push(110);
    v.push(105);
    v.push(99);
    v.push(47);
    v.push(117);
    v.push(112);
    v.push(100);
    v.push(97);
    v.push(116);
    v.push(101);
    v.push(63);
    v.push(104);
    v.push(111);
    v.push(115);
    v.push(116);
    v.push(110);
    v.push(97);
    v.push(109);
    v.push(101);
    v.push(61);
    v
}

/// The `myip` key as bytes.
fn myip_param() -> (r: Vec<u8>)
    ensures
        r@ =~= spec_myip_param(),
{
    let mut v: Vec<u8> = Vec::new();
    v.push(38);
    v.push(109);
    v.push(121);
    v.push(105);
    v.push(112);
    v.push(61);
    v
}

/// The success token as bytes.
fn good_token() -> (r: Vec<u8>)
    ensures
        r@ =~= spec_good_token(),
{
    let mut v: Vec<u8> = Vec::new();
    v.push(103);
    v.push(111);
    v.push(111);
    v.push(100);
    v
}

/// Builds the `myip` parameter text.
pub fn myip_text(v4: &Option<Ipv4Address>, v6: &Option<Ipv6Address>) -> (r: Vec<u8>)
    ensures
        r@ =~= spec_myip_text(*v4, *v6),
{
    let mut out: Vec<u8> = Vec::new();
    match v4 {
        Some(a) => {
            let t = format_ipv4(a);
            append_bytes(&mut out, t.as_slice());
            proof {
                crate::addr::lemma_format_ipv4_nonempty(*a);
            }
        },
        None => {},
    }
    match v6 {
        Some(b) => {
            if out.len() > 0 {
                out.push(44);
            }
            let t = format_ipv6(b);
            append_bytes(&mut out, t.as_slice());
        },
        None => {},
    }
    out
}

/// The provider credentials, read fresh from the configuration each cycle.
#[derive(Debug, Clone)]
pub struct DynDnsAuth {
    pub server: Vec<u8>,
    pub username: Vec<u8>,
    pub password: Vec<u8>,
}

impl DynDnsAuth {
    /// Bundles the server and credentials.
    pub fn new(server: Vec<u8>, username: Vec<u8>, password: Vec<u8>) -> (r: DynDnsAuth)
        ensures
            r.server == server,
            r.username == username,
            r.password == password,
    {
        DynDnsAuth { server, username, password }
    }
}

/// Everything the transport needs to send one update: the URL and the
/// basic-auth credentials.
#[derive(Debug, Clone)]
pub struct UpdateRequest {
    pub url: Vec<u8>,
    pub username: Vec<u8>,
    pub password: Vec<u8>,
}

/// The provider updater: decides whether an update is owed and builds it.
pub struct DynDnsUpdater {
    pub auth: DynDnsAuth,
    pub hostname: Vec<u8>,
}

impl DynDnsUpdater {
    /// Builds an updater for a hostname with the given credentials.
    pub fn new(auth: DynDnsAuth, hostname: Vec<u8>) -> (r: DynDnsUpdater)
        ensures
            r.auth == auth,
            r.hostname == hostname,
    {
        DynDnsUpdater { auth, hostname }
    }

    /// Plans the provider contact for one cycle: `None`, demanding no
    /// network call at all, exactly when neither family resolved an
    /// external address; otherwise the complete request to send.
    pub fn plan(&self, ipv4: &Ipv4CheckResult, ipv6: &Ipv6CheckResult) -> (r: Option<
        UpdateRequest,
    >)
        ensures
            r is None <==> (ipv4.external is None && ipv6.external is None),
            r matches Some(req) ==> req.url@ =~= spec_update_url(
                self.auth.server@,
                self.hostname@,
                spec_myip_text(ipv4.external, ipv6.external),
            ) && req.username@ == self.auth.username@ && req.password@ == self.auth.password@,
    {
        if ipv4.external.is_none() && ipv6.external.is_none() {
            return None;
        }
        let myip = myip_text(&ipv4.external, &ipv6.external);
        let mut url = scheme_prefix();
        append_bytes(&mut url, self.auth.server.as_slice());
        let path = update_path();
        append_bytes(&mut url, path.as_slice());
        append_bytes(&mut url, self.hostname.as_slice());
        let param = myip_param();
        append_bytes(&mut url, param.as_slice());
        append_bytes(&mut url, myip.as_slice());
        let mut username: Vec<u8> = Vec::new();
        append_bytes(&mut username, self.auth.username.as_slice());
        let mut password: Vec<u8> = Vec::new();
        append_bytes(&mut password, self.auth.password.as_slice());
        proof {
            assert(username@ =~= self.auth.username@);
            assert(password@ =~= self.auth.password@);
        }
        Some(UpdateRequest { url, username, password })
    }
}

/// Whether an HTTP status is a success (2xx) status.
pub open spec fn spec_status_success(status: u16) -> bool {
    200 <= status < 300
}

/// Whether the provider accepted the update: a 2xx status whose trimmed
/// body is exactly the literal token `good`.  Any other combination,
/// well-formed as HTTP or not, is a non-update and never an error.
pub fn update_succeeded(status: u16, body: &[u8]) -> (r: bool)
    ensures
        r == (spec_status_success(status) && spec_trim(body@) == spec_good_token()),
{
    if !(200 <= status && status < 300) {
        return false;
    }
    let trimmed = trim_bytes(body);
    let token = good_token();
    bytes_eq(trimmed, token.as_slice())
}

} // verus!
