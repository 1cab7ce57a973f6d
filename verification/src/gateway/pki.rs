//! TLS certificate policy: which names a leaf certificate covers and when it
//! is due for rotation.

use vstd::prelude::*;

use crate::text::push_str;

verus! {

/// CA certificate validity in days (5 years).
pub const CA_VALIDITY_DAYS: u64 = 1825;

/// Leaf certificate validity in days (short-lived, ACME-style).
pub const LEAF_VALIDITY_DAYS: u64 = 14;

/// Artifact key of the CA certificate.
pub const CA_CERT_KEY: &'static str = "tls/ca-cert";

/// Artifact key of the CA private key.
pub const CA_KEY_KEY: &'static str = "tls/ca-key";

/// Artifact key of the server (leaf) certificate.
pub const SERVER_CERT_KEY: &'static str = "tls/server-cert";

/// Artifact key of the server (leaf) private key.
pub const SERVER_KEY_KEY: &'static str = "tls/server-key";

/// Half the leaf lifetime in milliseconds: the age at which a leaf is
/// rotated.
pub const LEAF_HALF_LIFE_MS: i64 = 604_800_000;

/// An IP address, by its octets (v4) or 16-bit segments (v6).
#[derive(Debug, Clone, Copy, PartialEq, Eq, Structural)]
pub enum IpAddress {
    V4(u8, u8, u8, u8),
    V6(u16, u16, u16, u16, u16, u16, u16, u16),
}

/// The IPv4 loopback address `127.0.0.1`.
pub open spec fn localhost_v4() -> IpAddress {
    IpAddress::V4(127, 0, 0, 1)
}

/// The IPv6 loopback address `::1`.
pub open spec fn localhost_v6() -> IpAddress {
    IpAddress::V6(0, 0, 0, 0, 0, 0, 0, 1)
}

/// The unspecified ("any") address of either family.
pub open spec fn is_unspecified(ip: IpAddress) -> bool {
    ip == IpAddress::V4(0, 0, 0, 0) || ip == IpAddress::V6(0, 0, 0, 0, 0, 0, 0, 0)
}

/// A Subject Alternative Name of a certificate.
#[derive(Debug, Clone, PartialEq, Eq)]
pub enum SubjectAltName {
    DnsName(String),
    IpAddress(IpAddress),
}

/// A name's text (DNS names) or address.
pub open spec fn san_view(san: SubjectAltName) -> (Option<Seq<char>>, Option<IpAddress>) {
    match san {
        SubjectAltName::DnsName(name) => (Some(name@), None),
        SubjectAltName::IpAddress(ip) => (None, Some(ip)),
    }
}

/// The names a leaf certificate for a listener bound to `bind_ip` covers:
/// `localhost`, both loopback addresses, and the bind address itself when it
/// is neither a loopback address nor unspecified.
pub open spec fn sans_spec(bind_ip: IpAddress) -> Seq<(Option<Seq<char>>, Option<IpAddress>)> {
    let defaults = seq![
        (Some("localhost"@), None::<IpAddress>),
        (None::<Seq<char>>, Some(localhost_v4())),
        (None::<Seq<char>>, Some(localhost_v6())),
    ];
    if bind_ip == localhost_v4() || bind_ip == localhost_v6() || is_unspecified(bind_ip) {
        defaults
    } else {
        defaults.push((None, Some(bind_ip)))
    }
}

/// The Subject Alternative Names of a leaf certificate for a listener bound
/// to `bind_ip` (see [`sans_spec`]).
pub fn compute_sans(bind_ip: IpAddress) -> (sans: Vec<SubjectAltName>)
    ensures
        sans@.map_values(|s: SubjectAltName| san_view(s)) == sans_spec(bind_ip),
{
    let mut localhost = String::new();
    push_str(&mut localhost, "localhost");
    let v4 = IpAddress::V4(127, 0, 0, 1);
    let v6 = IpAddress::V6(0, 0, 0, 0, 0, 0, 0, 1);
    let mut sans: Vec<SubjectAltName> = Vec::new();
    sans.push(SubjectAltName::DnsName(localhost));
    sans.push(SubjectAltName::IpAddress(v4));
    sans.push(SubjectAltName::IpAddress(v6));
    let already = bind_ip == v4 || bind_ip == v6;
    let unspecified = bind_ip == IpAddress::V4(0, 0, 0, 0) || bind_ip == IpAddress::V6(0, 0, 0, 0, 0, 0, 0, 0);
    if !already && !unspecified {
        sans.push(SubjectAltName::IpAddress(bind_ip));
    }
    assert(sans@.map_values(|s: SubjectAltName| san_view(s)) =~= sans_spec(bind_ip));
    sans
}

/// A leaf certificate stored at `stored_ms` is due for rotation at `now_ms`
/// once it is at least half its lifetime old (a clock behind the store
/// time counts as age 0).
pub open spec fn rotation_due_spec(now_ms: int, stored_ms: int) -> bool {
    let age = if now_ms - stored_ms > 0 { now_ms - stored_ms } else { 0 };
    age >= LEAF_HALF_LIFE_MS
}

/// Whether a leaf certificate stored at `stored_ms` is past half its
/// lifetime at `now_ms` (milliseconds since the epoch).
pub fn rotation_due(now_ms: i64, stored_ms: i64) -> (due: bool)
    requires
        i64::MIN <= now_ms - stored_ms <= i64::MAX,
    ensures
        due == rotation_due_spec(now_ms as int, stored_ms as int),
{
    let diff = now_ms - stored_ms;
    let age = if diff > 0 {
        diff
    } else {
        0
    };
    age >= LEAF_HALF_LIFE_MS
}

/// Whether the server certificate needs rotation at `now_ms`, given when
/// the stored one was written (`None` when there is no server certificate,
/// which never needs rotation).
pub fn needs_rotation(now_ms: i64, stored_ms: Option<i64>) -> (due: bool)
    requires
        stored_ms matches Some(s) ==> i64::MIN <= now_ms - s <= i64::MAX,
    ensures
        due == match stored_ms {
            Some(s) => rotation_due_spec(now_ms as int, s as int),
            None => false,
        },
{
    match stored_ms {
        Some(s) => rotation_due(now_ms, s),
        None => false,
    }
}

/// Generated PKI material, PEM-encoded.
pub struct Pki {
    pub ca_cert_pem: String,
    pub ca_key_pem: String,
    pub server_cert_pem: String,
    pub server_key_pem: String,
}

/// Input for the rotate-certificate task.
#[derive(Debug, Clone)]
pub struct RotateCertificateInput {
    /// The address the HTTPS listener is bound to, formatted as `host:port`.
    /// The bind IP is added to the leaf's Subject Alternative Names when it
    /// differs from the localhost defaults.
    pub bind_addr: String,
}

/// Output of the rotate-certificate task.
#[derive(Debug, Clone, Copy, PartialEq, Eq, Structural)]
pub struct RotateCertificateOutput {
    /// Whether the leaf was actually re-issued. `false` means the existing
    /// cert still had enough remaining validity and no rotation was needed.
    pub rotated: bool,
}


/// A leaf is rotated at half its lifetime: the rotation age is half of
/// [`LEAF_VALIDITY_DAYS`] in milliseconds.
pub proof fn law_rotation_at_half_lifetime()
    ensures
        LEAF_HALF_LIFE_MS == LEAF_VALIDITY_DAYS * 24 * 60 * 60 * 1000 / 2,
{
}

/// Once a leaf is due for rotation it stays due as time goes on.
pub proof fn law_rotation_due_is_monotone(now_ms: int, later_ms: int, stored_ms: int)
    requires
        now_ms <= later_ms,
        rotation_due_spec(now_ms, stored_ms),
    ensures
        rotation_due_spec(later_ms, stored_ms),
{
}

/// The leaf always covers `localhost` and both loopback addresses, and
/// never lists an address twice.
pub proof fn law_sans_cover_localhost(bind_ip: IpAddress)
    ensures
        sans_spec(bind_ip)[0] == (Some("localhost"@), None::<IpAddress>),
        sans_spec(bind_ip)[1] == (None::<Seq<char>>, Some(localhost_v4())),
        sans_spec(bind_ip)[2] == (None::<Seq<char>>, Some(localhost_v6())),
        forall|i: int, j: int|
            0 <= i < j < sans_spec(bind_ip).len() ==> sans_spec(bind_ip)[i] != sans_spec(bind_ip)[j],
{
}

/// A certificate for a listener bound to a specific address covers that
/// address, of either family: for any bind address other than the two
/// loopback addresses and the unspecified ones, the names are the three
/// localhost names followed by the bind address itself; otherwise they are
/// just the three localhost names.
pub proof fn law_specific_bind_address_is_covered(bind_ip: IpAddress)
    ensures
        !(bind_ip == localhost_v4() || bind_ip == localhost_v6() || is_unspecified(bind_ip)) ==> (
        sans_spec(bind_ip).len() == 4 && sans_spec(bind_ip)[3] == (None::<Seq<char>>, Some(bind_ip))),
        (bind_ip == localhost_v4() || bind_ip == localhost_v6() || is_unspecified(bind_ip))
            ==> sans_spec(bind_ip).len() == 3,
        forall|i: int|
            0 <= i < sans_spec(bind_ip).len() && (#[trigger] sans_spec(bind_ip)[i]).1 == Some(bind_ip)
                ==> !is_unspecified(bind_ip),
{
}

} // verus!
