//! The decisions of the gateway's top-level lifecycle: which listener
//! configurations are accepted, which services are announced on the local
//! network, and how the supervisor's shutdown outcome becomes the process
//! result.

use vstd::prelude::*;

use super::pki::IpAddress;
use crate::text::push_str;

verus! {

/// A socket address a listener binds: an IP address and a port. For an IPv6
/// address the flow label and scope id are part of the address; an IPv4
/// address has both 0.
#[derive(Debug, Clone, Copy, PartialEq, Eq, Structural)]
pub struct ListenAddr {
    pub ip: IpAddress,
    pub port: u16,
    pub flowinfo: u32,
    pub scope_id: u32,
}

/// Why a listener configuration is refused.
#[derive(Debug, Clone, Copy, PartialEq, Eq, Structural)]
pub enum ListenerError {
    /// Neither the HTTPS nor the HTTP listener is set.
    NoListeners,
    /// Both listeners bind this same address.
    SameAddress(ListenAddr),
}

/// The listener configuration is accepted: at least one listener is set,
/// and two listeners bind different addresses.
pub open spec fn listeners_ok(tls: Option<ListenAddr>, plain: Option<ListenAddr>) -> bool {
    (tls is Some || plain is Some) && !(tls is Some && plain is Some && tls->Some_0
        == plain->Some_0)
}

/// Checks the listener configuration before anything is started: at least
/// one of the HTTPS and HTTP listeners must be set, and when both are set
/// they must bind different addresses.
pub fn check_listeners(tls: Option<ListenAddr>, plain: Option<ListenAddr>) -> (r: Result<(), ListenerError>)
    ensures
        r is Ok <==> listeners_ok(tls, plain),
        (tls is None && plain is None) ==> r == Err::<(), ListenerError>(ListenerError::NoListeners),
        (tls is Some && plain is Some && tls->Some_0 == plain->Some_0) ==> r == Err::<
            (),
            ListenerError,
        >(ListenerError::SameAddress(tls->Some_0)),
{
    match (tls, plain) {
        (None, None) => Err(ListenerError::NoListeners),
        (Some(a), Some(b)) => {
            if a == b {
                Err(ListenerError::SameAddress(a))
            } else {
                Ok(())
            }
        },
        _ => Ok(()),
    }
}

/// The message of a refused listener configuration, given the text of the
/// shared address (for [`ListenerError::SameAddress`]).
pub open spec fn listener_error_text(e: ListenerError, address_text: Seq<char>) -> Seq<char> {
    match e {
        ListenerError::NoListeners =>
            "at least one of --https-addr or --http-addr must be set (pass an empty string to disable a single listener)"@,
        ListenerError::SameAddress(_) => "--https-addr and --http-addr must differ (both were "@
            + address_text + ")"@,
    }
}

impl ListenerError {
    /// The error's message; `address_text` is how the shared address is
    /// written (used by [`ListenerError::SameAddress`] only).
    pub fn message(&self, address_text: &str) -> (s: String)
        ensures
            s@ == listener_error_text(*self, address_text@),
    {
        let mut s = String::new();
        match self {
            ListenerError::NoListeners => push_str(
                &mut s,
                "at least one of --https-addr or --http-addr must be set (pass an empty string to disable a single listener)",
            ),
            ListenerError::SameAddress(_) => {
                push_str(&mut s, "--https-addr and --http-addr must differ (both were ");
                push_str(&mut s, address_text);
                push_str(&mut s, ")");
            },
        }
        s
    }
}

/// A DNS-SD service announced on the local network.
#[derive(Debug, Clone, PartialEq, Eq)]
pub struct ServiceSpec {
    pub service_type: String,
    pub port: u16,
}

/// The services announced for the listeners' ports: `_https._tcp` for the
/// HTTPS port, then `_http._tcp` for the HTTP port, each only when that
/// listener is bound.
pub open spec fn services_spec(https_port: Option<u16>, plain_port: Option<u16>) -> Seq<(Seq<char>, u16)> {
    let https = match https_port {
        Some(p) => seq![("_https._tcp"@, p)],
        None => Seq::empty(),
    };
    let plain = match plain_port {
        Some(p) => seq![("_http._tcp"@, p)],
        None => Seq::empty(),
    };
    https + plain
}

/// The services to announce for the bound listener ports (see
/// [`services_spec`]).
pub fn service_specs(https_port: Option<u16>, plain_port: Option<u16>) -> (services: Vec<ServiceSpec>)
    ensures
        services@.map_values(|s: ServiceSpec| (s.service_type@, s.port)) == services_spec(
            https_port,
            plain_port,
        ),
{
    let mut services: Vec<ServiceSpec> = Vec::new();
    if let Some(port) = https_port {
        let mut service_type = String::new();
        push_str(&mut service_type, "_https._tcp");
        services.push(ServiceSpec { service_type, port });
    }
    if let Some(port) = plain_port {
        let mut service_type = String::new();
        push_str(&mut service_type, "_http._tcp");
        services.push(ServiceSpec { service_type, port });
    }
    assert(services@.map_values(|s: ServiceSpec| (s.service_type@, s.port)) =~= services_spec(
        https_port,
        plain_port,
    ));
    services
}

/// How the supervisor's run ended.
#[derive(Debug, Clone, PartialEq, Eq)]
pub enum ShutdownOutcome {
    /// A stop signal arrived and every worker drained.
    Signaled,
    /// A worker did not finish its drain in time.
    Forced,
    /// The named worker exited before any stop was requested.
    EarlyExit { worker: String },
}

/// The process result of a shutdown outcome: success only after a clean,
/// signaled shutdown.
pub open spec fn shutdown_result_spec(outcome: ShutdownOutcome) -> Result<(), Seq<char>> {
    match outcome {
        ShutdownOutcome::Signaled => Ok(()),
        ShutdownOutcome::Forced => Err("forced exit: a worker hung during the shutdown drain"@),
        ShutdownOutcome::EarlyExit { worker } => Err("worker "@ + worker@ + " exited early"@),
    }
}

/// The process result of a shutdown outcome (see [`shutdown_result_spec`]).
pub fn shutdown_result(outcome: ShutdownOutcome) -> (r: Result<(), String>)
    ensures
        match r {
            Ok(()) => shutdown_result_spec(outcome) == Ok::<(), Seq<char>>(()),
            Err(m) => shutdown_result_spec(outcome) == Err::<(), Seq<char>>(m@),
        },
{
    match outcome {
        ShutdownOutcome::Signaled => Ok(()),
        ShutdownOutcome::Forced => {
            let mut m = String::new();
            push_str(&mut m, "forced exit: a worker hung during the shutdown drain");
            Err(m)
        },
        ShutdownOutcome::EarlyExit { worker } => {
            let mut m = String::new();
            push_str(&mut m, "worker ");
            push_str(&mut m, worker.as_str());
            push_str(&mut m, " exited early");
            Err(m)
        },
    }
}

/// Where the gateway's hostname comes from at startup.
pub enum HostnameSource {
    /// Apply this configured name and use it.
    Apply(String),
    /// Read the hostname the OS currently has.
    ReadFromOs,
}

/// Where the gateway's hostname comes from at startup: the configured
/// name when one is set, else the OS's current hostname.
pub fn hostname_source(configured: Option<&str>) -> (s: HostnameSource)
    ensures
        match configured {
            Some(name) => s matches HostnameSource::Apply(n) && n@ == name@,
            None => s is ReadFromOs,
        },
{
    match configured {
        Some(name) => {
            let mut n = String::new();
            push_str(&mut n, name);
            HostnameSource::Apply(n)
        },
        None => HostnameSource::ReadFromOs,
    }
}

/// What woke the OS worker's loop.
#[derive(Debug, Clone, PartialEq, Eq)]
pub enum SettingsWake {
    /// The gateway is stopping.
    Stop,
    /// The hostname setting changed to this name.
    HostnameChanged(String),
    /// Another setting changed, or the hostname setting was cleared.
    OtherChange,
    /// The settings feed lagged and skipped this many changes.
    Lagged(u64),
    /// The settings feed ended.
    Closed,
}

/// What the OS worker does next.
#[derive(Debug, Clone, PartialEq, Eq)]
pub enum OsAction {
    /// Leave the loop and withdraw the announced services.
    Exit,
    /// Apply this hostname to the OS; once it is applied, regenerate the
    /// TLS certificate for it.
    ApplyHostname(String),
    /// Nothing to do.
    Ignore,
    /// Report that this many changes were skipped, and carry on.
    ReportLag(u64),
}

/// The OS worker's next action on `wake`: a new hostname is applied, the
/// loop ends when the gateway stops or the feed ends, and other changes are
/// ignored.
pub fn os_feed_step(wake: SettingsWake) -> (a: OsAction)
    ensures
        (wake is Stop || wake is Closed) <==> a is Exit,
        wake matches SettingsWake::HostnameChanged(name) ==> a == OsAction::ApplyHostname(name),
        wake is OtherChange ==> a is Ignore,
        wake matches SettingsWake::Lagged(n) ==> a == OsAction::ReportLag(n),
{
    match wake {
        SettingsWake::Stop | SettingsWake::Closed => OsAction::Exit,
        SettingsWake::HostnameChanged(name) => OsAction::ApplyHostname(name),
        SettingsWake::OtherChange => OsAction::Ignore,
        SettingsWake::Lagged(n) => OsAction::ReportLag(n),
    }
}

} // verus!
