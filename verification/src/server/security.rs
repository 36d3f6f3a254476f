//! Security of connections: which protection and which authentication a server
//! offers, and what its configuration exposes.

use vstd::prelude::*;

use crate::text::same_text;

verus! {

/// Standard RDP security has neither TLS nor encryption.
pub open spec fn is_standard(mode: Seq<char>) -> bool {
    mode == "rdp"@ || mode == "none"@
}

/// Whether a security mode is standard RDP security. A host that relays a client
/// over an isolated transport needs it.
pub fn is_standard_rdp_security(security_mode: &str) -> (r: bool)
    ensures
        r == is_standard(security_mode@),
{
    same_text(security_mode, "rdp") || same_text(security_mode, "none")
}

/// Mode and method call for authentication at the network level (CredSSP).
pub open spec fn uses_hybrid(mode: Seq<char>, auth: Seq<char>) -> bool {
    mode == "hybrid"@ || (mode == "auto"@ && auth != "none"@)
}

/// Whether mode and method call for authentication at the network level: where the
/// mode asks for it, and in automatic mode where there is something to authenticate
/// with. A server is built with it in mode `hybrid` alone.
pub fn resolve_security_mode(security_mode: &str, effective_auth_method: &str) -> (r: bool)
    ensures
        r == uses_hybrid(security_mode@, effective_auth_method@),
{
    if same_text(security_mode, "hybrid") {
        true
    } else if same_text(security_mode, "auto") {
        !same_text(effective_auth_method, "none")
    } else {
        false
    }
}

/// Name of a security mode for people.
pub open spec fn label_of(mode: Seq<char>) -> Seq<char> {
    if mode == "hybrid"@ {
        "Hybrid (NLA/CredSSP)"@
    } else if mode == "auto"@ {
        "Auto"@
    } else if is_standard(mode) {
        "Standard RDP (no TLS/encryption)"@
    } else {
        "TLS"@
    }
}

pub fn security_label(security_mode: &str) -> (r: &'static str)
    ensures
        r@ == label_of(security_mode@),
{
    if same_text(security_mode, "hybrid") {
        "Hybrid (NLA/CredSSP)"
    } else if same_text(security_mode, "auto") {
        "Auto"
    } else if is_standard_rdp_security(security_mode) {
        "Standard RDP (no TLS/encryption)"
    } else {
        "TLS"
    }
}

/// The protection that a server is built with.
#[derive(Clone, Copy, Debug, PartialEq, Eq, Structural)]
pub enum ServerSecurity {
    /// Neither TLS nor encryption.
    Standard,
    /// TLS with authentication at the network level.
    Hybrid,
    Tls,
}

/// The protection that a mode asks for. Authentication at the network level needs
/// the public key of the certificate.
pub open spec fn protection(mode: Seq<char>, public_key: bool) -> ServerSecurity {
    if is_standard(mode) {
        ServerSecurity::Standard
    } else if mode == "hybrid"@ && public_key {
        ServerSecurity::Hybrid
    } else {
        ServerSecurity::Tls
    }
}

pub fn server_security(security_mode: &str, public_key: bool) -> (r: ServerSecurity)
    ensures
        r == protection(security_mode@, public_key),
{
    if is_standard_rdp_security(security_mode) {
        ServerSecurity::Standard
    } else if same_text(security_mode, "hybrid") && public_key {
        ServerSecurity::Hybrid
    } else {
        ServerSecurity::Tls
    }
}

/// Whether clients that the host relays need a second server, without TLS. Where the
/// server has none anyway, it serves them too.
pub fn needs_plain_server(security_mode: &str, vsock_active: bool) -> (r: bool)
    ensures
        r == (vsock_active && !is_standard(security_mode@)),
{
    vsock_active && !is_standard_rdp_security(security_mode)
}

/// The authentication method in force.
pub open spec fn auth_in_force(
    configured: Seq<char>,
    pam_available: bool,
    recommended: Seq<char>,
) -> Seq<char> {
    if configured == "pam"@ && !pam_available {
        recommended
    } else {
        configured
    }
}

/// The authentication method in force: the configured one, unless that is PAM and
/// there is none here.
pub fn effective_auth_method(configured: &str, pam_available: bool, recommended: &str) -> (r:
    String)
    ensures
        r@ == auth_in_force(configured@, pam_available, recommended@),
{
    if same_text(configured, "pam") && !pam_available {
        recommended.to_owned()
    } else {
        configured.to_owned()
    }
}

/// Whether a validator checks credentials against PAM.
pub fn uses_pam(effective_auth_method: &str) -> (r: bool)
    ensures
        r == (effective_auth_method@ == "pam"@),
{
    same_text(effective_auth_method, "pam")
}

/// Whether every client will fail: authentication at the network level with nothing
/// to check credentials against.
pub fn lacks_credentials(
    security_mode: &str,
    effective_auth_method: &str,
    credentials_configured: bool,
) -> (r: bool)
    ensures
        r == (uses_hybrid(security_mode@, effective_auth_method@) && !credentials_configured
            && effective_auth_method@ != "pam"@),
{
    resolve_security_mode(security_mode, effective_auth_method) && !credentials_configured
        && !uses_pam(effective_auth_method)
}

/// Whether anybody who reaches the port may connect: no authentication on an
/// address that is not the machine's own. `loopback` is not known where the address
/// cannot be read.
pub fn is_exposed(effective_auth_method: &str, loopback: Option<bool>) -> (r: bool)
    ensures
        r == (effective_auth_method@ == "none"@ && loopback == Some(false)),
{
    match loopback {
        Some(own) => same_text(effective_auth_method, "none") && !own,
        None => false,
    }
}

/// What is wrong with a security mode on the transports in use.
#[derive(Clone, Copy, Debug, PartialEq, Eq, Structural)]
pub enum TransportAudit {
    Fine,
    /// Unencrypted sessions on an address that others reach.
    PlainOnRoutableAddress,
    /// Clients that the host relays will fail: they do not speak TLS.
    VsockNeedsPlain,
}

/// Holds a security mode against the transports. `tcp_loopback` says of the TCP
/// transport, if it is in use, whether its address is the machine's own.
pub fn audit_transports(security_mode: &str, tcp_loopback: Option<bool>, vsock: bool) -> (r:
    TransportAudit)
    ensures
        r == (if is_standard(security_mode@) {
            if tcp_loopback == Some(false) {
                TransportAudit::PlainOnRoutableAddress
            } else {
                TransportAudit::Fine
            }
        } else if vsock {
            TransportAudit::VsockNeedsPlain
        } else {
            TransportAudit::Fine
        }),
{
    if is_standard_rdp_security(security_mode) {
        match tcp_loopback {
            Some(false) => TransportAudit::PlainOnRoutableAddress,
            _ => TransportAudit::Fine,
        }
    } else if vsock {
        TransportAudit::VsockNeedsPlain
    } else {
        TransportAudit::Fine
    }
}

proof fn lemma_modes_differ()
    ensures
        "rdp"@ != "hybrid"@,
        "none"@ != "hybrid"@,
        "rdp"@ != "auto"@,
        "none"@ != "auto"@,
{
    reveal_strlit("rdp");
    reveal_strlit("none");
    reveal_strlit("hybrid");
    reveal_strlit("auto");
    assert("rdp"@.len() == 3 && "none"@.len() == 4 && "hybrid"@.len() == 6 && "auto"@.len() == 4);
    assert("none"@[0] == 'n' && "auto"@[0] == 'a');
}

/// A server without TLS never authenticates at the network level.
pub proof fn law_standard_is_not_hybrid(mode: Seq<char>, auth: Seq<char>, public_key: bool)
    requires
        is_standard(mode),
    ensures
        !uses_hybrid(mode, auth),
        protection(mode, public_key) == ServerSecurity::Standard,
{
    lemma_modes_differ();
}

/// A server that authenticates at the network level is called for. Where it is called
/// for and the server does not, the server has TLS, and either the mode is automatic or
/// the public key is missing.
pub proof fn law_hybrid_is_called_for(mode: Seq<char>, auth: Seq<char>, public_key: bool)
    ensures
        protection(mode, public_key) == ServerSecurity::Hybrid ==> uses_hybrid(mode, auth),
        uses_hybrid(mode, auth) && protection(mode, public_key) != ServerSecurity::Hybrid ==> {
            &&& protection(mode, public_key) == ServerSecurity::Tls
            &&& mode == "auto"@ || !public_key
        },
{
    lemma_modes_differ();
}

/// Unless the mode is standard RDP security, a server has TLS.
pub proof fn law_tls_unless_standard(mode: Seq<char>, public_key: bool)
    ensures
        protection(mode, public_key) == ServerSecurity::Standard <==> is_standard(mode),
{
}

/// What each security mode stands for.
pub proof fn law_modes(mode: Seq<char>, auth: Seq<char>, public_key: bool)
    ensures
        is_standard("rdp"@) && is_standard("none"@),
        is_standard(mode) ==> mode == "rdp"@ || mode == "none"@,
        uses_hybrid("hybrid"@, auth),
        uses_hybrid("auto"@, auth) <==> auth != "none"@,
        uses_hybrid(mode, auth) ==> mode == "hybrid"@ || mode == "auto"@,
        protection("hybrid"@, true) == ServerSecurity::Hybrid,
        protection("hybrid"@, false) == ServerSecurity::Tls,
        protection("auto"@, public_key) == ServerSecurity::Tls,
        mode != "rdp"@ && mode != "none"@ && mode != "hybrid"@ ==> protection(mode, public_key)
            == ServerSecurity::Tls,
        protection("rdp"@, public_key) == ServerSecurity::Standard,
        protection("none"@, public_key) == ServerSecurity::Standard,
{
    lemma_modes_differ();
    reveal_strlit("hybrid");
    reveal_strlit("auto");
    assert("hybrid"@.len() == 6 && "auto"@.len() == 4);
}

/// People read of each mode what it protects with; a mode that nobody knows is TLS.
pub proof fn law_mode_labels(mode: Seq<char>)
    ensures
        label_of("hybrid"@) == "Hybrid (NLA/CredSSP)"@,
        label_of("auto"@) == "Auto"@,
        label_of("rdp"@) == "Standard RDP (no TLS/encryption)"@,
        label_of("none"@) == "Standard RDP (no TLS/encryption)"@,
        mode != "hybrid"@ && mode != "auto"@ && mode != "rdp"@ && mode != "none"@ ==> label_of(
            mode,
        ) == "TLS"@,
{
    lemma_modes_differ();
    reveal_strlit("hybrid");
    reveal_strlit("auto");
    assert("hybrid"@.len() == 6 && "auto"@.len() == 4);
}

/// The configured method is in force, but for PAM where there is none.
pub proof fn law_method_in_force(configured: Seq<char>, recommended: Seq<char>)
    ensures
        auth_in_force(configured, true, recommended) == configured,
        configured != "pam"@ ==> auth_in_force(configured, false, recommended) == configured,
        auth_in_force("pam"@, false, recommended) == recommended,
{
}

} // verus!
