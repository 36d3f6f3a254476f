//! How the server accepts clients on a desktop: what it listens with, and what a
//! client's coming and going does to the session.

use vstd::prelude::*;

use crate::session::strategy::{PipeWireAccess, SessionLifecyclePolicy, StreamInfo};

verus! {

/// Name of this way of accepting clients.
pub fn name() -> (r: &'static str)
    ensures
        r@ == "desktop"@,
{
    "desktop"
}

/// Who may connect over the web socket.
#[derive(Debug)]
pub enum ProxyAuth {
    /// Everybody. For development only.
    AllowAllInsecure,
    /// Who knows the secret.
    SharedSecret(Vec<u8>),
    /// Nobody.
    DenyAll,
}

/// A secret file holds no secret.
#[derive(Clone, Copy, Debug, PartialEq, Eq, Structural)]
pub struct EmptySecret;

/// The secret that a file holds: its bytes without a line ending behind them.
pub open spec fn trimmed(bytes: Seq<u8>) -> Seq<u8> {
    let line = if bytes.len() > 0 && bytes.last() == 10 {
        bytes.drop_last()
    } else {
        bytes
    };
    if line.len() > 0 && line.last() == 13 {
        line.drop_last()
    } else {
        line
    }
}

/// Takes one line ending off the end of a secret: a line feed, and then a carriage
/// return.
pub fn trim_secret(secret: Vec<u8>) -> (r: Vec<u8>)
    ensures
        r@ == trimmed(secret@),
{
    let mut r = secret;
    if r.len() > 0 && r[r.len() - 1] == 10 {
        r.pop();
        assert(r@ =~= secret@.drop_last());
    }
    let ghost line = r@;
    if r.len() > 0 && r[r.len() - 1] == 13 {
        r.pop();
        assert(r@ =~= line.drop_last());
    }
    r
}

/// Who may connect over the web socket. Without a secret nobody may. `secret` is
/// what the secret file holds, where one is configured.
pub fn proxy_auth(allow_insecure: bool, secret: Option<Vec<u8>>) -> (r: Result<
    ProxyAuth,
    EmptySecret,
>)
    ensures
        allow_insecure ==> r == Ok::<_, EmptySecret>(ProxyAuth::AllowAllInsecure),
        !allow_insecure && secret is None ==> r == Ok::<_, EmptySecret>(ProxyAuth::DenyAll),
        !allow_insecure && secret is Some ==> if trimmed(secret->0@).len() > 0 {
            r matches Ok(ProxyAuth::SharedSecret(s)) && s@ == trimmed(secret->0@)
        } else {
            r == Err::<ProxyAuth, _>(EmptySecret)
        },
{
    if allow_insecure {
        return Ok(ProxyAuth::AllowAllInsecure);
    }
    match secret {
        Some(bytes) => {
            let trimmed_secret = trim_secret(bytes);
            if trimmed_secret.len() == 0 {
                Err(EmptySecret)
            } else {
                Ok(ProxyAuth::SharedSecret(trimmed_secret))
            }
        },
        None => Ok(ProxyAuth::DenyAll),
    }
}

/// The certificate or key of a listener: its own, or the server's.
pub fn identity_path(own: Option<String>, server: String) -> (r: String)
    ensures
        r == (match own {
            Some(p) => p,
            None => server,
        }),
{
    match own {
        Some(p) => p,
        None => server,
    }
}

/// What a client's leaving does to the session.
#[derive(Clone, Copy, Debug, PartialEq, Eq, Structural)]
pub struct OnDisconnect {
    /// Release the session.
    pub release: bool,
    /// Accept further clients.
    pub accept: bool,
}

/// What a client's leaving does. `alive` is whether the clean-up found the session
/// alive. A session of one connection is released, but only after a client that was
/// served: one that never was leaves it for the client to come. Its end is no
/// reason to stop, for the next client gets another.
pub fn on_disconnect(served: bool, policy: SessionLifecyclePolicy, alive: bool) -> (r: OnDisconnect)
    ensures
        r == (match policy {
            SessionLifecyclePolicy::PerConnection => OnDisconnect { release: served, accept: true },
            SessionLifecyclePolicy::Persistent => OnDisconnect { release: false, accept: alive },
        }),
{
    match policy {
        SessionLifecyclePolicy::PerConnection => OnDisconnect { release: served, accept: true },
        SessionLifecyclePolicy::Persistent => OnDisconnect { release: false, accept: alive },
    }
}

/// The node that was captured before a client connects; zero where it is not known.
pub fn captured_node(access: PipeWireAccess) -> (r: u32)
    ensures
        r == (match access {
            PipeWireAccess::NodeId(n) => n,
            _ => 0,
        }),
{
    match access {
        PipeWireAccess::NodeId(n) => n,
        _ => 0,
    }
}

/// Capture moves from one node to another.
#[derive(Clone, Copy, Debug, PartialEq, Eq, Structural)]
pub struct Rebind {
    pub old_node: u32,
    pub new_node: u32,
    pub width: u32,
    pub height: u32,
}

/// What a client's coming does.
#[derive(Debug)]
pub struct OnConnect {
    /// The streams that input is mapped to from now on, where there is a session.
    pub streams: Option<Vec<StreamInfo>>,
    pub rebind: Option<Rebind>,
    /// Serve the client.
    pub accept: bool,
}

/// What a client's coming does. `established` are the streams of its session and
/// whether that was set up anew, or nothing where it could not be. Capture follows
/// a session that was set up anew even to a node of the same number, for that may
/// be another stream.
pub fn on_connect(old_node: u32, established: Option<(Vec<StreamInfo>, bool)>) -> (r: OnConnect)
    ensures
        r.accept == (established is Some),
        match established {
            Some((streams, anew)) => {
                &&& r.streams matches Some(s) && s@ == streams@
                &&& r.rebind == (if anew && streams@.len() > 0 {
                    Some(
                        Rebind {
                            old_node,
                            new_node: streams@[0].node_id,
                            width: streams@[0].width,
                            height: streams@[0].height,
                        },
                    )
                } else {
                    None
                })
            },
            None => r.streams is None && r.rebind is None,
        },
{
    match established {
        Some((streams, anew)) => {
            let rebind = if anew && streams.len() > 0 {
                let first = streams[0];
                Some(
                    Rebind {
                        old_node,
                        new_node: first.node_id,
                        width: first.width,
                        height: first.height,
                    },
                )
            } else {
                None
            };
            OnConnect { streams: Some(streams), rebind, accept: true }
        },
        None => OnConnect { streams: None, rebind: None, accept: false },
    }
}

/// A secret reads the same from a file with either line ending behind it and from
/// one with none.
pub proof fn law_secret_is_kept(secret: Seq<u8>)
    requires
        secret.len() > 0,
        secret.last() != 10,
        secret.last() != 13,
    ensures
        trimmed(secret) == secret,
        trimmed(secret.push(10)) == secret,
        trimmed(secret.push(13).push(10)) == secret,
{
    assert(secret.push(10).drop_last() =~= secret);
    assert(secret.push(13).push(10).drop_last() =~= secret.push(13));
    assert(secret.push(13).drop_last() =~= secret);
}

/// What is taken off a secret is one line feed, one carriage return, or the two in the
/// order of a line end, and nothing else.
pub proof fn law_one_line_end_is_taken_off(s: Seq<u8>, c: u8)
    ensures
        trimmed(Seq::<u8>::empty()) == Seq::<u8>::empty(),
        trimmed(seq![10u8]) == Seq::<u8>::empty(),
        trimmed(s.push(13).push(10)) == s,
        trimmed(s.push(13)) == s,
        c != 13 ==> trimmed(s.push(c).push(10)) == s.push(c),
        c != 10 && c != 13 ==> trimmed(s.push(c)) == s.push(c),
{
    assert(seq![10u8].drop_last() =~= Seq::<u8>::empty());
    assert(s.push(13).push(10).drop_last() =~= s.push(13));
    assert(s.push(13).drop_last() =~= s);
    assert(s.push(c).push(10).drop_last() =~= s.push(c));
}

} // verus!
