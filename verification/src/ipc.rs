//! The IPC protocol between the daemon and its clients: the hello handshake,
//! how the daemon routes a request, and how a client reads a reply.

use vstd::prelude::*;
use crate::api::{
    protocol, spec_protocol, Capability, ComponentId, ComponentState, IpcRequest, IpcResponse,
    PowerProfile, PROTOCOL_MAJOR,
};
use crate::text::{chars_of, string_of};

verus! {

/// The daemon's answer to the first request of a connection, and whether the
/// connection goes on: a hello of the same major protocol version is
/// acknowledged with the daemon's own version; any other first request is
/// answered with an error, and the connection ends.
pub fn hello_response(request: &IpcRequest) -> (r: (IpcResponse, bool))
    ensures
        match request {
            IpcRequest::Hello(v) => if v.major == PROTOCOL_MAJOR {
                r.1 && r.0 == IpcResponse::HelloAck(spec_protocol())
            } else {
                !r.1 && (r.0 matches IpcResponse::Error(t) && t@ == "Protocol major mismatch"@)
            },
            _ => !r.1 && (r.0 matches IpcResponse::Error(t) && t@ == "Expected Hello"@),
        },
{
    match request {
        IpcRequest::Hello(v) => {
            if v.major != PROTOCOL_MAJOR {
                (IpcResponse::Error(String::from_str("Protocol major mismatch")), false)
            } else {
                (IpcResponse::HelloAck(protocol()), true)
            }
        },
        _ => (IpcResponse::Error(String::from_str("Expected Hello")), false),
    }
}

/// What the daemon does with a request after the handshake.
#[derive(Debug)]
pub enum RequestRoute {
    /// Answer with the current profile.
    GetProfile,
    /// Answer with the known components.
    GetComponents,
    /// Answer with the total power.
    GetTotalPower,
    /// Switch the power profile, then answer with the outcome.
    SetProfile(PowerProfile),
    /// Apply a capability, then answer with the outcome.
    ApplyCapability { id: ComponentId, capability: Capability },
    /// Answer at once with this response.
    Reply(IpcResponse),
}

/// How the daemon routes `request` from a client whose peer credentials are
/// root or not: reads are served to everyone, changes to root alone (others
/// are refused with "Permission denied"), and a second hello is refused.
pub open spec fn routes(request: IpcRequest, is_root: bool, r: RequestRoute) -> bool {
    &&& request is GetProfile ==> r is GetProfile
    &&& request is GetComponents ==> r is GetComponents
    &&& request is GetTotalPower ==> r is GetTotalPower
    &&& request matches IpcRequest::SetProfile(p) ==> if is_root {
        r == RequestRoute::SetProfile(p)
    } else {
        r matches RequestRoute::Reply(IpcResponse::Error(t)) && t@ == "Permission denied"@
    }
    &&& request matches IpcRequest::ApplyCapability { id, capability } ==> if is_root {
        r == (RequestRoute::ApplyCapability { id, capability })
    } else {
        r matches RequestRoute::Reply(IpcResponse::Error(t)) && t@ == "Permission denied"@
    }
    &&& request is Hello ==> (r matches RequestRoute::Reply(IpcResponse::Error(t)) && t@
        == "Already said hello"@)
}

/// Routes a request of a client whose peer credentials are root or not:
/// reads are served to everyone, changes to root alone, and a second hello
/// is refused.
pub fn route_request(request: IpcRequest, is_root: bool) -> (r: RequestRoute)
    ensures
        routes(request, is_root, r),
{
    match request {
        IpcRequest::GetProfile => RequestRoute::GetProfile,
        IpcRequest::GetComponents => RequestRoute::GetComponents,
        IpcRequest::GetTotalPower => RequestRoute::GetTotalPower,
        IpcRequest::SetProfile(p) => {
            if is_root {
                RequestRoute::SetProfile(p)
            } else {
                RequestRoute::Reply(IpcResponse::Error(String::from_str("Permission denied")))
            }
        },
        IpcRequest::ApplyCapability { id, capability } => {
            if is_root {
                RequestRoute::ApplyCapability { id, capability }
            } else {
                RequestRoute::Reply(IpcResponse::Error(String::from_str("Permission denied")))
            }
        },
        IpcRequest::Hello(_) => RequestRoute::Reply(
            IpcResponse::Error(String::from_str("Already said hello")),
        ),
    }
}

/// Where a client's connection stands.
#[derive(Clone, Copy, Debug, PartialEq, Eq, Structural)]
pub enum ConnectionPhase {
    /// No hello yet: the next line must be one.
    AwaitingHello,
    /// The hello was acknowledged: lines are requests.
    Serving,
    /// The connection is over.
    Closed,
}

/// The phase a connection is in after a line: a readable hello of the same
/// major version opens the session; any other first line ends it; once open,
/// a session stays open whatever the lines hold.
pub open spec fn next_phase(phase: ConnectionPhase, line: Result<IpcRequest, String>) -> ConnectionPhase {
    match phase {
        ConnectionPhase::AwaitingHello => match line {
            Ok(IpcRequest::Hello(v)) => if v.major == PROTOCOL_MAJOR {
                ConnectionPhase::Serving
            } else {
                ConnectionPhase::Closed
            },
            _ => ConnectionPhase::Closed,
        },
        p => p,
    }
}

/// The phase of a connection after the lines `lines`, from its start.
pub open spec fn phase_after(lines: Seq<Result<IpcRequest, String>>) -> ConnectionPhase
    decreases lines.len(),
{
    if lines.len() == 0 {
        ConnectionPhase::AwaitingHello
    } else {
        next_phase(phase_after(lines.drop_last()), lines.last())
    }
}

/// Law: once a hello of the same major version opened a session, no later
/// line ends it, readable or not; every later line is answered by a serving
/// step of [`connection_step`].
pub proof fn law_session_stays_open(lines: Seq<Result<IpcRequest, String>>, k: int)
    requires
        lines.len() > 0,
        lines[0] matches Ok(IpcRequest::Hello(v)) && v.major == PROTOCOL_MAJOR,
        1 <= k <= lines.len(),
    ensures
        phase_after(lines.take(k)) == ConnectionPhase::Serving,
    decreases k,
{
    if k == 1 {
        assert(lines.take(1).drop_last() =~= Seq::<Result<IpcRequest, String>>::empty());
        assert(lines.take(1).last() == lines[0]);
        assert(phase_after(lines.take(1).drop_last()) == ConnectionPhase::AwaitingHello);
    } else {
        law_session_stays_open(lines, k - 1);
        assert(lines.take(k).drop_last() =~= lines.take(k - 1));
        assert(phase_after(lines.take(k)) == next_phase(ConnectionPhase::Serving, lines.take(k).last()));
    }
}

/// What the daemon does with a line a client sent.
#[derive(Debug)]
pub enum ConnectionAction {
    /// Send this response.
    Respond(IpcResponse),
    /// Carry out the request as routed, and send the outcome.
    Serve(RequestRoute),
    /// End the connection with this error, answering nothing.
    Fail(String),
    /// Nothing more is read on a closed connection.
    Ignore,
}

/// What the daemon does on a line of a client's connection, in phase
/// `phase`, as the next phase and the action `r`: `line` is the request the
/// line holds, or the parser's message when it holds none. Before the hello,
/// an unreadable line ends the connection with an error, and the hello is
/// answered as [`hello_response`] says. After it, an unreadable line is
/// answered with a parse error and the connection goes on, and a request is
/// routed as [`route_request`] says. A closed connection reads nothing more.
pub open spec fn steps_to(
    phase: ConnectionPhase,
    line: Result<IpcRequest, String>,
    is_root: bool,
    r: (ConnectionPhase, ConnectionAction),
) -> bool {
    &&& (r.1 is Serve ==> phase == ConnectionPhase::Serving)
    &&& (phase == ConnectionPhase::Closed ==> r.0 == ConnectionPhase::Closed && r.1 is Ignore)
    &&& (phase == ConnectionPhase::AwaitingHello ==> match line {
        Err(e) => r.0 == ConnectionPhase::Closed && (r.1 matches ConnectionAction::Fail(t) && t@
            == e@),
        Ok(IpcRequest::Hello(v)) => if v.major == PROTOCOL_MAJOR {
            r.0 == ConnectionPhase::Serving && r.1 == ConnectionAction::Respond(
                IpcResponse::HelloAck(spec_protocol()),
            )
        } else {
            r.0 == ConnectionPhase::Closed && (r.1 matches ConnectionAction::Respond(
                IpcResponse::Error(t),
            ) && t@ == "Protocol major mismatch"@)
        },
        Ok(_) => r.0 == ConnectionPhase::Closed && (r.1 matches ConnectionAction::Respond(
            IpcResponse::Error(t),
        ) && t@ == "Expected Hello"@),
    })
    &&& (phase == ConnectionPhase::Serving ==> r.0 == ConnectionPhase::Serving && match line {
        Err(e) => r.1 matches ConnectionAction::Respond(IpcResponse::Error(t)) && t@ == "Parse error: "@
            + e@,
        Ok(request) => r.1 matches ConnectionAction::Serve(route) && routes(request, is_root, route),
    })
    &&& (r.0 == next_phase(phase, line))
}

/// The daemon's step on a line of a client's connection, as [`steps_to`]
/// says.
pub fn connection_step(phase: ConnectionPhase, line: Result<IpcRequest, String>, is_root: bool) -> (r: (
    ConnectionPhase,
    ConnectionAction,
))
    ensures
        steps_to(phase, line, is_root, r),
{
    match phase {
        ConnectionPhase::Closed => (ConnectionPhase::Closed, ConnectionAction::Ignore),
        ConnectionPhase::AwaitingHello => match line {
            Err(e) => (ConnectionPhase::Closed, ConnectionAction::Fail(e)),
            Ok(request) => {
                let (reply, go_on) = hello_response(&request);
                if go_on {
                    (ConnectionPhase::Serving, ConnectionAction::Respond(reply))
                } else {
                    (ConnectionPhase::Closed, ConnectionAction::Respond(reply))
                }
            },
        },
        ConnectionPhase::Serving => match line {
            Err(e) => {
                let mut t = String::from_str("Parse error: ");
                t.append(e.as_str());
                (ConnectionPhase::Serving, ConnectionAction::Respond(IpcResponse::Error(t)))
            },
            Ok(request) => (ConnectionPhase::Serving, ConnectionAction::Serve(route_request(request, is_root))),
        },
    }
}

/// Law: a session whose first line is a hello of the same major version is
/// answered, line by line, as follows: the hello with the daemon's own
/// version; every later line, readable or not, without ending the session:
/// an unreadable one with a parse error carrying the parser's message, a
/// request by serving it as [`route_request`] routes it. `steps` are the
/// daemon's steps, each taken from the phase that the lines before it left.
pub proof fn law_session_answers(
    lines: Seq<Result<IpcRequest, String>>,
    is_root: bool,
    steps: Seq<(ConnectionPhase, ConnectionAction)>,
)
    requires
        lines.len() > 0,
        lines[0] matches Ok(IpcRequest::Hello(v)) && v.major == PROTOCOL_MAJOR,
        steps.len() == lines.len(),
        forall|k: int|
            0 <= k < lines.len() ==> steps_to(
                phase_after(#[trigger] lines.take(k)),
                lines[k],
                is_root,
                steps[k],
            ),
    ensures
        steps[0].1 == ConnectionAction::Respond(IpcResponse::HelloAck(spec_protocol())),
        forall|k: int| 0 <= k < lines.len() ==> #[trigger] steps[k].0 == ConnectionPhase::Serving,
        forall|k: int|
            1 <= k < lines.len() ==> match #[trigger] lines[k] {
                Err(e) => steps[k].1 matches ConnectionAction::Respond(IpcResponse::Error(t)) && t@
                    == "Parse error: "@ + e@,
                Ok(request) => steps[k].1 matches ConnectionAction::Serve(route) && routes(
                    request,
                    is_root,
                    route,
                ),
            },
{
    assert(lines.take(0) =~= Seq::<Result<IpcRequest, String>>::empty());
    assert(phase_after(lines.take(0)) == ConnectionPhase::AwaitingHello);
    assert forall|k: int| 1 <= k < lines.len() implies phase_after(#[trigger] lines.take(k))
        == ConnectionPhase::Serving by {
        law_session_stays_open(lines, k);
    }
    assert forall|k: int| 0 <= k < lines.len() implies #[trigger] steps[k].0 == ConnectionPhase::Serving by {
        if k > 0 {
            assert(phase_after(lines.take(k)) == ConnectionPhase::Serving);
        }
        assert(steps_to(phase_after(lines.take(k)), lines[k], is_root, steps[k]));
    }
    assert forall|k: int| 1 <= k < lines.len() implies match #[trigger] lines[k] {
        Err(e) => steps[k].1 matches ConnectionAction::Respond(IpcResponse::Error(t)) && t@
            == "Parse error: "@ + e@,
        Ok(request) => steps[k].1 matches ConnectionAction::Serve(route) && routes(request, is_root, route),
    } by {
        assert(phase_after(lines.take(k)) == ConnectionPhase::Serving);
        assert(steps_to(phase_after(lines.take(k)), lines[k], is_root, steps[k]));
    }
}

/// The answer to a change the daemon carried out: success, or the error's
/// message.
pub fn outcome_response(outcome: Result<(), String>) -> (r: IpcResponse)
    ensures
        match outcome {
            Ok(()) => r is Success,
            Err(e) => r matches IpcResponse::Error(t) && t@ == e@,
        },
{
    match outcome {
        Ok(()) => IpcResponse::Success,
        Err(e) => IpcResponse::Error(e),
    }
}

/// Why a client could not use the daemon's reply.
#[derive(Debug)]
pub enum ClientError {
    /// The daemon answered with this error.
    Remote(String),
    /// The daemon refused the hello with this error.
    HelloRejected(String),
    /// The daemon answered the hello with something else than an
    /// acknowledgement of the same major version.
    UnexpectedHello(IpcResponse),
    /// The daemon answered with a response of another kind than asked for.
    Unexpected(IpcResponse),
}

/// How a client reads the reply to its hello.
pub fn check_hello_reply(reply: IpcResponse) -> (r: Result<(), ClientError>)
    ensures
        match reply {
            IpcResponse::HelloAck(v) => if v.major == PROTOCOL_MAJOR {
                r is Ok
            } else {
                r == Err::<(), ClientError>(ClientError::UnexpectedHello(reply))
            },
            IpcResponse::Error(e) => r matches Err(ClientError::HelloRejected(t)) && t@ == e@,
            _ => r == Err::<(), ClientError>(ClientError::UnexpectedHello(reply)),
        },
{
    match reply {
        IpcResponse::HelloAck(v) => {
            if v.major == PROTOCOL_MAJOR {
                Ok(())
            } else {
                Err(ClientError::UnexpectedHello(IpcResponse::HelloAck(v)))
            }
        },
        IpcResponse::Error(e) => Err(ClientError::HelloRejected(e)),
        other => Err(ClientError::UnexpectedHello(other)),
    }
}

/// How a client reads the reply to a profile query.
pub fn expect_profile(reply: IpcResponse) -> (r: Result<PowerProfile, ClientError>)
    ensures
        match reply {
            IpcResponse::Profile(p) => r == Ok::<PowerProfile, ClientError>(p),
            IpcResponse::Error(e) => r matches Err(ClientError::Remote(t)) && t@ == e@,
            _ => r == Err::<PowerProfile, ClientError>(ClientError::Unexpected(reply)),
        },
{
    match reply {
        IpcResponse::Profile(p) => Ok(p),
        IpcResponse::Error(e) => Err(ClientError::Remote(e)),
        other => Err(ClientError::Unexpected(other)),
    }
}

/// How a client reads the reply to a change it asked for.
pub fn expect_success(reply: IpcResponse) -> (r: Result<(), ClientError>)
    ensures
        match reply {
            IpcResponse::Success => r is Ok,
            IpcResponse::Error(e) => r matches Err(ClientError::Remote(t)) && t@ == e@,
            _ => r == Err::<(), ClientError>(ClientError::Unexpected(reply)),
        },
{
    match reply {
        IpcResponse::Success => Ok(()),
        IpcResponse::Error(e) => Err(ClientError::Remote(e)),
        other => Err(ClientError::Unexpected(other)),
    }
}

/// How a client reads the reply to a component query.
pub fn expect_components(reply: IpcResponse) -> (r: Result<Vec<ComponentState>, ClientError>)
    ensures
        match reply {
            IpcResponse::Components(c) => r == Ok::<Vec<ComponentState>, ClientError>(c),
            IpcResponse::Error(e) => r matches Err(ClientError::Remote(t)) && t@ == e@,
            _ => r == Err::<Vec<ComponentState>, ClientError>(ClientError::Unexpected(reply)),
        },
{
    match reply {
        IpcResponse::Components(c) => Ok(c),
        IpcResponse::Error(e) => Err(ClientError::Remote(e)),
        other => Err(ClientError::Unexpected(other)),
    }
}

/// How a client reads the reply to a total-power query: the bit pattern of
/// the watts.
pub fn expect_total_power(reply: IpcResponse) -> (r: Result<u64, ClientError>)
    ensures
        match reply {
            IpcResponse::TotalPower(w) => r == Ok::<u64, ClientError>(w),
            IpcResponse::Error(e) => r matches Err(ClientError::Remote(t)) && t@ == e@,
            _ => r == Err::<u64, ClientError>(ClientError::Unexpected(reply)),
        },
{
    match reply {
        IpcResponse::TotalPower(w) => Ok(w),
        IpcResponse::Error(e) => Err(ClientError::Remote(e)),
        other => Err(ClientError::Unexpected(other)),
    }
}

/// The socket a client connects to: the one given on its command line, else
/// the one its environment names, else the one its configuration names.
pub fn choose_socket_path<P>(from_args: Option<P>, from_env: Option<P>, from_config: P) -> (p: P)
    ensures
        p == match from_args {
            Some(a) => a,
            None => match from_env {
                Some(e) => e,
                None => from_config,
            },
        },
{
    match from_args {
        Some(a) => a,
        None => match from_env {
            Some(e) => e,
            None => from_config,
        },
    }
}

/// `c` with an ASCII capital letter turned to lower case.
pub open spec fn ascii_lower(c: char) -> char {
    if 'A' <= c && c <= 'Z' {
        ((c as u8) + 32) as u8 as char
    } else {
        c
    }
}

/// The profile that a name given on the command line selects, case aside:
/// `performance`, `balanced` or `powersave`.
pub open spec fn profile_named(name: Seq<char>) -> Option<PowerProfile> {
    let lower = name.map_values(|c: char| ascii_lower(c));
    if lower == "performance"@ {
        Some(PowerProfile::Performance)
    } else if lower == "balanced"@ {
        Some(PowerProfile::Balanced)
    } else if lower == "powersave"@ {
        Some(PowerProfile::PowerSave)
    } else {
        None
    }
}

/// Law: the profile a name selects depends only on the name with its ASCII
/// capitals lowered: names equal up to ASCII case select the same profile,
/// and any spelling of `performance`, `balanced` or `powersave` up to ASCII
/// case selects the profile of that name; no other name selects one.
pub proof fn law_profile_names(a: Seq<char>, b: Seq<char>)
    ensures
        a.map_values(|c: char| ascii_lower(c)) == b.map_values(|c: char| ascii_lower(c))
            ==> profile_named(a) == profile_named(b),
        a.map_values(|c: char| ascii_lower(c)) == "performance"@ ==> profile_named(a) == Some(
            PowerProfile::Performance,
        ),
        a.map_values(|c: char| ascii_lower(c)) == "balanced"@ ==> profile_named(a) == Some(
            PowerProfile::Balanced,
        ),
        a.map_values(|c: char| ascii_lower(c)) == "powersave"@ ==> profile_named(a) == Some(
            PowerProfile::PowerSave,
        ),
        profile_named(a) is Some ==> a.map_values(|c: char| ascii_lower(c)) == "performance"@
            || a.map_values(|c: char| ascii_lower(c)) == "balanced"@ || a.map_values(
            |c: char| ascii_lower(c),
        ) == "powersave"@,
{
    reveal_strlit("performance");
    reveal_strlit("balanced");
    reveal_strlit("powersave");
    assert("performance"@.len() == 11 && "balanced"@.len() == 8 && "powersave"@.len() == 9);
    assert("balanced"@ != "performance"@);
    assert("powersave"@ != "performance"@);
    assert("powersave"@ != "balanced"@);
}

/// The profile a command-line name selects, if any.
pub fn parse_profile_name(name: &str) -> (r: Option<PowerProfile>)
    ensures
        r == profile_named(name@),
{
    let cs = chars_of(name);
    let mut lower: Vec<char> = Vec::new();
    let mut i: usize = 0;
    while i < cs.len()
        invariant
            i <= cs@.len(),
            lower@.len() == i,
            forall|j: int| 0 <= j < i ==> #[trigger] lower@[j] == ascii_lower(cs@[j]),
        decreases cs.len() - i,
    {
        let c = cs[i];
        let l = if 'A' <= c && c <= 'Z' {
            ((c as u8) + 32) as char
        } else {
            c
        };
        lower.push(l);
        i = i + 1;
    }
    let ghost expected = name@.map_values(|c: char| ascii_lower(c));
    assert(lower@ =~= expected);
    let s = string_of(&lower);
    if s == String::from_str("performance") {
        Some(PowerProfile::Performance)
    } else if s == String::from_str("balanced") {
        Some(PowerProfile::Balanced)
    } else if s == String::from_str("powersave") {
        Some(PowerProfile::PowerSave)
    } else {
        None
    }
}

} // verus!
