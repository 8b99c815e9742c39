//! Rules of the web console: who may call it, with what, and what is shown.
//!
//! The console listens on loopback only. The caller owns the HTTP server and the connection to
//! tmux; every decision about a request is made here, over plain values.

use crate::commands::age;
use crate::control::{ActionKind, ActionRecord, ActionStatus, Record};
use crate::errors::{error_text, Error, ErrorView};
use crate::keyed::Keyed;
use crate::security::{SecurityConfig, SecurityPolicy};
use crate::store::record_views;
use crate::text::{
    all_digits, contains_char, digit, from_range, has_prefix, is_digit, lowered, opt_str_view,
    opt_view, replace_all, replaced, same, same_ignoring_case, starts_with, to_chars, trim, trimmed,
    views,
};
use crate::tools::{find_char, first_index};
use crate::types::{Pane, Session, Window};
use vstd::prelude::*;
use vstd::utf8::encode_utf8;

verus! {

/// Header that carries the control token.
pub const TOKEN_HEADER: &'static str = "x-tmux-mcp-token";

/// Nanoseconds that a loaded topology is used again.
pub const TOPOLOGY_CACHE_TTL: u64 = 5_000_000_000;

/// Most bytes of typed input or of a command.
pub const MAX_INPUT_BYTES: usize = 65_536;

/// An HTTP answer: status code and text.
#[derive(Debug, Clone, PartialEq, Eq)]
pub struct Reply {
    pub status: u16,
    pub body: String,
}

/// A [`Reply`] with its text as a sequence of characters.
#[verifier::ext_equal]
pub struct Answer {
    pub status: u16,
    pub body: Seq<char>,
}

impl View for Reply {
    type V = Answer;

    open spec fn view(&self) -> Answer {
        Answer { status: self.status, body: self.body@ }
    }
}

/// An optional reply with its text as a sequence of characters.
pub open spec fn reply_view(reply: Option<Reply>) -> Option<Answer> {
    match reply {
        Some(r) => Some(r@),
        None => None,
    }
}

impl Reply {
    /// An answer with this status and text.
    pub fn new(status: u16, body: &str) -> (r: Self)
        ensures
            r@ == (Answer { status, body: body@ }),
    {
        Reply { status, body: body.to_owned() }
    }

    /// An answer whose text is a prefix and what went wrong.
    pub fn about(status: u16, prefix: &str, error: &str) -> (r: Self)
        ensures
            r@ == (Answer { status, body: prefix@ + error@ }),
    {
        Reply { status, body: prefix.to_owned().concat(error) }
    }
}

/// Accept an address to listen on; `is_loopback` says whether it is a loopback address.
pub fn validate_bind_address(is_loopback: bool) -> (r: Result<(), String>)
    ensures
        match r {
            Ok(_) => is_loopback,
            Err(message) => !is_loopback && message@ == "web bind address must be loopback"@,
        },
{
    if is_loopback {
        Ok(())
    } else {
        Err("web bind address must be loopback".to_owned())
    }
}

/// Keys that can be sent by name.
pub open spec fn is_special_key(key: Seq<char>) -> bool {
    key == "Enter"@ || key == "Up"@ || key == "Down"@ || key == "Left"@ || key == "Right"@ || key
        == "Tab"@ || key == "Escape"@ || key == "BSpace"@ || key == "PageUp"@ || key
        == "PageDown"@ || key == "Home"@ || key == "End"@ || key == "C-c"@ || key == "C-d"@
}

/// Why typed input is rejected, if it is.
pub open spec fn key_objection(key: Seq<char>, literal: bool) -> Option<Seq<char>> {
    if literal {
        if encode_utf8(key).len() > MAX_INPUT_BYTES {
            Some("literal input exceeds 64 KiB"@)
        } else {
            None
        }
    } else if is_special_key(key) {
        None
    } else {
        Some("unsupported special key: "@ + key)
    }
}

/// Accept typed input: literal text up to its limit, or one of the special keys.
pub fn validate_key_input(key: &str, literal: bool) -> (r: Result<(), String>)
    ensures
        match r {
            Ok(_) => key_objection(key@, literal) is None,
            Err(message) => key_objection(key@, literal) == Some(message@),
        },
{
    if literal {
        if key.as_bytes().len() > MAX_INPUT_BYTES {
            return Err("literal input exceeds 64 KiB".to_owned());
        }
        return Ok(());
    }
    if same(key, "Enter") || same(key, "Up") || same(key, "Down") || same(key, "Left") || same(
        key,
        "Right",
    ) || same(key, "Tab") || same(key, "Escape") || same(key, "BSpace") || same(key, "PageUp")
        || same(key, "PageDown") || same(key, "Home") || same(key, "End") || same(key, "C-c")
        || same(key, "C-d") {
        Ok(())
    } else {
        Err("unsupported special key: ".to_owned().concat(key))
    }
}

/// Why a command is rejected as it is written, if it is.
pub open spec fn command_objection(command: Seq<char>) -> Option<Seq<char>> {
    if trimmed(command).len() == 0 {
        Some("command must not be empty"@)
    } else if command.contains('\n') || command.contains('\r') {
        Some("command must be a single line"@)
    } else if encode_utf8(command).len() > MAX_INPUT_BYTES {
        Some("command must not exceed 65536 bytes"@)
    } else {
        None
    }
}

/// Accept a command: one line that is not empty, up to its limit in bytes.
pub fn validate_command_input(command: &str) -> (r: Result<(), &'static str>)
    ensures
        match r {
            Ok(_) => command_objection(command@) is None,
            Err(message) => command_objection(command@) == Some(message@),
        },
{
    if trim(command).as_str().is_empty() {
        return Err("command must not be empty");
    }
    if contains_char(command, '\n') || contains_char(command, '\r') {
        return Err("command must be a single line");
    }
    if command.as_bytes().len() > MAX_INPUT_BYTES {
        return Err("command must not exceed 65536 bytes");
    }
    Ok(())
}

/// Why a pane id is rejected, if it is.
pub open spec fn pane_id_objection(pane_id: Seq<char>) -> Option<Seq<char>> {
    if !(pane_id.len() > 0 && pane_id[0] == '%') {
        Some("pane id must start with '%'"@)
    } else if pane_id.len() == 1 || !all_digits(pane_id.skip(1)) {
        Some("pane id must be '%' followed by digits"@)
    } else {
        None
    }
}

/// Accept a pane id: `%` and digits.
pub fn validate_pane_id(pane_id: &str) -> (r: Result<(), String>)
    ensures
        match r {
            Ok(_) => pane_id_objection(pane_id@) is None,
            Err(message) => pane_id_objection(pane_id@) == Some(message@),
        },
{
    let chars = to_chars(pane_id);
    if chars.len() == 0 || chars[0] != '%' {
        return Err("pane id must start with '%'".to_owned());
    }
    if chars.len() == 1 {
        return Err("pane id must be '%' followed by digits".to_owned());
    }
    let mut i: usize = 1;
    while i < chars.len()
        invariant
            1 <= i <= chars@.len(),
            chars@ == pane_id@,
            pane_id@[0] == '%',
            chars@.len() > 1,
            forall|j: int| 1 <= j < i ==> is_digit(#[trigger] chars@[j]),
        decreases chars@.len() - i,
    {
        if !digit(chars[i]) {
            assert(!is_digit(pane_id@.skip(1)[i - 1]));
            return Err("pane id must be '%' followed by digits".to_owned());
        }
        i += 1;
    }
    assert forall|j: int| 0 <= j < pane_id@.skip(1).len() implies is_digit(
        #[trigger] pane_id@.skip(1)[j],
    ) by {
        assert(pane_id@.skip(1)[j] == chars@[j + 1]);
    }
    Ok(())
}

/// The host part of an authority such as `localhost:8080`; none where it is no authority.
pub uninterp spec fn authority_host(text: Seq<char>) -> Option<Seq<char>>;

/// `Authority::from_str` and `Authority::host` of the `http` crate, as `axum` hands them on: a
/// function of the text alone.
#[verifier::external_body]
pub(crate) fn host_of_authority(text: &str) -> (r: Option<String>)
    ensures
        opt_view(r) == authority_host(text@),
{
    let authority = text.parse::<axum::http::uri::Authority>().ok()?;
    Some(authority.host().to_string())
}

/// `s` without the brackets at either end.
pub open spec fn without_brackets(s: Seq<char>) -> Seq<char>
    decreases s.len(),
{
    if s.len() > 0 && (s[0] == '[' || s[0] == ']') {
        without_brackets(s.skip(1))
    } else if s.len() > 0 && (s.last() == '[' || s.last() == ']') {
        without_brackets(s.drop_last())
    } else {
        s
    }
}

fn strip_brackets(text: &str) -> (r: String)
    ensures
        r@ == without_brackets(text@),
{
    let chars = to_chars(text);
    let mut lo: usize = 0;
    let mut hi: usize = chars.len();
    assert(chars@.subrange(0, chars@.len() as int) =~= chars@);
    loop
        invariant
            lo <= hi <= chars@.len(),
            chars@ == text@,
            without_brackets(text@) == without_brackets(chars@.subrange(lo as int, hi as int)),
        decreases hi - lo,
    {
        let ghost part = chars@.subrange(lo as int, hi as int);
        if lo < hi && (chars[lo] == '[' || chars[lo] == ']') {
            assert(part.skip(1) =~= chars@.subrange(lo as int + 1, hi as int));
            lo += 1;
        } else if lo < hi && (chars[hi - 1] == '[' || chars[hi - 1] == ']') {
            assert(part.drop_last() =~= chars@.subrange(lo as int, hi as int - 1));
            hi -= 1;
        } else {
            return from_range(&chars, lo, hi);
        }
    }
}

/// What a Host header names.
#[derive(Debug, Clone, PartialEq, Eq)]
pub enum HostClass {
    /// No host at all.
    Malformed,
    /// `localhost`.
    Local,
    /// Anything else; loopback only where this is a loopback address.
    Address(String),
}

/// A [`HostClass`] with its text as a sequence of characters.
#[verifier::ext_equal]
pub enum HostName {
    Malformed,
    Local,
    Address(Seq<char>),
}

impl View for HostClass {
    type V = HostName;

    open spec fn view(&self) -> HostName {
        match self {
            HostClass::Malformed => HostName::Malformed,
            HostClass::Local => HostName::Local,
            HostClass::Address(text) => HostName::Address(text@),
        }
    }
}

/// What a host names, given the host part of its authority.
pub open spec fn host_name(host: Option<Seq<char>>) -> HostName {
    match host {
        None => HostName::Malformed,
        Some(name) => if lowered(name) == lowered("localhost"@) {
            HostName::Local
        } else {
            HostName::Address(without_brackets(name))
        },
    }
}

/// What a host names, given the host part of its authority.
pub fn classify_host_part(host: Option<&str>) -> (r: HostClass)
    ensures
        r@ == host_name(opt_str_view(host)),
{
    match host {
        None => HostClass::Malformed,
        Some(name) => if same_ignoring_case(name, "localhost") {
            HostClass::Local
        } else {
            HostClass::Address(strip_brackets(name))
        },
    }
}

/// What a Host header names. The caller says of an [`HostClass::Address`] whether it is a
/// loopback address.
pub fn classify_host(host: &str) -> (r: HostClass)
    ensures
        r@ == host_name(authority_host(host@)),
{
    match host_of_authority(host) {
        Some(name) => classify_host_part(Some(name.as_str())),
        None => classify_host_part(None),
    }
}

/// The host is the machine itself.
pub open spec fn is_loopback_host(host: HostName, address_is_loopback: bool) -> bool {
    match host {
        HostName::Malformed => false,
        HostName::Local => true,
        HostName::Address(_) => address_is_loopback,
    }
}

/// Whether a Host header names the machine itself. The caller says whether the address in it is
/// a loopback address.
pub fn host_is_loopback(host: &str, address_is_loopback: bool) -> (r: bool)
    ensures
        r == is_loopback_host(host_name(authority_host(host@)), address_is_loopback),
{
    class_is_loopback(&classify_host(host), address_is_loopback)
}

/// Whether a host is the machine itself.
pub fn class_is_loopback(host: &HostClass, address_is_loopback: bool) -> (r: bool)
    ensures
        r == is_loopback_host(host@, address_is_loopback),
{
    match host {
        HostClass::Malformed => false,
        HostClass::Local => true,
        HostClass::Address(_) => address_is_loopback,
    }
}

/// What the guard looks at in a request.
#[derive(Debug, Clone, PartialEq, Eq)]
pub struct GuardRequest {
    /// Host header.
    pub host: Option<String>,
    /// Whether the address that the Host header names is a loopback address.
    pub address_is_loopback: bool,
    /// Token header.
    pub token: Option<String>,
    /// The method is POST, PUT or PATCH.
    pub writes: bool,
    /// Content-Type header.
    pub content_type: Option<String>,
    pub path: String,
    /// Origin header.
    pub origin: Option<String>,
}

/// The content type is JSON, whatever its parameters.
pub open spec fn is_json(content_type: Seq<char>) -> bool {
    lowered(trimmed(content_type.take(first_index(content_type, ';')))) == lowered(
        "application/json"@,
    )
}

fn json_content(content_type: &str) -> (r: bool)
    ensures
        r == is_json(content_type@),
{
    let chars = to_chars(content_type);
    let end: usize = find_char(&chars, ';');
    let mime = from_range(&chars, 0, end);
    assert(mime@ =~= content_type@.take(end as int));
    same_ignoring_case(trim(mime.as_str()).as_str(), "application/json")
}

/// Why a request is turned away, if it is: it must name a loopback host and carry the token, and
/// one that writes must be JSON and, unless it comes from an agent, from the console's own page.
pub open spec fn turned_away(
    request: GuardRequest,
    host: HostName,
    token: Seq<char>,
) -> Option<Answer> {
    if request.host is None {
        Some(Answer { status: 400, body: "Host header is required"@ })
    } else if !is_loopback_host(host, request.address_is_loopback) {
        Some(Answer { status: 403, body: "Host must be loopback"@ })
    } else if opt_view(request.token) != Some(token) {
        Some(Answer { status: 401, body: "invalid control token"@ })
    } else if request.writes && !(request.content_type is Some && is_json(
        request.content_type->0@,
    )) {
        Some(Answer { status: 415, body: "Content-Type must be application/json"@ })
    } else if request.writes && !has_prefix(request.path@, "/api/agent/"@) && !(request.origin
        is Some && lowered(request.origin->0@) == lowered("http://"@ + request.host->0@)) {
        Some(Answer { status: 403, body: "Origin does not match Host"@ })
    } else {
        None
    }
}

/// What the Host header of a request names.
pub open spec fn named_host(host: Option<String>) -> HostName {
    match host {
        Some(text) => host_name(authority_host(text@)),
        None => HostName::Malformed,
    }
}

/// Turn away a request that must not reach the console; none where it may pass.
pub fn api_guard(request: &GuardRequest, token: &str) -> (r: Option<Reply>)
    ensures
        reply_view(r) == turned_away(*request, named_host(request.host), token@),
{
    let class = match &request.host {
        Some(host) => classify_host(host.as_str()),
        None => HostClass::Malformed,
    };
    guard_classified(request, &class, token)
}

/// Turn away a request that must not reach the console, given what its Host header names; none
/// where it may pass.
pub fn guard_classified(request: &GuardRequest, class: &HostClass, token: &str) -> (r: Option<
    Reply,
>)
    ensures
        reply_view(r) == turned_away(*request, class@, token@),
{
    let host = match &request.host {
        Some(host) => host,
        None => {
            return Some(Reply::new(400, "Host header is required"));
        },
    };
    if !class_is_loopback(class, request.address_is_loopback) {
        return Some(Reply::new(403, "Host must be loopback"));
    }
    let authorized = match &request.token {
        Some(given) => same(given.as_str(), token),
        None => false,
    };
    if !authorized {
        return Some(Reply::new(401, "invalid control token"));
    }
    if request.writes {
        let json = match &request.content_type {
            Some(content_type) => json_content(content_type.as_str()),
            None => false,
        };
        if !json {
            return Some(Reply::new(415, "Content-Type must be application/json"));
        }
        if !starts_with(request.path.as_str(), "/api/agent/") {
            let expected = "http://".to_owned().concat(host.as_str());
            let matches = match &request.origin {
                Some(origin) => same_ignoring_case(origin.as_str(), expected.as_str()),
                None => false,
            };
            if !matches {
                return Some(Reply::new(403, "Origin does not match Host"));
            }
        }
    }
    None
}

/// Turn away a request for the page that does not name a loopback host; none where it may pass.
pub fn index_guard(host: Option<&str>, address_is_loopback: bool) -> (r: Option<Reply>)
    ensures
        reply_view(r) == (match host {
            Some(text) => if is_loopback_host(
                host_name(authority_host(text@)),
                address_is_loopback,
            ) {
                None
            } else {
                Some(Answer { status: 403, body: "Host must be loopback"@ })
            },
            None => Some(Answer { status: 403, body: "Host must be loopback"@ }),
        }),
{
    let loopback = match host {
        Some(text) => host_is_loopback(text, address_is_loopback),
        None => false,
    };
    if loopback {
        None
    } else {
        Some(Reply::new(403, "Host must be loopback"))
    }
}

/// The page with the control token filled in.
pub fn render_index(page: &str, token: &str) -> (r: String)
    ensures
        r@ == replaced(page@, "__TMUX_CONTROL_TOKEN__"@, token@),
{
    proof {
        reveal_strlit("__TMUX_CONTROL_TOKEN__");
    }
    replace_all(page, "__TMUX_CONTROL_TOKEN__", token)
}

/// The answer to what the policy denies.
pub fn policy_response(error: &Error) -> (r: Reply)
    ensures
        r@ == (Answer { status: 403, body: error_text(error@) }),
{
    Reply { status: 403, body: error.to_string() }
}

/// The answer to what the policy denies with this message.
pub open spec fn denied(message: Seq<char>) -> Answer {
    Answer { status: 403, body: error_text(ErrorView::PolicyDenied(message)) }
}

/// Whether an action on a pane may go on.
#[derive(Debug, Clone, PartialEq, Eq)]
pub enum PaneAccess {
    Allowed,
    Denied(Reply),
    /// It depends on the session of the pane.
    NeedsSession,
    /// It depends on the name of the session.
    NeedsSessionName,
}

/// A [`PaneAccess`] with its text as a sequence of characters.
#[verifier::ext_equal]
pub enum Access {
    Allowed,
    Denied(Answer),
    NeedsSession,
    NeedsSessionName,
}

impl View for PaneAccess {
    type V = Access;

    open spec fn view(&self) -> Access {
        match self {
            PaneAccess::Allowed => Access::Allowed,
            PaneAccess::Denied(reply) => Access::Denied(reply@),
            PaneAccess::NeedsSession => Access::NeedsSession,
            PaneAccess::NeedsSessionName => Access::NeedsSessionName,
        }
    }
}

/// What the policy says to an action on a pane: the tool, the socket and the pane must be
/// allowed, and where sessions are listed, the pane's session too.
pub open spec fn pane_access(
    config: SecurityConfig,
    tool: Seq<char>,
    socket: Option<Seq<char>>,
    pane_id: Seq<char>,
) -> Access {
    match config.tool_denial(tool) {
        Some(message) => Access::Denied(denied(message)),
        None => match config.socket_denial(socket) {
            Some(message) => Access::Denied(denied(message)),
            None => match config.pane_denial(pane_id) {
                Some(message) => Access::Denied(denied(message)),
                None => if config.allowed_sessions is Some {
                    Access::NeedsSession
                } else {
                    Access::Allowed
                },
            },
        },
    }
}

/// What the policy says to an action on a pane, before its session is known.
pub fn authorize_pane_action(
    policy: &SecurityPolicy,
    tool: &str,
    socket: Option<&str>,
    pane_id: &str,
) -> (r: PaneAccess)
    requires
        policy.wf(),
    ensures
        r@ == pane_access(policy.config(), tool@, opt_str_view(socket), pane_id@),
{
    match policy.check_tool(tool) {
        Ok(_) => {},
        Err(error) => {
            return PaneAccess::Denied(policy_response(&error));
        },
    }
    match policy.check_socket(socket) {
        Ok(_) => {},
        Err(error) => {
            return PaneAccess::Denied(policy_response(&error));
        },
    }
    match policy.check_pane(pane_id) {
        Ok(_) => {},
        Err(error) => {
            return PaneAccess::Denied(policy_response(&error));
        },
    }
    if policy.has_session_allowlist() {
        PaneAccess::NeedsSession
    } else {
        PaneAccess::Allowed
    }
}

/// What the policy says to an action on a pane, given the id of its session or the error that
/// looking it up gave.
pub fn authorize_pane_session(policy: &SecurityPolicy, session_id: Result<&str, &str>) -> (r:
    PaneAccess)
    ensures
        r@ == (match session_id {
            Err(error) => Access::Denied(
                Answer { status: 403, body: "unable to resolve pane session: "@ + error@ },
            ),
            Ok(id) => if policy.config().session_denial(id@, None) is None {
                Access::Allowed
            } else {
                Access::NeedsSessionName
            },
        }),
{
    match session_id {
        Err(error) => PaneAccess::Denied(
            Reply::about(403, "unable to resolve pane session: ", error),
        ),
        Ok(id) => match policy.check_session(id) {
            Ok(_) => PaneAccess::Allowed,
            Err(_) => PaneAccess::NeedsSessionName,
        },
    }
}

/// `i` is the first session with this id.
pub open spec fn first_session(sessions: Seq<Session>, id: Seq<char>, i: int) -> bool {
    &&& 0 <= i < sessions.len()
    &&& sessions[i].id@ == id
    &&& forall|j: int| 0 <= j < i ==> (#[trigger] sessions[j]).id@ != id
}

/// What the policy says to an action on a pane, given the sessions that there are or the error
/// that listing them gave. The session counts as listed by its id or by its name.
pub fn authorize_session_name(
    policy: &SecurityPolicy,
    session_id: &str,
    sessions: Result<&Vec<Session>, &str>,
) -> (r: PaneAccess)
    ensures
        match sessions {
            Err(error) => r@ == Access::Denied(
                Answer { status: 403, body: "unable to resolve pane session: "@ + error@ },
            ),
            Ok(list) => {
                ||| {
                    &&& forall|j: int|
                        0 <= j < list@.len() ==> (#[trigger] list@[j]).id@ != session_id@
                    &&& r@ == Access::Denied(
                        Answer { status: 403, body: "pane session is not allowed"@ },
                    )
                }
                ||| exists|i: int|
                    {
                        &&& #[trigger] first_session(list@, session_id@, i)
                        &&& r@ == (match policy.config().session_denial(
                            session_id@,
                            Some(list@[i].name@),
                        ) {
                            Some(message) => Access::Denied(denied(message)),
                            None => Access::Allowed,
                        })
                    }
            },
        },
{
    let list = match sessions {
        Err(error) => {
            return PaneAccess::Denied(
                Reply::about(403, "unable to resolve pane session: ", error),
            );
        },
        Ok(list) => list,
    };
    let mut i: usize = 0;
    while i < list.len()
        invariant
            i <= list@.len(),
            sessions matches Ok(l) && l == list,
            forall|j: int| 0 <= j < i ==> (#[trigger] list@[j]).id@ != session_id@,
        decreases list@.len() - i,
    {
        if same(list[i].id.as_str(), session_id) {
            assert(first_session(list@, session_id@, i as int));
            return match policy.check_session_identity(
                list[i].id.as_str(),
                Some(list[i].name.as_str()),
            ) {
                Ok(_) => PaneAccess::Allowed,
                Err(error) => PaneAccess::Denied(policy_response(&error)),
            };
        }
        i += 1;
    }
    PaneAccess::Denied(Reply::new(403, "pane session is not allowed"))
}

/// A completed operation that was no mere reading may have changed the topology.
pub open spec fn changes_topology(record: Record) -> bool {
    record.kind == ActionKind::Operation && !record.read_only && record.status
        == ActionStatus::Completed
}

/// Whether the topology has to be loaded anew after this record.
pub fn record_changes_topology(record: &ActionRecord) -> (r: bool)
    ensures
        r == changes_topology(record@),
{
    match (record.kind, record.status) {
        (ActionKind::Operation, ActionStatus::Completed) => !record.read_only,
        _ => false,
    }
}

/// A window and its panes.
#[derive(Debug, Clone, PartialEq, Eq)]
pub struct WindowNode {
    pub window: Window,
    pub panes: Vec<Pane>,
}

/// A session and its windows.
#[derive(Debug, Clone, PartialEq, Eq)]
pub struct SessionNode {
    pub session: Session,
    pub windows: Vec<WindowNode>,
}

/// What runs on the tmux server, as far as it may be shown.
#[derive(Debug, Clone, PartialEq, Eq)]
pub struct Topology {
    pub server_started_at_ms: Option<u64>,
    pub sessions: Vec<SessionNode>,
}

impl Topology {
    /// The pane is shown.
    pub open spec fn shows(self, pane_id: Seq<char>) -> bool {
        exists|s: int, w: int, p: int| #[trigger] self.pane_at(s, w, p, pane_id)
    }

    /// Pane `p` of window `w` of session `s` has this id.
    pub open spec fn pane_at(self, s: int, w: int, p: int, pane_id: Seq<char>) -> bool {
        &&& 0 <= s < self.sessions@.len()
        &&& 0 <= w < self.sessions@[s].windows@.len()
        &&& 0 <= p < self.sessions@[s].windows@[w].panes@.len()
        &&& self.sessions@[s].windows@[w].panes@[p].id@ == pane_id
    }

    /// Whether the pane is shown.
    pub fn pane_exists(&self, pane_id: &str) -> (r: bool)
        ensures
            r == self.shows(pane_id@),
    {
        let mut s: usize = 0;
        while s < self.sessions.len()
            invariant
                s <= self.sessions@.len(),
                forall|a: int, w: int, p: int| a < s ==> !self.pane_at(a, w, p, pane_id@),
            decreases self.sessions@.len() - s,
        {
            let windows = &self.sessions[s].windows;
            let mut w: usize = 0;
            while w < windows.len()
                invariant
                    s < self.sessions@.len(),
                    windows == self.sessions@[s as int].windows,
                    w <= windows@.len(),
                    forall|a: int, b: int, p: int| a < s ==> !self.pane_at(a, b, p, pane_id@),
                    forall|b: int, p: int|
                        b < w ==> !self.pane_at(s as int, b, p, pane_id@),
                decreases windows@.len() - w,
            {
                let panes = &windows[w].panes;
                let mut p: usize = 0;
                while p < panes.len()
                    invariant
                        s < self.sessions@.len(),
                        windows == self.sessions@[s as int].windows,
                        w < windows@.len(),
                        panes == windows@[w as int].panes,
                        p <= panes@.len(),
                        forall|a: int, b: int, c: int|
                            a < s ==> !self.pane_at(a, b, c, pane_id@),
                        forall|b: int, c: int|
                            b < w ==> !self.pane_at(s as int, b, c, pane_id@),
                        forall|c: int|
                            c < p ==> !self.pane_at(s as int, w as int, c, pane_id@),
                    decreases panes@.len() - p,
                {
                    if same(panes[p].id.as_str(), pane_id) {
                        assert(self.pane_at(s as int, w as int, p as int, pane_id@));
                        return true;
                    }
                    p += 1;
                }
                w += 1;
            }
            s += 1;
        }
        false
    }
}

/// Where the messages of the shown pane come from.
#[derive(Debug, Clone, Copy, PartialEq, Eq, Structural)]
pub enum MessageSource {
    /// There are none to show.
    Nothing,
    /// All of the pane's messages: what the server runs is unknown.
    WholePane,
    /// The pane's messages since the server was started.
    PaneSince(Option<u64>),
}

/// Where the messages of the shown pane come from. Pane ids are used again after a restart, so
/// messages from before the server's start belong to another pane.
pub fn message_source(pane_id: Option<&str>, topology: Option<&Topology>) -> (r: MessageSource)
    ensures
        r == (match (pane_id, topology) {
            (Some(id), Some(t)) => if t.shows(id@) {
                MessageSource::PaneSince(t.server_started_at_ms)
            } else {
                MessageSource::Nothing
            },
            (Some(_), None) => MessageSource::WholePane,
            (None, _) => MessageSource::Nothing,
        }),
{
    match (pane_id, topology) {
        (Some(id), Some(t)) => if t.pane_exists(id) {
            MessageSource::PaneSince(t.server_started_at_ms)
        } else {
            MessageSource::Nothing
        },
        (Some(_), None) => MessageSource::WholePane,
        (None, _) => MessageSource::Nothing,
    }
}

/// The topology that was loaded last, or the error in its place.
#[derive(Debug, PartialEq, Eq)]
pub struct TopologyCache {
    value: Option<(u64, Result<Topology, String>)>,
}

impl TopologyCache {
    /// What was loaded, and when.
    pub closed spec fn held(&self) -> Option<(u64, Result<Topology, String>)> {
        self.value
    }

    /// Nothing was loaded.
    pub fn new() -> (r: Self)
        ensures
            r.held() is None,
    {
        TopologyCache { value: None }
    }

    /// Keep what was loaded at `now`.
    pub fn store(&mut self, value: Result<Topology, String>, now: u64)
        ensures
            final(self).held() == Some((now, value)),
    {
        self.value = Some((now, value));
    }

    /// What was loaded less than [`TOPOLOGY_CACHE_TTL`] ago, errors included.
    pub fn get(&self, now: u64) -> (r: Option<&Result<Topology, String>>)
        ensures
            match r {
                Some(value) => self.held() matches Some((loaded_at, kept)) && *value == kept && age(
                    loaded_at,
                    now,
                ) < TOPOLOGY_CACHE_TTL,
                None => match self.held() {
                    Some((loaded_at, _)) => age(loaded_at, now) >= TOPOLOGY_CACHE_TTL,
                    None => true,
                },
            },
    {
        match &self.value {
            Some((loaded_at, value)) => {
                let elapsed: u64 = if now <= *loaded_at {
                    0
                } else {
                    now - *loaded_at
                };
                if elapsed < TOPOLOGY_CACHE_TTL {
                    Some(value)
                } else {
                    None
                }
            },
            None => None,
        }
    }

    /// Forget what was loaded.
    pub fn invalidate(&mut self)
        ensures
            final(self).held() is None,
    {
        self.value = None;
    }
}

/// Why the topology may not be shown, if it may not.
pub open spec fn topology_objection(config: SecurityConfig, socket: Option<Seq<char>>) -> Option<
    Seq<char>,
> {
    if config.tool_denial("list-sessions"@) is Some {
        config.tool_denial("list-sessions"@)
    } else if config.tool_denial("list-windows"@) is Some {
        config.tool_denial("list-windows"@)
    } else if config.tool_denial("list-panes"@) is Some {
        config.tool_denial("list-panes"@)
    } else {
        config.socket_denial(socket)
    }
}

/// Whether the topology may be shown: the listing tools and the socket must be allowed.
pub fn check_topology(policy: &SecurityPolicy, socket: Option<&str>) -> (r: Result<(), String>)
    requires
        policy.wf(),
    ensures
        match r {
            Ok(_) => topology_objection(policy.config(), opt_str_view(socket)) is None,
            Err(text) => topology_objection(
                policy.config(),
                opt_str_view(socket),
            ) matches Some(message) && text@ == error_text(ErrorView::PolicyDenied(message)),
        },
{
    match policy.check_tool("list-sessions") {
        Ok(_) => {},
        Err(error) => {
            return Err(error.to_string());
        },
    }
    match policy.check_tool("list-windows") {
        Ok(_) => {},
        Err(error) => {
            return Err(error.to_string());
        },
    }
    match policy.check_tool("list-panes") {
        Ok(_) => {},
        Err(error) => {
            return Err(error.to_string());
        },
    }
    match policy.check_socket(socket) {
        Ok(_) => Ok(()),
        Err(error) => Err(error.to_string()),
    }
}

/// Whether a session may be shown.
pub fn session_is_visible(policy: &SecurityPolicy, session: &Session) -> (r: bool)
    ensures
        r == policy.config().session_denial(session.id@, Some(session.name@)) is None,
{
    policy.check_session_identity(session.id.as_str(), Some(session.name.as_str())).is_ok()
}

/// The panes that may be shown.
pub open spec fn visible(config: SecurityConfig, panes: Seq<Pane>) -> Seq<Pane>
    decreases panes.len(),
{
    if panes.len() == 0 {
        Seq::empty()
    } else {
        let rest = visible(config, panes.drop_last());
        if config.pane_denial(panes.last().id@) is None {
            rest.push(panes.last())
        } else {
            rest
        }
    }
}

impl Pane {
    /// A copy of this pane.
    pub fn copy(&self) -> (r: Self)
        ensures
            r == *self,
    {
        Pane {
            id: self.id.clone(),
            window_id: self.window_id.clone(),
            active: self.active,
            title: self.title.clone(),
        }
    }
}

/// The panes that may be shown.
pub fn visible_panes(policy: &SecurityPolicy, panes: &Vec<Pane>) -> (r: Vec<Pane>)
    ensures
        r@ == visible(policy.config(), panes@),
{
    let mut r: Vec<Pane> = Vec::new();
    let mut i: usize = 0;
    assert(panes@.take(0) =~= Seq::<Pane>::empty());
    while i < panes.len()
        invariant
            i <= panes@.len(),
            r@ == visible(policy.config(), panes@.take(i as int)),
        decreases panes@.len() - i,
    {
        proof {
            assert(panes@.take(i as int + 1).drop_last() =~= panes@.take(i as int));
            assert(panes@.take(i as int + 1).last() == panes@[i as int]);
        }
        if policy.check_pane(panes[i].id.as_str()).is_ok() {
            r.push(panes[i].copy());
        }
        i += 1;
    }
    assert(panes@.take(panes@.len() as int) =~= panes@);
    r
}

/// The start of the tmux server in milliseconds.
pub fn start_time_ms(seconds: u64) -> (r: u64)
    ensures
        r == vstd::math::min(seconds * 1000, u64::MAX as int),
{
    if seconds > u64::MAX / 1000 {
        u64::MAX
    } else {
        seconds * 1000
    }
}

/// A record of these is aimed at the pane and was last changed at `at_ms`.
pub open spec fn touched_at(records: Seq<Record>, pane: Seq<char>, i: int) -> bool {
    0 <= i < records.len() && records[i].target.pane_ids.contains(pane)
}

/// `activity` tells of each pane that a record is aimed at when the last of these was changed.
pub open spec fn is_activity(records: Seq<Record>, activity: Map<Seq<char>, u64>) -> bool {
    &&& forall|pane: Seq<char>| #[trigger]
        activity.dom().contains(pane) ==> exists|i: int|
            {
                &&& #[trigger] touched_at(records, pane, i)
                &&& records[i].updated_at_ms == activity[pane]
            }
    &&& forall|pane: Seq<char>, i: int| #[trigger]
        touched_at(records, pane, i) ==> activity.dom().contains(pane)
            && records[i].updated_at_ms <= activity[pane]
}

/// When each pane was last active.
pub fn pane_activity(records: &Vec<ActionRecord>) -> (r: Keyed<u64>)
    ensures
        r.wf(),
        is_activity(record_views(records@), r@),
{
    let ghost all = record_views(records@);
    let mut activity: Keyed<u64> = Keyed::new();
    let mut i: usize = 0;
    while i < records.len()
        invariant
            i <= records@.len(),
            all == record_views(records@),
            activity.wf(),
            forall|pane: Seq<char>| #[trigger]
                activity@.dom().contains(pane) ==> exists|j: int|
                    {
                        &&& #[trigger] touched_at(all, pane, j)
                        &&& all[j].updated_at_ms == activity@[pane]
                    },
            forall|pane: Seq<char>, j: int|
                j < i && #[trigger] touched_at(all, pane, j) ==> activity@.dom().contains(pane)
                    && all[j].updated_at_ms <= activity@[pane],
        decreases records@.len() - i,
    {
        let at_ms: u64 = records[i].updated_at_ms;
        let panes = &records[i].target.pane_ids;
        let ghost aims = views(panes@);
        assert(all[i as int] == records@[i as int]@);
        let mut k: usize = 0;
        while k < panes.len()
            invariant
                i < records@.len(),
                all == record_views(records@),
                all[i as int].target.pane_ids == aims,
                all[i as int].updated_at_ms == at_ms,
                aims == views(panes@),
                k <= panes@.len(),
                activity.wf(),
                forall|pane: Seq<char>| #[trigger]
                    activity@.dom().contains(pane) ==> exists|j: int|
                        {
                            &&& #[trigger] touched_at(all, pane, j)
                            &&& all[j].updated_at_ms == activity@[pane]
                        },
                forall|pane: Seq<char>, j: int|
                    j < i && #[trigger] touched_at(all, pane, j) ==> activity@.dom().contains(
                        pane,
                    ) && all[j].updated_at_ms <= activity@[pane],
                forall|b: int|
                    0 <= b < k ==> activity@.dom().contains(#[trigger] aims[b]) && at_ms
                        <= activity@[aims[b]],
            decreases panes@.len() - k,
        {
            let pane = panes[k].as_str();
            let ghost before = activity@;
            assert(aims[k as int] == pane@);
            assert(touched_at(all, pane@, i as int)) by {
                assert(all[i as int].target.pane_ids[k as int] == pane@);
            }
            let latest: u64 = match activity.get(pane) {
                Some(known) => if *known < at_ms {
                    at_ms
                } else {
                    *known
                },
                None => at_ms,
            };
            activity.insert(pane.to_owned(), latest);
            proof {
                assert forall|p: Seq<char>| #[trigger]
                    activity@.dom().contains(p) implies exists|j: int|
                    {
                        &&& #[trigger] touched_at(all, p, j)
                        &&& all[j].updated_at_ms == activity@[p]
                    } by {
                    if p == pane@ {
                        if latest == at_ms {
                            assert(touched_at(all, p, i as int));
                        } else {
                            assert(before.dom().contains(p));
                        }
                    } else {
                        assert(before.dom().contains(p));
                    }
                }
            }
            k += 1;
        }
        proof {
            assert forall|pane: Seq<char>, j: int|
                j < i + 1 && #[trigger] touched_at(all, pane, j) implies activity@.dom().contains(
                pane,
            ) && all[j].updated_at_ms <= activity@[pane] by {
                if j == i {
                    let b = choose|b: int| 0 <= b < aims.len() && aims[b] == pane;
                    assert(activity@.dom().contains(aims[b]));
                }
            }
        }
        i += 1;
    }
    activity
}

/// The answer to a request to send a command that is rejected as it is written; none where it
/// is not.
pub fn command_request_error(pane_id: &str, command: &str) -> (r: Option<Reply>)
    ensures
        reply_view(r) == (match pane_id_objection(pane_id@) {
            Some(message) => Some(Answer { status: 400, body: message }),
            None => match command_objection(command@) {
                Some(message) => Some(Answer { status: 400, body: message }),
                None => None,
            },
        }),
{
    match validate_pane_id(pane_id) {
        Err(message) => {
            return Some(Reply { status: 400, body: message });
        },
        Ok(_) => {},
    }
    match validate_command_input(command) {
        Err(message) => Some(Reply::new(400, message)),
        Ok(_) => None,
    }
}

/// The answer to a request to send keys that is rejected as it is written; none where it is not.
pub fn key_request_error(pane_id: &str, key: &str, literal: bool) -> (r: Option<Reply>)
    ensures
        reply_view(r) == (match pane_id_objection(pane_id@) {
            Some(message) => Some(Answer { status: 400, body: message }),
            None => match key_objection(key@, literal) {
                Some(message) => Some(Answer { status: 400, body: message }),
                None => None,
            },
        }),
{
    match validate_pane_id(pane_id) {
        Err(message) => {
            return Some(Reply { status: 400, body: message });
        },
        Ok(_) => {},
    }
    match validate_key_input(key, literal) {
        Err(message) => Some(Reply { status: 400, body: message }),
        Ok(_) => None,
    }
}

/// The answer to a command that could not be started; `stored` is what writing its record gave.
pub fn command_failed_reply(error: &Error, stored: Result<(), &str>) -> (r: Reply)
    ensures
        r@ == (match stored {
            Ok(_) => Answer {
                status: 502,
                body: "unable to execute command: "@ + error_text(error@),
            },
            Err(store_error) => Answer {
                status: 500,
                body: "command failed and could not be recorded: "@ + store_error@,
            },
        }),
{
    match stored {
        Ok(_) => Reply::about(502, "unable to execute command: ", error.to_string().as_str()),
        Err(store_error) => Reply::about(
            500,
            "command failed and could not be recorded: ",
            store_error,
        ),
    }
}

/// The guard lets nothing pass that does not carry the token.
pub proof fn token_is_required(request: GuardRequest, host: HostName, token: Seq<char>)
    requires
        opt_view(request.token) != Some(token),
    ensures
        turned_away(request, host, token) is Some,
{
}

/// The guard lets nothing pass that names another machine.
pub proof fn loopback_is_required(request: GuardRequest, host: HostName, token: Seq<char>)
    requires
        !is_loopback_host(host, request.address_is_loopback),
    ensures
        turned_away(request, host, token) is Some,
{
}

} // verus!
