//! What the web console, the names of resources and the measurements promise.

use crate::control::{
    is_loopback_quad, is_octet, url_objection, ActionKind, ActionStatus, Record, UrlParts,
};
use crate::errors::{error_text, ErrorView};
use crate::security::SecurityConfig;
use crate::targets::{current_uri, is_alias_char, scheme, scoped_uri, valid_alias};
use crate::text::{all_digits, decimal, digits_value, has_prefix, is_digit, lowered, trimmed};
use crate::text_laws::{
    blank_is_trimmed_to_nothing, decimal_is_read_back, first_index_is_first, is_blank,
    joined_parts_are_split_again, joined_with,
};
use crate::timing::{
    elapsed_ms, with_sample, TransportTimer, TransportTiming, MAX_TRANSPORTS,
};
use crate::types::{result_uri, CommandStatus, Pane};
use crate::web::{
    changes_topology, command_objection, host_name, is_activity, is_json, is_loopback_host,
    is_special_key, key_objection, pane_access, pane_id_objection, topology_objection, turned_away,
    visible, without_brackets, Access, GuardRequest, HostName, MAX_INPUT_BYTES, TOPOLOGY_CACHE_TTL,
};
use vstd::prelude::*;
use vstd::utf8::encode_utf8;

verus! {

/// A request passes the guard exactly where it names a loopback host and carries the token, and,
/// where it writes, is JSON and comes from an agent or from the page of that very host.
pub proof fn only_proper_requests_pass(request: GuardRequest, host: HostName, token: Seq<char>)
    ensures
        turned_away(request, host, token) is None <==> {
            &&& request.host is Some
            &&& host is Local || (host is Address && request.address_is_loopback)
            &&& request.token is Some && request.token->0@ == token
            &&& request.writes ==> request.content_type is Some && is_json(
                request.content_type->0@,
            )
            &&& request.writes && !has_prefix(request.path@, "/api/agent/"@) ==> request.origin
                is Some && lowered(request.origin->0@) == lowered("http://"@ + request.host->0@)
        },
{
}

/// Whoever is turned away is told why: without a host 400, from elsewhere 403, without the token
/// 401, with another content 415. A wrong token is never told from the rest of the request.
pub proof fn refusals_say_why(request: GuardRequest, host: HostName, token: Seq<char>)
    ensures
        request.host is None ==> turned_away(request, host, token) is Some && turned_away(
            request,
            host,
            token,
        )->0.status == 400,
        request.host is Some && !is_loopback_host(host, request.address_is_loopback) ==> turned_away(
            request,
            host,
            token,
        ) is Some && turned_away(request, host, token)->0.status == 403,
        request.host is Some && is_loopback_host(host, request.address_is_loopback) && (
        request.token is None || request.token->0@ != token) ==> turned_away(request, host, token)
            is Some && turned_away(request, host, token)->0.status == 401,
        turned_away(request, host, token) is Some && turned_away(request, host, token)->0.status
            == 415 ==> request.writes && request.token is Some && request.token->0@ == token,
{
}

/// JSON is `application/json`, in any case, with or without parameters behind a semicolon.
pub proof fn json_may_have_parameters(mime: Seq<char>, parameters: Seq<char>)
    requires
        !mime.contains(';'),
    ensures
        is_json(mime) <==> lowered(trimmed(mime)) == lowered("application/json"@),
        is_json(mime.push(';') + parameters) <==> lowered(trimmed(mime)) == lowered(
            "application/json"@,
        ),
{
    let value = mime.push(';') + parameters;
    first_index_is_first(value, ';');
    first_index_is_first(mime, ';');
    let p = crate::tools::first_index(value, ';');
    let n = mime.len() as int;
    assert(value[n] == ';');
    if p < n {
        assert(mime[p] == ';');
        assert(mime.contains(';'));
    }
    assert(value.take(n) =~= mime);
    assert(mime.take(n) =~= mime);
}

/// The machine itself is `localhost` in any case, or an address that is one of its own; what is
/// no host at all never is.
pub proof fn only_the_machine_itself_is_loopback(name: Seq<char>, address_is_loopback: bool)
    ensures
        !is_loopback_host(host_name(None), address_is_loopback),
        lowered(name) == lowered("localhost"@) ==> is_loopback_host(
            host_name(Some(name)),
            address_is_loopback,
        ),
        lowered(name) != lowered("localhost"@) ==> (is_loopback_host(
            host_name(Some(name)),
            address_is_loopback,
        ) <==> address_is_loopback),
        lowered(name) != lowered("localhost"@) ==> host_name(Some(name)) == HostName::Address(
            without_brackets(name),
        ),
        name.len() > 0 && name[0] != '[' && name[0] != ']' && name.last() != '[' && name.last()
            != ']' ==> without_brackets(name) == name && without_brackets(
            seq!['['] + name + seq![']'],
        ) == name,
{
    if name.len() > 0 && name[0] != '[' && name[0] != ']' && name.last() != '[' && name.last()
        != ']' {
        let bracketed = seq!['['] + name + seq![']'];
        assert(bracketed.skip(1) =~= name.push(']'));
        assert(name.push(']').drop_last() =~= name);
        reveal_with_fuel(without_brackets, 4);
    }
}

/// The web service is reached by plain HTTP on this machine, and without credentials.
pub proof fn only_loopback_urls_are_accepted(url: UrlParts)
    ensures
        url_objection(Ok(url)) is None <==> url.scheme == "http"@ && url.username.len() == 0
            && url.password is None && url.host is Some && (lowered(url.host->0) == lowered(
            "localhost"@,
        ) || is_loopback_quad(url.host->0)),
        forall|words: Seq<char>| #[trigger] url_objection(Err(words)) is Some,
{
}

proof fn lemma_octet(n: nat)
    requires
        n <= 255,
    ensures
        crate::control::is_octet(decimal(n)),
        !decimal(n).contains('.'),
{
    decimal_is_read_back(n);
    let text = decimal(n);
    if n < 10 {
        assert(text.len() == 1);
    } else if n < 100 {
        assert(decimal(n / 10).len() == 1);
        assert(text.len() == 2);
    } else {
        assert(decimal(n / 10 / 10).len() == 1);
        assert(decimal(n / 10).len() == 2);
        assert(text.len() == 3);
    }
    if text.contains('.') {
        let i = choose|i: int| 0 <= i < text.len() && text[i] == '.';
        assert(is_digit(text[i]));
    }
}

/// Every address of the form `127.x.y.z` is a loopback address, and one that begins otherwise is
/// not.
pub proof fn addresses_that_begin_with_127_are_loopback(a: nat, b: nat, c: nat, d: nat)
    requires
        a <= 255 && b <= 255 && c <= 255 && d <= 255,
    ensures
        is_loopback_quad(
            joined_with(seq![decimal(a), decimal(b), decimal(c), decimal(d)], '.'),
        ) <==> a == 127,
{
    lemma_octet(a);
    lemma_octet(b);
    lemma_octet(c);
    lemma_octet(d);
    let parts = seq![decimal(a), decimal(b), decimal(c), decimal(d)];
    joined_parts_are_split_again(parts, '.');
    decimal_is_read_back(a);
    decimal_is_read_back(127);
    reveal_strlit("127");
    reveal_with_fuel(decimal, 4);
    assert(decimal(127) =~= "127"@);
    if a != 127 {
        assert(digits_value(decimal(a)) != digits_value("127"@));
    }
}

/// Text may be typed up to 64 kilobytes at a time, and of the other keys only those on the list.
pub proof fn keys_are_small_or_listed(key: Seq<char>)
    ensures
        key_objection(key, true) is None <==> encode_utf8(key).len() <= 65_536,
        key_objection(key, false) is None <==> key == "Enter"@ || key == "Up"@ || key == "Down"@
            || key == "Left"@ || key == "Right"@ || key == "Tab"@ || key == "Escape"@ || key
            == "BSpace"@ || key == "PageUp"@ || key == "PageDown"@ || key == "Home"@ || key
            == "End"@ || key == "C-c"@ || key == "C-d"@,
        is_special_key(key) ==> key_objection(key, false) is None,
{
}

/// A command from the console is one line of at most 64 kilobytes that is not blank.
pub proof fn commands_are_one_line(command: Seq<char>)
    ensures
        command_objection(command) is None <==> !is_blank(command) && !command.contains('\n')
            && !command.contains('\r') && encode_utf8(command).len() <= 65_536,
{
    blank_is_trimmed_to_nothing(command);
}

/// The id of a pane is a percent sign and digits, at least one.
pub proof fn pane_ids_are_numbers(pane_id: Seq<char>)
    ensures
        pane_id_objection(pane_id) is None <==> pane_id.len() > 1 && pane_id[0] == '%' && forall|
            i: int,
        |
            1 <= i < pane_id.len() ==> '0' <= #[trigger] pane_id[i] <= '9',
{
    if pane_id.len() > 1 {
        let digits = pane_id.skip(1);
        if all_digits(digits) {
            assert forall|i: int| 1 <= i < pane_id.len() implies '0' <= #[trigger] pane_id[i]
                <= '9' by {
                assert(digits[i - 1] == pane_id[i]);
                assert(is_digit(digits[i - 1]));
            }
        }
        if forall|i: int| 1 <= i < pane_id.len() ==> '0' <= #[trigger] pane_id[i] <= '9' {
            assert forall|i: int| 0 <= i < digits.len() implies is_digit(#[trigger] digits[i]) by {
                assert(digits[i] == pane_id[i + 1]);
            }
        }
    }
}

/// An action on a pane may go on exactly where the tool, the socket and the pane are allowed;
/// where sessions are listed, the session of the pane is asked for first.
pub proof fn pane_actions_need_every_permission(
    config: SecurityConfig,
    tool: Seq<char>,
    socket: Option<Seq<char>>,
    pane: Seq<char>,
)
    ensures
        ({
            let access = pane_access(config, tool, socket, pane);
            let permitted = config.tool_denial(tool) is None && config.socket_denial(socket) is None
                && config.pane_denial(pane) is None;
            &&& access is Allowed <==> permitted && config.allowed_sessions is None
            &&& access is NeedsSession <==> permitted && config.allowed_sessions is Some
            &&& access is Denied <==> !permitted
            &&& access matches Access::Denied(answer) ==> answer.status == 403
        }),
{
}

/// The topology is shown exactly where sessions, windows and panes may be listed on the socket.
pub proof fn topology_needs_every_listing(config: SecurityConfig, socket: Option<Seq<char>>)
    ensures
        topology_objection(config, socket) is None <==> config.tool_denial("list-sessions"@) is None
            && config.tool_denial("list-windows"@) is None && config.tool_denial("list-panes"@)
            is None && config.socket_denial(socket) is None,
{
}

/// Of the panes exactly those are shown that are allowed.
pub proof fn only_allowed_panes_are_shown(config: SecurityConfig, panes: Seq<Pane>, pane: Pane)
    ensures
        visible(config, panes).contains(pane) <==> panes.contains(pane) && config.pane_denial(
            pane.id@,
        ) is None,
    decreases panes.len(),
{
    if panes.len() > 0 {
        let front = panes.drop_last();
        only_allowed_panes_are_shown(config, front, pane);
        crate::seqs::push_contains(visible(config, front), panes.last());
        crate::seqs::push_contains(front, panes.last());
        assert(front.push(panes.last()) =~= panes);
    }
}

/// The topology is looked at anew after an operation that is more than a reading has completed,
/// and only then.
pub proof fn completed_operations_change_the_topology(record: Record)
    ensures
        changes_topology(record) <==> record.kind != ActionKind::Command && record.kind
            != ActionKind::Input && !record.read_only && record.status == ActionStatus::Completed,
{
}

/// When a pane was last active is when the latest change of a record aimed at it was made.
pub proof fn activity_is_the_latest_change(
    records: Seq<Record>,
    activity: Map<Seq<char>, u64>,
    pane: Seq<char>,
    i: int,
)
    requires
        is_activity(records, activity),
    ensures
        0 <= i < records.len() && records[i].target.pane_ids.contains(pane)
            ==> activity.dom().contains(pane) && activity[pane] >= records[i].updated_at_ms,
        activity.dom().contains(pane) ==> exists|k: int|
            0 <= k < records.len() && #[trigger] records[k].target.pane_ids.contains(pane)
                && records[k].updated_at_ms == activity[pane],
{
    if 0 <= i < records.len() && records[i].target.pane_ids.contains(pane) {
        assert(crate::web::touched_at(records, pane, i));
    }
    if activity.dom().contains(pane) {
        let k = choose|k: int|
            #[trigger] crate::web::touched_at(records, pane, k) && records[k].updated_at_ms
                == activity[pane];
        assert(records[k].target.pane_ids.contains(pane));
    }
}

/// What the console accepts and how long it remembers the topology.
pub proof fn limits_of_the_console()
    ensures
        MAX_INPUT_BYTES == 64 * 1024,
        TOPOLOGY_CACHE_TTL == 5_000_000_000,
{
}

/// The words of an error end with its message, and begin with what sort of error it is.
pub proof fn errors_say_what_they_are(message: Seq<char>)
    ensures
        has_prefix(error_text(ErrorView::Config(message)), "config error: "@),
        has_prefix(error_text(ErrorView::PolicyDenied(message)), "policy denied: "@),
        has_prefix(error_text(ErrorView::Tmux(message)), "tmux error: "@),
        has_prefix(error_text(ErrorView::Parse(message)), "parse error: "@),
        has_prefix(error_text(ErrorView::InvalidArgument(message)), "invalid argument: "@),
        forall|e: ErrorView|
            (e == ErrorView::Config(message) || e == ErrorView::PolicyDenied(message) || e
                == ErrorView::Tmux(message) || e == ErrorView::Parse(message) || e
                == ErrorView::InvalidArgument(message)) ==> (#[trigger] error_text(e)).skip(
                error_text(e).len() - message.len(),
            ) == message,
{
    assert(error_text(ErrorView::Config(message)).subrange(0, "config error: "@.len() as int)
        =~= "config error: "@);
    assert(error_text(ErrorView::PolicyDenied(message)).subrange(
        0,
        "policy denied: "@.len() as int,
    ) =~= "policy denied: "@);
    assert(error_text(ErrorView::Tmux(message)).subrange(0, "tmux error: "@.len() as int)
        =~= "tmux error: "@);
    assert(error_text(ErrorView::Parse(message)).subrange(0, "parse error: "@.len() as int)
        =~= "parse error: "@);
    assert(error_text(ErrorView::InvalidArgument(message)).subrange(
        0,
        "invalid argument: "@.len() as int,
    ) =~= "invalid argument: "@);
    assert forall|e: ErrorView|
        (e == ErrorView::Config(message) || e == ErrorView::PolicyDenied(message) || e
            == ErrorView::Tmux(message) || e == ErrorView::Parse(message) || e
            == ErrorView::InvalidArgument(message)) implies (#[trigger] error_text(e)).skip(
        error_text(e).len() - message.len(),
    ) == message by {
        assert(error_text(e).skip(error_text(e).len() - message.len()) =~= message);
    }
}

/// A status is known by its name.
pub proof fn statuses_have_names()
    ensures
        CommandStatus::Queued.name() == "queued"@,
        CommandStatus::Running.name() == "running"@,
        CommandStatus::Completed.name() == "completed"@,
        CommandStatus::Failed.name() == "failed"@,
        CommandStatus::Cancelled.name() == "cancelled"@,
        CommandStatus::TrackingError.name() == "tracking_error"@,
{
}

/// The result of a command is found under its id, and different commands under different names.
pub proof fn results_are_named_by_command(id: Seq<char>, other: Seq<char>)
    ensures
        result_uri(id) == "tmux://command/"@ + id + "/result"@,
        result_uri(id) == result_uri(other) ==> id == other,
{
    if result_uri(id) == result_uri(other) {
        let n = "tmux://command/"@.len() as int;
        assert(id.len() == other.len());
        assert(id =~= result_uri(id).subrange(n, n + id.len()));
        assert(other =~= result_uri(other).subrange(n, n + other.len()));
    }
}

/// Commands, panes, windows, sessions and the server belong to a target; nothing else is named
/// under one, and nothing at all where work is bound to none.
pub proof fn only_the_targets_own_is_named_under_it(
    target: Seq<char>,
    uri: Seq<char>,
    kind: Seq<char>,
    rest: Seq<char>,
)
    ensures
        current_uri(None, uri) == uri,
        current_uri(Some(target), uri) == scoped_uri(target, uri),
        !has_prefix(uri, "tmux://"@) ==> scoped_uri(target, uri) == uri,
        kind == "command/"@ || kind == "pane/"@ || kind == "window/"@ || kind == "session/"@ || kind
            == "server/"@ ==> scoped_uri(target, "tmux://"@ + kind + rest) == "tmux://"@ + target
            + "/"@ + kind + rest,
        has_prefix(uri, "tmux://"@) && !has_prefix(uri.skip(7), "command/"@) && !has_prefix(
            uri.skip(7),
            "pane/"@,
        ) && !has_prefix(uri.skip(7), "window/"@) && !has_prefix(uri.skip(7), "session/"@)
            && !has_prefix(uri.skip(7), "server/"@) ==> scoped_uri(target, uri) == uri,
{
    reveal_strlit("tmux://");
    assert("tmux://"@.len() == 7);
    if kind == "command/"@ || kind == "pane/"@ || kind == "window/"@ || kind == "session/"@ || kind
        == "server/"@ {
        let name = kind + rest;
        assert(name.subrange(0, kind.len() as int) =~= kind);
        assert(has_prefix(name, kind));
        assert("tmux://"@ + kind + rest =~= "tmux://"@ + name);
        crate::targets::resources_carry_their_target(target, name);
        assert("tmux://"@ + target + "/"@ + name =~= "tmux://"@ + target + "/"@ + kind + rest);
    }
}

/// An alias is up to 128 letters, digits, dashes, underscores and dots, and does not begin with
/// a dash or a dot.
pub proof fn aliases_are_plain_names(name: Seq<char>, i: int)
    requires
        name.len() > 0,
    ensures
        valid_alias(name) ==> name[0] != '-' && name[0] != '.' && encode_utf8(name).len() <= 128,
        valid_alias(name) && 0 <= i < name.len() ==> '0' <= name[i] <= '9' || 'a' <= name[i] <= 'z'
            || 'A' <= name[i] <= 'Z' || name[i] == '-' || name[i] == '_' || name[i] == '.',
        1 <= encode_utf8(name).len() <= 128 && name[0] != '-' && name[0] != '.' && (forall|k: int|
            0 <= k < name.len() ==> ('0' <= #[trigger] name[k] <= '9' || 'a' <= name[k] <= 'z'
                || 'A' <= name[k] <= 'Z' || name[k] == '-' || name[k] == '_' || name[k] == '.'))
            ==> valid_alias(name),
{
    if valid_alias(name) && 0 <= i < name.len() {
        assert(is_alias_char(name[i]));
    }
}

/// Time is told in whole milliseconds, none of which is made up, and never runs backwards.
pub proof fn time_is_told_in_whole_milliseconds(start: u64, now: u64)
    ensures
        now <= start ==> elapsed_ms(start, now) == 0,
        now > start ==> elapsed_ms(start, now) * 1_000_000 <= now - start < (elapsed_ms(start, now)
            + 1) * 1_000_000,
{
}

/// The sample of an operation: how long it took, how long it waited before it was sent, or all of
/// the time where it never was, and how it ended.
pub proof fn samples_tell_queue_and_duration(timer: TransportTimer, now: u64)
    ensures
        timer.recorded(now).duration_ms == elapsed_ms(timer.started(), now),
        timer.is_dispatched() ==> timer.recorded(now).queue_ms == timer.sample().queue_ms,
        !timer.is_dispatched() ==> timer.recorded(now).queue_ms == timer.recorded(now).duration_ms,
        timer.recorded(now).outcome == timer.sample().outcome,
        timer.recorded(now).operation == timer.sample().operation,
        timer.recorded(now).transport == timer.sample().transport,
        timer.recorded(now).stdout_bytes == timer.sample().stdout_bytes,
        MAX_TRANSPORTS == 128,
{
}

/// The parts of an address are numbers up to 255, written without leading zeros.
pub proof fn address_parts_are_small_numbers(part: Seq<char>)
    ensures
        is_octet(part) ==> 1 <= part.len() <= 3 && digits_value(part) <= 255 && (part[0] == '0'
            ==> part.len() == 1) && forall|i: int|
            0 <= i < part.len() ==> '0' <= #[trigger] part[i] <= '9',
        1 <= part.len() <= 3 && all_digits(part) && digits_value(part) <= 255 && (part[0] != '0'
            || part.len() == 1) ==> is_octet(part),
{
    if is_octet(part) {
        assert forall|i: int| 0 <= i < part.len() implies '0' <= #[trigger] part[i] <= '9' by {
            assert(is_digit(part[i]));
        }
    }
}

/// Of the transports of a call the first are kept, and of the others it is told how many they
/// were.
pub proof fn further_samples_are_counted(
    kept: Seq<TransportTiming>,
    omitted: int,
    sample: TransportTiming,
)
    ensures
        kept.len() < 128 ==> with_sample(kept, omitted, sample) == (kept.push(sample), omitted),
        kept.len() >= 128 ==> with_sample(kept, omitted, sample) == (kept, omitted + 1),
{
}

} // verus!
