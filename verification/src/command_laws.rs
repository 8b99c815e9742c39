//! What running a command in a pane promises.

use crate::commands::{
    at_least_one, outlived, pane_key, status_of_exit, typing_plan, Captured, CaptureDecision,
    CaptureProgress, CommandEventKind, CommandRequest, Event, Tracker, TrackingConfig, Typing,
};
use crate::errors::{error_text, ErrorView};
use crate::markers::{pane_shell, wrapped_command, Bracketed};
use crate::shell::{background_at, comment_at, quoting_at, single_quoted, Quoting};
use crate::text::{contains_text, has_prefix, is_space, occurs_at, opt_view};
use crate::types::{CommandStatus, Execution, ShellType};
use crate::watch::{
    exit_outcome, lost_outcome, stage_after_commit, unreadable_outcome, Recovery, RecoveryStage,
    WatchAction, WatchInput, WatchStage, WatchStep, Watcher,
};
use vstd::prelude::*;

verus! {

/// `text` is how a shell is asked for the value of a variable, within quotes or without.
pub open spec fn expands(text: Seq<char>, variable: Seq<char>) -> bool {
    text == "$"@ + variable || text == "\"$"@ + variable + "\""@
}

/// How a shell takes the exit status of what it ran last into a variable.
pub open spec fn takes_status(shell: ShellType, variable: Seq<char>) -> Seq<char> {
    if shell == ShellType::Fish {
        "set "@ + variable + " $status; "@
    } else {
        variable + "=$?; "@
    }
}

/// `text` tells tmux of the value of a variable: stores it in the exit code buffer of the
/// command, shows it in the DONE marker, and then signals that the command is done.
pub open spec fn reports(
    text: Seq<char>,
    variable: Seq<char>,
    command_id: Seq<char>,
    secret: Seq<char>,
    socket: Option<Seq<char>>,
) -> bool {
    exists|value: Seq<char>| #[trigger]
        expands(value, variable) && text == (match socket {
            Some(path) => "tmux -S "@ + single_quoted(path),
            None => "tmux"@,
        }) + " set-buffer -b "@ + single_quoted("tmux-mcp-ec-"@ + secret) + " -- "@ + value
            + "; echo \"TMUX_MCP_DONE_"@ + command_id + "_$"@ + variable + "\"; "@ + (match socket {
            Some(path) => "tmux -S "@ + single_quoted(path),
            None => "tmux"@,
        }) + " wait-for -S "@ + single_quoted("tmux-mcp-done-"@ + secret)
}

/// `line` runs a command between the START marker and what takes its exit status into a
/// variable; `before` and `behind` are what stands around that.
pub open spec fn runs(
    line: Seq<char>,
    before: Seq<char>,
    command: Seq<char>,
    command_id: Seq<char>,
    shell: ShellType,
    variable: Seq<char>,
    behind: Seq<char>,
) -> bool {
    line == before + "echo \"TMUX_MCP_START_"@ + command_id + "\"; "@ + command + " ; "@
        + takes_status(shell, variable) + behind
}

/// The exit status that is reported is that of the command, in every shell.
///
/// The line shows the START marker, runs the command and takes its exit status into a variable
/// directly behind it. The value of that variable, and no other, is what is stored in the exit
/// code buffer and shown in the DONE marker. In Bash the report stands in a hook, which only
/// takes the status itself where the line was cut short, and for other shells behind it.
pub proof fn reported_status_is_that_of_the_command(
    command: Seq<char>,
    command_id: Seq<char>,
    secret: Seq<char>,
    shell: ShellType,
    socket: Option<Seq<char>>,
)
    ensures
        shell == ShellType::Fish || shell == ShellType::Zsh ==> exists|
            variable: Seq<char>,
            report: Seq<char>,
        |
            reports(report, variable, command_id, secret, socket) && #[trigger] runs(
                wrapped_command(command, command_id, secret, shell, socket),
                Seq::empty(),
                command,
                command_id,
                shell,
                variable,
                report,
            ),
        shell == ShellType::Bash || shell == ShellType::Unknown ==> exists|
            before: Seq<char>,
            variable: Seq<char>,
            hook: Seq<char>,
            report: Seq<char>,
        |
            {
                &&& #[trigger] bash_reports(before, variable, hook, report, command_id, secret, socket)
                &&& runs(
                    wrapped_command(command, command_id, secret, shell, socket),
                    before,
                    command,
                    command_id,
                    shell,
                    variable,
                    "if [ -n \"${BASH_VERSION-}\" ]; then eval \"$"@ + hook + "\"; else "@ + report
                        + "; unset "@ + variable + "; fi"@,
                )
            },
{
    let line = wrapped_command(command, command_id, secret, shell, socket);
    reveal_strlit("TMUX_MCP_START_");
    reveal_strlit("TMUX_MCP_DONE_");
    reveal_strlit("echo \"");
    reveal_strlit("echo \"TMUX_MCP_START_");
    reveal_strlit("; echo \"");
    reveal_strlit("; echo \"TMUX_MCP_DONE_");
    reveal_strlit("_");
    reveal_strlit("$");
    reveal_strlit("_$");
    assert("echo \"TMUX_MCP_START_"@ =~= "echo \""@ + "TMUX_MCP_START_"@);
    assert("; echo \"TMUX_MCP_DONE_"@ =~= "; echo \""@ + "TMUX_MCP_DONE_"@);
    assert("_$"@ =~= "_"@ + "$"@);
    match shell {
        ShellType::Fish => {
            let variable = "__tmux_mcp_ec"@;
            reveal_strlit("__tmux_mcp_ec");
            reveal_strlit("$__tmux_mcp_ec");
            reveal_strlit("set ");
            reveal_strlit(" $status; ");
            reveal_strlit("set __tmux_mcp_ec $status; ");
            assert("$__tmux_mcp_ec"@ =~= "$"@ + variable);
            assert("set __tmux_mcp_ec $status; "@ =~= "set "@ + variable + " $status; "@);
            let report = crate::markers::completion_text(
                command_id,
                secret,
                socket,
                "$"@ + variable,
                "$"@ + variable,
            );
            assert(expands("$"@ + variable, variable));
            lemma_reports(report, "$"@ + variable, variable, command_id, secret, socket);
            assert(line =~= Seq::<char>::empty() + "echo \"TMUX_MCP_START_"@ + command_id
                + "\"; "@ + command + " ; "@ + takes_status(shell, variable) + report);
            assert(runs(line, Seq::empty(), command, command_id, shell, variable, report));
        },
        ShellType::Zsh => {
            let variable = "__tmux_mcp_ec"@;
            reveal_strlit("__tmux_mcp_ec");
            reveal_strlit("$__tmux_mcp_ec");
            reveal_strlit("\"$__tmux_mcp_ec\"");
            reveal_strlit("\"$");
            reveal_strlit("\"");
            reveal_strlit("=$?; ");
            reveal_strlit("__tmux_mcp_ec=$?; ");
            assert("$__tmux_mcp_ec"@ =~= "$"@ + variable);
            assert("\"$__tmux_mcp_ec\""@ =~= "\"$"@ + variable + "\""@);
            assert("__tmux_mcp_ec=$?; "@ =~= variable + "=$?; "@);
            let value = "\"$"@ + variable + "\""@;
            let report = crate::markers::completion_text(
                command_id,
                secret,
                socket,
                value,
                "$"@ + variable,
            );
            assert(expands(value, variable));
            lemma_reports(report, value, variable, command_id, secret, socket);
            assert(line =~= Seq::<char>::empty() + "echo \"TMUX_MCP_START_"@ + command_id
                + "\"; "@ + command + " ; "@ + takes_status(shell, variable) + report);
            assert(runs(line, Seq::empty(), command, command_id, shell, variable, report));
        },
        ShellType::Bash | ShellType::Unknown => {
            lemma_bash(command, command_id, secret, shell, socket);
        },
    }
}

/// In Bash the report of a command stands in a hook that runs before the next prompt: `before`
/// sets the hook up, and the hook takes the exit status itself where nothing has taken it.
pub open spec fn bash_reports(
    before: Seq<char>,
    variable: Seq<char>,
    hook: Seq<char>,
    report: Seq<char>,
    command_id: Seq<char>,
    secret: Seq<char>,
    socket: Option<Seq<char>>,
) -> bool {
    &&& reports(report, variable, command_id, secret, socket)
    &&& exists|saved: Seq<char>|
        before == "if [ -n \"${BASH_VERSION-}\" ]; then "@ + saved
            + "=$(declare -p PROMPT_COMMAND 2>/dev/null); "@ + hook + "="@ + #[trigger] single_quoted(
            variable + "=${"@ + variable + "-$?}; "@ + report
                + "; unset PROMPT_COMMAND; eval \"$"@ + saved + "\"; unset "@ + saved + " "@ + hook
                + " "@ + variable,
        ) + "; eval "@ + single_quoted(
            "PROMPT_COMMAND=('eval \"$"@ + hook + "\"' \"${PROMPT_COMMAND[@]}\")"@,
        ) + "; fi; "@
}

proof fn lemma_reports(
    report: Seq<char>,
    value: Seq<char>,
    variable: Seq<char>,
    command_id: Seq<char>,
    secret: Seq<char>,
    socket: Option<Seq<char>>,
)
    requires
        expands(value, variable),
        report == crate::markers::completion_text(
            command_id,
            secret,
            socket,
            value,
            "$"@ + variable,
        ),
    ensures
        reports(report, variable, command_id, secret, socket),
{
    reveal_strlit("TMUX_MCP_DONE_");
    reveal_strlit("; echo \"");
    reveal_strlit("; echo \"TMUX_MCP_DONE_");
    reveal_strlit("_");
    reveal_strlit("$");
    reveal_strlit("_$");
    assert("; echo \"TMUX_MCP_DONE_"@ =~= "; echo \""@ + "TMUX_MCP_DONE_"@);
    assert("_$"@ =~= "_"@ + "$"@);
    let tmux = match socket {
        Some(path) => "tmux -S "@ + single_quoted(path),
        None => "tmux"@,
    };
    assert(report =~= tmux + " set-buffer -b "@ + single_quoted("tmux-mcp-ec-"@ + secret) + " -- "@
        + value + "; echo \"TMUX_MCP_DONE_"@ + command_id + "_$"@ + variable + "\"; "@ + tmux
        + " wait-for -S "@ + single_quoted("tmux-mcp-done-"@ + secret));
}

/// The same pieces in the same order are the same text, however they are grouped.
proof fn lemma_regroup(
    head: Seq<char>,
    closing_echo: Seq<char>,
    marker: Seq<char>,
    closing: Seq<char>,
    echo_marker: Seq<char>,
    id: Seq<char>,
    inner: Seq<char>,
    variable: Seq<char>,
    taken: Seq<char>,
    check: Seq<char>,
    ending: Seq<char>,
)
    requires
        closing_echo + marker == closing + echo_marker,
    ensures
        head + closing_echo + (marker + id) + inner + variable + (taken + check) + ending == (head
            + closing) + echo_marker + id + inner + (variable + taken) + (check + ending),
{
    let left = head + closing_echo + (marker + id) + inner + variable + (taken + check) + ending;
    assert(left =~= head + (closing_echo + marker) + id + inner + variable + taken + check
        + ending);
    assert(left =~= head + (closing + echo_marker) + id + inner + variable + taken + check
        + ending);
}

#[verifier::rlimit(60)]
proof fn lemma_bash(
    command: Seq<char>,
    command_id: Seq<char>,
    secret: Seq<char>,
    shell: ShellType,
    socket: Option<Seq<char>>,
)
    requires
        shell == ShellType::Bash || shell == ShellType::Unknown,
    ensures
        exists|before: Seq<char>, variable: Seq<char>, hook: Seq<char>, report: Seq<char>|
            {
                &&& #[trigger] bash_reports(before, variable, hook, report, command_id, secret, socket)
                &&& runs(
                    wrapped_command(command, command_id, secret, shell, socket),
                    before,
                    command,
                    command_id,
                    shell,
                    variable,
                    "if [ -n \"${BASH_VERSION-}\" ]; then eval \"$"@ + hook + "\"; else "@ + report
                        + "; unset "@ + variable + "; fi"@,
                )
            },
{
    let line = wrapped_command(command, command_id, secret, shell, socket);
    let saved = "__tmux_mcp_prompt_"@ + secret;
    let hook = "__tmux_mcp_finish_"@ + secret;
    let variable = "__tmux_mcp_ec_"@ + secret;
    let value = "\"$"@ + variable + "\""@;
    let report = crate::markers::completion_text(
        command_id,
        secret,
        socket,
        value,
        "$"@ + variable,
    );
    assert(expands(value, variable));
    lemma_reports(report, value, variable, command_id, secret, socket);
    let hooked = variable + "=${"@ + variable + "-$?}; "@ + report
        + "; unset PROMPT_COMMAND; eval \"$"@ + saved + "\"; unset "@ + saved + " "@ + hook + " "@
        + variable;
    assert(hooked =~= crate::markers::finalize_text(report, secret));
    let prompt = "PROMPT_COMMAND=('eval \"$"@ + hook + "\"' \"${PROMPT_COMMAND[@]}\")"@;
    let before = "if [ -n \"${BASH_VERSION-}\" ]; then "@ + saved
        + "=$(declare -p PROMPT_COMMAND 2>/dev/null); "@ + hook + "="@ + single_quoted(hooked)
        + "; eval "@ + single_quoted(prompt) + "; fi; "@;
    assert(bash_reports(before, variable, hook, report, command_id, secret, socket));
    reveal_strlit("TMUX_MCP_START_");
    reveal_strlit("; fi; ");
    reveal_strlit("; fi; echo \"");
    reveal_strlit("echo \"TMUX_MCP_START_");
    reveal_strlit("=$?; ");
    reveal_strlit("=$?; if [ -n \"${BASH_VERSION-}\" ]; then eval \"$");
    reveal_strlit("if [ -n \"${BASH_VERSION-}\" ]; then eval \"$");
    assert("; fi; echo \""@ + "TMUX_MCP_START_"@ =~= "; fi; "@ + "echo \"TMUX_MCP_START_"@);
    assert("=$?; if [ -n \"${BASH_VERSION-}\" ]; then eval \"$"@ =~= "=$?; "@
        + "if [ -n \"${BASH_VERSION-}\" ]; then eval \"$"@);
    let behind = "if [ -n \"${BASH_VERSION-}\" ]; then eval \"$"@ + hook + "\"; else "@ + report
        + "; unset "@ + variable + "; fi"@;
    let head = "if [ -n \"${BASH_VERSION-}\" ]; then "@ + saved
        + "=$(declare -p PROMPT_COMMAND 2>/dev/null); "@ + hook + "="@ + single_quoted(hooked)
        + "; eval "@ + single_quoted(prompt);
    let ending = hook + "\"; else "@ + report + "; unset "@ + variable + "; fi"@;
    assert(behind =~= "if [ -n \"${BASH_VERSION-}\" ]; then eval \"$"@ + ending);
    assert(line =~= head + "; fi; echo \""@ + ("TMUX_MCP_START_"@ + command_id) + "\"; "@ + command
        + " ; "@ + variable + "=$?; if [ -n \"${BASH_VERSION-}\" ]; then eval \"$"@ + ending);
    lemma_regroup(
        head,
        "; fi; echo \""@,
        "TMUX_MCP_START_"@,
        "; fi; "@,
        "echo \"TMUX_MCP_START_"@,
        command_id,
        "\"; "@ + command + " ; "@,
        variable,
        "=$?; "@,
        "if [ -n \"${BASH_VERSION-}\" ]; then eval \"$"@,
        ending,
    );
    let inner = "\"; "@ + command + " ; "@;
    assert(head + "; fi; echo \""@ + ("TMUX_MCP_START_"@ + command_id) + "\"; "@ + command + " ; "@
        =~= head + "; fi; echo \""@ + ("TMUX_MCP_START_"@ + command_id) + inner);
    assert(before + "echo \"TMUX_MCP_START_"@ + command_id + "\"; "@ + command + " ; "@ =~= before
        + "echo \"TMUX_MCP_START_"@ + command_id + inner);
    assert(runs(line, before, command, command_id, shell, variable, behind));
}

/// An exit code of zero, and no other, is success.
pub proof fn only_zero_is_success(exit_code: i32)
    ensures
        status_of_exit(exit_code) == CommandStatus::Completed <==> exit_code == 0,
        status_of_exit(exit_code) == CommandStatus::Failed <==> exit_code != 0,
        exit_outcome(exit_code).exit_code == Some(exit_code),
        exit_outcome(exit_code).reason is None,
        exit_outcome(exit_code).status == CommandStatus::Completed <==> exit_code == 0,
        exit_outcome(exit_code).status == CommandStatus::Failed <==> exit_code != 0,
{
}

/// A command that is queued or runs has not ended; any other has.
pub proof fn ended_is_neither_queued_nor_running(status: CommandStatus)
    ensures
        status.terminal() <==> status != CommandStatus::Queued && status != CommandStatus::Running,
{
}

/// Where the side channel fails no exit code is made up: the command is uncertain, and the
/// reason says what went wrong.
pub proof fn failed_side_channel_gives_no_exit_code(error: Seq<char>)
    ensures
        lost_outcome(error).status == CommandStatus::TrackingError,
        lost_outcome(error).exit_code is None,
        lost_outcome(error).reason is Some && lost_outcome(error).reason->0.len() > error.len()
            && lost_outcome(error).reason->0.skip(
            lost_outcome(error).reason->0.len() - error.len(),
        ) == error,
        unreadable_outcome(error).status == CommandStatus::TrackingError,
        unreadable_outcome(error).exit_code is None,
        unreadable_outcome(error).reason is Some && unreadable_outcome(error).reason->0.len()
            > error.len() && unreadable_outcome(error).reason->0.skip(
            unreadable_outcome(error).reason->0.len() - error.len(),
        ) == error,
{
    reveal_strlit("wait-for failed: ");
    reveal_strlit("side-channel exit buffer unreadable: ");
    let lost = lost_outcome(error).reason->0;
    let unreadable = unreadable_outcome(error).reason->0;
    assert(lost.skip(lost.len() - error.len()) =~= error);
    assert(unreadable.skip(unreadable.len() - error.len()) =~= error);
}

/// The record of a new command says what was asked for and nothing that is not known yet.
pub proof fn new_record_is_what_was_asked_for(request: CommandRequest, id: Seq<char>, now: u64)
    ensures
        ({
            let record = request.record(id, now);
            &&& record.id == id
            &&& record.command == request.command@
            &&& record.pane_id == request.pane_id@
            &&& record.socket == opt_view(request.socket)
            &&& record.target == opt_view(request.target)
            &&& record.raw_mode == request.raw_mode
            &&& record.tracking_disabled <==> request.raw_mode || request.no_enter
            &&& record.status == CommandStatus::Running
            &&& record.exit_code is None
            &&& record.reason is None
            &&& record.completed_at is None
            &&& record.started_at == now
            &&& !record.result_ready
            &&& record.output_truncated
            &&& record.output is Some <==> request.raw_mode || request.no_enter
        }),
{
}

/// A request is turned down exactly where its pane is occupied, or where it is to be tracked and
/// its command would not let the completion behind it run. Who occupies the pane is named.
pub proof fn requests_are_turned_down_for_cause(state: Tracker, request: CommandRequest)
    ensures
        ({
            let key = pane_key(
                opt_view(request.target),
                opt_view(request.socket),
                request.pane_id@,
            );
            let command = request.command@;
            let cut_short = command.contains('\n') || command.contains('\r') || (exists|i: int|
                comment_at(command, i)) || (exists|i: int| background_at(command, i));
            &&& state.rejection(request) is Some <==> state.running.dom().contains(key) || (
            !request.raw_mode && !request.no_enter && cut_short)
            &&& state.running.dom().contains(key) && (request.raw_mode || request.no_enter
                || !cut_short) ==> contains_text(state.rejection(request)->0, state.running[key])
        }),
{
    let key = pane_key(opt_view(request.target), opt_view(request.socket), request.pane_id@);
    if state.running.dom().contains(key) {
        let owner = state.running[key];
        let message = Tracker::busy_message(request.pane_id@, owner);
        let at = ("pane "@ + request.pane_id@ + " is busy with command "@).len() as int;
        assert(message.subrange(at, at + owner.len()) =~= owner);
        assert(occurs_at(message, owner, at));
    }
}

/// In a command without quotes and backslashes a comment is a `#` that begins a word.
pub proof fn hash_at_a_word_begins_a_comment(s: Seq<char>, i: int)
    requires
        forall|k: int| 0 <= k < s.len() ==> s[k] != '\'' && s[k] != '"' && s[k] != '\\',
        0 <= i < s.len(),
    ensures
        comment_at(s, i) <==> s[i] == '#' && (i == 0 || is_space(s[i - 1]) || s[i - 1] == ';'
            || s[i - 1] == '&' || s[i - 1] == '|' || s[i - 1] == '(' || s[i - 1] == ')' || s[i - 1]
            == '<' || s[i - 1] == '>'),
{
    lemma_no_quotes(s, i);
    if i > 0 {
        lemma_no_quotes(s, i - 1);
    }
}

proof fn lemma_no_quotes(s: Seq<char>, i: int)
    requires
        forall|k: int| 0 <= k < s.len() ==> s[k] != '\'' && s[k] != '"' && s[k] != '\\',
        i <= s.len(),
    ensures
        quoting_at(s, i) == (Quoting { single: false, double: false, escaped: false }),
    decreases i,
{
    if i > 0 {
        lemma_no_quotes(s, i - 1);
    }
}

/// Text in single quotes is no syntax: nothing in it is a comment or sends work to the
/// background.
pub proof fn quoted_text_is_no_syntax(a: Seq<char>, quoted: Seq<char>, b: Seq<char>, i: int)
    requires
        forall|k: int| 0 <= k < a.len() ==> a[k] != '\'' && a[k] != '"' && a[k] != '\\',
        !quoted.contains('\''),
        a.len() < i <= a.len() + quoted.len(),
    ensures
        !comment_at(a + seq!['\''] + quoted + seq!['\''] + b, i),
        !background_at(a + seq!['\''] + quoted + seq!['\''] + b, i),
{
    let all = a + seq!['\''] + quoted + seq!['\''] + b;
    lemma_within_quotes(a, quoted, b, i);
}

proof fn lemma_before_quote(a: Seq<char>, rest: Seq<char>, i: int)
    requires
        forall|k: int| 0 <= k < a.len() ==> a[k] != '\'' && a[k] != '"' && a[k] != '\\',
        i <= a.len(),
    ensures
        quoting_at(a + rest, i) == (Quoting { single: false, double: false, escaped: false }),
    decreases i,
{
    if i > 0 {
        lemma_before_quote(a, rest, i - 1);
        assert((a + rest)[i - 1] == a[i - 1]);
    }
}

proof fn lemma_within_quotes(a: Seq<char>, quoted: Seq<char>, b: Seq<char>, i: int)
    requires
        forall|k: int| 0 <= k < a.len() ==> a[k] != '\'' && a[k] != '"' && a[k] != '\\',
        !quoted.contains('\''),
        a.len() < i <= a.len() + quoted.len() + 1,
    ensures
        quoting_at(a + seq!['\''] + quoted + seq!['\''] + b, i) == (Quoting {
            single: true,
            double: false,
            escaped: false,
        }),
    decreases i,
{
    let all = a + seq!['\''] + quoted + seq!['\''] + b;
    let rest = seq!['\''] + quoted + seq!['\''] + b;
    assert(all =~= a + rest);
    if i == a.len() + 1 {
        lemma_before_quote(a, rest, a.len() as int);
        assert(all[i - 1] == '\'');
    } else {
        lemma_within_quotes(a, quoted, b, i - 1);
        let k = i - 2 - a.len();
        assert(all[i - 1] == quoted[k]);
        assert(quoted.contains(quoted[k]));
    }
}

/// In a command without quotes and backslashes an `&` that stands alone sends work to the
/// background; one that is part of `&&`, or of a redirection, does not.
pub proof fn lone_ampersand_is_background(s: Seq<char>, i: int)
    requires
        forall|k: int| 0 <= k < s.len() ==> s[k] != '\'' && s[k] != '"' && s[k] != '\\',
        0 <= i < s.len(),
    ensures
        s[i] != '&' ==> !background_at(s, i),
        s[i] == '&' && (i == 0 || (s[i - 1] != '&' && s[i - 1] != '<' && s[i - 1] != '>' && s[i - 1]
            != '|')) && (i + 1 == s.len() || (s[i + 1] != '&' && s[i + 1] != '>'))
            ==> background_at(s, i),
        s[i] == '&' && i > 0 && (s[i - 1] == '<' || s[i - 1] == '>' || s[i - 1] == '|')
            ==> !background_at(s, i),
        s[i] == '&' && i + 1 < s.len() && (s[i + 1] == '&' || s[i + 1] == '>') ==> !background_at(
            s,
            i,
        ),
        s[i] == '&' && i > 0 && s[i - 1] == '&' && (i == 1 || (s[i - 2] != '&' && s[i - 2] != '<'
            && s[i - 2] != '>' && s[i - 2] != '|')) ==> !background_at(s, i),
{
    lemma_no_quotes(s, i);
    if i > 0 {
        lemma_no_quotes(s, i - 1);
    }
    if i > 1 {
        lemma_no_quotes(s, i - 2);
    }
    reveal_with_fuel(crate::shell::joined_ampersand, 3);
}

/// What one capture shows: both markers give the whole output, without its end it counts as
/// truncated, and without its beginning there is none.
pub proof fn captures_tell_what_is_missing(output: Seq<char>)
    ensures
        Captured::of_running(Some(Bracketed::Complete(output))).output == Some(output),
        !Captured::of_running(Some(Bracketed::Complete(output))).truncated,
        Captured::of_running(Some(Bracketed::Open(output))).output == Some(output),
        Captured::of_running(Some(Bracketed::Open(output))).truncated,
        Captured::of_running(Some(Bracketed::MissingStart)).output is None,
        Captured::of_running(Some(Bracketed::MissingStart)).truncated,
        Captured::of_running(None).output is None,
        Captured::of_running(None).truncated,
{
}

/// The final capture: an output with its end settles it at once and is not truncated; without an
/// end it is truncated; at most three captures are taken, and the latest output that was seen
/// is the one that is kept.
pub proof fn final_capture_prefers_the_whole_output(
    progress: CaptureProgress,
    capture: Option<Bracketed>,
)
    ensures
        capture matches Some(Bracketed::Complete(output)) ==> progress.after(capture)
            == CaptureDecision::Done(Captured { output: Some(output), truncated: false }),
        !(capture matches Some(Bracketed::Complete(_))) ==> (progress.after(
            capture,
        ) matches CaptureDecision::Done(captured) ==> captured.truncated),
        capture matches Some(Bracketed::MissingStart) ==> progress.after(capture)
            == CaptureDecision::Done(Captured { output: progress.best, truncated: true }),
        capture matches Some(Bracketed::Open(output)) ==> (match progress.after(capture) {
            CaptureDecision::Done(captured) => captured.output == Some(output),
            CaptureDecision::Retry(next) => next.best == Some(output),
        }),
        capture is None ==> (match progress.after(capture) {
            CaptureDecision::Done(captured) => captured.output == progress.best,
            CaptureDecision::Retry(next) => next.best == progress.best,
        }),
        progress.after(capture) is Retry <==> progress.attempts < 2 && (capture is None || (
        capture matches Some(Bracketed::Open(_)))),
        progress.after(capture) matches CaptureDecision::Retry(next) ==> next.attempts
            == progress.attempts + 1,
        CaptureProgress::start().attempts == 0,
        CaptureProgress::start().best is None,
{
}

/// What a capture isolated becomes the output of the record; nothing else changes, and whether
/// it is truncated is what the capture says.
pub proof fn isolated_output_is_taken_over(exec: Execution, captured: Captured)
    ensures
        captured.output is Some ==> exec.with_captured(captured).output == captured.output,
        captured.output is None ==> exec.with_captured(captured).output == exec.output,
        exec.with_captured(captured).output_truncated == captured.truncated,
        (Execution {
            output: exec.output,
            output_truncated: exec.output_truncated,
            ..exec.with_captured(captured)
        }) == exec,
{
}

/// A completion that the watcher missed is reported as one that it saw: by its exit code, with
/// what the capture isolated, and its pane is free.
pub proof fn recovered_command_is_reported(
    before: Tracker,
    id: Seq<char>,
    exit_code: i32,
    captured: Captured,
    now: u64,
    other: Seq<char>,
)
    requires
        before.unresolved(id),
        before.running.dom().contains(before.commands[id].pane_key()),
        before.running[before.commands[id].pane_key()] == id,
        other != id,
    ensures
        ({
            let key = before.commands[id].pane_key();
            let after = before.recovered(id, key, exit_code, captured, now);
            &&& after.commands.dom().contains(id)
            &&& after.commands[id].status == CommandStatus::Completed <==> exit_code == 0
            &&& after.commands[id].status == CommandStatus::Failed <==> exit_code != 0
            &&& after.commands[id].exit_code == Some(exit_code)
            &&& after.commands[id].reason is None
            &&& after.commands[id].result_ready
            &&& after.commands[id].completed_at == Some(now)
            &&& captured.output is Some ==> after.commands[id].output == captured.output
            &&& after.commands[id].output_truncated == captured.truncated
            &&& after.commands[id].command == before.commands[id].command
            &&& !after.running.dom().contains(key)
            &&& !after.secrets.dom().contains(id)
            &&& after.commands.dom().contains(other) <==> before.commands.dom().contains(other)
            &&& before.commands.dom().contains(other) ==> after.commands[other]
                == before.commands[other]
        }),
{
}

/// Where input may not have arrived the command is uncertain for good: it counts as ended
/// without an exit code, the reason names the error, and its pane stays occupied.
pub proof fn uncertain_delivery_is_reported(
    before: Tracker,
    id: Seq<char>,
    error: ErrorView,
    now: u64,
)
    requires
        before.commands.dom().contains(id),
    ensures
        ({
            let after = before.dispatch_uncertain(id, error, now);
            &&& after.commands.dom().contains(id)
            &&& after.commands[id].status == CommandStatus::TrackingError
            &&& after.commands[id].exit_code == before.commands[id].exit_code
            &&& after.commands[id].result_ready
            &&& after.commands[id].completed_at == Some(now)
            &&& after.commands[id].reason is Some
            &&& contains_text(after.commands[id].reason->0, error_text(error))
            &&& after.running == before.running
            &&& after.secrets == before.secrets
        }),
{
    let words = error_text(error);
    let reason = before.dispatch_uncertain(id, error, now).commands[id].reason->0;
    let at = "Input delivery is uncertain: "@.len() as int;
    assert(reason.subrange(at, at + words.len()) =~= words);
    assert(occurs_at(reason, words, at));
}

/// A command that is sent runs from that moment on, and is otherwise as it was accepted.
pub proof fn launched_command_runs(before: Tracker, id: Seq<char>, now: u64)
    requires
        before.commands.dom().contains(id),
    ensures
        before.launched(id, now).commands[id].status == CommandStatus::Running,
        before.launched(id, now).commands[id].started_at == now,
        before.launched(id, now).commands[id].command == before.commands[id].command,
        before.launched(id, now).commands[id].exit_code == before.commands[id].exit_code,
        before.launched(id, now).running == before.running,
        before.launched(id, now).secrets == before.secrets,
{
}

/// Work that is bound to one target sees the commands of that target alone.
pub proof fn targets_do_not_see_each_other(
    state: Tracker,
    id: Seq<char>,
    target: Option<Seq<char>>,
    other: Option<Seq<char>>,
)
    ensures
        state.visible(id, target) && state.visible(id, other) ==> target == other,
        state.commands.dom().contains(id) ==> state.visible(id, state.commands[id].target),
        state.visible(id, target) ==> state.commands.dom().contains(id),
{
}

/// A wait is over once the command has ended and its result is ready, or where its end cannot
/// be observed; never while it is tracked and runs.
pub proof fn waits_last_until_the_result_is_ready(exec: Execution)
    ensures
        exec.tracking_disabled ==> Tracker::wait_over(exec),
        !exec.tracking_disabled ==> (Tracker::wait_over(exec) <==> exec.result_ready && exec.status
            != CommandStatus::Running && exec.status != CommandStatus::Queued),
{
}

/// Only a command whose tracking failed, and which still has its pane, is uncertain.
pub proof fn uncertain_commands_have_their_pane(
    state: Tracker,
    id: Seq<char>,
    target: Option<Seq<char>>,
)
    ensures
        state.uncertain(id, target) ==> state.commands[id].status == CommandStatus::TrackingError
            && state.commands[id].target == target && exists|key: Seq<char>|
            state.running.dom().contains(key) && #[trigger] state.running[key] == id,
{
}

/// An ended command is kept for the configured minutes and no longer; one that has not ended,
/// for those and the tracking deadline, at least a second.
pub proof fn records_are_kept_for_their_time(
    exec: Execution,
    tracking: TrackingConfig,
    now: u64,
)
    requires
        tracking.completed_retention_minutes <= 1_000_000_000,
    ensures
        exec.status.terminal() && exec.completed_at is None ==> !outlived(exec, tracking, now),
        exec.status.terminal() && exec.completed_at is Some && exec.completed_at->0 <= now ==> (
        outlived(exec, tracking, now) <==> now - exec.completed_at->0
            >= tracking.completed_retention_minutes * 60_000_000_000),
        !exec.status.terminal() && exec.started_at <= now && tracking.tracking_deadline_seconds
            + tracking.completed_retention_minutes * 60 >= 1 ==> (outlived(exec, tracking, now)
            <==> now - exec.started_at >= (tracking.tracking_deadline_seconds
            + tracking.completed_retention_minutes * 60) * 1_000_000_000),
        !exec.status.terminal() && exec.started_at <= now && now - exec.started_at
            < 1_000_000_000 ==> !outlived(exec, tracking, now),
{
    let minutes = tracking.completed_retention_minutes as int;
    assert(minutes * 60 <= u64::MAX);
    assert(minutes * 60 * 1_000_000_000 == minutes * 60_000_000_000) by (nonlinear_arith);
    let seconds = tracking.tracking_deadline_seconds + minutes * 60;
    assert(seconds >= 1 ==> seconds * 1_000_000_000 >= 1_000_000_000) by (nonlinear_arith);
}

/// Keys are typed as they are: at once, or one character after the other with a pause after
/// each, and Enter last exactly where it is wanted.
pub proof fn typing_sends_the_text(
    text: Seq<char>,
    delay_ms: Option<u64>,
    no_enter: bool,
    i: int,
)
    ensures
        ({
            let plan = typing_plan(text, delay_ms, no_enter);
            let slow = delay_ms is Some && delay_ms->0 > 0;
            &&& !slow && no_enter ==> plan == seq![Typing::Keys { text, literal: false }]
            &&& !slow && !no_enter ==> plan == seq![Typing::KeysAndEnter { text }]
            &&& slow ==> plan.len() == 2 * text.len() + if no_enter {
                0int
            } else {
                1
            }
            &&& slow && 0 <= i < text.len() ==> plan[2 * i] == (Typing::Keys {
                text: seq![text[i]],
                literal: true,
            }) && plan[2 * i + 1] == (Typing::Pause { ms: delay_ms->0 })
            &&& slow && !no_enter ==> plan.last() == (Typing::Keys {
                text: "Enter"@,
                literal: false,
            })
        }),
{
    if delay_ms is Some && delay_ms->0 > 0 {
        lemma_slow_typing(text, delay_ms->0, i);
    }
}

proof fn lemma_slow_typing(text: Seq<char>, ms: u64, i: int)
    ensures
        crate::commands::slow_typing(text, ms).len() == 2 * text.len(),
        0 <= i < text.len() ==> crate::commands::slow_typing(text, ms)[2 * i] == (Typing::Keys {
            text: seq![text[i]],
            literal: true,
        }) && crate::commands::slow_typing(text, ms)[2 * i + 1] == (Typing::Pause { ms }),
    decreases text.len(),
{
    if text.len() > 0 {
        lemma_slow_typing(text.drop_last(), ms, i);
    }
}

/// The shell in the foreground of a pane is what its commands are wrapped for, from whatever
/// directory it was started and as a login shell too; any other program leaves the configured
/// shell.
pub proof fn foreground_shell_is_spoken_to(
    configured: ShellType,
    directory: Seq<char>,
    name: Seq<char>,
)
    requires
        directory.len() == 0 || directory.last() == '/',
        !name.contains('/'),
    ensures
        name == "fish"@ || name == "-fish"@ ==> pane_shell(configured, directory + name)
            == ShellType::Fish,
        name == "zsh"@ || name == "-zsh"@ ==> pane_shell(configured, directory + name)
            == ShellType::Zsh,
        name == "bash"@ || name == "-bash"@ || name == "sh"@ || name == "dash"@ || name == "ksh"@
            ==> pane_shell(configured, directory + name) == ShellType::Bash,
        name.len() > 0 && name[0] != '-' && name != "fish"@ && name != "zsh"@ && name != "bash"@
            && name != "sh"@ && name != "dash"@ && name != "ksh"@ ==> pane_shell(
            configured,
            directory + name,
        ) == configured,
{
    lemma_base_name(directory, name);
    reveal_strlit("fish");
    reveal_strlit("-fish");
    reveal_strlit("zsh");
    reveal_strlit("-zsh");
    reveal_strlit("bash");
    reveal_strlit("-bash");
    reveal_strlit("sh");
    reveal_strlit("dash");
    reveal_strlit("ksh");
    reveal_with_fuel(crate::markers::skip_dashes, 3);
    assert("-fish"@.skip(1) =~= "fish"@);
    assert("-zsh"@.skip(1) =~= "zsh"@);
    assert("-bash"@.skip(1) =~= "bash"@);
    assert("fish"@.len() == 4 && "zsh"@.len() == 3 && "bash"@.len() == 4 && "sh"@.len() == 2);
    assert("dash"@.len() == 4 && "ksh"@.len() == 3);
    assert("fish"@[0] != "bash"@[0] && "fish"@[0] != "dash"@[0]);
    assert("zsh"@[0] != "ksh"@[0]);
    assert("fish"@[0] != '-' && "zsh"@[0] != '-' && "bash"@[0] != '-' && "sh"@[0] != '-');
    assert("dash"@[0] != '-' && "ksh"@[0] != '-');
}

proof fn lemma_base_name(directory: Seq<char>, name: Seq<char>)
    requires
        directory.len() == 0 || directory.last() == '/',
        !name.contains('/'),
    ensures
        crate::markers::base_name(directory + name) == name,
    decreases name.len(),
{
    let all = directory + name;
    if name.len() == 0 {
        assert(all =~= directory);
    } else {
        let front = name.drop_last();
        assert(!front.contains('/')) by {
            if front.contains('/') {
                let i = choose|i: int| 0 <= i < front.len() && front[i] == '/';
                assert(name[i] == '/');
            }
        }
        lemma_base_name(directory, front);
        assert(all.drop_last() =~= directory + front);
        assert(all.last() == name.last());
        assert(name.contains(name.last()));
        assert(front.push(name.last()) =~= name);
    }
}

/// An event names its command, says what happened to it and how it stands, and where its result
/// is to be read: under the target of the command, if it has one.
pub proof fn events_name_their_command(kind: CommandEventKind, exec: Execution)
    ensures
        Event::of(kind, exec).command_id == exec.id,
        Event::of(kind, exec).kind == kind,
        Event::of(kind, exec).status == exec.status,
        exec.target is None ==> Event::of(kind, exec).resource_uri == "tmux://command/"@ + exec.id
            + "/result"@,
        exec.target is Some ==> Event::of(kind, exec).resource_uri == "tmux://"@ + exec.target->0
            + "/command/"@ + exec.id + "/result"@,
{
    let uri = "tmux://command/"@ + exec.id + "/result"@;
    let rest = "command/"@ + exec.id + "/result"@;
    reveal_strlit("tmux://command/");
    reveal_strlit("tmux://");
    reveal_strlit("command/");
    reveal_strlit("/command/");
    reveal_strlit("/");
    assert(uri =~= "tmux://"@ + rest);
    assert(rest.subrange(0, 8) =~= "command/"@);
    assert(has_prefix(rest, "command/"@));
    if exec.target is Some {
        crate::targets::resources_carry_their_target(exec.target->0, rest);
        assert("tmux://"@ + exec.target->0 + "/"@ + rest =~= "tmux://"@ + exec.target->0
            + "/command/"@ + exec.id + "/result"@);
    }
}

/// At least one line is captured, and a checkpoint takes at least a second; larger settings
/// stand as they are.
pub proof fn settings_are_at_least_one(n: int)
    ensures
        n >= 1 ==> at_least_one(n) == n,
        n < 1 ==> at_least_one(n) == 1,
{
}

/// A watcher takes over the exit code that it reads: the command ends as that code says.
pub proof fn watcher_takes_over_the_exit_code(
    watcher: Watcher,
    before: Tracker,
    exit_code: i32,
    now: u64,
    after: Tracker,
    stage: WatchStage,
    step: WatchStep,
)
    requires
        watcher.stage is ReadingExitCode,
        before.unresolved(watcher.command_id@),
        watcher.steps_to(before, WatchInput::ExitCode(exit_code), now, after, stage, step),
    ensures
        after.commands[watcher.command_id@].status == CommandStatus::Completed <==> exit_code == 0,
        after.commands[watcher.command_id@].status == CommandStatus::Failed <==> exit_code != 0,
        after.commands[watcher.command_id@].exit_code == Some(exit_code),
        after.commands[watcher.command_id@].completed_at == Some(now),
        !after.commands[watcher.command_id@].result_ready,
        !after.secrets.dom().contains(watcher.command_id@),
        after.running == before.running,
        stage is Capturing,
        step.delete_exit_code,
{
}

/// A watcher that loses its signal, or cannot read the exit code, leaves the command uncertain
/// and its pane occupied.
pub proof fn watcher_that_fails_leaves_the_pane_occupied(
    watcher: Watcher,
    before: Tracker,
    input: WatchInput,
    now: u64,
    after: Tracker,
    stage: WatchStage,
    step: WatchStep,
)
    requires
        before.unresolved(watcher.command_id@),
        watcher.steps_to(before, input, now, after, stage, step),
        (watcher.stage is Waiting && input is SignalFailed) || (watcher.stage is ReadingExitCode
            && input is ExitCodeFailed),
    ensures
        after.commands[watcher.command_id@].status == CommandStatus::TrackingError,
        after.commands[watcher.command_id@].exit_code is None,
        after.commands[watcher.command_id@].reason is Some,
        after.running == before.running,
        stage is Capturing || stage is CapturingOpen,
{
}

/// A watcher that has captured the final output makes the result ready, and gives the pane free
/// unless the command is uncertain.
pub proof fn finished_watcher_frees_the_pane(
    watcher: Watcher,
    before: Tracker,
    input: WatchInput,
    now: u64,
    after: Tracker,
    stage: WatchStage,
    step: WatchStep,
)
    requires
        watcher.steps_to(before, input, now, after, stage, step),
        !(watcher.stage is Finished) && stage is Finished,
        before.commands.dom().contains(watcher.command_id@),
        before.commands[watcher.command_id@].status.terminal(),
        watcher.stage matches WatchStage::Capturing { status, .. } ==> status
            == before.commands[watcher.command_id@].status,
        watcher.stage is CapturingOpen ==> before.commands[watcher.command_id@].status
            == CommandStatus::TrackingError,
        watcher.stage is Capturing || watcher.stage is CapturingOpen,
        before.running.dom().contains(watcher.pane.key()),
        before.running[watcher.pane.key()] == watcher.command_id@,
    ensures
        after.commands[watcher.command_id@].result_ready,
        after.commands[watcher.command_id@].status == before.commands[watcher.command_id@].status,
        after.commands[watcher.command_id@].exit_code
            == before.commands[watcher.command_id@].exit_code,
        after.running.dom().contains(watcher.pane.key()) <==> before.commands[watcher.command_id@].status
            == CommandStatus::TrackingError,
        step.event is Some,
        step.event->0@.kind == CommandEventKind::Terminal,
        step.event->0@.command_id == after.commands[watcher.command_id@].id,
{
}

/// A recovery commits the exit code that it read, once the end of the output was visible.
pub proof fn recovery_commits_what_it_read(
    recovery: Recovery,
    before: Tracker,
    input: WatchInput,
    now: u64,
    after: Tracker,
    stage: RecoveryStage,
    step: WatchStep,
)
    requires
        recovery.steps_to(before, input, now, after, stage, step),
        before.unresolved(recovery.command_id@),
    ensures
        recovery.stage is ReadingExitCode && input is ExitCode ==> stage
            == (RecoveryStage::CheckingOutput { exit_code: input->ExitCode_0 }),
        recovery.stage matches RecoveryStage::CheckingOutput { exit_code } ==> (
        stage matches RecoveryStage::Capturing { exit_code: code, .. } ==> code == exit_code),
        recovery.stage matches RecoveryStage::Capturing { exit_code, .. } ==> (
        stage is Finished ==> after.commands[recovery.command_id@].exit_code == Some(exit_code) && (
        after.commands[recovery.command_id@].status == CommandStatus::Completed <==> exit_code == 0)
            && after.commands[recovery.command_id@].result_ready && step.delete_exit_code),
        after != before ==> recovery.stage is Capturing && stage is Finished,
{
}

/// What a watcher does at each stage: it waits no longer than the deadline, reads the exit code,
/// captures as many lines as configured, pausing before a retry only, and stops in the end.
pub proof fn watchers_act_by_their_stage(stage: WatchStage, tracking: TrackingConfig)
    ensures
        stage.action(tracking) is Wait <==> stage is Waiting,
        stage.action(tracking) is ReadExitCode <==> stage is Rechecking || stage is ReadingExitCode,
        stage.action(tracking) is Stop <==> stage is Finished,
        stage.action(tracking) matches WatchAction::Wait { seconds } ==> seconds >= 1 && (
        tracking.tracking_deadline_seconds >= 1 ==> seconds == tracking.tracking_deadline_seconds),
        stage.action(tracking) matches WatchAction::Capture { lines, pause_ms } ==> {
            &&& lines >= 1
            &&& tracking.capture_max_lines >= 1 ==> lines == tracking.capture_max_lines
            &&& stage matches WatchStage::Capturing { capture, .. } ==> pause_ms == (if
            capture@.attempts > 0 {
                10u64
            } else {
                0
            })
            &&& !(stage is Capturing) ==> pause_ms == 0
        },
{
}

/// What a recovery does at each stage: it reads the exit code, captures as many lines as
/// configured, pausing before a retry only, and stops in the end.
pub proof fn recoveries_act_by_their_stage(stage: RecoveryStage, tracking: TrackingConfig)
    ensures
        stage.action(tracking) is ReadExitCode <==> stage is ReadingExitCode,
        stage.action(tracking) is Stop <==> stage is Finished,
        !(stage.action(tracking) is Wait),
        stage.action(tracking) matches WatchAction::Capture { lines, pause_ms } ==> {
            &&& lines >= 1
            &&& tracking.capture_max_lines >= 1 ==> lines == tracking.capture_max_lines
            &&& stage matches RecoveryStage::Capturing { capture, .. } ==> pause_ms == (if
            capture@.attempts > 0 {
                10u64
            } else {
                0
            })
            &&& !(stage is Capturing) ==> pause_ms == 0
        },
{
}

/// A result becomes readable only where the command has ended; no other record, and nothing else
/// of this one but its output, changes.
pub proof fn only_ended_commands_become_readable(
    state: Tracker,
    id: Seq<char>,
    other: Seq<char>,
    captured: Captured,
)
    ensures
        ({
            let after = state.made_ready(id, captured);
            let ended = state.commands.dom().contains(id) && state.commands[id].status
                != CommandStatus::Running && state.commands[id].status != CommandStatus::Queued;
            &&& !ended ==> after == state
            &&& ended ==> after.commands[id].result_ready && after.commands[id].status
                == state.commands[id].status && after.commands[id].exit_code
                == state.commands[id].exit_code && after.commands[id].command
                == state.commands[id].command
            &&& after.commands.dom().contains(other) <==> state.commands.dom().contains(other)
            &&& other != id && state.commands.dom().contains(other) ==> after.commands[other]
                == state.commands[other]
            &&& after.running == state.running && after.secrets == state.secrets
        }),
{
    assert(state.made_ready(id, captured).commands.dom().contains(other)
        <==> state.commands.dom().contains(other));
}

/// The end of a command is published once its result is readable, and of none that is gone or
/// still runs.
pub proof fn only_ends_are_published(
    watcher: Watcher,
    before: Tracker,
    captured: Captured,
    status: CommandStatus,
    after: Tracker,
    step: WatchStep,
)
    requires
        watcher.finishes(before, captured, status, after, step),
    ensures
        step.event is Some <==> before.commands.dom().contains(watcher.command_id@)
            && before.commands[watcher.command_id@].status != CommandStatus::Running
            && before.commands[watcher.command_id@].status != CommandStatus::Queued,
        step.event is Some ==> step.event->0@.kind == CommandEventKind::Terminal,
        !step.delete_exit_code,
{
}

/// When the end of a command is committed, its final capture begins anew; who comes too late
/// has nothing left to do.
pub proof fn final_capture_begins_anew(
    before: Tracker,
    id: Seq<char>,
    status: CommandStatus,
    signal_lost: bool,
    stage: WatchStage,
)
    requires
        stage_after_commit(before, id, status, signal_lost, stage),
    ensures
        stage is Finished <==> !(before.commands.dom().contains(id) && (before.commands[id].status
            == CommandStatus::Running || before.commands[id].status == CommandStatus::Queued)),
        stage is CapturingOpen ==> signal_lost,
        stage matches WatchStage::Capturing { status: kept, capture } ==> !signal_lost && kept
            == status && capture@.attempts == 0 && capture@.best is None,
{
}

/// Closing a pane forgets exactly the commands that ran in it, on its target and socket, and
/// their secrets.
pub proof fn closed_panes_take_their_commands(
    state: Tracker,
    target: Option<Seq<char>>,
    pane_id: Seq<char>,
    socket: Option<Seq<char>>,
    id: Seq<char>,
)
    requires
        state.commands.dom().contains(id),
    ensures
        ({
            let after = state.purged(target, pane_id, socket);
            let theirs = state.commands[id].target == target && state.commands[id].pane_id
                == pane_id && state.commands[id].socket == socket;
            &&& theirs <==> !after.commands.dom().contains(id)
            &&& !theirs ==> after.commands[id] == state.commands[id]
            &&& theirs ==> !after.secrets.dom().contains(id)
            &&& !theirs && state.secrets.dom().contains(id) ==> after.secrets.dom().contains(id)
        }),
{
}

/// A pane is held by a command of that very pane, and every secret belongs to a command.
pub proof fn panes_are_held_by_their_own_commands(state: Tracker, key: Seq<char>, id: Seq<char>)
    requires
        state.consistent(),
    ensures
        state.running.dom().contains(key) ==> state.commands.dom().contains(state.running[key])
            && pane_key(
            state.commands[state.running[key]].target,
            state.commands[state.running[key]].socket,
            state.commands[state.running[key]].pane_id,
        ) == key,
        state.secrets.dom().contains(id) ==> state.commands.dom().contains(id),
{
}

} // verus!
