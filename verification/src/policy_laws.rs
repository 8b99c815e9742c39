//! What the policy promises over sockets, sessions, panes, commands, buffer paths and the tool
//! filter.

use crate::errors::{Error, ErrorView};
use crate::markers::base_name;
use crate::paths::{
    climbs, is_rooted, is_under, leads_through, named_parts, path_parts, without_end_slashes,
};
use crate::patterns::{regex_fault, regex_matches};
use crate::security::{decides, first_fault, CommandFilterMode, SecurityConfig};
use crate::shell::plain_at;
use crate::statements::{
    ansi_c_quote_at, escape_at, grouping_at, has_command_string, is_shell, runs_command_string,
    statements, subjects, syntax_objection,
};
use crate::text::{has_prefix, is_space, lowered, split_at_char, trimmed, views};
use crate::text_laws::{
    first_index_is_first, joined_parts_are_split_again, joined_with, splitting_loses_nothing,
};
use crate::tools::{
    class_of, env_items, env_mode, filled_parts, filter_objection, item_objection, known_group,
    normalized, passes, selected, selects, ToolFilterMode,
};
use vstd::prelude::*;

verus! {

/// Where sockets are listed, exactly those may be used, and not the one that tmux would pick;
/// without a list, or in a disabled policy, any may.
pub proof fn listed_sockets_may_be_used(config: SecurityConfig, socket: Option<Seq<char>>)
    ensures
        !config.enabled || config.allowed_sockets is None ==> config.socket_denial(socket) is None,
        config.enabled && config.allowed_sockets is Some ==> (config.socket_denial(socket) is None
            <==> socket is Some && views(config.allowed_sockets->0@).contains(socket->0)),
{
}

/// Where sessions are listed, exactly those may be used whose id or name is; without a list, or
/// in a disabled policy, any may.
pub proof fn listed_sessions_may_be_used(
    config: SecurityConfig,
    id: Seq<char>,
    name: Option<Seq<char>>,
)
    ensures
        !config.enabled || config.allowed_sessions is None ==> config.session_denial(id, name)
            is None,
        config.enabled && config.allowed_sessions is Some ==> (config.session_denial(id, name)
            is None <==> views(config.allowed_sessions->0@).contains(id) || (name is Some && views(
            config.allowed_sessions->0@,
        ).contains(name->0))),
{
}

/// Where panes are listed, exactly those may be used; without a list, or in a disabled policy,
/// any may.
pub proof fn listed_panes_may_be_used(config: SecurityConfig, pane: Seq<char>)
    ensures
        !config.enabled || config.allowed_panes is None ==> config.pane_denial(pane) is None,
        config.enabled && config.allowed_panes is Some ==> (config.pane_denial(pane) is None
            <==> views(config.allowed_panes->0@).contains(pane)),
{
}

/// An allowlist lets through what some pattern matches, a denylist what none does.
pub proof fn patterns_let_through_or_keep_out(config: SecurityConfig, statement: Seq<char>)
    ensures
        ({
            let hit = exists|i: int|
                0 <= i < config.command_filter.patterns@.len() && regex_matches(
                    (#[trigger] config.command_filter.patterns@[i])@,
                    statement,
                );
            &&& config.command_filter.mode == CommandFilterMode::Allowlist ==> (
            config.statement_denial(statement) is None <==> hit)
            &&& config.command_filter.mode == CommandFilterMode::Denylist ==> (
            config.statement_denial(statement) is Some <==> hit)
            &&& config.command_filter.mode == CommandFilterMode::Off ==> config.statement_denial(
                statement,
            ) is None
        }),
{
}

/// With a denylist no statement of a command that is let through matches a pattern, and with an
/// allowlist every one does.
pub proof fn no_statement_slips_through(
    config: SecurityConfig,
    command: Seq<char>,
    statement: Seq<char>,
    i: int,
)
    requires
        config.enabled,
        config.command_denial(command) is None,
        statements(command).contains(statement),
        0 <= i < config.command_filter.patterns@.len(),
    ensures
        config.command_filter.mode == CommandFilterMode::Denylist ==> !regex_matches(
            config.command_filter.patterns@[i]@,
            statement,
        ),
        config.command_filter.mode == CommandFilterMode::Allowlist ==> exists|k: int|
            0 <= k < config.command_filter.patterns@.len() && regex_matches(
                (#[trigger] config.command_filter.patterns@[k])@,
                statement,
            ),
{
    if config.command_filter.mode != CommandFilterMode::Off {
        crate::security::every_statement_is_judged(config, command);
        let k = choose|k: int|
            0 <= k < statements(command).len() && statements(command)[k] == statement;
        assert(subjects(command)[k] == statement);
        assert(config.statement_denial(subjects(command)[k]) is None);
        patterns_let_through_or_keep_out(config, statement);
        if config.command_filter.mode == CommandFilterMode::Denylist && regex_matches(
            config.command_filter.patterns@[i]@,
            statement,
        ) {
            assert(regex_matches((config.command_filter.patterns@[i])@, statement));
        }
    }
}

/// A filter that is off, or a disabled policy, lets every command through; any other turns away
/// what it cannot follow.
pub proof fn filters_turn_away_what_they_cannot_follow(config: SecurityConfig, command: Seq<char>)
    ensures
        !config.enabled || config.command_filter.mode == CommandFilterMode::Off
            ==> config.command_denial(command) is None,
        config.enabled && config.command_filter.mode != CommandFilterMode::Off && syntax_objection(
            command,
        ) is Some ==> config.command_denial(command) == syntax_objection(command),
        syntax_objection(command) is None <==> !(exists|i: int| ansi_c_quote_at(command, i)) && !(
        exists|i: int| escape_at(command, i)) && !(exists|i: int| grouping_at(command, i))
            && !has_command_string(command),
{
}

/// A command without statements is judged as the line that it is, and any other statement by
/// statement.
pub proof fn something_is_always_judged(command: Seq<char>)
    ensures
        subjects(command).len() > 0,
        statements(command).len() > 0 ==> subjects(command) == statements(command),
        statements(command).len() == 0 ==> subjects(command) == seq![trimmed(command)],
{
}

/// What a filter does not follow: an unquoted `$'`, a backslash anywhere but in single quotes,
/// and an unquoted parenthesis or brace that begins a group.
pub proof fn syntax_that_is_not_followed(s: Seq<char>, i: int)
    requires
        0 <= i < s.len(),
    ensures
        plain_at(s, i) && s[i] == '$' && i + 1 < s.len() && s[i + 1] == '\'' ==> ansi_c_quote_at(s, i),
        ansi_c_quote_at(s, i) ==> s[i] == '$' && s[i + 1] == '\'',
        plain_at(s, i) && s[i] == '\\' ==> escape_at(s, i),
        escape_at(s, i) ==> s[i] == '\\',
        plain_at(s, i) && s[i] == '(' && (i == 0 || (s[i - 1] != '$' && s[i - 1] != '<' && s[i - 1]
            != '>')) ==> grouping_at(s, i),
        plain_at(s, i) && s[i] == '{' && (i == 0 || is_space(s[i - 1]) || s[i - 1] == ';' || s[i - 1]
            == '|' || s[i - 1] == '&') ==> grouping_at(s, i),
        grouping_at(s, i) ==> s[i] == '(' || s[i] == '{',
        s[i] == '(' && i > 0 && (s[i - 1] == '$' || s[i - 1] == '<' || s[i - 1] == '>')
            ==> !grouping_at(s, i),
{
}

/// A shell is one by its name, whatever directory it is called from.
pub proof fn shells_are_known_by_name(command: Seq<char>)
    ensures
        is_shell(command) <==> base_name(command) == "sh"@ || base_name(command) == "bash"@
            || base_name(command) == "zsh"@ || base_name(command) == "fish"@ || base_name(command)
            == "dash"@ || base_name(command) == "ksh"@,
        !command.contains('/') ==> base_name(command) == command,
{
    if !command.contains('/') {
        lemma_base_name(command);
    }
}

proof fn lemma_base_name(command: Seq<char>)
    requires
        !command.contains('/'),
    ensures
        base_name(command) == command,
    decreases command.len(),
{
    if command.len() == 0 {
        assert(command =~= Seq::empty());
    } else {
        let front = command.drop_last();
        assert(!front.contains('/')) by {
            if front.contains('/') {
                let i = choose|i: int| 0 <= i < front.len() && front[i] == '/';
                assert(command[i] == '/');
            }
        }
        lemma_base_name(front);
        assert(command.contains(command.last()));
        assert(front.push(command.last()) =~= command);
    }
}

/// A shell that is called with options, one of which asks for a string of commands, runs one;
/// one whose first argument is no option does not.
pub proof fn shells_run_strings_on_request(args: Seq<Seq<char>>, m: int)
    requires
        args.len() > 1,
        is_shell(args[0]),
    ensures
        1 <= m < args.len() && (forall|j: int|
            1 <= j <= m ==> (#[trigger] args[j]).len() > 0 && args[j][0] == '-') && (exists|i: int|
            1 <= i < args[m].len() && args[m][i] == 'c') ==> runs_command_string(args),
        args[1].len() == 0 || args[1][0] != '-' ==> !runs_command_string(args),
{
    if 1 <= m < args.len() && (forall|j: int|
        1 <= j <= m ==> (#[trigger] args[j]).len() > 0 && args[j][0] == '-') && (exists|i: int|
        1 <= i < args[m].len() && args[m][i] == 'c') {
        assert(args[m].len() > 0 && args[m][0] == '-');
        assert(crate::statements::shell_word(args, 0));
        assert(crate::statements::command_option(args, 0, m));
    }
    if args[1].len() == 0 || args[1][0] != '-' {
        assert forall|k: int, m: int|
            crate::statements::shell_word(args, k) implies !#[trigger] crate::statements::command_option(
            args,
            k,
            m,
        ) by {
            if crate::statements::command_option(args, k, m) {
                assert(crate::statements::is_option(args[1]));
            }
        }
    }
}

/// A configuration is accepted exactly where every pattern compiles and every item of the tool
/// filter is known.
pub proof fn accepted_configurations(config: SecurityConfig)
    ensures
        config.objection() is None <==> (forall|i: int|
            0 <= i < config.command_filter.patterns@.len() ==> regex_fault(
                (#[trigger] config.command_filter.patterns@[i])@,
            ) is None) && (forall|i: int|
            0 <= i < config.tools.items@.len() ==> item_objection(
                normalized((#[trigger] config.tools.items@[i])@),
            ) is None),
{
    let patterns = views(config.command_filter.patterns@);
    let items = views(config.tools.items@);
    lemma_first_fault(patterns);
    lemma_filter_objection(items);
    assert(forall|i: int|
        0 <= i < patterns.len() ==> #[trigger] patterns[i]
            == config.command_filter.patterns@[i]@);
    assert(forall|i: int| 0 <= i < items.len() ==> #[trigger] items[i] == config.tools.items@[i]@);
    if forall|i: int|
        0 <= i < config.command_filter.patterns@.len() ==> regex_fault(
            (#[trigger] config.command_filter.patterns@[i])@,
        ) is None {
        assert forall|i: int| 0 <= i < patterns.len() implies regex_fault(#[trigger] patterns[i])
            is None by {
            assert(regex_fault((config.command_filter.patterns@[i])@) is None);
        }
    }
    if forall|i: int| 0 <= i < patterns.len() ==> regex_fault(#[trigger] patterns[i]) is None {
        assert forall|i: int| 0 <= i < config.command_filter.patterns@.len() implies regex_fault(
            (#[trigger] config.command_filter.patterns@[i])@,
        ) is None by {
            assert(regex_fault(patterns[i]) is None);
        }
    }
    if forall|i: int|
        0 <= i < config.tools.items@.len() ==> item_objection(
            normalized((#[trigger] config.tools.items@[i])@),
        ) is None {
        assert forall|i: int| 0 <= i < items.len() implies item_objection(
            normalized(#[trigger] items[i]),
        ) is None by {
            assert(item_objection(normalized((config.tools.items@[i])@)) is None);
        }
    }
    if forall|i: int|
        0 <= i < items.len() ==> item_objection(normalized(#[trigger] items[i])) is None {
        assert forall|i: int| 0 <= i < config.tools.items@.len() implies item_objection(
            normalized((#[trigger] config.tools.items@[i])@),
        ) is None by {
            assert(item_objection(normalized(items[i])) is None);
        }
    }
}

proof fn lemma_first_fault(patterns: Seq<Seq<char>>)
    ensures
        first_fault(patterns) is None <==> forall|i: int|
            0 <= i < patterns.len() ==> regex_fault(#[trigger] patterns[i]) is None,
    decreases patterns.len(),
{
    if patterns.len() > 0 {
        lemma_first_fault(patterns.skip(1));
        assert forall|i: int| 1 <= i < patterns.len() implies patterns[i] == #[trigger] patterns.skip(
            1,
        )[i - 1] by {}
        if first_fault(patterns) is None {
            assert forall|i: int| 0 <= i < patterns.len() implies regex_fault(
                #[trigger] patterns[i],
            ) is None by {
                if i > 0 {
                    assert(regex_fault(patterns.skip(1)[i - 1]) is None);
                }
            }
        } else if regex_fault(patterns[0]) is None {
            let j = choose|j: int|
                0 <= j < patterns.skip(1).len() && regex_fault(#[trigger] patterns.skip(1)[j])
                    is Some;
            assert(regex_fault(patterns[j + 1]) is Some);
        }
    }
}

proof fn lemma_filter_objection(items: Seq<Seq<char>>)
    ensures
        filter_objection(items) is None <==> forall|i: int|
            0 <= i < items.len() ==> item_objection(normalized(#[trigger] items[i])) is None,
    decreases items.len(),
{
    if items.len() > 0 {
        lemma_filter_objection(items.skip(1));
        if filter_objection(items) is None {
            assert forall|i: int| 0 <= i < items.len() implies item_objection(
                normalized(#[trigger] items[i]),
            ) is None by {
                if i > 0 {
                    assert(items.skip(1)[i - 1] == items[i]);
                }
            }
        } else if item_objection(normalized(items[0])) is None {
            let j = choose|j: int|
                0 <= j < items.skip(1).len() && item_objection(
                    normalized(#[trigger] items.skip(1)[j]),
                ) is Some;
            assert(items[j + 1] == items.skip(1)[j]);
        }
    }
}

/// An item of the tool filter is known where it names a tool, or a group behind an `@`, or
/// nothing at all.
pub proof fn known_items(item: Seq<char>)
    ensures
        item.len() == 0 ==> item_objection(item) is None,
        item.len() > 0 && item[0] == '@' ==> (item_objection(item) is None <==> known_group(
            item.skip(1),
        )),
        item.len() > 0 && item[0] != '@' ==> (item_objection(item) is None <==> class_of(item)
            is Some),
{
}

/// A tool that an item names, in whatever case and with white space around it, is kept out by a
/// deny filter and let in by an allow filter; a tool that no item names or groups, the other way
/// round.
pub proof fn named_tools_are_filtered(items: Seq<Seq<char>>, tool: Seq<char>, i: int)
    requires
        tool.len() > 0,
        tool[0] != '@',
    ensures
        0 <= i < items.len() && lowered(trimmed(items[i])) == tool ==> !passes(
            ToolFilterMode::Deny,
            items,
            tool,
        ) && passes(ToolFilterMode::Allow, items, tool),
        (forall|k: int|
            0 <= k < items.len() ==> lowered(trimmed(#[trigger] items[k])) != tool && (lowered(
                trimmed(items[k]),
            ).len() == 0 || lowered(trimmed(items[k]))[0] != '@')) ==> passes(
            ToolFilterMode::Deny,
            items,
            tool,
        ) && !passes(ToolFilterMode::Allow, items, tool),
{
    if 0 <= i < items.len() && lowered(trimmed(items[i])) == tool {
        assert(selects(normalized(items[i]), tool));
        assert(selected(items, tool));
    }
}

/// A group in the filter counts for every tool that it selects.
pub proof fn grouped_tools_are_filtered(
    items: Seq<Seq<char>>,
    tool: Seq<char>,
    i: int,
)
    requires
        0 <= i < items.len(),
        selects(lowered(trimmed(items[i])), tool),
    ensures
        !passes(ToolFilterMode::Deny, items, tool),
        passes(ToolFilterMode::Allow, items, tool),
{
    assert(selects(normalized(items[i]), tool));
    assert(selected(items, tool));
}

/// What the environment says of tools: what stands before the first colon is the mode, in any
/// case, and what stands behind it the items; without a colon the whole is items to deny.
pub proof fn environment_names_mode_and_items(mode: Seq<char>, items: Seq<char>)
    requires
        !mode.contains(':'),
    ensures
        ({
            let value = mode.push(':') + items;
            &&& env_items(value) == items
            &&& lowered(mode) == "allow"@ ==> env_mode(value) == Some(ToolFilterMode::Allow)
            &&& lowered(mode) == "deny"@ ==> env_mode(value) == Some(ToolFilterMode::Deny)
            &&& lowered(mode) != "allow"@ && lowered(mode) != "deny"@ ==> env_mode(value) is None
        }),
        env_mode(mode) == Some(ToolFilterMode::Deny),
        env_items(mode) == mode,
{
    let value = mode.push(':') + items;
    first_index_is_first(value, ':');
    first_index_is_first(mode, ':');
    let p = crate::tools::first_index(value, ':');
    let n = mode.len() as int;
    assert(value[n] == ':');
    if p < n {
        assert(mode[p] == ':');
        assert(mode.contains(':'));
    }
    assert(p == n);
    assert(value.take(n) =~= mode);
    assert(value.skip(n + 1) =~= items);
    reveal_strlit("allow");
    reveal_strlit("deny");
    assert("allow"@.len() == 5 && "deny"@.len() == 4);
}

/// The items are what stands between the commas, without white space around it and without the
/// empty ones.
pub proof fn items_are_what_is_left_between_commas(parts: Seq<Seq<char>>, item: Seq<char>)
    ensures
        filled_parts(parts).contains(item) <==> item.len() > 0 && exists|i: int|
            0 <= i < parts.len() && trimmed(#[trigger] parts[i]) == item,
    decreases parts.len(),
{
    if parts.len() > 0 {
        let front = parts.drop_last();
        items_are_what_is_left_between_commas(front, item);
        let rest = filled_parts(front);
        crate::seqs::push_contains(rest, trimmed(parts.last()));
        assert(parts.last() == parts[parts.len() - 1]);
        assert forall|i: int| 0 <= i < front.len() implies front[i] == #[trigger] parts[i] by {}
        if item.len() > 0 && (exists|i: int|
            0 <= i < parts.len() && trimmed(#[trigger] parts[i]) == item) {
            let i = choose|i: int| 0 <= i < parts.len() && trimmed(#[trigger] parts[i]) == item;
            if i < front.len() {
                assert(trimmed(front[i]) == item);
            }
        }
        if exists|i: int| 0 <= i < front.len() && trimmed(#[trigger] front[i]) == item {
            let i = choose|i: int| 0 <= i < front.len() && trimmed(#[trigger] front[i]) == item;
            assert(trimmed(parts[i]) == item);
        }
    }
}

/// A path climbs exactly where one of its parts is `..`.
pub proof fn paths_climb_by_their_parts(parts: Seq<Seq<char>>)
    requires
        parts.len() > 0,
        forall|i: int| 0 <= i < parts.len() ==> !(#[trigger] parts[i]).contains('/'),
    ensures
        climbs(joined_with(parts, '/')) <==> exists|i: int|
            0 <= i < parts.len() && #[trigger] parts[i] == seq!['.', '.'],
{
    joined_parts_are_split_again(parts, '/');
    reveal_strlit("..");
    assert(".."@ =~= seq!['.', '.']);
    let path = joined_with(parts, '/');
    assert(split_at_char(path, '/') == parts);
    if exists|i: int| 0 <= i < parts.len() && #[trigger] parts[i] == seq!['.', '.'] {
        let i = choose|i: int| 0 <= i < parts.len() && #[trigger] parts[i] == seq!['.', '.'];
        assert(split_at_char(path, '/')[i] == ".."@);
    }
}

/// A buffer path is objected to exactly where it climbs, or where it is absolute and no
/// directories are configured.
pub proof fn buffer_paths_are_confined(config: SecurityConfig, path: Seq<char>)
    ensures
        config.path_objection(path) is None <==> !climbs(path) && (config.allowed_buffer_paths
            is Some || path.len() == 0 || path[0] != '/'),
{
}

/// What lies below a directory is under it, and so is the directory; a path that only begins
/// with the same letters is not.
pub proof fn only_what_is_below_is_under(dir: Seq<char>, rest: Seq<char>)
    requires
        dir.len() > 0,
        dir.last() != '/',
    ensures
        is_under(dir, dir),
        is_under(dir + seq!['/'] + rest, dir),
        rest.len() > 0 && rest[0] != '/' ==> !is_under(dir + rest, dir),
{
    assert(without_end_slashes(dir) == dir);
    let below = dir + seq!['/'] + rest;
    assert(below.subrange(0, dir.len() as int + 1) =~= dir + seq!['/']);
    if rest.len() > 0 && rest[0] != '/' {
        let beside = dir + rest;
        assert(beside != dir) by {
            assert(beside.len() > dir.len());
        }
        if has_prefix(beside, dir + seq!['/']) {
            assert(beside.subrange(0, dir.len() as int + 1)[dir.len() as int] == beside[dir.len() as int]);
        }
    }
}

proof fn lemma_split_slash(a: Seq<char>, b: Seq<char>)
    ensures
        split_at_char(a + seq!['/'] + b, '/') == split_at_char(a, '/') + split_at_char(b, '/'),
    decreases b.len(),
{
    let all = a + seq!['/'] + b;
    splitting_loses_nothing(b, '/');
    if b.len() == 0 {
        assert(all.drop_last() =~= a);
        assert(split_at_char(b, '/') =~= seq![Seq::<char>::empty()]);
        assert(split_at_char(a, '/').push(Seq::empty()) =~= split_at_char(a, '/') + split_at_char(
            b,
            '/',
        ));
    } else {
        let front = b.drop_last();
        lemma_split_slash(a, front);
        splitting_loses_nothing(front, '/');
        assert(all.drop_last() =~= a + seq!['/'] + front);
        assert(all.last() == b.last());
        let x = split_at_char(a, '/');
        let y = split_at_char(front, '/');
        if b.last() == '/' {
            assert((x + y).push(Seq::<char>::empty()) =~= x + y.push(Seq::empty()));
        } else {
            assert((x + y).last() == y.last());
            assert((x + y).drop_last() =~= x + y.drop_last());
            assert((x + y.drop_last()).push(y.last().push(b.last())) =~= x + y.drop_last().push(
                y.last().push(b.last()),
            ));
        }
    }
}

proof fn lemma_named_parts(x: Seq<Seq<char>>, y: Seq<Seq<char>>)
    ensures
        crate::paths::named_parts(x + y) == crate::paths::named_parts(x)
            + crate::paths::named_parts(y),
    decreases y.len(),
{
    if y.len() == 0 {
        assert(x + y =~= x);
        assert(crate::paths::named_parts(x) + Seq::<Seq<char>>::empty()
            =~= crate::paths::named_parts(x));
    } else {
        let front = y.drop_last();
        lemma_named_parts(x, front);
        assert((x + y).drop_last() =~= x + front);
        assert((x + y).last() == y.last());
        let p = crate::paths::named_parts(x);
        let q = crate::paths::named_parts(front);
        assert((p + q).push(y.last()) =~= p + q.push(y.last()));
    }
}

/// A path leads through a directory exactly where its parts begin with those of the directory;
/// whatever lies below a directory leads through it.
pub proof fn what_is_below_leads_through(dir: Seq<char>, rest: Seq<char>)
    requires
        dir.len() > 0,
    ensures
        path_parts(dir + seq!['/'] + rest) == path_parts(dir) + path_parts(rest),
        leads_through(dir + seq!['/'] + rest, dir),
        leads_through(dir, dir),
{
    let path = dir + seq!['/'] + rest;
    lemma_split_slash(dir, rest);
    lemma_named_parts(split_at_char(dir, '/'), split_at_char(rest, '/'));
    assert(path[0] == dir[0]);
    let n = path_parts(dir).len() as int;
    assert(path_parts(path).take(n) =~= path_parts(dir));
    assert(path_parts(dir).take(n) =~= path_parts(dir));
}

/// A path whose parts differ from those of a directory, or end before them, does not lead
/// through it.
pub proof fn what_is_elsewhere_does_not_lead_through(path: Seq<char>, dir: Seq<char>, i: int)
    requires
        0 <= i < path_parts(dir).len(),
        i >= path_parts(path).len() || path_parts(path)[i] != path_parts(dir)[i],
    ensures
        !leads_through(path, dir),
{
    if leads_through(path, dir) {
        assert(path_parts(path).take(path_parts(dir).len() as int)[i] == path_parts(path)[i]);
    }
}

/// An absolute path begins with a slash, and never leads through a relative one.
pub proof fn absolute_and_relative_are_kept_apart(path: Seq<char>, dir: Seq<char>)
    ensures
        is_rooted(path) <==> path.len() > 0 && path[0] == '/',
        leads_through(path, dir) ==> (is_rooted(path) <==> is_rooted(dir)),
{
}

/// A check passes where nothing is denied, and else says what is, as a denial of the policy.
pub proof fn denials_are_reported(r: Result<(), Error>, denial: Option<Seq<char>>)
    requires
        decides(r, denial),
    ensures
        r is Ok <==> denial is None,
        r matches Err(e) ==> e@ == ErrorView::PolicyDenied(denial->0),
{
}

/// A denial names what was denied and why.
pub proof fn denials_name_what_was_denied(
    config: SecurityConfig,
    statement: Seq<char>,
    name: Seq<char>,
    other: Seq<char>,
)
    ensures
        config.statement_denial(statement) is Some ==> config.statement_denial(statement)->0 == (
        if config.command_filter.mode == CommandFilterMode::Denylist {
            "command '"@ + statement + "' is in the denylist"@
        } else {
            "command '"@ + statement + "' is not in the allowlist"@
        }),
        config.socket_denial(None) is Some ==> config.socket_denial(None)->0
            == "effective socket is not in allowed sockets list"@,
        config.socket_denial(Some(name)) is Some ==> config.socket_denial(Some(name))->0
            == "socket '"@ + name + "' is not in allowed sockets list"@,
        config.pane_denial(name) is Some ==> config.pane_denial(name)->0 == "pane '"@ + name
            + "' is not in allowed panes list"@,
        config.session_denial(name, None) is Some ==> config.session_denial(name, None)->0
            == "session '"@ + name + "'"@ + " is not in allowed sessions list"@,
        config.session_denial(name, Some(other)) is Some ==> config.session_denial(
            name,
            Some(other),
        )->0 == "session '"@ + name + "' (name '"@ + other + "')"@
            + " is not in allowed sessions list"@,
        config.path_objection(name) is Some && climbs(name) ==> config.path_objection(name)->0
            == "buffer path '"@ + name + "' contains parent directory traversal ('..')"@,
        config.path_objection(name) is Some && !climbs(name) ==> config.path_objection(name)->0
            == "buffer path '"@ + name
            + "' must be relative when no allowed_buffer_paths are configured"@,
        config.tool_denial(name) is Some ==> config.tool_denial(name)->0 == "tool '"@ + name
            + "' is not allowed by security policy"@ || config.tool_denial(name)->0 == "tool '"@
            + name + "' is not allowed by configured tool filter"@,
{
}

/// The names along a path are its parts but the empty ones and the dots.
pub proof fn dots_and_gaps_name_nothing(parts: Seq<Seq<char>>, name: Seq<char>)
    ensures
        named_parts(parts).contains(name) <==> name.len() > 0 && name != "."@ && parts.contains(
            name,
        ),
        (forall|i: int|
            0 <= i < parts.len() ==> (#[trigger] parts[i]).len() > 0 && parts[i] != "."@)
            ==> named_parts(parts) == parts,
    decreases parts.len(),
{
    if parts.len() > 0 {
        let front = parts.drop_last();
        let rest = named_parts(front);
        dots_and_gaps_name_nothing(front, name);
        assert(parts =~= front.push(parts.last()));
        crate::seqs::push_contains(front, parts.last());
        crate::seqs::push_contains(rest, parts.last());
        assert forall|i: int| 0 <= i < front.len() implies front[i] == #[trigger] parts[i] by {}
        assert(parts.last() == parts[parts.len() - 1]);
    } else {
        assert(named_parts(parts) =~= parts);
    }
}

} // verus!
