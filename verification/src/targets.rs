//! SSH aliases are the target identities.
//!
//! A target is the alias of the machine that a piece of work is bound to; work that is bound
//! to none runs against the local tmux server.

use crate::errors::{Error, ErrorView};
use crate::keyed::Keyed;
use crate::text::{
    alphanumeric, debug_form, from_range, has_prefix, is_alphanumeric, matches_at, opt_str_view,
    quoted_debug, to_chars,
};
use vstd::prelude::*;
use vstd::utf8::encode_utf8;

verus! {

/// One configured target.
#[derive(Debug, Clone, PartialEq, Eq)]
pub struct TargetConfig {
    /// Free-form remark about the target.
    pub note: String,
}

/// A target with its texts as sequences of characters.
#[verifier::ext_equal]
pub struct TargetView {
    pub note: Seq<char>,
}

impl View for TargetConfig {
    type V = TargetView;

    open spec fn view(&self) -> TargetView {
        TargetView { note: self.note@ }
    }
}

/// The configured targets, each alias once.
#[derive(Debug, Clone)]
pub struct TargetsFile {
    pub targets: Keyed<TargetConfig>,
}

/// `content` without the byte order marks at its beginning.
pub open spec fn unmarked(content: Seq<char>) -> Seq<char>
    decreases content.len(),
{
    if content.len() > 0 && content[0] == '\u{feff}' {
        unmarked(content.skip(1))
    } else {
        content
    }
}

/// The content of a file without the byte order marks at its beginning.
pub fn without_byte_order_marks(content: &str) -> (r: String)
    ensures
        r@ == unmarked(content@),
        exists|k: int|
            {
                &&& 0 <= k <= content@.len()
                &&& forall|i: int| 0 <= i < k ==> content@[i] == '\u{feff}'
                &&& r@ == #[trigger] content@.skip(k)
                &&& r@.len() > 0 ==> r@[0] != '\u{feff}'
            },
{
    let chars = to_chars(content);
    let mut k: usize = 0;
    assert(content@.skip(0) =~= content@);
    while k < chars.len() && chars[k] == '\u{feff}'
        invariant
            k <= chars@.len(),
            chars@ == content@,
            forall|i: int| 0 <= i < k ==> content@[i] == '\u{feff}',
            unmarked(content@) == unmarked(content@.skip(k as int)),
        decreases chars@.len() - k,
    {
        assert(content@.skip(k as int).skip(1) =~= content@.skip(k as int + 1));
        k += 1;
    }
    let r = from_range(&chars, k, chars.len());
    assert(r@ =~= content@.skip(k as int));
    r
}

/// A byte order mark before a file makes no difference.
pub proof fn byte_order_mark_makes_no_difference(content: Seq<char>)
    ensures
        unmarked(seq!['\u{feff}'] + content) == unmarked(content),
{
    let marked = seq!['\u{feff}'] + content;
    assert(marked.skip(1) =~= content);
}

/// Scheme that every resource URI starts with.
pub open spec fn scheme() -> Seq<char> {
    "tmux://"@
}

/// Resource kinds that belong to one target's tmux server.
pub open spec fn is_target_resource(rest: Seq<char>) -> bool {
    ||| has_prefix(rest, "command/"@)
    ||| has_prefix(rest, "pane/"@)
    ||| has_prefix(rest, "window/"@)
    ||| has_prefix(rest, "session/"@)
    ||| has_prefix(rest, "server/"@)
}

/// `uri` as seen under `target`: a target's resource carries the alias after the scheme,
/// anything else is left alone.
pub open spec fn scoped_uri(target: Seq<char>, uri: Seq<char>) -> Seq<char> {
    if has_prefix(uri, scheme()) && is_target_resource(uri.skip(scheme().len() as int)) {
        scheme() + target + "/"@ + uri.skip(scheme().len() as int)
    } else {
        uri
    }
}

/// `uri` under the target that is bound, if any.
pub open spec fn current_uri(target: Option<Seq<char>>, uri: Seq<char>) -> Seq<char> {
    match target {
        Some(t) => scoped_uri(t, uri),
        None => uri,
    }
}

/// The resource URI of `uri` under `target`.
pub fn uri_for(target: &str, uri: &str) -> (r: String)
    ensures
        r@ == scoped_uri(target@, uri@),
{
    let chars = to_chars(uri);
    let prefix = to_chars("tmux://");
    if !matches_at(&chars, &prefix, 0) {
        return uri.to_owned();
    }
    let n: usize = prefix.len();
    let rest = from_range(&chars, n, chars.len());
    assert(rest@ =~= uri@.skip(n as int));
    let rest_chars = to_chars(rest.as_str());
    if matches_at(&rest_chars, &to_chars("command/"), 0) || matches_at(
        &rest_chars,
        &to_chars("pane/"),
        0,
    ) || matches_at(&rest_chars, &to_chars("window/"), 0) || matches_at(
        &rest_chars,
        &to_chars("session/"),
        0,
    ) || matches_at(&rest_chars, &to_chars("server/"), 0) {
        "tmux://".to_owned().concat(target).concat("/").concat(rest.as_str())
    } else {
        uri.to_owned()
    }
}

/// The resource URI of `uri` under the target that is bound, if any.
pub fn uri(target: Option<&str>, resource: &str) -> (r: String)
    ensures
        r@ == current_uri(opt_str_view(target), resource@),
{
    match target {
        Some(t) => uri_for(t, resource),
        None => resource.to_owned(),
    }
}

/// Characters that an alias may hold.
pub open spec fn is_alias_char(c: char) -> bool {
    is_alphanumeric(c) || c == '-' || c == '_' || c == '.'
}

/// An alias is 1 to 128 letters, digits, `-`, `_` or `.`, and starts with neither `-` nor `.`.
pub open spec fn valid_alias(name: Seq<char>) -> bool {
    &&& 1 <= encode_utf8(name).len() <= 128
    &&& forall|i: int| 0 <= i < name.len() ==> is_alias_char(#[trigger] name[i])
    &&& name[0] != '-'
    &&& name[0] != '.'
}

/// Whether `name` can be the alias of a target.
pub fn alias_is_valid(name: &str) -> (r: bool)
    ensures
        r == valid_alias(name@),
{
    let bytes = name.as_bytes().len();
    if bytes == 0 || bytes > 128 {
        return false;
    }
    let chars = to_chars(name);
    let mut i: usize = 0;
    while i < chars.len()
        invariant
            i <= chars.len(),
            chars@ == name@,
            forall|j: int| 0 <= j < i ==> is_alias_char(#[trigger] name@[j]),
        decreases chars.len() - i,
    {
        let c = chars[i];
        if !(alphanumeric(c) || c == '-' || c == '_' || c == '.') {
            assert(!is_alias_char(name@[i as int]));
            return false;
        }
        i += 1;
    }
    proof {
        if chars@.len() == 0 {
            assert(encode_utf8(name@).len() == 0);
        }
    }
    chars[0] != '-' && chars[0] != '.'
}

impl TargetsFile {
    /// Every alias stands once.
    pub open spec fn wf(&self) -> bool {
        self.targets.wf()
    }

    /// Position of the first alias that is not valid, if there is one.
    pub open spec fn first_invalid(aliases: Seq<Seq<char>>, i: int) -> bool {
        &&& 0 <= i < aliases.len()
        &&& !valid_alias(aliases[i])
        &&& forall|j: int| 0 <= j < i ==> valid_alias(#[trigger] aliases[j])
    }

    /// Accept the configured targets: at least one, each under a valid alias.
    pub fn checked(self) -> (r: std::result::Result<TargetsFile, Error>)
        requires
            self.wf(),
        ensures
            match r {
                Ok(file) => {
                    &&& file == self
                    &&& file.targets.keys().no_duplicates()
                    &&& self.targets.keys().len() > 0
                    &&& forall|i: int|
                        0 <= i < self.targets.keys().len() ==> valid_alias(
                            #[trigger] self.targets.keys()[i],
                        )
                    &&& forall|alias: Seq<char>| #[trigger]
                        self.targets@.dom().contains(alias) ==> valid_alias(alias)
                },
                Err(e) => {
                    ||| self.targets.keys().len() == 0 && e@ == ErrorView::Config(
                        "targets file must contain at least one target"@,
                    )
                    ||| exists|i: int| #[trigger]
                        Self::first_invalid(self.targets.keys(), i) && e@ == ErrorView::Config(
                            "invalid target name: "@ + debug_form(self.targets.keys()[i]),
                        )
                },
            },
    {
        if self.targets.len() == 0 {
            return Err(
                Error::Config {
                    message: "targets file must contain at least one target".to_owned(),
                },
            );
        }
        let mut i: usize = 0;
        while i < self.targets.len()
            invariant
                i <= self.targets.keys().len(),
                self.wf(),
                forall|j: int| 0 <= j < i ==> valid_alias(#[trigger] self.targets.keys()[j]),
            decreases self.targets.keys().len() - i,
        {
            let name = self.targets.key(i);
            if !alias_is_valid(name) {
                let quoted = quoted_debug(name);
                let message = "invalid target name: ".to_owned().concat(quoted.as_str());
                assert(Self::first_invalid(self.targets.keys(), i as int));
                return Err(Error::Config { message });
            }
            i += 1;
        }
        proof {
            self.targets.lemma_keys();
        }
        Ok(self)
    }
}

/// A target's resource is named under its alias, and the alias follows the scheme.
pub proof fn resources_carry_their_target(target: Seq<char>, rest: Seq<char>)
    requires
        is_target_resource(rest),
    ensures
        scoped_uri(target, scheme() + rest) == scheme() + target + "/"@ + rest,
{
    let uri = scheme() + rest;
    assert(uri.subrange(0, scheme().len() as int) =~= scheme());
    assert(uri.skip(scheme().len() as int) =~= rest);
}

/// The words that begin the name of a target's resource.
pub open spec fn is_resource_kind(name: Seq<char>) -> bool {
    name == "command"@ || name == "pane"@ || name == "window"@ || name == "session"@ || name
        == "server"@
}

/// A text without a slash that begins with a kind and a slash, once a slash and more follow it,
/// is that kind.
proof fn lemma_kind(target: Seq<char>, rest: Seq<char>, kind: Seq<char>)
    requires
        !target.contains('/'),
        !kind.contains('/'),
        has_prefix(target + seq!['/'] + rest, kind + seq!['/']),
    ensures
        target == kind,
{
    let all = target + seq!['/'] + rest;
    let start = kind + seq!['/'];
    let part = all.subrange(0, start.len() as int);
    assert(part[kind.len() as int] == '/');
    assert(all[kind.len() as int] == '/');
    if kind.len() < target.len() {
        assert(target[kind.len() as int] == '/');
    } else if target.len() < kind.len() {
        assert(all[target.len() as int] == '/');
        assert(part[target.len() as int] == kind[target.len() as int]);
    }
    assert forall|i: int| 0 <= i < kind.len() implies target[i] == kind[i] by {
        assert(part[i] == all[i]);
    }
    assert(target =~= kind);
}

/// A resource is named under a target at most once: whatever is named under a valid alias stays
/// as it is under any other. An alias that is itself the word for a kind of resource is left out.
pub proof fn resources_are_scoped_once(target: Seq<char>, other: Seq<char>, uri: Seq<char>)
    requires
        valid_alias(target),
        !is_resource_kind(target),
        scoped_uri(target, uri) != uri,
    ensures
        scoped_uri(other, scoped_uri(target, uri)) == scoped_uri(target, uri),
{
    let scheme = scheme();
    let rest = uri.skip(scheme.len() as int);
    let scoped = scoped_uri(target, uri);
    reveal_strlit("/");
    assert("/"@ =~= seq!['/']);
    assert(!target.contains('/'));
    let inner = scoped.skip(scheme.len() as int);
    assert(inner =~= target + seq!['/'] + rest);
    reveal_strlit("command");
    reveal_strlit("pane");
    reveal_strlit("window");
    reveal_strlit("session");
    reveal_strlit("server");
    reveal_strlit("command/");
    reveal_strlit("pane/");
    reveal_strlit("window/");
    reveal_strlit("session/");
    reveal_strlit("server/");
    assert("command/"@ =~= "command"@ + seq!['/']);
    assert("pane/"@ =~= "pane"@ + seq!['/']);
    assert("window/"@ =~= "window"@ + seq!['/']);
    assert("session/"@ =~= "session"@ + seq!['/']);
    assert("server/"@ =~= "server"@ + seq!['/']);
    if has_prefix(inner, "command/"@) {
        lemma_kind(target, rest, "command"@);
    }
    if has_prefix(inner, "pane/"@) {
        lemma_kind(target, rest, "pane"@);
    }
    if has_prefix(inner, "window/"@) {
        lemma_kind(target, rest, "window"@);
    }
    if has_prefix(inner, "session/"@) {
        lemma_kind(target, rest, "session"@);
    }
    if has_prefix(inner, "server/"@) {
        lemma_kind(target, rest, "server"@);
    }
}

} // verus!
