//! Names and command prefixes used on the tmux side channel.

use crate::shell::{shell_single_quote, single_quoted};
use crate::text::opt_str_view;
use vstd::prelude::*;

verus! {

/// The tmux client command for a socket, as it is typed into a shell.
pub open spec fn tmux_prefix(socket: Option<Seq<char>>) -> Seq<char> {
    match socket {
        Some(path) => "tmux -S "@ + single_quoted(path),
        None => "tmux"@,
    }
}

/// The tmux client command for a socket, as it is typed into a shell.
pub fn shell_tmux_prefix(socket: Option<&str>) -> (r: String)
    ensures
        r@ == tmux_prefix(opt_str_view(socket)),
{
    match socket {
        Some(path) => "tmux -S ".to_owned().concat(shell_single_quote(path).as_str()),
        None => "tmux".to_owned(),
    }
}

/// Paste buffer that carries the exit code of the command with this secret.
pub fn exit_code_buffer_name(secret: &str) -> (r: String)
    ensures
        r@ == "tmux-mcp-ec-"@ + secret@,
{
    "tmux-mcp-ec-".to_owned().concat(secret)
}

/// Channel that is signalled when the command with this secret has ended.
pub fn wait_signal_name(secret: &str) -> (r: String)
    ensures
        r@ == "tmux-mcp-done-"@ + secret@,
{
    "tmux-mcp-done-".to_owned().concat(secret)
}

} // verus!
