//! How a failed subcommand is reported: the error line and the exit code.

use vstd::prelude::*;
use crate::cli::{Cmd, CmdView};
use crate::text::{chars_of, extend_str, string_from_chars};

verus! {

/// The name under which a subcommand reports its errors.
pub open spec fn command_name_spec(c: CmdView) -> Seq<char> {
    match c {
        CmdView::Mount { .. } => "mount"@,
        CmdView::Unmount { .. } => "unmount"@,
        CmdView::Seed { .. } => "seed"@,
        CmdView::Gc { .. } => "gc"@,
        CmdView::Snapshot { .. } => "snapshot"@,
        CmdView::Stats { .. } => "stats"@,
        CmdView::Scrub { .. } => "scrub"@,
        CmdView::Reindex { .. } => "reindex"@,
        CmdView::DedupRecover { .. } => "dedup-recover"@,
    }
}

/// The name under which `cmd` reports its errors.
pub fn command_name(cmd: &Cmd) -> (r: &'static str)
    ensures
        r@ == command_name_spec(cmd@),
{
    proof {
        reveal_strlit("mount");
        reveal_strlit("unmount");
        reveal_strlit("seed");
        reveal_strlit("gc");
        reveal_strlit("snapshot");
        reveal_strlit("stats");
        reveal_strlit("scrub");
        reveal_strlit("reindex");
        reveal_strlit("dedup-recover");
    }
    match cmd {
        Cmd::Mount { .. } => "mount",
        Cmd::Unmount { .. } => "unmount",
        Cmd::Seed { .. } => "seed",
        Cmd::Gc { .. } => "gc",
        Cmd::Snapshot { .. } => "snapshot",
        Cmd::Stats { .. } => "stats",
        Cmd::Scrub { .. } => "scrub",
        Cmd::Reindex { .. } => "reindex",
        Cmd::DedupRecover { .. } => "dedup-recover",
    }
}

/// The line written to standard error for a failed subcommand: a JSON object
/// with the message as it is when `json` is set, else a prefixed message.
pub fn error_line(command: &str, json: bool, message: &str) -> (r: String)
    ensures
        json ==> r@ == "{\"error\": \""@ + message@ + "\"}"@,
        !json ==> r@ == "slicefs "@ + command@ + " error: "@ + message@,
{
    if json {
        let mut v = chars_of("{\"error\": \"");
        extend_str(&mut v, message);
        extend_str(&mut v, "\"}");
        string_from_chars(&v)
    } else {
        let mut v = chars_of("slicefs ");
        extend_str(&mut v, command);
        extend_str(&mut v, " error: ");
        extend_str(&mut v, message);
        string_from_chars(&v)
    }
}

/// The exit code of a failed subcommand: 2 for the usage error of an online
/// reindex, else 1.
pub fn exit_code(cmd: &Cmd) -> (r: i32)
    ensures
        r == (if cmd@ matches CmdView::Reindex { offline, .. } && !offline { 2i32 } else { 1i32 }),
{
    match cmd {
        Cmd::Reindex { offline, .. } => if !*offline { 2 } else { 1 },
        _ => 1,
    }
}

} // verus!
