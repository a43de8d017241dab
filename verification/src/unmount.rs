//! `unmount` subcommand: soft unmount, then stopping the processes that hold
//! the mount, then a forced unmount, and finally removing `mount.lock`.

use vstd::prelude::*;
use crate::text::{
    chars_of, extend_str, line_ranges, lines, parse_i32_range, parse_i32_spec,
    split_whitespace_range, string_from_chars, words,
};

verus! {

/// The process id in one line of `lsof` output: the second column, when it
/// parses as an `i32`.
pub open spec fn lsof_line_pid(line: Seq<char>) -> Option<i32> {
    let w = words(line);
    if w.len() >= 2 {
        match parse_i32_spec(w[1]) {
            Some(n) => Some(n as i32),
            None => None,
        }
    } else {
        None
    }
}

/// The process ids found in the lines `ls`, in order.
pub open spec fn pids_of_lines(ls: Seq<Seq<char>>) -> Seq<i32>
    decreases ls.len(),
{
    if ls.len() == 0 {
        Seq::empty()
    } else {
        let rest = pids_of_lines(ls.drop_last());
        match lsof_line_pid(ls.last()) {
            Some(p) => rest.push(p),
            None => rest,
        }
    }
}

/// The process ids listed by `lsof` output `out`: every line after the header.
pub open spec fn lsof_pids(out: Seq<char>) -> Seq<i32> {
    let ls = lines(out);
    if ls.len() == 0 { Seq::empty() } else { pids_of_lines(ls.drop_first()) }
}

/// The process ids in `lsof +D <mountpoint>` output (columns: COMMAND PID USER
/// FD TYPE DEVICE SIZE/OFF NODE NAME), skipping the header line.
pub fn pids_from_lsof(output: &str) -> (r: Vec<i32>)
    ensures
        r@ == lsof_pids(output@),
{
    let v = chars_of(output);
    let ranges = line_ranges(&v);
    let mut pids: Vec<i32> = Vec::new();
    if ranges.len() == 0 {
        return pids;
    }
    let ghost ls = lines(v@);
    let mut i: usize = 1;
    while i < ranges.len()
        invariant
            1 <= i <= ranges@.len(),
            ranges@.len() == ls.len(),
            ls == lines(v@),
            forall|k: int|
                0 <= k < ranges@.len() ==> {
                    &&& (#[trigger] ranges@[k]).0 <= ranges@[k].1 <= v@.len()
                    &&& v@.subrange(ranges@[k].0 as int, ranges@[k].1 as int) == ls[k]
                },
            pids@ == pids_of_lines(ls.drop_first().take(i - 1)),
        decreases ranges.len() - i,
    {
        let (a, b) = ranges[i];
        let fields = split_whitespace_range(&v, a, b);
        let ghost line = ls[i as int];
        assert(ls.drop_first().take(i as int).drop_last() =~= ls.drop_first().take(i - 1));
        assert(ls.drop_first().take(i as int).last() == line);
        if fields.len() >= 2 {
            let f = &fields[1];
            assert(f@.subrange(0, f@.len() as int) =~= f@);
            let p = parse_i32_range(f, 0, f.len());
            if let Some(pid) = p {
                pids.push(pid);
            }
        }
        i += 1;
    }
    assert(ls.drop_first().take(ranges@.len() - 1) =~= ls.drop_first());
    pids
}

/// A program to run and its arguments.
pub struct Command {
    pub program: String,
    pub args: Vec<String>,
}

/// A command's program and arguments by their characters.
pub open spec fn command_view(c: Command) -> (Seq<char>, Seq<Seq<char>>) {
    (c.program@, c.args@.map_values(|a: String| a@))
}

fn command(program: &str, flags: &[&str], mountpoint: &str) -> (c: Command)
    ensures
        c.program@ == program@,
        c.args@.map_values(|a: String| a@) == flags@.map_values(|f: &str| f@).push(mountpoint@),
{
    let mut args: Vec<String> = Vec::new();
    let mut i: usize = 0;
    while i < flags.len()
        invariant
            i <= flags@.len(),
            args@.map_values(|a: String| a@) == flags@.take(i as int).map_values(|f: &str| f@),
        decreases flags.len() - i,
    {
        let v = chars_of(flags[i]);
        let ghost before = args@.map_values(|a: String| a@);
        args.push(string_from_chars(&v));
        proof {
            assert(args@.map_values(|a: String| a@) =~= before.push(flags@[i as int]@));
            assert(flags@.take(i + 1).map_values(|f: &str| f@) =~= flags@.take(i as int).map_values(
                |f: &str| f@,
            ).push(flags@[i as int]@));
        }
        i += 1;
    }
    assert(flags@.take(flags@.len() as int) =~= flags@);
    let m = chars_of(mountpoint);
    let ghost before = args@.map_values(|a: String| a@);
    args.push(string_from_chars(&m));
    assert(args@.map_values(|a: String| a@) =~= before.push(mountpoint@));
    let p = chars_of(program);
    Command { program: string_from_chars(&p), args }
}

/// The soft unmount attempts, in order: `fusermount3 -u`, `fusermount -u`, `umount`.
pub fn soft_unmount_commands(mountpoint: &str) -> (r: Vec<Command>)
    ensures
        r@.len() == 3,
        command_view(r@[0]) == ("fusermount3"@, seq!["-u"@, mountpoint@]),
        command_view(r@[1]) == ("fusermount"@, seq!["-u"@, mountpoint@]),
        command_view(r@[2]) == ("umount"@, seq![mountpoint@]),
{
    let mut r: Vec<Command> = Vec::new();
    let a = ["-u"];
    let c = command("fusermount3", &a, mountpoint);
    assert(a@.map_values(|f: &str| f@).push(mountpoint@) =~= seq!["-u"@, mountpoint@]);
    r.push(c);
    let c = command("fusermount", &a, mountpoint);
    r.push(c);
    let e: [&str; 0] = [];
    let c = command("umount", &e, mountpoint);
    assert(e@.map_values(|f: &str| f@).push(mountpoint@) =~= seq![mountpoint@]);
    r.push(c);
    r
}

/// The forced unmount attempts, in order: on macOS `diskutil unmount force`
/// then `umount -f`; elsewhere the lazy `fusermount3 -uz`, `fusermount -uz`,
/// `umount -l`.
pub fn force_unmount_commands(mountpoint: &str, macos: bool) -> (r: Vec<Command>)
    ensures
        macos ==> r@.len() == 2 && command_view(r@[0]) == (
            "diskutil"@,
            seq!["unmount"@, "force"@, mountpoint@],
        ) && command_view(r@[1]) == ("umount"@, seq!["-f"@, mountpoint@]),
        !macos ==> r@.len() == 3 && command_view(r@[0]) == (
            "fusermount3"@,
            seq!["-uz"@, mountpoint@],
        ) && command_view(r@[1]) == ("fusermount"@, seq!["-uz"@, mountpoint@]) && command_view(
            r@[2],
        ) == ("umount"@, seq!["-l"@, mountpoint@]),
{
    let mut r: Vec<Command> = Vec::new();
    if macos {
        let a = ["unmount", "force"];
        let c = command("diskutil", &a, mountpoint);
        assert(a@.map_values(|f: &str| f@).push(mountpoint@) =~= seq![
            "unmount"@,
            "force"@,
            mountpoint@,
        ]);
        r.push(c);
        let b = ["-f"];
        let c = command("umount", &b, mountpoint);
        assert(b@.map_values(|f: &str| f@).push(mountpoint@) =~= seq!["-f"@, mountpoint@]);
        r.push(c);
    } else {
        let a = ["-uz"];
        let c = command("fusermount3", &a, mountpoint);
        assert(a@.map_values(|f: &str| f@).push(mountpoint@) =~= seq!["-uz"@, mountpoint@]);
        r.push(c);
        let c = command("fusermount", &a, mountpoint);
        r.push(c);
        let b = ["-l"];
        let c = command("umount", &b, mountpoint);
        assert(b@.map_values(|f: &str| f@).push(mountpoint@) =~= seq!["-l"@, mountpoint@]);
        r.push(c);
    }
    r
}

/// Steps of the unmount sequence that the caller carries out.
#[derive(Debug, Clone, Copy, PartialEq, Eq, Structural)]
pub enum UnmountWork {
    /// Run the soft unmount commands until one succeeds.
    SoftUnmount,
    /// Note the failure on standard error, send SIGTERM to the processes that
    /// `lsof` lists, stop orphaned FUSE-T daemons, and wait a second.
    KillProcesses,
    /// Run the forced unmount commands until one succeeds.
    ForceUnmount,
}

/// What the caller observed.
#[derive(Debug, Clone, Copy, PartialEq, Eq, Structural)]
pub enum UnmountEvent {
    Start,
    SoftUnmounted(bool),
    ProcessesKilled,
    ForceUnmounted(bool),
}

/// The next step: more work, or the end. On success the line to print is
/// given, and `mount.lock` is to be removed from the store when one was named.
pub enum UnmountNext {
    Work(UnmountWork),
    Finish(Result<String, String>),
}

/// The message when every strategy failed.
pub open spec fn unmount_failed_message(mp: Seq<char>) -> Seq<char> {
    "Failed to unmount "@ + mp + ". Try: sudo diskutil unmount force "@ + mp
}

/// Drive the unmount sequence for `mountpoint` (as displayed).
pub fn run_unmount(mountpoint: &str, event: UnmountEvent) -> (r: UnmountNext)
    ensures
        match event {
            UnmountEvent::Start => r == UnmountNext::Work(UnmountWork::SoftUnmount),
            UnmountEvent::SoftUnmounted(true) => r matches UnmountNext::Finish(Ok(m))
                && m@ == "Unmounted "@ + mountpoint@,
            UnmountEvent::SoftUnmounted(false) => r == UnmountNext::Work(UnmountWork::KillProcesses),
            UnmountEvent::ProcessesKilled => r == UnmountNext::Work(UnmountWork::ForceUnmount),
            UnmountEvent::ForceUnmounted(true) => r matches UnmountNext::Finish(Ok(m))
                && m@ == "Force-unmounted "@ + mountpoint@,
            UnmountEvent::ForceUnmounted(false) => r matches UnmountNext::Finish(Err(m))
                && m@ == unmount_failed_message(mountpoint@),
        },
{
    match event {
        UnmountEvent::Start => UnmountNext::Work(UnmountWork::SoftUnmount),
        UnmountEvent::SoftUnmounted(true) => {
            let mut v = chars_of("Unmounted ");
            extend_str(&mut v, mountpoint);
            UnmountNext::Finish(Ok(string_from_chars(&v)))
        },
        UnmountEvent::SoftUnmounted(false) => UnmountNext::Work(UnmountWork::KillProcesses),
        UnmountEvent::ProcessesKilled => UnmountNext::Work(UnmountWork::ForceUnmount),
        UnmountEvent::ForceUnmounted(true) => {
            let mut v = chars_of("Force-unmounted ");
            extend_str(&mut v, mountpoint);
            UnmountNext::Finish(Ok(string_from_chars(&v)))
        },
        UnmountEvent::ForceUnmounted(false) => {
            let mut v = chars_of("Failed to unmount ");
            extend_str(&mut v, mountpoint);
            extend_str(&mut v, ". Try: sudo diskutil unmount force ");
            extend_str(&mut v, mountpoint);
            UnmountNext::Finish(Err(string_from_chars(&v)))
        },
    }
}

} // verus!
