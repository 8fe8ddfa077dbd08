//! How a harness is launched: the argv that confines it (bubblewrap on
//! Linux, Seatbelt on macOS), the rest of its process plan, and what runs of
//! `git` come to.
use vstd::prelude::*;

use crate::daemon::error::Error;
use crate::daemon::session_log::{lossy_text, utf8_lossy};
use crate::error::push_str;
use crate::sandbox::WorkingCopy;
use crate::text::{chars_of, string_from, string_of, trim, trim_spec};
use crate::types::{Command, join, join_spec, strings_view};

verus! {

// ---------------------------------------------------------------------------
// bubblewrap
// ---------------------------------------------------------------------------

/// What the host says of a system directory to expose read-only: absent, a
/// symbolic link (with its target, when the link reads), or present.
pub enum HostPath {
    Absent,
    Link(Option<String>),
    Present,
}

/// The arguments exposing one system directory: a present one is bound
/// read-only; a link is recreated as a link (usr-merged layouts); an absent
/// one, or a link that does not read, adds nothing.
pub open spec fn ro_bind_spec(dir: Seq<char>, p: HostPath) -> Seq<Seq<char>> {
    match p {
        HostPath::Present => seq!["--ro-bind"@, dir, dir],
        HostPath::Link(Some(t)) => seq!["--symlink"@, t@, dir],
        _ => Seq::empty(),
    }
}

/// The arguments exposing each system directory, in order.
pub open spec fn binds_spec(sys: Seq<(String, HostPath)>) -> Seq<Seq<char>>
    decreases sys.len(),
{
    if sys.len() == 0 {
        Seq::empty()
    } else {
        binds_spec(sys.drop_last()) + ro_bind_spec(sys.last().0@, sys.last().1)
    }
}

/// The namespaces and private mounts every bubblewrap sandbox gets.
pub open spec fn bwrap_head() -> Seq<Seq<char>> {
    seq![
        "bwrap"@,
        "--unshare-user-try"@,
        "--unshare-pid"@,
        "--unshare-ipc"@,
        "--unshare-uts"@,
        "--die-with-parent"@,
        "--new-session"@,
        "--proc"@,
        "/proc"@,
        "--dev"@,
        "/dev"@,
        "--tmpfs"@,
        "/tmp"@,
    ]
}

/// The bwrap argv before the harness command: user/pid/ipc/uts namespaces,
/// a read-only system, a private `/tmp`, `$HOME` (when it is a directory)
/// and the working copy writable, the working copy as the directory, and
/// `--` so the command follows verbatim. The network stays enabled.
pub open spec fn bwrap_prefix_spec(
    workspace: Seq<char>,
    home: Option<Seq<char>>,
    sys: Seq<(String, HostPath)>,
) -> Seq<Seq<char>> {
    bwrap_head() + binds_spec(sys) + match home {
        Some(h) => seq!["--bind"@, h, h],
        None => Seq::empty(),
    } + seq!["--bind"@, workspace, workspace, "--chdir"@, workspace, "--"@]
}

/// The working copy is writable and is where the harness starts: whatever
/// the system directories and `$HOME`, the bwrap argv ends by binding the
/// working copy read-write onto itself (after every other mount, so it
/// wins over any read-only one), changing into it, and `--`.
pub proof fn law_bwrap_binds_working_copy(
    workspace: Seq<char>,
    home: Option<Seq<char>>,
    sys: Seq<(String, HostPath)>,
)
    ensures
        ({
            let a = bwrap_prefix_spec(workspace, home, sys);
            &&& a.len() >= 6
            &&& a[a.len() - 6] == "--bind"@
            &&& a[a.len() - 5] == workspace
            &&& a[a.len() - 4] == workspace
            &&& a[a.len() - 3] == "--chdir"@
            &&& a[a.len() - 2] == workspace
            &&& a[a.len() - 1] == "--"@
            &&& a[0] == "bwrap"@
        }),
{
}

/// The arguments for the first `n` system directories lead those for all
/// of them.
proof fn lemma_binds_prefix(sys: Seq<(String, HostPath)>, n: int)
    requires
        0 <= n <= sys.len(),
    ensures
        binds_spec(sys.take(n)).len() <= binds_spec(sys).len(),
        binds_spec(sys).take(binds_spec(sys.take(n)).len() as int) == binds_spec(sys.take(n)),
    decreases sys.len() - n,
{
    if n == sys.len() {
        assert(sys.take(n) =~= sys);
        assert(binds_spec(sys).take(binds_spec(sys).len() as int) =~= binds_spec(sys));
    } else {
        lemma_binds_prefix(sys, n + 1);
        let t = sys.take(n + 1);
        assert(t.drop_last() =~= sys.take(n));
        let a = binds_spec(sys.take(n));
        let b = binds_spec(t);
        assert(b == a + ro_bind_spec(t.last().0@, t.last().1));
        assert(binds_spec(sys).take(a.len() as int) =~= b.take(a.len() as int));
        assert(b.take(a.len() as int) =~= a);
    }
}

/// `t` occurs in `a` as consecutive arguments.
pub open spec fn contains_run(a: Seq<Seq<char>>, t: Seq<Seq<char>>) -> bool {
    exists|p: int| 0 <= p && p + t.len() <= a.len() && #[trigger] a.subrange(p, p + t.len()) == t
}

/// The system is read-only, `$HOME` writable: every system directory the
/// host has is bound read-only onto itself (a link is recreated as the
/// same link), and a `$HOME` is bound read-write just before the working
/// copy.
pub proof fn law_bwrap_system_read_only(
    workspace: Seq<char>,
    home: Option<Seq<char>>,
    sys: Seq<(String, HostPath)>,
)
    ensures
        forall|k: int|
            0 <= k < sys.len() && #[trigger] sys[k].1 is Present ==> contains_run(
                bwrap_prefix_spec(workspace, home, sys),
                seq!["--ro-bind"@, sys[k].0@, sys[k].0@],
            ),
        forall|k: int|
            0 <= k < sys.len() ==> (#[trigger] sys[k].1 matches HostPath::Link(Some(t)) ==> contains_run(
                bwrap_prefix_spec(workspace, home, sys),
                seq!["--symlink"@, t@, sys[k].0@],
            )),
        home matches Some(h) ==> ({
            let a = bwrap_prefix_spec(workspace, home, sys);
            a.len() >= 9 && a.subrange(a.len() - 9, a.len() - 6) == seq!["--bind"@, h, h]
        }),
{
    let a = bwrap_prefix_spec(workspace, home, sys);
    let hd = bwrap_head();
    assert forall|k: int| 0 <= k < sys.len() implies #[trigger] contains_run(a, ro_bind_spec(sys[k].0@, sys[k].1)) by {
        lemma_binds_prefix(sys, k + 1);
        let t = sys.take(k + 1);
        assert(t.drop_last() =~= sys.take(k));
        assert(t.last() == sys[k]);
        let pre = binds_spec(sys.take(k));
        let r = ro_bind_spec(sys[k].0@, sys[k].1);
        assert(binds_spec(t) == pre + r);
        let all = binds_spec(sys);
        let p: int = (hd.len() + pre.len()) as int;
        assert(all.take((pre + r).len() as int) == pre + r);
        assert forall|x: int| 0 <= x < r.len() implies a[p + x] == r[x] by {
            assert(a[p + x] == all[pre.len() + x]);
            assert(all[pre.len() + x] == all.take((pre + r).len() as int)[pre.len() + x]);
            assert((pre + r)[pre.len() + x] == r[x]);
        }
        assert(a.subrange(p, p + r.len() as int) =~= r);
    }
    assert forall|k: int| 0 <= k < sys.len() && #[trigger] sys[k].1 is Present implies contains_run(
        a,
        seq!["--ro-bind"@, sys[k].0@, sys[k].0@],
    ) by {
        assert(contains_run(a, ro_bind_spec(sys[k].0@, sys[k].1)));
    }
    assert forall|k: int| 0 <= k < sys.len() implies (#[trigger] sys[k].1 matches HostPath::Link(
        Some(t),
    ) ==> contains_run(a, seq!["--symlink"@, t@, sys[k].0@])) by {
        assert(contains_run(a, ro_bind_spec(sys[k].0@, sys[k].1)));
    }
    if home is Some {
        let h = home->0;
        assert(a.subrange(a.len() - 9, a.len() - 6) =~= seq!["--bind"@, h, h]);
    }
}

/// The system directories exposed read-only.
pub fn system_dirs() -> (r: Vec<String>)
    ensures
        strings_view(r@) == seq![
            "/usr"@,
            "/etc"@,
            "/opt"@,
            "/nix"@,
            "/bin"@,
            "/sbin"@,
            "/lib"@,
            "/lib64"@,
        ],
{
    let v = vec![
        string_from("/usr"),
        string_from("/etc"),
        string_from("/opt"),
        string_from("/nix"),
        string_from("/bin"),
        string_from("/sbin"),
        string_from("/lib"),
        string_from("/lib64"),
    ];
    assert(strings_view(v@) =~= seq![
        "/usr"@,
        "/etc"@,
        "/opt"@,
        "/nix"@,
        "/bin"@,
        "/sbin"@,
        "/lib"@,
        "/lib64"@,
    ]);
    v
}

fn push_text(v: &mut Vec<String>, s: &str)
    ensures
        strings_view(final(v)@) == strings_view(old(v)@).push(s@),
{
    v.push(string_from(s));
    assert(strings_view(v@) =~= strings_view(old(v)@).push(s@));
}

/// The bwrap argv that sets up the sandbox, ending in `--`.
pub fn bwrap_prefix(workspace: &str, home: &Option<String>, sys: &Vec<(String, HostPath)>) -> (r: Vec<String>)
    ensures
        strings_view(r@) == bwrap_prefix_spec(workspace@, crate::daemon::session_log::opt_text(*home), sys@),
{
    let mut v: Vec<String> = Vec::new();
    push_text(&mut v, "bwrap");
    push_text(&mut v, "--unshare-user-try");
    push_text(&mut v, "--unshare-pid");
    push_text(&mut v, "--unshare-ipc");
    push_text(&mut v, "--unshare-uts");
    push_text(&mut v, "--die-with-parent");
    push_text(&mut v, "--new-session");
    push_text(&mut v, "--proc");
    push_text(&mut v, "/proc");
    push_text(&mut v, "--dev");
    push_text(&mut v, "/dev");
    push_text(&mut v, "--tmpfs");
    push_text(&mut v, "/tmp");
    assert(strings_view(v@) =~= bwrap_head());
    let mut i: usize = 0;
    assert(sys@.take(0) =~= Seq::<(String, HostPath)>::empty());
    while i < sys.len()
        invariant
            i <= sys.len(),
            strings_view(v@) == bwrap_head() + binds_spec(sys@.take(i as int)),
        decreases sys.len() - i,
    {
        let ghost before = strings_view(v@);
        let dir = sys[i].0.as_str();
        match &sys[i].1 {
            HostPath::Present => {
                push_text(&mut v, "--ro-bind");
                push_text(&mut v, dir);
                push_text(&mut v, dir);
            },
            HostPath::Link(Some(t)) => {
                push_text(&mut v, "--symlink");
                push_text(&mut v, t.as_str());
                push_text(&mut v, dir);
            },
            _ => {},
        }
        proof {
            assert(sys@.take(i + 1).drop_last() =~= sys@.take(i as int));
            assert(sys@.take(i + 1).last() == sys@[i as int]);
            assert(strings_view(v@) =~= before + ro_bind_spec(sys@[i as int].0@, sys@[i as int].1));
        }
        i = i + 1;
    }
    assert(sys@.take(sys.len() as int) =~= sys@);
    let ghost mid = strings_view(v@);
    match home {
        Some(h) => {
            push_text(&mut v, "--bind");
            push_text(&mut v, h.as_str());
            push_text(&mut v, h.as_str());
        },
        None => {},
    }
    let ghost mid2 = strings_view(v@);
    push_text(&mut v, "--bind");
    push_text(&mut v, workspace);
    push_text(&mut v, workspace);
    push_text(&mut v, "--chdir");
    push_text(&mut v, workspace);
    push_text(&mut v, "--");
    proof {
        let hs = match crate::daemon::session_log::opt_text(*home) {
            Some(h) => seq!["--bind"@, h, h],
            None => Seq::<Seq<char>>::empty(),
        };
        assert(mid2 =~= mid + hs);
        assert(strings_view(v@) =~= bwrap_prefix_spec(workspace@, crate::daemon::session_log::opt_text(*home), sys@));
    }
    v
}

/// A confining prefix followed by the harness command, verbatim.
pub fn prefixed_argv(prefix: Vec<String>, argv: &[String]) -> (r: Vec<String>)
    ensures
        r@ == prefix@ + argv@,
{
    let mut v = prefix;
    let ghost p = v@;
    let mut i: usize = 0;
    while i < argv.len()
        invariant
            i <= argv.len(),
            v@ == p + argv@.take(i as int),
        decreases argv.len() - i,
    {
        v.push(argv[i].clone());
        i = i + 1;
        assert(v@ =~= p + argv@.take(i as int));
    }
    assert(argv@.take(argv.len() as int) =~= argv@);
    v
}

// ---------------------------------------------------------------------------
// Seatbelt
// ---------------------------------------------------------------------------

/// The Seatbelt profile: allow everything, deny file writes, then allow
/// writes again to the working copy, `$HOME`, `$TMPDIR` and `/dev`.
pub fn seatbelt_profile() -> (r: &'static str)
    ensures
        r@ == seatbelt_profile_text(),
{
    "(version 1)\n(allow default)\n(deny file-write*)\n(allow file-write* (subpath (param \"WORKING_COPY\")))\n(allow file-write* (subpath (param \"HOME\")))\n(allow file-write* (subpath (param \"TMPDIR\")))\n(allow file-write* (subpath \"/dev\"))\n"
}

pub open spec fn seatbelt_profile_text() -> Seq<char> {
    "(version 1)\n(allow default)\n(deny file-write*)\n(allow file-write* (subpath (param \"WORKING_COPY\")))\n(allow file-write* (subpath (param \"HOME\")))\n(allow file-write* (subpath (param \"TMPDIR\")))\n(allow file-write* (subpath \"/dev\"))\n"@
}

/// The `sandbox-exec` argv before the harness command: the writable paths
/// as `-D` parameters (as the host resolves them), then `-p` and the
/// profile.
pub open spec fn seatbelt_prefix_spec(working_copy: Seq<char>, home: Seq<char>, tmpdir: Seq<char>) -> Seq<Seq<char>> {
    seq![
        "sandbox-exec"@,
        "-DWORKING_COPY="@ + working_copy,
        "-DHOME="@ + home,
        "-DTMPDIR="@ + tmpdir,
        "-p"@,
        seatbelt_profile_text(),
    ]
}

fn param(key: &str, val: &str) -> (r: String)
    ensures
        r@ == key@ + val@,
{
    let mut s = string_from(key);
    push_str(&mut s, val);
    s
}

pub fn seatbelt_prefix(working_copy: &str, home: &str, tmpdir: &str) -> (r: Vec<String>)
    ensures
        strings_view(r@) == seatbelt_prefix_spec(working_copy@, home@, tmpdir@),
{
    let mut v: Vec<String> = Vec::new();
    push_text(&mut v, "sandbox-exec");
    let a = param("-DWORKING_COPY=", working_copy);
    push_text(&mut v, a.as_str());
    let b = param("-DHOME=", home);
    push_text(&mut v, b.as_str());
    let c = param("-DTMPDIR=", tmpdir);
    push_text(&mut v, c.as_str());
    push_text(&mut v, "-p");
    push_text(&mut v, seatbelt_profile());
    assert(strings_view(v@) =~= seatbelt_prefix_spec(working_copy@, home@, tmpdir@));
    v
}

// ---------------------------------------------------------------------------
// The process plan
// ---------------------------------------------------------------------------

/// How the harness is confined: not at all, or behind a prefix; bubblewrap
/// makes its own session inside the namespace, so the outer spawn must not
/// claim the terminal.
pub enum Confinement {
    Open,
    Bubblewrap(Vec<String>),
    Seatbelt(Vec<String>),
}

/// Everything a spawn needs: the argv, the directory, the environment, and
/// whether the terminal becomes the controlling one.
pub struct ProcessPlan {
    pub argv: Vec<String>,
    pub cwd: String,
    pub env: Vec<(String, String)>,
    pub controlling_tty: bool,
}

/// The plan for running `command` in `workspace`: the confinement's prefix
/// then the command verbatim, in the working copy, with `TERM` set.
pub fn process_plan(command: &Command, workspace: &WorkingCopy, confinement: Confinement) -> (r: ProcessPlan)
    ensures
        match confinement {
            Confinement::Open => r.argv@ == command.0@ && r.controlling_tty,
            Confinement::Bubblewrap(p) => r.argv@ == p@ + command.0@ && !r.controlling_tty,
            Confinement::Seatbelt(p) => r.argv@ == p@ + command.0@ && r.controlling_tty,
        },
        r.cwd@ == workspace.path@,
        r.env@.len() == 1,
        r.env@[0].0@ == "TERM"@,
        r.env@[0].1@ == "xterm-256color"@,
{
    let (prefix, tty) = match confinement {
        Confinement::Open => (Vec::new(), true),
        Confinement::Bubblewrap(p) => (p, false),
        Confinement::Seatbelt(p) => (p, true),
    };
    let ghost pv = prefix@;
    let argv = prefixed_argv(prefix, command.as_args());
    proof {
        if pv.len() == 0 {
            assert(argv@ =~= command.0@);
        }
    }
    let mut env: Vec<(String, String)> = Vec::new();
    env.push((string_from("TERM"), string_from("xterm-256color")));
    ProcessPlan { argv, cwd: workspace.path.clone(), env, controlling_tty: tty }
}

/// The harness could not be spawned.
pub fn spawn_error(why: &str) -> (r: Error)
    ensures
        r matches Error::Spawn(m) && m@ == "failed to spawn the harness (is it installed?): "@ + why@,
{
    let mut m = string_from("failed to spawn the harness (is it installed?): ");
    push_str(&mut m, why);
    Error::Spawn(m)
}

// ---------------------------------------------------------------------------
// git
// ---------------------------------------------------------------------------

/// A `git` command that must succeed (`run`: it could not run, and why, or
/// its success flag and stderr bytes): a failure to run, or a failing exit
/// (with its trimmed stderr), is a `Git` error naming the command.
pub fn git_outcome(args: &Vec<String>, run: Result<(bool, Vec<u8>), String>) -> (r: Result<(), Error>)
    ensures
        match run {
            Err(why) => r matches Err(Error::Git(m)) && m@ == "failed to run `git "@
                + join_spec(strings_view(args@), " "@) + "`: "@ + why@,
            Ok((true, _)) => r is Ok,
            Ok((false, stderr)) => r matches Err(Error::Git(m)) && m@ == "`git "@ + join_spec(
                strings_view(args@),
                " "@,
            ) + "` failed: "@ + trim_spec(utf8_lossy(stderr@)),
        },
{
    let joined = join(args, " ");
    match run {
        Err(why) => {
            let mut m = string_from("failed to run `git ");
            push_str(&mut m, joined.as_str());
            push_str(&mut m, "`: ");
            push_str(&mut m, why.as_str());
            Err(Error::Git(m))
        },
        Ok((ok, stderr)) => {
            if ok {
                Ok(())
            } else {
                let text = lossy_text(stderr.as_slice());
                let cs = chars_of(text.as_str());
                let t = string_of(&trim(&cs));
                let mut m = string_from("`git ");
                push_str(&mut m, joined.as_str());
                push_str(&mut m, "` failed: ");
                push_str(&mut m, t.as_str());
                Err(Error::Git(m))
            }
        },
    }
}

/// The repository containing a directory, from `git rev-parse
/// --show-toplevel` (`run`: why it could not run, or its success flag and
/// stdout bytes): its trimmed output; a failing exit means the directory
/// is not in a repository.
pub fn discovered_repo(run: Result<(bool, Vec<u8>), String>) -> (r: Result<String, Error>)
    ensures
        match run {
            Err(why) => r matches Err(Error::Git(m)) && m@ == "failed to run `git rev-parse`: "@
                + why@,
            Ok((false, _)) => r == Err::<String, Error>(Error::NotAGitRepo),
            Ok((true, out)) => r matches Ok(root) && root@ == trim_spec(utf8_lossy(out@)),
        },
{
    match run {
        Err(why) => {
            let mut m = string_from("failed to run `git rev-parse`: ");
            push_str(&mut m, why.as_str());
            Err(Error::Git(m))
        },
        Ok((ok, out)) => {
            if !ok {
                return Err(Error::NotAGitRepo);
            }
            let text = lossy_text(out.as_slice());
            let cs = chars_of(text.as_str());
            Ok(string_of(&trim(&cs)))
        },
    }
}

} // verus!
