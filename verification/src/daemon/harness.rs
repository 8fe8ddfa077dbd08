//! The known harnesses — the programs a session runs — and what Bao knows
//! about driving each: identification, resume arguments, and the honest
//! "waiting for the human?" signal.
use vstd::prelude::*;

use crate::text::{chars_of, lex_less, lex_lt, push_char, string_from, string_of, trim, trim_spec};
use crate::path::{path_join, path_join_spec};
use crate::types::{Command, strings_view};

verus! {

/// The pi coding-session harness.
#[derive(Debug, Clone, Copy, Default, PartialEq, Eq, Structural)]
pub struct Pi;

/// The honest catch-all: any command we don't recognize.
#[derive(Debug, Clone, Copy, Default, PartialEq, Eq, Structural)]
pub struct Fallback;

/// One known harness.
#[derive(Debug, Clone, Copy, PartialEq, Eq, Structural)]
pub enum Harness {
    Pi,
    Fallback,
}

/// The path with one leading `/` removed, every other `/` turned into `-`,
/// and `--` on both sides (how pi keys its session directories).
pub open spec fn sanitize_spec(path: Seq<char>) -> Seq<char> {
    let stripped = if path.len() > 0 && path[0] == '/' {
        path.drop_first()
    } else {
        path
    };
    "--"@ + Seq::new(stripped.len(), |i: int| if stripped[i] == '/' { '-' } else { stripped[i] })
        + "--"@
}

/// The file name of a path: what follows its last `/`.
pub open spec fn last_slash(p: Seq<char>, j: int) -> int
    decreases j,
{
    if j <= 0 {
        -1
    } else if p[j - 1] == '/' {
        j - 1
    } else {
        last_slash(p, j - 1)
    }
}

/// Whether a path's file name has the extension `jsonl`: the name ends in
/// `.jsonl` and that dot is not the name's first character.
pub open spec fn is_jsonl(p: Seq<char>) -> bool {
    let start = last_slash(p, p.len() as int) + 1;
    let name = p.subrange(start, p.len() as int);
    name.len() > 6 && name.subrange(name.len() - 6, name.len() as int) == ".jsonl"@
}

/// The newest session file among `files`: the greatest `.jsonl` path (pi's
/// names start with an ISO timestamp, so the order is the time order).
pub open spec fn is_latest(files: Seq<Seq<char>>, f: Seq<char>) -> bool {
    &&& files.contains(f)
    &&& is_jsonl(f)
    &&& forall|k: int| 0 <= k < files.len() && is_jsonl(#[trigger] files[k]) ==> !lex_lt(f, files[k])
}

/// What the last message line of a pi session log says, as far as the
/// waiting decision reads it.
#[derive(Debug, Clone, PartialEq, Eq)]
pub enum PiLine {
    /// Unparseable, or not a `message` line.
    Other,
    /// A `message` line: its role, and the type of its content's last
    /// block (each `None` when absent or not a string).
    Message { role: Option<String>, block_type: Option<String> },
}

/// The waiting decision for a log: the last `message` line decides; it
/// says `true` only for an assistant text turn; nothing is known without
/// such a line, a role, or a last block type.
pub open spec fn waiting_spec(lines: Seq<PiLine>) -> Option<bool>
    decreases lines.len(),
{
    if lines.len() == 0 {
        None
    } else {
        match lines.last() {
            PiLine::Other => waiting_spec(lines.drop_last()),
            PiLine::Message { role, block_type } => match (role, block_type) {
                (Some(r), Some(b)) => Some(r@ == "assistant"@ && b@ == "text"@),
                _ => None,
            },
        }
    }
}

/// The newest message line decides alone: whatever came before, a log
/// ending in a message line with role `r` and last block type `b` is
/// waiting exactly when that is an assistant text turn; a message line
/// missing either says nothing; and lines that are not messages after it
/// change nothing.
pub proof fn law_last_message_decides(lines: Seq<PiLine>, role: String, block_type: String, tail: Seq<PiLine>)
    requires
        forall|k: int| 0 <= k < tail.len() ==> #[trigger] tail[k] is Other,
    ensures
        waiting_spec(
            lines.push(PiLine::Message { role: Some(role), block_type: Some(block_type) }) + tail,
        ) == Some(role@ == "assistant"@ && block_type@ == "text"@),
        waiting_spec(lines + tail) == waiting_spec(lines),
        forall|r: Option<String>, b: Option<String>|
            (r is None || b is None) ==> waiting_spec(
                #[trigger] lines.push(PiLine::Message { role: r, block_type: b }),
            ) is None,
    decreases tail.len(),
{
    let m = lines.push(PiLine::Message { role: Some(role), block_type: Some(block_type) });
    if tail.len() == 0 {
        assert(m + tail =~= m);
        assert(lines + tail =~= lines);
    } else {
        law_last_message_decides(lines, role, block_type, tail.drop_last());
        assert((m + tail).drop_last() =~= m + tail.drop_last());
        assert((lines + tail).drop_last() =~= lines + tail.drop_last());
        assert((m + tail).last() == tail.last());
        assert((lines + tail).last() == tail.last());
    }
    assert forall|r: Option<String>, b: Option<String>|
        (r is None || b is None) implies waiting_spec(
            #[trigger] lines.push(PiLine::Message { role: r, block_type: b }),
        ) is None by {
        let l = lines.push(PiLine::Message { role: r, block_type: b });
        assert(l.last() == PiLine::Message { role: r, block_type: b });
    }
}

/// Sanitizing changes only slashes: with one leading `/` dropped, the
/// result is `--`, then the rest of the path character by character with
/// each `/` turned into `-` and every other character (dots and spaces
/// included) kept, then `--`; a path without `/` comes back whole between
/// `--` and `--`.
pub proof fn law_sanitize_changes_only_slashes(path: Seq<char>)
    ensures
        ({
            let s = if path.len() > 0 && path[0] == '/' { path.drop_first() } else { path };
            let r = sanitize_spec(path);
            &&& r.len() == s.len() + 4
            &&& r.take(2) == "--"@
            &&& r.skip(r.len() - 2) == "--"@
            &&& forall|i: int| 0 <= i < s.len() && s[i] == '/' ==> #[trigger] r[i + 2] == '-'
            &&& forall|i: int| 0 <= i < s.len() && s[i] != '/' ==> #[trigger] r[i + 2] == s[i]
        }),
        (forall|i: int| 0 <= i < path.len() ==> path[i] != '/') ==> sanitize_spec(path) == "--"@
            + path + "--"@,
{
    reveal_strlit("--");
    let s = if path.len() > 0 && path[0] == '/' { path.drop_first() } else { path };
    let r = sanitize_spec(path);
    let mid = Seq::new(s.len(), |i: int| if s[i] == '/' { '-' } else { s[i] });
    assert(r == "--"@ + mid + "--"@);
    assert(r.take(2) =~= "--"@);
    assert(r.skip(r.len() - 2) =~= "--"@);
    assert forall|i: int| 0 <= i < s.len() implies #[trigger] r[i + 2] == mid[i] by {}
    if forall|i: int| 0 <= i < path.len() ==> path[i] != '/' {
        if path.len() > 0 {
            assert(path[0] != '/');
        }
        assert(mid =~= path);
    }
}

impl Pi {
    pub fn name(&self) -> (r: &'static str)
        ensures
            r@ == "pi"@,
    {
        "pi"
    }

    /// Does this command invoke pi? (its program name is `pi`)
    pub fn matches(&self, command: &Command) -> (r: bool)
        ensures
            r == (command@.len() > 0 && command@[0] == "pi"@),
    {
        let f = command.first();
        let pi = "pi";
        proof {
            reveal_strlit("pi");
            assert(pi@.len() == 2);
        }
        let r = crate::text::str_eq(f, pi);
        assert(r == (f@ == pi@));
        assert(pi@ == "pi"@);
        r
    }

    /// `/<a>/<b>/<c>` -> `--a-b-c--` (dots and spaces preserved, like pi).
    pub fn sanitize(&self, path: &str) -> (r: String)
        ensures
            r@ == sanitize_spec(path@),
    {
        let cs = chars_of(path);
        let start: usize = if cs.len() > 0 && cs[0] == '/' { 1 } else { 0 };
        let ghost stripped = if path@.len() > 0 && path@[0] == '/' {
            path@.drop_first()
        } else {
            path@
        };
        let mut out = string_from("--");
        let ghost head = out@;
        let mut i: usize = start;
        while i < cs.len()
            invariant
                cs@ == path@,
                start <= i <= cs.len(),
                stripped == cs@.subrange(start as int, cs@.len() as int),
                out@ == head + Seq::new(
                    (i - start) as nat,
                    |k: int| if stripped[k] == '/' { '-' } else { stripped[k] },
                ),
            decreases cs.len() - i,
        {
            let c = cs[i];
            push_char(&mut out, if c == '/' { '-' } else { c });
            i = i + 1;
            assert(out@ =~= head + Seq::new(
                (i - start) as nat,
                |k: int| if stripped[k] == '/' { '-' } else { stripped[k] },
            ));
        }
        out.append("--");
        out
    }

    /// Extra argv to relaunch pi with its conversation intact: the newest
    /// session file among `session_files` (the files of pi's session
    /// directory for the working copy). `None` when there is none — an
    /// honest fresh start.
    pub fn resume_args(&self, session_files: &Vec<String>) -> (r: Option<Vec<String>>)
        ensures
            match r {
                Some(args) => args@.len() == 2 && args@[0]@ == "--session"@ && is_latest(
                    strings_view(session_files@),
                    args@[1]@,
                ),
                None => forall|k: int|
                    0 <= k < session_files@.len() ==> !is_jsonl(#[trigger] session_files@[k]@),
            },
    {
        match latest_session_file(session_files) {
            Some(f) => {
                let mut v: Vec<String> = Vec::new();
                v.push(string_from("--session"));
                v.push(f);
                Some(v)
            },
            None => None,
        }
    }

    /// Whether pi is waiting for the human, decided from its session log's
    /// lines: `Some(true)` only when the last message is an assistant text
    /// response; `None` when the log says nothing.
    pub fn waiting_for_input(&self, lines: &Vec<PiLine>) -> (r: Option<bool>)
        ensures
            r == waiting_spec(lines@),
    {
        waiting_from_log(lines)
    }
}

fn ends_with_jsonl(p: &String) -> (r: bool)
    ensures
        r == is_jsonl(p@),
{
    let cs = chars_of(p.as_str());
    let n = cs.len();
    let mut j: usize = n;
    while j > 0 && cs[j - 1] != '/'
        invariant
            cs@ == p@,
            j <= n,
            n == cs@.len(),
            last_slash(cs@, j as int) == last_slash(cs@, n as int),
        decreases j,
    {
        j = j - 1;
    }
    let start: usize = j;
    proof {
        if j > 0 {
            assert(last_slash(cs@, j as int) == j - 1);
        } else {
            assert(last_slash(cs@, 0) == -1);
        }
    }
    let ghost name = cs@.subrange(start as int, n as int);
    assert(start as int == last_slash(cs@, n as int) + 1);
    assert(p@.len() == n);
    if n - start <= 6 {
        assert(name.len() <= 6);
        assert(!is_jsonl(cs@));
        return false;
    }
    let ext = ".jsonl";
    let e = chars_of(ext);
    proof {
        reveal_strlit(".jsonl");
    }
    let mut k: usize = 0;
    while k < 6
        invariant
            e@ == ext@,
            ext@ == ".jsonl"@,
            e@.len() == 6,
            cs@ == p@,
            name == cs@.subrange(start as int, n as int),
            start as int == last_slash(cs@, n as int) + 1,
            n - start > 6,
            n == cs@.len(),
            start <= n,
            k <= 6,
            forall|m: int| 0 <= m < k ==> cs@[n - 6 + m] == e@[m],
        decreases 6 - k,
    {
        if cs[n - 6 + k] != e[k] {
            assert(name.subrange(name.len() - 6, name.len() as int) =~= cs@.subrange(
                n - 6,
                n as int,
            ));
            assert(cs@.subrange(n - 6, n as int)[k as int] != ext@[k as int]);
            assert(ext@ == ".jsonl"@);
            assert(name.subrange(name.len() - 6, name.len() as int) != ".jsonl"@);
            assert(!is_jsonl(cs@));
            return false;
        }
        k = k + 1;
    }
    assert(name.subrange(name.len() - 6, name.len() as int) =~= cs@.subrange(n - 6, n as int));
    assert(cs@.subrange(n - 6, n as int) =~= ext@);
    true
}

/// The newest `.jsonl` file among `files`.
pub fn latest_session_file(files: &Vec<String>) -> (r: Option<String>)
    ensures
        match r {
            Some(f) => is_latest(strings_view(files@), f@),
            None => forall|k: int| 0 <= k < files@.len() ==> !is_jsonl(#[trigger] files@[k]@),
        },
{
    let mut best: Option<usize> = None;
    let mut i: usize = 0;
    while i < files.len()
        invariant
            i <= files.len(),
            match best {
                Some(b) => b < i && is_jsonl(files@[b as int]@) && forall|k: int|
                    0 <= k < i && is_jsonl(#[trigger] files@[k]@) ==> !lex_lt(
                        files@[b as int]@,
                        files@[k]@,
                    ),
                None => forall|k: int| 0 <= k < i ==> !is_jsonl(#[trigger] files@[k]@),
            },
        decreases files.len() - i,
    {
        if ends_with_jsonl(&files[i]) {
            match best {
                None => {
                    best = Some(i);
                    proof {
                        crate::text::lemma_lex_irreflexive(files@[i as int]@);
                    }
                },
                Some(b) => {
                    let cb = chars_of(files[b].as_str());
                    let ci = chars_of(files[i].as_str());
                    if !lex_less(&ci, &cb) {
                        // files[i] >= files[b]; a tie keeps the later one (sort order)
                        best = Some(i);
                        proof {
                            crate::text::lemma_lex_irreflexive(files@[i as int]@);
                            assert forall|k: int|
                                0 <= k < i + 1 && is_jsonl(#[trigger] files@[k]@) implies !lex_lt(
                                files@[i as int]@,
                                files@[k]@,
                            ) by {
                                if k < i {
                                    crate::text::lemma_lex_total(files@[b as int]@, files@[i as int]@);
                                    if lex_lt(files@[i as int]@, files@[k]@) {
                                        crate::text::lemma_lex_total(files@[b as int]@, files@[k]@);
                                        if lex_lt(files@[b as int]@, files@[i as int]@) {
                                            crate::text::lemma_lex_transitive(
                                                files@[b as int]@,
                                                files@[i as int]@,
                                                files@[k]@,
                                            );
                                        }
                                    }
                                }
                            }
                        }
                    } else {
                        proof {
                            crate::text::lemma_lex_asymmetric(files@[i as int]@, files@[b as int]@);
                        }
                    }
                },
            }
        }
        i = i + 1;
    }
    match best {
        Some(b) => {
            proof {
                assert(strings_view(files@)[b as int] == files@[b as int]@);
                assert(strings_view(files@).contains(files@[b as int]@));
            }
            Some(files[b].clone())
        },
        None => None,
    }
}

/// Decide the waiting state from a pi session log's lines.
pub fn waiting_from_log(lines: &Vec<PiLine>) -> (r: Option<bool>)
    ensures
        r == waiting_spec(lines@),
{
    let mut j: usize = lines.len();
    assert(lines@.take(lines@.len() as int) =~= lines@);
    while j > 0
        invariant
            j <= lines@.len(),
            waiting_spec(lines@.take(j as int)) == waiting_spec(lines@),
            forall|k: int| j <= k < lines@.len() ==> lines@[k] is Other,
        decreases j,
    {
        proof {
            let t = lines@.take(j as int);
            assert(t.drop_last() =~= lines@.take(j - 1));
            assert(t.last() == lines@[j - 1]);
        }
        match &lines[j - 1] {
            PiLine::Other => {
                j = j - 1;
            },
            PiLine::Message { role, block_type } => {
                return match (role, block_type) {
                    (Some(r), Some(b)) => {
                        let a = crate::text::str_eq(r.as_str(), "assistant");
                        let t = crate::text::str_eq(b.as_str(), "text");
                        Some(a && t)
                    },
                    _ => None,
                };
            },
        }
    }
    assert(lines@.take(0) =~= Seq::<PiLine>::empty());
    None
}

impl Fallback {
    pub fn name(&self) -> (r: &'static str)
        ensures
            r@ == "fallback"@,
    {
        "fallback"
    }

    /// The fallback matches anything; the registry orders it last.
    pub fn matches(&self, _command: &Command) -> (r: bool)
        ensures
            r,
    {
        true
    }

    /// No resume arguments: an unknown harness relaunches fresh.
    pub fn resume_args(&self, _session_files: &Vec<String>) -> (r: Option<Vec<String>>)
        ensures
            r is None,
    {
        None
    }

    /// Whether it waits for the human cannot be told.
    pub fn waiting_for_input(&self, _lines: &Vec<PiLine>) -> (r: Option<bool>)
        ensures
            r is None,
    {
        None
    }
}

/// Why a harness adapter failed: a capability it does not have, or I/O.
#[derive(Debug, Clone, PartialEq, Eq)]
pub enum HarnessError {
    Unsupported(&'static str),
    Io(String),
}

/// A harness error, in words.
pub open spec fn harness_error_message(e: HarnessError) -> Seq<char> {
    match e {
        HarnessError::Unsupported(what) => "this harness cannot "@ + what@,
        HarnessError::Io(m) => "io error: "@ + m@,
    }
}

impl HarnessError {
    /// The human-readable message.
    pub fn message(&self) -> (r: String)
        ensures
            r@ == harness_error_message(*self),
    {
        match self {
            HarnessError::Unsupported(what) => {
                let mut m = string_from("this harness cannot ");
                crate::error::push_str(&mut m, what);
                m
            },
            HarnessError::Io(why) => {
                let mut m = string_from("io error: ");
                crate::error::push_str(&mut m, why.as_str());
                m
            },
        }
    }
}

impl Harness {
    pub fn name(&self) -> (r: &'static str)
        ensures
            *self == Harness::Pi ==> r@ == "pi"@,
            *self == Harness::Fallback ==> r@ == "fallback"@,
    {
        match self {
            Harness::Pi => Pi.name(),
            Harness::Fallback => Fallback.name(),
        }
    }

    /// Extra argv to relaunch with the conversation intact, from the files
    /// of pi's session directory: pi names its newest session; the
    /// fallback starts fresh.
    pub fn resume_args(&self, session_files: &Vec<String>) -> (r: Option<Vec<String>>)
        ensures
            *self == Harness::Fallback ==> r is None,
            *self == Harness::Pi ==> match r {
                Some(args) => args@.len() == 2 && args@[0]@ == "--session"@ && is_latest(
                    strings_view(session_files@),
                    args@[1]@,
                ),
                None => forall|k: int|
                    0 <= k < session_files@.len() ==> !is_jsonl(#[trigger] session_files@[k]@),
            },
    {
        match self {
            Harness::Pi => Pi.resume_args(session_files),
            Harness::Fallback => Fallback.resume_args(session_files),
        }
    }

    /// Whether the harness waits for the human, from pi's session log
    /// lines; the fallback cannot tell.
    pub fn waiting_for_input(&self, lines: &Vec<PiLine>) -> (r: Option<bool>)
        ensures
            *self == Harness::Pi ==> r == waiting_spec(lines@),
            *self == Harness::Fallback ==> r is None,
    {
        match self {
            Harness::Pi => Pi.waiting_for_input(lines),
            Harness::Fallback => Fallback.waiting_for_input(lines),
        }
    }

    /// Packing conversation state for relocation: no harness can yet.
    pub fn pack(&self) -> (r: Result<Vec<u8>, HarnessError>)
        ensures
            r == Err::<Vec<u8>, HarnessError>(HarnessError::Unsupported("pack")),
    {
        Err(HarnessError::Unsupported("pack"))
    }

    /// Restoring conversation state after relocation: no harness can yet.
    pub fn unpack(&self, _data: &[u8]) -> (r: Result<(), HarnessError>)
        ensures
            r == Err::<(), HarnessError>(HarnessError::Unsupported("unpack")),
    {
        Err(HarnessError::Unsupported("unpack"))
    }
}

/// The enumerated set of known harnesses, fallback last.
pub struct HarnessRegistry;

impl HarnessRegistry {
    /// Every known harness, in identification order (fallback last).
    pub fn known() -> (r: Vec<Harness>)
        ensures
            r@ == seq![Harness::Pi, Harness::Fallback],
    {
        let mut v: Vec<Harness> = Vec::new();
        v.push(Harness::Pi);
        v.push(Harness::Fallback);
        assert(v@ =~= seq![Harness::Pi, Harness::Fallback]);
        v
    }

    /// The names of every known harness, in identification order.
    pub fn known_names() -> (r: Vec<&'static str>)
        ensures
            r@.len() == 2,
            r@[0]@ == "pi"@,
            r@[1]@ == "fallback"@,
    {
        let mut v: Vec<&'static str> = Vec::new();
        v.push(Pi.name());
        v.push(Fallback.name());
        v
    }

    /// Identify the harness behind a command: the first that matches; the
    /// fallback matches anything.
    pub fn identify(command: &Command) -> (r: Harness)
        ensures
            r == (if command@.len() > 0 && command@[0] == "pi"@ {
                Harness::Pi
            } else {
                Harness::Fallback
            }),
    {
        if Pi.matches(command) {
            Harness::Pi
        } else {
            Harness::Fallback
        }
    }
}

/// A pi log line by value: whether it is a `message` line, its role, and
/// its content's last block type.
pub open spec fn pi_line_view(l: PiLine) -> (bool, Option<Seq<char>>, Option<Seq<char>>) {
    match l {
        PiLine::Other => (false, None, None),
        PiLine::Message { role, block_type } => (true, opt_chars(role), opt_chars(block_type)),
    }
}

pub open spec fn opt_chars(o: Option<String>) -> Option<Seq<char>> {
    match o {
        Some(s) => Some(s@),
        None => None,
    }
}

/// The fields of one pi log line that the waiting decision reads: its
/// `"type"`, the `"message"."role"`, and the `"type"` of the last element of
/// `"message"."content"` (each `None` when absent or not a string).
pub struct PiLineFields {
    pub kind: Option<String>,
    pub role: Option<String>,
    pub block_type: Option<String>,
}

/// Those fields by value.
pub open spec fn pi_fields_view(f: Option<PiLineFields>) -> Option<
    (Option<Seq<char>>, Option<Seq<char>>, Option<Seq<char>>),
> {
    match f {
        Some(x) => Some((opt_chars(x.kind), opt_chars(x.role), opt_chars(x.block_type))),
        None => None,
    }
}

/// What `serde_json` reads from one line of a pi session log: `None` when
/// it is not JSON, else its type, role and last block type.
pub uninterp spec fn json_pi_line(line: Seq<char>) -> Option<
    (Option<Seq<char>>, Option<Seq<char>>, Option<Seq<char>>),
>;

/// Parse one pi log line with `serde_json::from_str` into a
/// `serde_json::Value` and pick out `"type"`, `"message"."role"` and the
/// `"type"` of the last element of `"message"."content"`. The result is
/// named, not described.
#[verifier::external_body]
fn read_pi_line(line: &str) -> (r: Option<PiLineFields>)
    ensures
        pi_fields_view(r) == json_pi_line(line@),
{
    let v: serde_json::Value = serde_json::from_str(line).ok()?;
    let text = |x: Option<&serde_json::Value>| x.and_then(|x| x.as_str()).map(String::from);
    let msg = v.get("message");
    let last = msg.and_then(|m| m.get("content")).and_then(|c| c.as_array()).and_then(|c| c.last());
    Some(PiLineFields { kind: text(v.get("type")), role: text(msg.and_then(|m| m.get("role"))),
        block_type: text(last.and_then(|b| b.get("type"))) })
}

/// What a parsed line says for the waiting decision: a `message` line with
/// its role and last block type; anything else (not JSON, another type, no
/// type) is no message.
pub open spec fn pi_line_of(
    fields: Option<(Option<Seq<char>>, Option<Seq<char>>, Option<Seq<char>>)>,
) -> (bool, Option<Seq<char>>, Option<Seq<char>>) {
    match fields {
        Some((Some(k), role, block)) => if k == "message"@ {
            (true, role, block)
        } else {
            (false, None, None)
        },
        _ => (false, None, None),
    }
}

/// Only lines whose `type` is `message` take part in the waiting decision,
/// and they carry their role and last block type through unchanged; a
/// line that is not JSON, has no type, or has another type counts as
/// nothing.
pub proof fn law_only_message_lines_count(
    kind: Option<Seq<char>>,
    role: Option<Seq<char>>,
    block: Option<Seq<char>>,
)
    ensures
        pi_line_of(None).0 == false,
        pi_line_of(Some((kind, role, block))).0 <==> kind == Some("message"@),
        kind == Some("message"@) ==> pi_line_of(Some((kind, role, block))) == (true, role, block),
        kind != Some("message"@) ==> pi_line_of(Some((kind, role, block))) == (
            false,
            None::<Seq<char>>,
            None::<Seq<char>>,
        ),
{
}

/// Classify a parsed pi log line.
pub fn classify_pi_line(fields: Option<PiLineFields>) -> (r: PiLine)
    ensures
        pi_line_view(r) == pi_line_of(pi_fields_view(fields)),
{
    proof {
        reveal_strlit("message");
    }
    match fields {
        None => PiLine::Other,
        Some(f) => match &f.kind {
            Some(k) => {
                if crate::text::str_eq(k.as_str(), "message") {
                    PiLine::Message { role: f.role, block_type: f.block_type }
                } else {
                    PiLine::Other
                }
            },
            None => PiLine::Other,
        },
    }
}

/// The waiting decision from the raw text of a pi session log: each line,
/// trimmed, read as JSON and classified; the last message line decides.
pub fn waiting_from_text(raw: &str) -> (r: Option<bool>)
    ensures
        exists|lines: Seq<PiLine>|
            lines.len() == crate::daemon::session_log::text_lines(raw@).len() && (forall|k: int|
                0 <= k < lines.len() ==> pi_line_view(#[trigger] lines[k]) == pi_line_of(
                    json_pi_line(trim_spec(crate::daemon::session_log::text_lines(raw@)[k])),
                )) && r == waiting_spec(lines),
{
    let text = crate::daemon::session_log::lines_of(raw);
    let ghost ls = crate::text::strings_seq(text@);
    let mut lines: Vec<PiLine> = Vec::new();
    let mut i: usize = 0;
    while i < text.len()
        invariant
            i <= text.len(),
            ls == crate::text::strings_seq(text@),
            lines@.len() == i,
            forall|k: int|
                0 <= k < i ==> pi_line_view(#[trigger] lines@[k]) == pi_line_of(
                    json_pi_line(trim_spec(ls[k])),
                ),
        decreases text.len() - i,
    {
        let t = string_of(&trim(&chars_of(text[i].as_str())));
        lines.push(classify_pi_line(read_pi_line(t.as_str())));
        i = i + 1;
    }
    waiting_from_log(&lines)
}

/// `<home>/.pi/session/sessions`: where pi keeps its sessions.
pub open spec fn pi_sessions_root(home: Seq<char>) -> Seq<char> {
    path_join_spec(path_join_spec(path_join_spec(home, ".pi"@), "session"@), "sessions"@)
}

impl Pi {
    /// The directory of pi's sessions for a working copy: under the
    /// sessions root, the working copy's canonical path sanitized.
    pub fn session_dir(&self, home: &str, canonical: &str) -> (r: String)
        ensures
            r@ == path_join_spec(pi_sessions_root(home@), sanitize_spec(canonical@)),
    {
        let a = path_join(home, ".pi");
        let b = path_join(a.as_str(), "session");
        let c = path_join(b.as_str(), "sessions");
        let key = self.sanitize(canonical);
        path_join(c.as_str(), key.as_str())
    }
}

} // verus!
