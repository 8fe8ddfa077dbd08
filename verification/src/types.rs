//! Domain vocabulary: typed identities, commands, and the data structures
//! shared across the wire, the host, and the clients.
use vstd::prelude::*;

use crate::alert::Alert;
use crate::error::Error;
use crate::sandbox::WorkingCopy;
use crate::text::{
    any_ws_or_ctrl, chars_of, has_ws_or_ctrl, is_prefix, is_whitespace, is_ws, starts_with,
    strip_ansi, strip_ansi_spec, string_from, string_of, trim, trim_spec, truncate, truncate_spec,
};

verus! {

/// The characters of each string, in order.
pub open spec fn strings_view(v: Seq<String>) -> Seq<Seq<char>> {
    Seq::new(v.len(), |i: int| v[i]@)
}

/// Epoch milliseconds from the system clock (0 if the clock is before the
/// epoch).
#[verifier::external_body]
pub fn now_ms() -> u64 {
    std::time::SystemTime::now().duration_since(std::time::UNIX_EPOCH).map(
        |d| d.as_millis() as u64,
    ).unwrap_or(0)
}

/// A time source: the wall clock, or a fixed instant that tests inject to
/// drive time-based derivation (idle alert) without waiting.
#[derive(Debug, Clone, Copy, PartialEq, Eq, Structural)]
pub enum Clock {
    System,
    Fixed(u64),
}

impl Clock {
    pub fn system() -> (r: Self)
        ensures
            r == Clock::System,
    {
        Clock::System
    }

    /// The current time: the wall clock's reading, or the fixed instant.
    pub fn now_ms(&self) -> (r: u64)
        ensures
            self matches Clock::Fixed(t) ==> r == t,
    {
        match self {
            Clock::System => now_ms(),
            Clock::Fixed(t) => *t,
        }
    }
}

// ---------------------------------------------------------------------------
// SessionId
// ---------------------------------------------------------------------------

/// Identifies one session. Short, generated, prefix-matchable.
#[derive(Debug, Clone, Default, PartialEq, Eq, Hash)]
pub struct SessionId(pub String);

/// A lowercase hexadecimal digit.
pub open spec fn is_lower_hex(c: char) -> bool {
    ('0' <= c && c <= '9') || ('a' <= c && c <= 'f')
}

/// The 32-digit lowercase hex ("simple") form of a fresh random v4 uuid.
#[verifier::external_body]
fn uuid_v4_simple() -> (r: String)
    ensures
        r@.len() == 32,
        forall|i: int| 0 <= i < 32 ==> is_lower_hex(#[trigger] r@[i]),
{
    uuid::Uuid::new_v4().simple().to_string()
}

impl std::str::FromStr for SessionId {
    type Err = std::convert::Infallible;

    fn from_str(s: &str) -> Result<SessionId, std::convert::Infallible> {
        Ok(SessionId::new(s))
    }
}

impl View for SessionId {
    type V = Seq<char>;

    open spec fn view(&self) -> Seq<char> {
        self.0@
    }
}

impl SessionId {
    /// A fresh random id: the first 8 hex digits of a v4 uuid.
    pub fn generate() -> (r: SessionId)
        ensures
            r@.len() == 8,
            forall|i: int| 0 <= i < 8 ==> is_lower_hex(#[trigger] r@[i]),
    {
        let u = chars_of(uuid_v4_simple().as_str());
        let mut v: Vec<char> = Vec::new();
        let mut i: usize = 0;
        while i < 8
            invariant
                u@.len() == 32,
                forall|k: int| 0 <= k < 32 ==> is_lower_hex(#[trigger] u@[k]),
                i <= 8,
                v@ == u@.subrange(0, i as int),
            decreases 8 - i,
        {
            v.push(u[i]);
            i = i + 1;
            assert(v@ =~= u@.subrange(0, i as int));
        }
        SessionId(string_of(&v))
    }

    /// An id with the given text.
    pub fn new(s: &str) -> (r: SessionId)
        ensures
            r@ == s@,
    {
        SessionId(string_from(s))
    }

    pub fn as_str(&self) -> (r: &str)
        ensures
            r@ == self@,
    {
        self.0.as_str()
    }

    /// Whether the id starts with `prefix`.
    pub fn matches_prefix(&self, prefix: &str) -> (r: bool)
        ensures
            r == is_prefix(prefix@, self@),
    {
        starts_with(self.0.as_str(), prefix)
    }

    /// Whether two ids are the same text.
    pub fn same(&self, other: &SessionId) -> (r: bool)
        ensures
            r == (self@ == other@),
    {
        self.0 == other.0
    }

    /// A copy of this id.
    pub fn copy(&self) -> (r: SessionId)
        ensures
            r == *self,
    {
        SessionId(self.0.clone())
    }
}

// ---------------------------------------------------------------------------
// Status
// ---------------------------------------------------------------------------

/// Lifecycle of a session. The exit code rides with `Exited`, so the type
/// cannot express a running session with a code (`None` = exited, code
/// unknown).
#[derive(Debug, Clone, Copy, PartialEq, Eq, Structural)]
pub enum Status {
    /// Registered, sandbox not yet built (the launch saga's first step).
    Preparing,
    /// Process spawned, awaiting its first output (harness is booting).
    Starting,
    Running,
    Exited(Option<i32>),
    /// The record and history survived, but the process is gone.
    Interrupted,
    /// The session's meta could not be read. Salvaged, never dropped.
    Damaged,
    /// Relocated to another machine.
    Moved,
}

pub open spec fn status_name_spec(s: Status) -> Seq<char> {
    match s {
        Status::Preparing => seq!['p', 'r', 'e', 'p', 'a', 'r', 'i', 'n', 'g'],
        Status::Starting => seq!['s', 't', 'a', 'r', 't', 'i', 'n', 'g'],
        Status::Running => seq!['r', 'u', 'n', 'n', 'i', 'n', 'g'],
        Status::Exited(_) => seq!['e', 'x', 'i', 't', 'e', 'd'],
        Status::Interrupted => seq!['i', 'n', 't', 'e', 'r', 'r', 'u', 'p', 't', 'e', 'd'],
        Status::Damaged => seq!['d', 'a', 'm', 'a', 'g', 'e', 'd'],
        Status::Moved => seq!['m', 'o', 'v', 'e', 'd'],
    }
}

impl Status {
    /// The status's display name (`preparing`, `running`, `exited`, ...).
    pub fn name(&self) -> (r: &'static str)
        ensures
            r@ == status_name_spec(*self),
    {
        match self {
            Status::Preparing => {
                proof { reveal_strlit("preparing"); }
                "preparing"
            },
            Status::Starting => {
                proof { reveal_strlit("starting"); }
                "starting"
            },
            Status::Running => {
                proof { reveal_strlit("running"); }
                "running"
            },
            Status::Exited(_) => {
                proof { reveal_strlit("exited"); }
                "exited"
            },
            Status::Interrupted => {
                proof { reveal_strlit("interrupted"); }
                "interrupted"
            },
            Status::Damaged => {
                proof { reveal_strlit("damaged"); }
                "damaged"
            },
            Status::Moved => {
                proof { reveal_strlit("moved"); }
                "moved"
            },
        }
    }
}

// ---------------------------------------------------------------------------
// Command
// ---------------------------------------------------------------------------

/// The exact argv a session runs with. Parsed once (shell-words), then kept
/// as the source of truth — display strings are not round-trip-safe.
#[derive(Debug, Clone, Default, PartialEq, Eq)]
pub struct Command(pub Vec<String>);

impl View for Command {
    type V = Seq<Seq<char>>;

    open spec fn view(&self) -> Seq<Seq<char>> {
        strings_view(self.0@)
    }
}

/// The shell-words tokenizer from position `i`, with the words so far
/// (`args`), the word being built (`cur`), and the quote state. Single quotes
/// and double quotes toggle outside the other kind; a backslash outside
/// single quotes takes the next character literally (a trailing one is kept);
/// unquoted whitespace ends a non-empty word.
pub open spec fn split_from(
    s: Seq<char>,
    i: int,
    args: Seq<Seq<char>>,
    cur: Seq<char>,
    sq: bool,
    dq: bool,
) -> Seq<Seq<char>>
    decreases s.len() - i,
{
    if i < 0 || i >= s.len() {
        if cur.len() > 0 {
            args.push(cur)
        } else {
            args
        }
    } else {
        let c = s[i];
        if c == '\'' && !dq {
            split_from(s, i + 1, args, cur, !sq, dq)
        } else if c == '"' && !sq {
            split_from(s, i + 1, args, cur, sq, !dq)
        } else if c == '\\' && !sq {
            if i + 1 < s.len() {
                split_from(s, i + 2, args, cur.push(s[i + 1]), sq, dq)
            } else {
                split_from(s, i + 1, args, cur.push('\\'), sq, dq)
            }
        } else if is_ws(c) && !sq && !dq {
            if cur.len() > 0 {
                split_from(s, i + 1, args.push(cur), Seq::empty(), sq, dq)
            } else {
                split_from(s, i + 1, args, cur, sq, dq)
            }
        } else {
            split_from(s, i + 1, args, cur.push(c), sq, dq)
        }
    }
}

/// A character with no meaning to the tokenizer: not whitespace, not a
/// quote, not a backslash.
pub open spec fn plain_char(c: char) -> bool {
    !is_ws(c) && c != '\'' && c != '"' && c != '\\'
}

/// Unquoted plain characters go into the current word as they are.
proof fn lemma_plain_run(s: Seq<char>, i: int, j: int, args: Seq<Seq<char>>, cur: Seq<char>)
    requires
        0 <= i <= j <= s.len(),
        forall|k: int| i <= k < j ==> plain_char(#[trigger] s[k]),
    ensures
        split_from(s, i, args, cur, false, false) == split_from(
            s,
            j,
            args,
            cur + s.subrange(i, j),
            false,
            false,
        ),
    decreases j - i,
{
    if i == j {
        assert(cur + s.subrange(i, j) =~= cur);
    } else {
        assert(plain_char(s[i]));
        lemma_plain_run(s, i + 1, j, args, cur.push(s[i]));
        assert(cur.push(s[i]) + s.subrange(i + 1, j) =~= cur + s.subrange(i, j));
    }
}

/// Inside double quotes, every character but a double quote or a backslash
/// goes into the current word as it is, whitespace and single quotes
/// included.
proof fn lemma_double_quoted_run(s: Seq<char>, i: int, j: int, args: Seq<Seq<char>>, cur: Seq<char>)
    requires
        0 <= i <= j <= s.len(),
        forall|k: int| i <= k < j ==> #[trigger] s[k] != '"' && s[k] != '\\',
    ensures
        split_from(s, i, args, cur, false, true) == split_from(
            s,
            j,
            args,
            cur + s.subrange(i, j),
            false,
            true,
        ),
    decreases j - i,
{
    if i == j {
        assert(cur + s.subrange(i, j) =~= cur);
    } else {
        assert(s[i] != '"' && s[i] != '\\');
        lemma_double_quoted_run(s, i + 1, j, args, cur.push(s[i]));
        assert(cur.push(s[i]) + s.subrange(i + 1, j) =~= cur + s.subrange(i, j));
    }
}

/// Double quotes group and are removed: a plain word `a`, a space, and a
/// double-quoted non-empty text `t` (spaces and single quotes allowed, no
/// double quote or backslash) parse as exactly the two words `a` and `t`.
pub proof fn law_double_quotes_group(a: Seq<char>, t: Seq<char>)
    requires
        a.len() > 0,
        forall|k: int| 0 <= k < a.len() ==> plain_char(#[trigger] a[k]),
        t.len() > 0,
        forall|k: int| 0 <= k < t.len() ==> #[trigger] t[k] != '"' && t[k] != '\\',
    ensures
        split_words_spec(a + seq![' ', '"'] + t + seq!['"']) == seq![a, t],
{
    let s = a + seq![' ', '"'] + t + seq!['"'];
    let n = a.len() as int;
    let m = t.len() as int;
    assert(s.len() == n + m + 3);
    assert forall|k: int| 0 <= k < n implies plain_char(#[trigger] s[k]) by {
        assert(s[k] == a[k]);
    }
    lemma_plain_run(s, 0, n, Seq::empty(), Seq::empty());
    assert(Seq::<char>::empty() + s.subrange(0, n) =~= a);
    let e = Seq::<Seq<char>>::empty();
    let z = Seq::<char>::empty();
    assert(split_words_spec(s) == split_from(s, n, e, a, false, false));
    assert(s[n] == ' ');
    assert(is_ws(' ')) by {
        assert((' ' as u32) == 0x20);
    }
    assert(split_from(s, n, e, a, false, false) == split_from(s, n + 1, e.push(a), z, false, false));
    assert(e.push(a) =~= seq![a]);
    assert(s[n + 1] == '"');
    assert(split_from(s, n + 1, seq![a], z, false, false) == split_from(s, n + 2, seq![a], z, false, true));
    assert forall|k: int| n + 2 <= k < n + 2 + m implies #[trigger] s[k] != '"' && s[k] != '\\' by {
        assert(s[k] == t[k - n - 2]);
    }
    lemma_double_quoted_run(s, n + 2, n + 2 + m, seq![a], Seq::empty());
    assert(Seq::<char>::empty() + s.subrange(n + 2, n + 2 + m) =~= t);
    assert(s[n + 2 + m] == '"');
    assert(split_from(s, n + 2 + m, seq![a], t, false, true) == split_from(s, n + 3 + m, seq![a], t, false, false));
    assert(split_from(s, n + 3 + m, seq![a], t, false, false) == seq![a].push(t));
    assert(seq![a].push(t) =~= seq![a, t]);
}

/// Inside single quotes, every character but a single quote goes into the
/// current word as it is: whitespace, double quotes and backslashes
/// included.
proof fn lemma_single_quoted_run(s: Seq<char>, i: int, j: int, args: Seq<Seq<char>>, cur: Seq<char>)
    requires
        0 <= i <= j <= s.len(),
        forall|k: int| i <= k < j ==> #[trigger] s[k] != '\'',
    ensures
        split_from(s, i, args, cur, true, false) == split_from(
            s,
            j,
            args,
            cur + s.subrange(i, j),
            true,
            false,
        ),
    decreases j - i,
{
    if i == j {
        assert(cur + s.subrange(i, j) =~= cur);
    } else {
        assert(s[i] != '\'');
        lemma_single_quoted_run(s, i + 1, j, args, cur.push(s[i]));
        assert(cur.push(s[i]) + s.subrange(i + 1, j) =~= cur + s.subrange(i, j));
    }
}

/// Single quotes group and are removed, and nothing inside them is
/// special: a plain word `a`, a space, and a single-quoted non-empty text
/// `t` (anything but a single quote) parse as exactly `a` and `t`.
pub proof fn law_single_quotes_group(a: Seq<char>, t: Seq<char>)
    requires
        a.len() > 0,
        forall|k: int| 0 <= k < a.len() ==> plain_char(#[trigger] a[k]),
        t.len() > 0,
        forall|k: int| 0 <= k < t.len() ==> #[trigger] t[k] != '\'',
    ensures
        split_words_spec(a + seq![' ', '\''] + t + seq!['\'']) == seq![a, t],
{
    let s = a + seq![' ', '\''] + t + seq!['\''];
    let n = a.len() as int;
    let m = t.len() as int;
    let e = Seq::<Seq<char>>::empty();
    let z = Seq::<char>::empty();
    assert forall|k: int| 0 <= k < n implies plain_char(#[trigger] s[k]) by {
        assert(s[k] == a[k]);
    }
    lemma_plain_run(s, 0, n, e, z);
    assert(z + s.subrange(0, n) =~= a);
    assert(s[n] == ' ');
    assert(is_ws(' ')) by {
        assert((' ' as u32) == 0x20);
    }
    assert(split_from(s, n, e, a, false, false) == split_from(s, n + 1, e.push(a), z, false, false));
    assert(e.push(a) =~= seq![a]);
    assert(s[n + 1] == '\'');
    assert(split_from(s, n + 1, seq![a], z, false, false) == split_from(s, n + 2, seq![a], z, true, false));
    assert forall|k: int| n + 2 <= k < n + 2 + m implies #[trigger] s[k] != '\'' by {
        assert(s[k] == t[k - n - 2]);
    }
    lemma_single_quoted_run(s, n + 2, n + 2 + m, seq![a], z);
    assert(z + s.subrange(n + 2, n + 2 + m) =~= t);
    assert(s[n + 2 + m] == '\'');
    assert(split_from(s, n + 2 + m, seq![a], t, true, false) == split_from(s, n + 3 + m, seq![a], t, false, false));
    assert(seq![a].push(t) =~= seq![a, t]);
}

/// Unquoted whitespace separates words and is dropped: two plain words
/// with a space between them parse as those two words; a backslash makes
/// the space part of one word instead.
pub proof fn law_space_splits_backslash_joins(a: Seq<char>, b: Seq<char>)
    requires
        a.len() > 0,
        forall|k: int| 0 <= k < a.len() ==> plain_char(#[trigger] a[k]),
        b.len() > 0,
        forall|k: int| 0 <= k < b.len() ==> plain_char(#[trigger] b[k]),
    ensures
        split_words_spec(a + seq![' '] + b) == seq![a, b],
        split_words_spec(a + seq!['\\', ' '] + b) == seq![a + seq![' '] + b],
{
    let e = Seq::<Seq<char>>::empty();
    let z = Seq::<char>::empty();
    let n = a.len() as int;
    let m = b.len() as int;
    assert(is_ws(' ')) by {
        assert((' ' as u32) == 0x20);
    }
    let s = a + seq![' '] + b;
    assert forall|k: int| 0 <= k < n implies plain_char(#[trigger] s[k]) by {
        assert(s[k] == a[k]);
    }
    assert forall|k: int| n + 1 <= k < n + 1 + m implies plain_char(#[trigger] s[k]) by {
        assert(s[k] == b[k - n - 1]);
    }
    lemma_plain_run(s, 0, n, e, z);
    assert(z + s.subrange(0, n) =~= a);
    assert(s[n] == ' ');
    assert(split_from(s, n, e, a, false, false) == split_from(s, n + 1, e.push(a), z, false, false));
    assert(e.push(a) =~= seq![a]);
    lemma_plain_run(s, n + 1, n + 1 + m, seq![a], z);
    assert(z + s.subrange(n + 1, n + 1 + m) =~= b);
    assert(split_from(s, n + 1 + m, seq![a], b, false, false) == seq![a].push(b));
    assert(seq![a].push(b) =~= seq![a, b]);

    let u = a + seq!['\\', ' '] + b;
    assert forall|k: int| 0 <= k < n implies plain_char(#[trigger] u[k]) by {
        assert(u[k] == a[k]);
    }
    assert forall|k: int| n + 2 <= k < n + 2 + m implies plain_char(#[trigger] u[k]) by {
        assert(u[k] == b[k - n - 2]);
    }
    lemma_plain_run(u, 0, n, e, z);
    assert(z + u.subrange(0, n) =~= a);
    assert(u[n] == '\\' && u[n + 1] == ' ');
    assert(split_from(u, n, e, a, false, false) == split_from(u, n + 2, e, a.push(' '), false, false));
    lemma_plain_run(u, n + 2, n + 2 + m, e, a.push(' '));
    assert(a.push(' ') + u.subrange(n + 2, n + 2 + m) =~= a + seq![' '] + b);
    assert(split_from(u, n + 2 + m, e, a + seq![' '] + b, false, false) == e.push(a + seq![' '] + b));
    assert(e.push(a + seq![' '] + b) =~= seq![a + seq![' '] + b]);
}

/// The tokenizer never yields an empty word, from any point and state,
/// given the words so far are non-empty.
proof fn lemma_words_nonempty(
    s: Seq<char>,
    i: int,
    args: Seq<Seq<char>>,
    cur: Seq<char>,
    sq: bool,
    dq: bool,
)
    requires
        forall|k: int| 0 <= k < args.len() ==> #[trigger] args[k].len() > 0,
    ensures
        forall|k: int|
            0 <= k < split_from(s, i, args, cur, sq, dq).len() ==> #[trigger] split_from(
                s,
                i,
                args,
                cur,
                sq,
                dq,
            )[k].len() > 0,
    decreases s.len() - i,
{
    let r = split_from(s, i, args, cur, sq, dq);
    if i < 0 || i >= s.len() {
        assert forall|k: int| 0 <= k < r.len() implies #[trigger] r[k].len() > 0 by {
            if k < args.len() {
                assert(r[k] == args[k]);
            }
        }
    } else {
        let c = s[i];
        if c == '\'' && !dq {
            assert(r == split_from(s, i + 1, args, cur, !sq, dq));
            lemma_words_nonempty(s, i + 1, args, cur, !sq, dq);
        } else if c == '"' && !sq {
            assert(r == split_from(s, i + 1, args, cur, sq, !dq));
            lemma_words_nonempty(s, i + 1, args, cur, sq, !dq);
        } else if c == '\\' && !sq {
            if i + 1 < s.len() {
                assert(r == split_from(s, i + 2, args, cur.push(s[i + 1]), sq, dq));
                lemma_words_nonempty(s, i + 2, args, cur.push(s[i + 1]), sq, dq);
            } else {
                assert(r == split_from(s, i + 1, args, cur.push('\\'), sq, dq));
                lemma_words_nonempty(s, i + 1, args, cur.push('\\'), sq, dq);
            }
        } else if is_ws(c) && !sq && !dq {
            if cur.len() > 0 {
                let a2 = args.push(cur);
                assert forall|k: int| 0 <= k < a2.len() implies #[trigger] a2[k].len() > 0 by {
                    if k < args.len() {
                        assert(a2[k] == args[k]);
                    }
                }
                assert(r == split_from(s, i + 1, a2, Seq::empty(), sq, dq));
                lemma_words_nonempty(s, i + 1, a2, Seq::empty(), sq, dq);
            } else {
                assert(r == split_from(s, i + 1, args, cur, sq, dq));
                lemma_words_nonempty(s, i + 1, args, cur, sq, dq);
            }
        } else {
            assert(r == split_from(s, i + 1, args, cur.push(c), sq, dq));
            lemma_words_nonempty(s, i + 1, args, cur.push(c), sq, dq);
        }
    }
}

/// No parsed word is empty: empty quotes and runs of whitespace make no
/// word of their own.
pub proof fn law_no_empty_words(s: Seq<char>)
    ensures
        forall|k: int| 0 <= k < split_words_spec(s).len() ==> #[trigger] split_words_spec(s)[k].len() > 0,
{
    lemma_words_nonempty(s, 0, Seq::empty(), Seq::empty(), false, false);
}

/// Split a command string into argv (a minimal shell-words parser).
pub open spec fn split_words_spec(s: Seq<char>) -> Seq<Seq<char>> {
    split_from(s, 0, Seq::empty(), Seq::empty(), false, false)
}

/// Split a command string into argv, honoring single/double quotes and
/// backslash escapes (a minimal shell-words parser).
pub fn split_words(s: &str) -> (r: Vec<String>)
    ensures
        strings_view(r@) == split_words_spec(s@),
{
    let cs = chars_of(s);
    let n = cs.len();
    let mut args: Vec<String> = Vec::new();
    let mut cur: Vec<char> = Vec::new();
    let mut sq = false;
    let mut dq = false;
    let mut i: usize = 0;
    assert(strings_view(args@) =~= Seq::<Seq<char>>::empty());
    while i < n
        invariant
            n == cs.len(),
            cs@ == s@,
            i <= n,
            split_from(cs@, i as int, strings_view(args@), cur@, sq, dq) == split_words_spec(s@),
        decreases n - i,
    {
        let c = cs[i];
        if c == '\'' && !dq {
            sq = !sq;
            i = i + 1;
        } else if c == '"' && !sq {
            dq = !dq;
            i = i + 1;
        } else if c == '\\' && !sq {
            if i + 1 < n {
                cur.push(cs[i + 1]);
                i = i + 2;
            } else {
                cur.push('\\');
                i = i + 1;
            }
        } else if is_whitespace(c) && !sq && !dq {
            if cur.len() > 0 {
                let w = string_of(&cur);
                let ghost old_args = args@;
                args.push(w);
                assert(strings_view(args@) =~= strings_view(old_args).push(cur@));
                cur = Vec::new();
            }
            i = i + 1;
        } else {
            cur.push(c);
            i = i + 1;
        }
    }
    if cur.len() > 0 {
        let w = string_of(&cur);
        let ghost old_args = args@;
        args.push(w);
        assert(strings_view(args@) =~= strings_view(old_args).push(cur@));
    }
    args
}

/// Join with a separator.
pub open spec fn join_spec(parts: Seq<Seq<char>>, sep: Seq<char>) -> Seq<char>
    decreases parts.len(),
{
    if parts.len() == 0 {
        Seq::empty()
    } else if parts.len() == 1 {
        parts[0]
    } else {
        join_spec(parts.drop_last(), sep) + sep + parts.last()
    }
}

/// Join strings with `sep` between them.
pub fn join(parts: &Vec<String>, sep: &str) -> (r: String)
    ensures
        r@ == join_spec(strings_view(parts@), sep@),
{
    let mut res = String::new();
    let mut i: usize = 0;
    while i < parts.len()
        invariant
            i <= parts.len(),
            res@ == join_spec(strings_view(parts@).take(i as int), sep@),
        decreases parts.len() - i,
    {
        let ghost before = strings_view(parts@).take(i as int);
        if i > 0 {
            res.append(sep);
        }
        res.append(parts[i].as_str());
        proof {
            let next = strings_view(parts@).take(i + 1);
            assert(next.drop_last() =~= before);
            assert(next.last() == parts@[i as int]@);
            if i == 0 {
                assert(before =~= Seq::<Seq<char>>::empty());
            }
        }
        i = i + 1;
    }
    assert(strings_view(parts@).take(parts.len() as int) =~= strings_view(parts@));
    res
}

impl Command {
    /// Parse a command line into argv. An empty argv is `EmptyCommand`.
    pub fn parse(s: &str) -> (r: Result<Command, Error>)
        ensures
            split_words_spec(s@).len() == 0 <==> r is Err,
            r is Err ==> r == Err::<Command, Error>(Error::EmptyCommand),
            r matches Ok(c) ==> c@ == split_words_spec(s@),
    {
        let args = split_words(s);
        if args.len() == 0 {
            return Err(Error::EmptyCommand);
        }
        Ok(Command(args))
    }

    pub fn from_args(args: Vec<String>) -> (r: Command)
        ensures
            r.0 == args,
    {
        Command(args)
    }

    pub fn as_args(&self) -> (r: &[String])
        ensures
            r@ == self.0@,
    {
        self.0.as_slice()
    }

    /// The program name (first argument), or empty.
    pub fn first(&self) -> (r: &str)
        ensures
            r@ == if self@.len() > 0 { self@[0] } else { Seq::empty() },
    {
        if self.0.len() > 0 {
            self.0[0].as_str()
        } else {
            proof {
                reveal_strlit("");
            }
            ""
        }
    }

    pub fn is_empty(&self) -> (r: bool)
        ensures
            r == (self@.len() == 0),
    {
        self.0.len() == 0
    }

    /// The arguments joined by single spaces.
    pub fn display(&self) -> (r: String)
        ensures
            r@ == join_spec(self@, seq![' ']),
    {
        let sp = " ";
        proof {
            reveal_strlit(" ");
            assert(sp@ =~= seq![' ']);
        }
        join(&self.0, sp)
    }

    /// A copy of this command.
    pub fn copy(&self) -> (r: Command)
        ensures
            r@ == self@,
    {
        let mut v: Vec<String> = Vec::new();
        let mut i: usize = 0;
        while i < self.0.len()
            invariant
                i <= self.0.len(),
                v@.len() == i,
                forall|k: int| 0 <= k < i ==> v@[k]@ == #[trigger] self.0@[k]@,
            decreases self.0.len() - i,
        {
            let x = self.0[i].clone();
            v.push(x);
            i = i + 1;
        }
        assert(strings_view(v@) =~= strings_view(self.0@));
        Command(v)
    }
}

// ---------------------------------------------------------------------------
// TerminalSize
// ---------------------------------------------------------------------------

#[derive(Debug, Clone, Copy, PartialEq, Eq, Structural)]
pub struct TerminalSize {
    pub cols: u16,
    pub rows: u16,
}

impl TerminalSize {
    /// The default size: 120 columns by 40 rows.
    pub fn default_size() -> (r: TerminalSize)
        ensures
            r.cols == 120 && r.rows == 40,
    {
        TerminalSize { cols: 120, rows: 40 }
    }
}

impl Default for TerminalSize {
    fn default() -> (r: TerminalSize)
        ensures
            r.cols == 120 && r.rows == 40,
    {
        TerminalSize::default_size()
    }
}

// ---------------------------------------------------------------------------
// Hostname
// ---------------------------------------------------------------------------

/// The identity of the machine a session lives on — a validated hostname:
/// never empty, no whitespace or control characters.
#[derive(Debug, Clone, PartialEq, Eq, Hash)]
pub struct Hostname(pub String);

impl std::str::FromStr for Hostname {
    type Err = Error;

    fn from_str(s: &str) -> Result<Hostname, Error> {
        Hostname::parse(s)
    }
}

impl View for Hostname {
    type V = Seq<char>;

    open spec fn view(&self) -> Seq<char> {
        self.0@
    }
}

/// Whether the (already trimmed) text can name a machine.
pub open spec fn valid_hostname(t: Seq<char>) -> bool {
    t.len() > 0 && !any_ws_or_ctrl(t)
}

impl Hostname {
    /// A hostname from a trusted source: the text trimmed of surrounding
    /// whitespace, rejected when empty or when it holds whitespace or control
    /// characters.
    pub fn parse(s: &str) -> (r: Result<Hostname, Error>)
        ensures
            valid_hostname(trim_spec(s@)) <==> r is Ok,
            r matches Ok(h) ==> h@ == trim_spec(s@),
            r matches Err(e) ==> (e matches Error::BadHostname(m) && m@ == trim_spec(s@)),
    {
        let cs = chars_of(s);
        let t = trim(&cs);
        if t.len() == 0 || has_ws_or_ctrl(&t) {
            return Err(Error::BadHostname(string_of(&t)));
        }
        Ok(Hostname(string_of(&t)))
    }

    pub fn as_str(&self) -> (r: &str)
        ensures
            r@ == self@,
    {
        self.0.as_str()
    }
}

// ---------------------------------------------------------------------------
// SessionMeta
// ---------------------------------------------------------------------------

/// The full, typed snapshot of a session — identity plus the facts the
/// daemon derives. Views render it as-is and never derive anything from it.
#[derive(Debug, Clone, PartialEq, Eq)]
pub struct SessionMeta {
    pub id: SessionId,
    pub name: Option<String>,
    /// Display string of the command (`args` joined).
    pub command: String,
    /// Exact argv.
    pub args: Command,
    pub cwd: String,
    /// The working copy the session runs in.
    pub workspace: WorkingCopy,
    pub created: u64,
    /// Machine the session lives on.
    pub host: Hostname,
    pub status: Status,
    /// Epoch ms of the last session output (0 = none yet).
    pub last_activity: u64,
    /// ANSI-stripped, one-lined tail of the output.
    pub last_output: String,
    /// Derived by the daemon from facts (status, exit code, idle).
    pub alert: Option<Alert>,
    /// Honest "is the session waiting for the human?": `None` = unknown.
    pub waiting_for_input: Option<bool>,
    /// Seconds since the session last produced output (0 = never).
    pub idle_secs: u64,
    /// Seconds since the session was created.
    pub age_secs: u64,
}

// ---------------------------------------------------------------------------
// Text helpers
// ---------------------------------------------------------------------------

/// Terminal-text conveniences shared by the host (output snippets) and the
/// clients.
pub trait TermStrExt {
    /// Strip ANSI escape sequences (CSI and OSC, best-effort).
    fn strip_ansi(&self) -> String;

    /// Truncate to `max` characters, adding a trailing ellipsis if cut.
    fn truncate(&self, max: usize) -> String;
}

impl TermStrExt for str {
    fn strip_ansi(&self) -> (r: String)
        ensures
            r@ == strip_ansi_spec(self@),
    {
        let cs = chars_of(self);
        string_of(&strip_ansi(&cs))
    }

    fn truncate(&self, max: usize) -> (r: String)
        ensures
            r@ == truncate_spec(self@, max as nat),
    {
        let cs = chars_of(self);
        string_of(&truncate(&cs, max))
    }
}

} // verus!
