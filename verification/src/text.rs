//! Character classes and terminal-text helpers: whitespace and control
//! classification, trimming, ANSI stripping, truncation and whitespace
//! collapsing. Strings are worked on as sequences of `char`.
use vstd::prelude::*;

verus! {

/// Unicode `White_Space`: the 25 code points that carry the property.
pub open spec fn is_ws(c: char) -> bool {
    let u = c as u32;
    ||| 0x9 <= u <= 0xd
    ||| u == 0x20
    ||| u == 0x85
    ||| u == 0xa0
    ||| u == 0x1680
    ||| 0x2000 <= u <= 0x200a
    ||| u == 0x2028
    ||| u == 0x2029
    ||| u == 0x202f
    ||| u == 0x205f
    ||| u == 0x3000
}

/// Unicode general category `Cc` (control codes).
pub open spec fn is_ctrl(c: char) -> bool {
    let u = c as u32;
    u <= 0x1f || (0x7f <= u && u <= 0x9f)
}

/// Whether `c` has the Unicode `White_Space` property.
pub fn is_whitespace(c: char) -> (r: bool)
    ensures
        r == is_ws(c),
{
    let u = c as u32;
    (0x9 <= u && u <= 0xd) || u == 0x20 || u == 0x85 || u == 0xa0 || u == 0x1680 || (0x2000 <= u
        && u <= 0x200a) || u == 0x2028 || u == 0x2029 || u == 0x202f || u == 0x205f || u == 0x3000
}

/// Whether `c` is a control code (general category `Cc`).
pub fn is_control(c: char) -> (r: bool)
    ensures
        r == is_ctrl(c),
{
    let u = c as u32;
    u <= 0x1f || (0x7f <= u && u <= 0x9f)
}

/// Appends one character to a string.
#[verifier::external_body]
pub(crate) fn push_char(s: &mut String, c: char)
    ensures
        final(s)@ == old(s)@.push(c),
{
    s.push(c)
}

/// The characters of a string slice.
pub fn chars_of(s: &str) -> (v: Vec<char>)
    ensures
        v@ == s@,
{
    let n = s.unicode_len();
    let mut v: Vec<char> = Vec::new();
    let mut i: usize = 0;
    while i < n
        invariant
            n == s@.len(),
            i <= n,
            v@ == s@.subrange(0, i as int),
        decreases n - i,
    {
        let c = s.get_char(i);
        v.push(c);
        i = i + 1;
        assert(v@ =~= s@.subrange(0, i as int));
    }
    assert(v@ =~= s@);
    v
}

/// A string holding the given characters.
pub fn string_of(v: &Vec<char>) -> (s: String)
    ensures
        s@ == v@,
{
    let mut s = String::new();
    let mut i: usize = 0;
    while i < v.len()
        invariant
            i <= v.len(),
            s@ == v@.subrange(0, i as int),
        decreases v.len() - i,
    {
        push_char(&mut s, v[i]);
        i = i + 1;
        assert(s@ =~= v@.subrange(0, i as int));
    }
    assert(v@ =~= v@.subrange(0, v.len() as int));
    s
}

/// A string holding the characters of a slice.
pub fn string_from(s: &str) -> (r: String)
    ensures
        r@ == s@,
{
    String::from_str(s)
}

/// Whether two string slices hold the same characters.
pub fn str_eq(a: &str, b: &str) -> (r: bool)
    ensures
        r == (a@ == b@),
{
    let x = chars_of(a);
    let y = chars_of(b);
    if x.len() != y.len() {
        return false;
    }
    let mut i: usize = 0;
    while i < x.len()
        invariant
            x@ == a@,
            y@ == b@,
            x.len() == y.len(),
            i <= x.len(),
            forall|k: int| 0 <= k < i ==> x@[k] == y@[k],
        decreases x.len() - i,
    {
        if x[i] != y[i] {
            return false;
        }
        i = i + 1;
    }
    assert(x@ =~= y@);
    true
}

/// Whether `s` starts with `prefix`.
pub open spec fn is_prefix(prefix: Seq<char>, s: Seq<char>) -> bool {
    prefix.len() <= s.len() && s.subrange(0, prefix.len() as int) == prefix
}

/// Whether `s` starts with `prefix`.
pub fn starts_with(s: &str, prefix: &str) -> (r: bool)
    ensures
        r == is_prefix(prefix@, s@),
{
    let x = chars_of(s);
    let p = chars_of(prefix);
    if p.len() > x.len() {
        return false;
    }
    let mut i: usize = 0;
    while i < p.len()
        invariant
            x@ == s@,
            p@ == prefix@,
            p.len() <= x.len(),
            i <= p.len(),
            forall|k: int| 0 <= k < i ==> x@[k] == p@[k],
        decreases p.len() - i,
    {
        if x[i] != p[i] {
            assert(s@.subrange(0, prefix@.len() as int)[i as int] == x@[i as int]);
            return false;
        }
        i = i + 1;
    }
    assert(s@.subrange(0, prefix@.len() as int) =~= prefix@);
    true
}

/// Whether some character of `s` satisfies the whitespace or control class.
pub open spec fn any_ws_or_ctrl(s: Seq<char>) -> bool {
    exists|k: int| 0 <= k < s.len() && (is_ws(#[trigger] s[k]) || is_ctrl(s[k]))
}

pub fn has_ws_or_ctrl(s: &Vec<char>) -> (r: bool)
    ensures
        r == any_ws_or_ctrl(s@),
{
    let mut i: usize = 0;
    while i < s.len()
        invariant
            i <= s.len(),
            forall|k: int| 0 <= k < i ==> !(is_ws(#[trigger] s@[k]) || is_ctrl(s@[k])),
        decreases s.len() - i,
    {
        if is_whitespace(s[i]) || is_control(s[i]) {
            return true;
        }
        i = i + 1;
    }
    false
}

// ---------------------------------------------------------------------------
// Trimming
// ---------------------------------------------------------------------------

/// Index of the first non-whitespace character at or after `i` (or `s.len()`).
pub open spec fn first_non_ws(s: Seq<char>, i: int) -> int
    decreases s.len() - i,
{
    if i >= s.len() {
        s.len() as int
    } else if is_ws(s[i]) {
        first_non_ws(s, i + 1)
    } else {
        i
    }
}

/// One past the last non-whitespace character before `j` (or `lo` when none).
pub open spec fn last_non_ws_end(s: Seq<char>, lo: int, j: int) -> int
    decreases j - lo,
{
    if j <= lo {
        lo
    } else if is_ws(s[j - 1]) {
        last_non_ws_end(s, lo, j - 1)
    } else {
        j
    }
}

/// `s` with leading and trailing whitespace removed.
pub open spec fn trim_spec(s: Seq<char>) -> Seq<char> {
    let a = first_non_ws(s, 0);
    s.subrange(a, last_non_ws_end(s, a, s.len() as int))
}

proof fn lemma_first_non_ws_range(s: Seq<char>, i: int)
    requires
        0 <= i <= s.len(),
    ensures
        i <= first_non_ws(s, i) <= s.len(),
    decreases s.len() - i,
{
    if i < s.len() && is_ws(s[i]) {
        lemma_first_non_ws_range(s, i + 1);
    }
}

proof fn lemma_last_non_ws_range(s: Seq<char>, lo: int, j: int)
    requires
        lo <= j,
    ensures
        lo <= last_non_ws_end(s, lo, j) <= j,
    decreases j - lo,
{
    if j > lo && is_ws(s[j - 1]) {
        lemma_last_non_ws_range(s, lo, j - 1);
    }
}

/// Remove leading and trailing whitespace.
pub fn trim(s: &Vec<char>) -> (r: Vec<char>)
    ensures
        r@ == trim_spec(s@),
{
    let mut a: usize = 0;
    while a < s.len() && is_whitespace(s[a])
        invariant
            a <= s.len(),
            first_non_ws(s@, a as int) == first_non_ws(s@, 0),
        decreases s.len() - a,
    {
        a = a + 1;
    }
    let mut b: usize = s.len();
    while b > a && is_whitespace(s[b - 1])
        invariant
            a <= b <= s.len(),
            last_non_ws_end(s@, a as int, b as int) == last_non_ws_end(
                s@,
                a as int,
                s.len() as int,
            ),
        decreases b - a,
    {
        b = b - 1;
    }
    let mut r: Vec<char> = Vec::new();
    let mut k: usize = a;
    while k < b
        invariant
            a <= k <= b <= s.len(),
            r@ == s@.subrange(a as int, k as int),
        decreases b - k,
    {
        r.push(s[k]);
        k = k + 1;
        assert(r@ =~= s@.subrange(a as int, k as int));
    }
    r
}

// ---------------------------------------------------------------------------
// ANSI stripping
// ---------------------------------------------------------------------------

pub open spec fn esc() -> char {
    '\u{1b}'
}

/// A CSI final byte: `@` through `~`.
pub open spec fn is_csi_final(c: char) -> bool {
    0x40 <= (c as u32) <= 0x7e
}

/// Where a CSI sequence whose parameters start at `i` ends: just past its
/// final byte, or the end of input.
fn csi_final(c: char) -> (r: bool)
    ensures
        r == is_csi_final(c),
{
    0x40 <= (c as u32) && (c as u32) <= 0x7e
}

pub open spec fn csi_end(s: Seq<char>, i: int) -> int
    decreases s.len() - i,
{
    if i >= s.len() {
        s.len() as int
    } else if is_csi_final(s[i]) {
        i + 1
    } else {
        csi_end(s, i + 1)
    }
}

/// Where an OSC sequence whose payload starts at `i` ends: just past BEL,
/// past `ESC \` (or a lone ESC), or the end of input.
pub open spec fn osc_end(s: Seq<char>, i: int) -> int
    decreases s.len() - i,
{
    if i >= s.len() {
        s.len() as int
    } else if s[i] == '\u{07}' {
        i + 1
    } else if s[i] == esc() {
        if i + 1 < s.len() && s[i + 1] == '\\' {
            i + 2
        } else {
            i + 1
        }
    } else {
        osc_end(s, i + 1)
    }
}

pub proof fn lemma_csi_end(s: Seq<char>, i: int)
    requires
        0 <= i <= s.len(),
    ensures
        i <= csi_end(s, i),
        i < s.len() ==> i < csi_end(s, i),
        csi_end(s, i) <= if i <= s.len() { s.len() as int } else { i },
    decreases s.len() - i,
{
    if i < s.len() && !is_csi_final(s[i]) {
        lemma_csi_end(s, i + 1);
    }
}

pub proof fn lemma_osc_end(s: Seq<char>, i: int)
    requires
        0 <= i <= s.len(),
    ensures
        i <= osc_end(s, i),
        i < s.len() ==> i < osc_end(s, i),
        osc_end(s, i) <= if i <= s.len() { s.len() as int } else { i },
    decreases s.len() - i,
{
    if i < s.len() && s[i] != '\u{07}' && s[i] != esc() {
        lemma_osc_end(s, i + 1);
    }
}

/// The text of `s` from position `i` with ANSI escape sequences removed:
/// CSI (`ESC [` .. final byte), OSC (`ESC ]` .. BEL or `ESC \`), and a lone
/// ESC together with the character after it.
pub open spec fn strip_from(s: Seq<char>, i: int) -> Seq<char>
    decreases s.len() - i,
{
    if i < 0 || i >= s.len() {
        Seq::empty()
    } else if s[i] == esc() {
        if i + 1 < s.len() && s[i + 1] == '[' {
            proof {
                lemma_csi_end(s, i + 2);
            }
            strip_from(s, csi_end(s, i + 2))
        } else if i + 1 < s.len() && s[i + 1] == ']' {
            proof {
                lemma_osc_end(s, i + 2);
            }
            strip_from(s, osc_end(s, i + 2))
        } else if i + 1 < s.len() {
            strip_from(s, i + 2)
        } else {
            Seq::empty()
        }
    } else {
        seq![s[i]] + strip_from(s, i + 1)
    }
}

pub open spec fn strip_ansi_spec(s: Seq<char>) -> Seq<char> {
    strip_from(s, 0)
}

/// Strip ANSI escape sequences (CSI and OSC, best-effort).
pub fn strip_ansi(s: &Vec<char>) -> (r: Vec<char>)
    ensures
        r@ == strip_ansi_spec(s@),
{
    let n = s.len();
    let mut out: Vec<char> = Vec::new();
    let mut i: usize = 0;
    while i < n
        invariant
            n == s.len(),
            i <= n,
            out@ + strip_from(s@, i as int) == strip_ansi_spec(s@),
        decreases n - i,
    {
        let c = s[i];
        if c == '\u{1b}' {
            if i + 1 < n && s[i + 1] == '[' {
                let mut j: usize = i + 2;
                proof {
                    lemma_csi_end(s@, i + 2);
                }
                while j < n && !csi_final(s[j])
                    invariant
                        n == s.len(),
                        i + 2 <= j <= n,
                        csi_end(s@, j as int) == csi_end(s@, i + 2),
                    decreases n - j,
                {
                    j = j + 1;
                }
                if j < n {
                    j = j + 1;
                }
                i = j;
            } else if i + 1 < n && s[i + 1] == ']' {
                let mut j: usize = i + 2;
                proof {
                    lemma_osc_end(s@, i + 2);
                }
                let mut done = false;
                while !done && j < n
                    invariant
                        n == s.len(),
                        i + 2 <= j <= n,
                        !done ==> osc_end(s@, j as int) == osc_end(s@, i + 2),
                        done ==> j as int == osc_end(s@, i + 2),
                    decreases n - j,
                {
                    let d = s[j];
                    if d == '\u{07}' {
                        j = j + 1;
                        done = true;
                    } else if d == '\u{1b}' {
                        if j + 1 < n && s[j + 1] == '\\' {
                            j = j + 2;
                        } else {
                            j = j + 1;
                        }
                        done = true;
                    } else {
                        j = j + 1;
                    }
                }
                i = j;
            } else {
                if i + 1 < n {
                    i = i + 2;
                } else {
                    i = n;
                }
            }
        } else {
            out.push(c);
            i = i + 1;
            assert(out@ + strip_from(s@, i as int) =~= (out@.drop_last()) + (seq![c] + strip_from(
                s@,
                i as int,
            )));
        }
    }
    assert(out@ =~= out@ + strip_from(s@, n as int));
    out
}

// ---------------------------------------------------------------------------
// Truncation and whitespace collapsing
// ---------------------------------------------------------------------------

/// Truncate to `max` characters, adding a trailing ellipsis if cut.
pub open spec fn truncate_spec(s: Seq<char>, max: nat) -> Seq<char> {
    if s.len() > max {
        s.subrange(0, max as int).push('\u{2026}')
    } else {
        s
    }
}

/// Truncate to `max` characters, adding a trailing ellipsis if cut.
pub fn truncate(s: &Vec<char>, max: usize) -> (r: Vec<char>)
    ensures
        r@ == truncate_spec(s@, max as nat),
{
    let mut r: Vec<char> = Vec::new();
    let mut i: usize = 0;
    while i < s.len() && i < max
        invariant
            i <= s.len(),
            i <= max,
            r@ == s@.subrange(0, i as int),
        decreases s.len() - i,
    {
        r.push(s[i]);
        i = i + 1;
        assert(r@ =~= s@.subrange(0, i as int));
    }
    if s.len() > max {
        r.push('\u{2026}');
    } else {
        assert(r@ =~= s@);
    }
    r
}

/// Whitespace runs collapse to one space; leading and trailing whitespace
/// disappears (the words of `s`, joined by single spaces). `pending` says a
/// separator is owed before the next word; `started` that a word was seen.
pub open spec fn collapse_from(s: Seq<char>, i: int, pending: bool, started: bool) -> Seq<
    char,
>
    decreases s.len() - i,
{
    if i < 0 || i >= s.len() {
        Seq::empty()
    } else if is_ws(s[i]) {
        collapse_from(s, i + 1, started, started)
    } else if pending {
        seq![' ', s[i]] + collapse_from(s, i + 1, false, true)
    } else {
        seq![s[i]] + collapse_from(s, i + 1, false, true)
    }
}

pub open spec fn collapse_ws_spec(s: Seq<char>) -> Seq<char> {
    collapse_from(s, 0, false, false)
}

/// The whitespace-separated words of `s`, joined by single spaces.
pub fn collapse_ws(s: &Vec<char>) -> (r: Vec<char>)
    ensures
        r@ == collapse_ws_spec(s@),
{
    let mut out: Vec<char> = Vec::new();
    let mut pending = false;
    let mut started = false;
    let mut i: usize = 0;
    while i < s.len()
        invariant
            i <= s.len(),
            out@ + collapse_from(s@, i as int, pending, started) == collapse_ws_spec(s@),
        decreases s.len() - i,
    {
        let c = s[i];
        if is_whitespace(c) {
            pending = started;
        } else {
            let ghost before = out@;
            if pending {
                out.push(' ');
            }
            out.push(c);
            assert(out@ + collapse_from(s@, i + 1, false, true) =~= before + collapse_from(
                s@,
                i as int,
                pending,
                started,
            ));
            pending = false;
            started = true;
        }
        i = i + 1;
    }
    assert(out@ =~= out@ + collapse_from(s@, s.len() as int, pending, started));
    out
}

// ---------------------------------------------------------------------------
// Lexicographic order
// ---------------------------------------------------------------------------

/// Lexicographic order by code point (the order of `str` / UTF-8 bytes).
pub open spec fn lex_lt(a: Seq<char>, b: Seq<char>) -> bool
    decreases a.len(),
{
    if a.len() == 0 {
        b.len() > 0
    } else if b.len() == 0 {
        false
    } else if a[0] != b[0] {
        a[0] < b[0]
    } else {
        lex_lt(a.drop_first(), b.drop_first())
    }
}

pub proof fn lemma_lex_irreflexive(a: Seq<char>)
    ensures
        !lex_lt(a, a),
    decreases a.len(),
{
    if a.len() > 0 {
        lemma_lex_irreflexive(a.drop_first());
    }
}

pub proof fn lemma_lex_total(a: Seq<char>, b: Seq<char>)
    ensures
        a == b || lex_lt(a, b) || lex_lt(b, a),
    decreases a.len(),
{
    if a.len() > 0 && b.len() > 0 {
        if a[0] == b[0] {
            lemma_lex_total(a.drop_first(), b.drop_first());
            if a.drop_first() == b.drop_first() {
                assert(a =~= seq![a[0]] + a.drop_first());
                assert(b =~= seq![b[0]] + b.drop_first());
            }
        }
    } else if a.len() == 0 && b.len() == 0 {
        assert(a =~= b);
    }
}

pub proof fn lemma_lex_asymmetric(a: Seq<char>, b: Seq<char>)
    ensures
        lex_lt(a, b) ==> !lex_lt(b, a),
    decreases a.len(),
{
    if a.len() > 0 && b.len() > 0 && a[0] == b[0] {
        lemma_lex_asymmetric(a.drop_first(), b.drop_first());
    }
}

pub proof fn lemma_lex_transitive(a: Seq<char>, b: Seq<char>, c: Seq<char>)
    requires
        lex_lt(a, b),
        lex_lt(b, c),
    ensures
        lex_lt(a, c),
    decreases a.len(),
{
    if a.len() > 0 && b.len() > 0 && c.len() > 0 {
        if a[0] == b[0] && b[0] == c[0] {
            lemma_lex_transitive(a.drop_first(), b.drop_first(), c.drop_first());
        }
    }
}

/// Whether `a` sorts strictly before `b`.
pub fn lex_less(a: &Vec<char>, b: &Vec<char>) -> (r: bool)
    ensures
        r == lex_lt(a@, b@),
{
    let mut i: usize = 0;
    assert(a@.subrange(0, a@.len() as int) =~= a@);
    assert(b@.subrange(0, b@.len() as int) =~= b@);
    while i < a.len() && i < b.len() && a[i] == b[i]
        invariant
            i <= a.len(),
            i <= b.len(),
            lex_lt(a@.subrange(i as int, a@.len() as int), b@.subrange(i as int, b@.len() as int))
                == lex_lt(a@, b@),
        decreases a.len() - i,
    {
        let ghost sa = a@.subrange(i as int, a@.len() as int);
        let ghost sb = b@.subrange(i as int, b@.len() as int);
        assert(sa.drop_first() =~= a@.subrange(i + 1, a@.len() as int));
        assert(sb.drop_first() =~= b@.subrange(i + 1, b@.len() as int));
        i = i + 1;
    }
    let ghost sa = a@.subrange(i as int, a@.len() as int);
    let ghost sb = b@.subrange(i as int, b@.len() as int);
    proof {
        assert(a@.subrange(0, a@.len() as int) =~= a@);
        assert(b@.subrange(0, b@.len() as int) =~= b@);
    }
    if i == a.len() {
        i < b.len()
    } else if i == b.len() {
        false
    } else {
        assert(sa[0] == a@[i as int]);
        assert(sb[0] == b@[i as int]);
        a[i] < b[i]
    }
}

// ---------------------------------------------------------------------------
// Whitespace splitting
// ---------------------------------------------------------------------------

/// The whitespace-separated words of `s` from position `i`, with the words
/// so far and the word being built.
pub open spec fn ws_split_from(s: Seq<char>, i: int, words: Seq<Seq<char>>, cur: Seq<char>) -> Seq<
    Seq<char>,
>
    decreases s.len() - i,
{
    if i < 0 || i >= s.len() {
        if cur.len() > 0 {
            words.push(cur)
        } else {
            words
        }
    } else if is_ws(s[i]) {
        if cur.len() > 0 {
            ws_split_from(s, i + 1, words.push(cur), Seq::empty())
        } else {
            ws_split_from(s, i + 1, words, cur)
        }
    } else {
        ws_split_from(s, i + 1, words, cur.push(s[i]))
    }
}

/// The whitespace-separated words of `s`.
pub open spec fn split_ws_spec(s: Seq<char>) -> Seq<Seq<char>> {
    ws_split_from(s, 0, Seq::empty(), Seq::empty())
}

/// The characters of each string, in order.
pub open spec fn strings_seq(v: Seq<String>) -> Seq<Seq<char>> {
    Seq::new(v.len(), |i: int| v[i]@)
}

/// Split on whitespace.
pub fn split_whitespace(s: &str) -> (r: Vec<String>)
    ensures
        strings_seq(r@) == split_ws_spec(s@),
{
    let cs = chars_of(s);
    let mut words: Vec<String> = Vec::new();
    let mut cur: Vec<char> = Vec::new();
    let mut i: usize = 0;
    assert(strings_seq(words@) =~= Seq::<Seq<char>>::empty());
    while i < cs.len()
        invariant
            cs@ == s@,
            i <= cs.len(),
            ws_split_from(cs@, i as int, strings_seq(words@), cur@) == split_ws_spec(s@),
        decreases cs.len() - i,
    {
        let c = cs[i];
        if is_whitespace(c) {
            if cur.len() > 0 {
                let w = string_of(&cur);
                let ghost old_words = words@;
                words.push(w);
                assert(strings_seq(words@) =~= strings_seq(old_words).push(cur@));
                cur = Vec::new();
            }
        } else {
            cur.push(c);
        }
        i = i + 1;
    }
    if cur.len() > 0 {
        let w = string_of(&cur);
        let ghost old_words = words@;
        words.push(w);
        assert(strings_seq(words@) =~= strings_seq(old_words).push(cur@));
    }
    words
}

/// A copy of a list of strings.
pub fn copy_strings(v: &[String]) -> (r: Vec<String>)
    ensures
        r@ == v@,
{
    let mut out: Vec<String> = Vec::new();
    let mut i: usize = 0;
    while i < v.len()
        invariant
            i <= v.len(),
            out@ == v@.take(i as int),
        decreases v.len() - i,
    {
        out.push(v[i].clone());
        assert(v@.take(i + 1) =~= v@.take(i as int).push(v@[i as int]));
        i = i + 1;
    }
    assert(v@.take(v.len() as int) =~= v@);
    out
}

} // verus!
