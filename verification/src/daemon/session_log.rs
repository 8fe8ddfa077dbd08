//! The session's event log: its on-disk line format (JSONL, base64 output,
//! a CRC-32 over each line), the reader that rebuilds a log from a file's
//! text, the output snippet, and the in-memory ring with its sequence.
use std::collections::VecDeque;

use base64::Engine;
use vstd::prelude::*;

use crate::decimal::{
    canonical_decimal, lemma_decimal_canonical, parse_decimal, push_signed, signed_decimal_spec,
};
use crate::error::{decimal_spec, push_decimal, push_str};
use crate::event::{EventKind, KindView, SessionEvent};
use crate::text::{
    chars_of, collapse_ws, collapse_ws_spec, push_char, starts_with, str_eq, string_from,
    string_of, strip_ansi, strip_ansi_spec, truncate, truncate_spec,
};
use crate::types::{SessionId, Status, status_name_spec};

verus! {

/// Max entries kept in the in-memory log (ring buffer).
pub const LOG_CAP: usize = 20000;

/// The longest output snippet, in characters.
pub const SNIPPET_MAX: usize = 64;

// ---------------------------------------------------------------------------
// Outside computations
// ---------------------------------------------------------------------------

/// What `String::from_utf8_lossy` makes of some bytes.
pub uninterp spec fn utf8_lossy(bytes: Seq<u8>) -> Seq<char>;

/// The text of some bytes, invalid UTF-8 replaced by U+FFFD
/// (`String::from_utf8_lossy`); the result is named, not described.
#[verifier::external_body]
pub(crate) fn lossy_text(bytes: &[u8]) -> (r: String)
    ensures
        r@ == utf8_lossy(bytes@),
{
    String::from_utf8_lossy(bytes).into_owned()
}

/// The CRC-32 (IEEE) of a text's UTF-8 bytes, as `crc32fast::hash` computes it.
pub uninterp spec fn crc32_of(text: Seq<char>) -> u32;

/// `crc32fast::hash` over a text's UTF-8 bytes; the checksum is named, not
/// described.
#[verifier::external_body]
fn crc32_text(text: &str) -> (r: u32)
    ensures
        r == crc32_of(text@),
{
    crc32fast::hash(text.as_bytes())
}

/// The standard, padded base64 text of some bytes.
pub uninterp spec fn base64_of(bytes: Seq<u8>) -> Seq<char>;

/// The bytes a standard, padded base64 text decodes to (`None` when it is
/// not valid base64).
pub uninterp spec fn base64_decoded(text: Seq<char>) -> Option<Seq<u8>>;

/// A character of the standard base64 alphabet, padding included.
pub open spec fn is_base64_char(c: char) -> bool {
    ('A' <= c && c <= 'Z') || ('a' <= c && c <= 'z') || ('0' <= c && c <= '9') || c == '+' || c
        == '/' || c == '='
}

/// `base64::engine::general_purpose::STANDARD.encode`: the text is named;
/// of it, only that it is written in the standard alphabet (`A`-`Z`,
/// `a`-`z`, `0`-`9`, `+`, `/`, `=` padding) is stated. It panics only when
/// the encoded length overflows `usize`, which the bound on the input rules
/// out.
#[verifier::external_body]
fn b64_encode(bytes: &[u8]) -> (r: String)
    requires
        bytes@.len() <= usize::MAX / 2,
    ensures
        r@ == base64_of(bytes@),
        forall|k: int| 0 <= k < r@.len() ==> is_base64_char(#[trigger] r@[k]),
{
    base64::engine::general_purpose::STANDARD.encode(bytes)
}

/// `base64::engine::general_purpose::STANDARD.decode`, its error dropped:
/// the result is named; of it, only that the encoding of some bytes decodes
/// back to them is stated.
#[verifier::external_body]
fn b64_decode(text: &str) -> (r: Option<Vec<u8>>)
    ensures
        match r {
            Some(v) => base64_decoded(text@) == Some(v@),
            None => base64_decoded(text@) is None,
        },
        forall|b: Seq<u8>| #[trigger] base64_of(b) == text@ ==> r is Some && r->0@ == b,
{
    base64::engine::general_purpose::STANDARD.decode(text).ok()
}

// ---------------------------------------------------------------------------
// The output snippet
// ---------------------------------------------------------------------------

/// What an output chunk says, on one line: its text, ANSI-stripped,
/// whitespace runs collapsed to single spaces, cut to [`SNIPPET_MAX`].
pub open spec fn snippet_spec(bytes: Seq<u8>) -> Seq<char> {
    truncate_spec(collapse_ws_spec(strip_ansi_spec(utf8_lossy(bytes))), SNIPPET_MAX as nat)
}

/// The session's most recent output, ANSI-stripped and collapsed to one line.
pub fn output_snippet(bytes: &[u8]) -> (r: String)
    ensures
        r@ == snippet_spec(bytes@),
{
    let raw = lossy_text(bytes);
    let cs = chars_of(raw.as_str());
    let clean = strip_ansi(&cs);
    let one_line = collapse_ws(&clean);
    string_of(&truncate(&one_line, SNIPPET_MAX))
}

// ---------------------------------------------------------------------------
// The line format
// ---------------------------------------------------------------------------

/// `{"exited":`, the opening of an exit status in JSON.
pub open spec fn exited_open() -> Seq<char> {
    seq!['{', '"', 'e', 'x', 'i', 't', 'e', 'd', '"', ':']
}

/// A status as JSON: its name in quotes, or `{"exited":code}` with the code
/// or `null`.
pub open spec fn status_json_spec(st: Status) -> Seq<char> {
    match st {
        Status::Exited(Some(c)) => exited_open() + signed_decimal_spec(c as int) + seq!['}'],
        Status::Exited(None) => exited_open() + seq!['n', 'u', 'l', 'l', '}'],
        _ => seq!['"'] + status_name_spec(st) + seq!['"'],
    }
}

/// A unit status in map form, `{"name":null}`, which a JSON reader also
/// takes for it.
pub open spec fn unit_map_json(st: Status) -> Seq<char> {
    seq!['{', '"'] + status_name_spec(st) + seq!['"', ':', 'n', 'u', 'l', 'l', '}']
}

/// `s` is JSON text that reads as status `st`.
pub open spec fn status_json_reads_as(s: Seq<char>, st: Status) -> bool {
    s == status_json_spec(st) || (!(st is Exited) && s == unit_map_json(st))
}

/// The status a JSON text reads as, if any.
pub open spec fn status_of_json(s: Seq<char>) -> Option<Status> {
    if exists|st: Status| status_json_reads_as(s, st) {
        Some(choose|st: Status| status_json_reads_as(s, st))
    } else {
        None
    }
}

/// Append a status as JSON.
pub fn push_status_json(out: &mut String, st: Status)
    ensures
        final(out)@ == old(out)@ + status_json_spec(st),
{
    proof {
        reveal_strlit("{\"exited\":");
        reveal_strlit("}");
        reveal_strlit("{\"exited\":null}");
        reveal_strlit("\"");
    }
    match st {
        Status::Exited(Some(c)) => {
            push_str(out, "{\"exited\":");
            push_signed(out, c as i64);
            push_str(out, "}");
        },
        Status::Exited(None) => {
            push_str(out, "{\"exited\":null}");
        },
        _ => {
            push_str(out, "\"");
            push_str(out, st.name());
            push_str(out, "\"");
        },
    }
    proof {
        assert(out@ =~= old(out)@ + status_json_spec(st));
    }
}

/// The fields of a log line after its opening brace, `crc` aside, in key
/// order: `data`, `kind`, `seq`, `ts` for output; `kind`, `seq`, `status`,
/// `ts` for a status change.
pub open spec fn line_fields_spec(seq: u64, ts: u64, kind: KindView) -> Seq<char> {
    match kind {
        KindView::Output(bytes) => "\"data\":\""@ + base64_of(bytes) + "\",\"kind\":\"output\",\"seq\":"@
            + decimal_spec(seq as nat) + ",\"ts\":"@ + decimal_spec(ts as nat) + "}"@,
        KindView::Status(st) => "\"kind\":\"status\",\"seq\":"@ + decimal_spec(seq as nat)
            + ",\"status\":"@ + status_json_spec(st) + ",\"ts\":"@ + decimal_spec(ts as nat)
            + "}"@,
    }
}

/// A log line without its checksum: the JSON object the checksum covers.
pub open spec fn unsigned_line_spec(seq: u64, ts: u64, kind: KindView) -> Seq<char> {
    "{"@ + line_fields_spec(seq, ts, kind)
}

/// The text of one line of `events.log`: the object with its `crc` (over
/// the object without it) as first key.
pub open spec fn line_text(seq: u64, ts: u64, kind: KindView) -> Seq<char> {
    "{\"crc\":"@ + decimal_spec(crc32_of(unsigned_line_spec(seq, ts, kind)) as nat) + ","@
        + line_fields_spec(seq, ts, kind)
}

/// One line of `events.log`, newline included.
pub open spec fn log_line_spec(seq: u64, ts: u64, kind: KindView) -> Seq<char> {
    line_text(seq, ts, kind) + "\n"@
}

/// No newline anywhere in a text.
pub open spec fn no_newline(s: Seq<char>) -> bool {
    forall|k: int| 0 <= k < s.len() ==> #[trigger] s[k] != '\n'
}

proof fn lemma_no_newline_concat(a: Seq<char>, b: Seq<char>)
    requires
        no_newline(a),
        no_newline(b),
    ensures
        no_newline(a + b),
{
    assert forall|k: int| 0 <= k < (a + b).len() implies #[trigger] (a + b)[k] != '\n' by {
        if k < a.len() {
            assert((a + b)[k] == a[k]);
        } else {
            assert((a + b)[k] == b[k - a.len()]);
        }
    }
}

proof fn lemma_decimal_no_newline(n: nat)
    ensures
        no_newline(decimal_spec(n)),
{
    lemma_decimal_canonical(n);
    assert forall|k: int| 0 <= k < decimal_spec(n).len() implies #[trigger] decimal_spec(n)[k] != '\n' by {
        assert(crate::decimal::is_digit(decimal_spec(n)[k]));
    }
}

proof fn lemma_status_json_no_newline(st: Status)
    ensures
        no_newline(status_json_spec(st)),
{
    match st {
        Status::Exited(Some(c)) => {
            let n: nat = if c < 0 { (-c) as nat } else { c as nat };
            lemma_decimal_no_newline(n);
            lemma_no_newline_concat(seq!['-'], decimal_spec(n));
            lemma_no_newline_concat(exited_open(), signed_decimal_spec(c as int));
            lemma_no_newline_concat(exited_open() + signed_decimal_spec(c as int), seq!['}']);
        },
        Status::Exited(None) => {
            lemma_no_newline_concat(exited_open(), seq!['n', 'u', 'l', 'l', '}']);
        },
        _ => {
            lemma_no_newline_concat(seq!['"'], status_name_spec(st));
            lemma_no_newline_concat(seq!['"'] + status_name_spec(st), seq!['"']);
        },
    }
}

/// The line written for an event holds no newline and ends in `}`, given
/// that base64 text is written in its alphabet.
proof fn lemma_line_text_plain(seq: u64, ts: u64, kind: KindView)
    requires
        kind matches KindView::Output(b) ==> forall|k: int|
            0 <= k < base64_of(b).len() ==> is_base64_char(#[trigger] base64_of(b)[k]),
    ensures
        no_newline(line_text(seq, ts, kind)),
        line_text(seq, ts, kind).last() == '}',
{
    reveal_strlit("\"data\":\"");
    reveal_strlit("\",\"kind\":\"output\",\"seq\":");
    reveal_strlit(",\"ts\":");
    reveal_strlit("}");
    reveal_strlit("\"kind\":\"status\",\"seq\":");
    reveal_strlit(",\"status\":");
    reveal_strlit("{\"crc\":");
    reveal_strlit(",");
    lemma_decimal_no_newline(seq as nat);
    lemma_decimal_no_newline(ts as nat);
    let fields = line_fields_spec(seq, ts, kind);
    match kind {
        KindView::Output(b) => {
            let b64 = base64_of(b);
            assert(no_newline(b64)) by {
                assert forall|k: int| 0 <= k < b64.len() implies #[trigger] b64[k] != '\n' by {
                    assert(is_base64_char(b64[k]));
                }
            }
            let p1 = "\"data\":\""@;
            let p2 = "\",\"kind\":\"output\",\"seq\":"@;
            let p3 = ",\"ts\":"@;
            let p4 = "}"@;
            assert(no_newline(p1));
            assert(no_newline(p2));
            assert(no_newline(p3));
            assert(no_newline(p4));
            lemma_no_newline_concat(p1, b64);
            lemma_no_newline_concat(p1 + b64, p2);
            lemma_no_newline_concat(p1 + b64 + p2, decimal_spec(seq as nat));
            lemma_no_newline_concat(p1 + b64 + p2 + decimal_spec(seq as nat), p3);
            lemma_no_newline_concat(p1 + b64 + p2 + decimal_spec(seq as nat) + p3, decimal_spec(ts as nat));
            lemma_no_newline_concat(
                p1 + b64 + p2 + decimal_spec(seq as nat) + p3 + decimal_spec(ts as nat),
                p4,
            );
        },
        KindView::Status(st) => {
            lemma_status_json_no_newline(st);
            let p1 = "\"kind\":\"status\",\"seq\":"@;
            let p2 = ",\"status\":"@;
            let p3 = ",\"ts\":"@;
            let p4 = "}"@;
            assert(no_newline(p1));
            assert(no_newline(p2));
            assert(no_newline(p3));
            assert(no_newline(p4));
            lemma_no_newline_concat(p1, decimal_spec(seq as nat));
            lemma_no_newline_concat(p1 + decimal_spec(seq as nat), p2);
            lemma_no_newline_concat(p1 + decimal_spec(seq as nat) + p2, status_json_spec(st));
            lemma_no_newline_concat(p1 + decimal_spec(seq as nat) + p2 + status_json_spec(st), p3);
            lemma_no_newline_concat(
                p1 + decimal_spec(seq as nat) + p2 + status_json_spec(st) + p3,
                decimal_spec(ts as nat),
            );
            lemma_no_newline_concat(
                p1 + decimal_spec(seq as nat) + p2 + status_json_spec(st) + p3 + decimal_spec(ts as nat),
                p4,
            );
        },
    }
    let c = decimal_spec(crc32_of(unsigned_line_spec(seq, ts, kind)) as nat);
    lemma_decimal_no_newline(crc32_of(unsigned_line_spec(seq, ts, kind)) as nat);
    let q1 = "{\"crc\":"@;
    let q2 = ","@;
    assert(no_newline(q1));
    assert(no_newline(q2));
    lemma_no_newline_concat(q1, c);
    lemma_no_newline_concat(q1 + c, q2);
    lemma_no_newline_concat(q1 + c + q2, fields);
}

/// An output chunk small enough to encode.
pub open spec fn encodable(kind: EventKind) -> bool {
    kind matches EventKind::Output(b) ==> b@.len() <= usize::MAX / 2
}

/// The line fields of one event.
fn line_fields(seq: u64, ts: u64, kind: &EventKind) -> (r: String)
    requires
        encodable(*kind),
    ensures
        r@ == line_fields_spec(seq, ts, kind@),
        kind@ matches KindView::Output(b) ==> forall|k: int|
            0 <= k < base64_of(b).len() ==> is_base64_char(#[trigger] base64_of(b)[k]),
{
    let mut s = String::new();
    match kind {
        EventKind::Output(bytes) => {
            push_str(&mut s, "\"data\":\"");
            let b = b64_encode(bytes.as_slice());
            push_str(&mut s, b.as_str());
            push_str(&mut s, "\",\"kind\":\"output\",\"seq\":");
            push_decimal(&mut s, seq);
            push_str(&mut s, ",\"ts\":");
            push_decimal(&mut s, ts);
            push_str(&mut s, "}");
        },
        EventKind::Status(st) => {
            push_str(&mut s, "\"kind\":\"status\",\"seq\":");
            push_decimal(&mut s, seq);
            push_str(&mut s, ",\"status\":");
            push_status_json(&mut s, *st);
            push_str(&mut s, ",\"ts\":");
            push_decimal(&mut s, ts);
            push_str(&mut s, "}");
        },
    }
    proof {
        assert(s@ =~= line_fields_spec(seq, ts, kind@));
    }
    s
}

/// One checksummed line of `events.log`, newline included.
pub fn log_line(seq: u64, ts: u64, kind: &EventKind) -> (r: String)
    requires
        encodable(*kind),
    ensures
        r@ == log_line_spec(seq, ts, kind@),
        plain_line(line_text(seq, ts, kind@)),
{
    let fields = line_fields(seq, ts, kind);
    let mut unsigned = String::new();
    push_str(&mut unsigned, "{");
    push_str(&mut unsigned, fields.as_str());
    let crc = crc32_text(unsigned.as_str());
    let mut line = String::new();
    push_str(&mut line, "{\"crc\":");
    push_decimal(&mut line, crc as u64);
    push_str(&mut line, ",");
    push_str(&mut line, fields.as_str());
    push_str(&mut line, "\n");
    proof {
        assert(unsigned@ =~= unsigned_line_spec(seq, ts, kind@));
        assert(line@ =~= log_line_spec(seq, ts, kind@));
        lemma_line_text_plain(seq, ts, kind@);
    }
    line
}

/// Lines joined into a text, each followed by a newline.
pub open spec fn joined_lines(lines: Seq<Seq<char>>) -> Seq<char>
    decreases lines.len(),
{
    if lines.len() == 0 {
        Seq::empty()
    } else {
        lines[0] + seq!['\n'] + joined_lines(lines.drop_first())
    }
}

/// A line that reads back as itself once joined: no newline in it, no
/// carriage return at its end.
pub open spec fn plain_line(l: Seq<char>) -> bool {
    no_newline(l) && (l.len() == 0 || l.last() != '\r')
}

// ---------------------------------------------------------------------------
// Reading a status back
// ---------------------------------------------------------------------------

/// The first character of each status name tells the statuses apart.
proof fn lemma_status_initials(a: Status, b: Status)
    requires
        status_name_spec(a)[0] == status_name_spec(b)[0],
    ensures
        (a is Exited) == (b is Exited),
        !(a is Exited) ==> a == b,
{
}

/// The text of a signed integer determines it.
pub proof fn lemma_signed_decimal_injective(a: int, b: int)
    requires
        signed_decimal_spec(a) == signed_decimal_spec(b),
    ensures
        a == b,
{
    lemma_decimal_canonical(if a < 0 { (-a) as nat } else { a as nat });
    lemma_decimal_canonical(if b < 0 { (-b) as nat } else { b as nat });
    let sa = signed_decimal_spec(a);
    if a < 0 && b < 0 {
        assert(sa.drop_first() == decimal_spec((-a) as nat));
        assert(sa.drop_first() == decimal_spec((-b) as nat));
        crate::decimal::lemma_decimal_injective((-a) as nat, (-b) as nat);
    } else if a >= 0 && b >= 0 {
        crate::decimal::lemma_decimal_injective(a as nat, b as nat);
    } else if a < 0 {
        assert(sa[0] == '-');
        assert(crate::decimal::is_digit(decimal_spec(b as nat)[0]));
    } else {
        assert(signed_decimal_spec(b)[0] == '-');
        assert(crate::decimal::is_digit(decimal_spec(a as nat)[0]));
    }
}

/// What is between `{"exited":` and the closing brace.
pub open spec fn exited_middle(s: Seq<char>) -> Seq<char> {
    s.subrange(10, s.len() - 1)
}

proof fn lemma_exited_middle(m: Seq<char>)
    ensures
        exited_middle(exited_open() + m + seq!['}']) == m,
        (exited_open() + m + seq!['}']).len() == m.len() + 11,
        (exited_open() + m + seq!['}'])[0] == '{',
        (exited_open() + m + seq!['}'])[2] == 'e',
{
    assert(exited_middle(exited_open() + m + seq!['}']) =~= m);
}

/// No two statuses read from the same JSON text.
pub proof fn lemma_status_json_unique(s: Seq<char>, a: Status, b: Status)
    requires
        status_json_reads_as(s, a),
        status_json_reads_as(s, b),
    ensures
        a == b,
{
    // Quoted names open with `"`; map forms and exit statuses with `{`, and
    // the character after the next quote is the name's first.
    let qa = s == status_json_spec(a) && !(a is Exited);
    let qb = s == status_json_spec(b) && !(b is Exited);
    if a is Exited {
        let ma = match a {
            Status::Exited(Some(c)) => signed_decimal_spec(c as int),
            _ => seq!['n', 'u', 'l', 'l'],
        };
        lemma_exited_middle(ma);
        assert(s == exited_open() + ma + seq!['}']);
    }
    if b is Exited {
        let mb = match b {
            Status::Exited(Some(c)) => signed_decimal_spec(c as int),
            _ => seq!['n', 'u', 'l', 'l'],
        };
        lemma_exited_middle(mb);
        assert(s == exited_open() + mb + seq!['}']);
    }
    if !(a is Exited) {
        if qa {
            assert(s[0] == '"');
            assert(s[1] == status_name_spec(a)[0]);
        } else {
            assert(s[0] == '{');
            assert(s[2] == status_name_spec(a)[0]);
        }
    }
    if !(b is Exited) {
        if qb {
            assert(s[0] == '"');
            assert(s[1] == status_name_spec(b)[0]);
        } else {
            assert(s[0] == '{');
            assert(s[2] == status_name_spec(b)[0]);
        }
    }
    if !(a is Exited) && !(b is Exited) {
        if qa == qb {
            lemma_status_initials(a, b);
        }
    } else if a is Exited && b is Exited {
        match (a, b) {
            (Status::Exited(Some(x)), Status::Exited(Some(y))) => {
                lemma_exited_middle(signed_decimal_spec(x as int));
                lemma_exited_middle(signed_decimal_spec(y as int));
                lemma_signed_decimal_injective(x as int, y as int);
            },
            (Status::Exited(Some(x)), Status::Exited(None)) => {
                let m = signed_decimal_spec(x as int);
                lemma_exited_middle(m);
                lemma_exited_middle(seq!['n', 'u', 'l', 'l']);
                lemma_decimal_canonical(if x < 0 { (-x) as nat } else { x as nat });
                assert(m[0] == 'n');
            },
            (Status::Exited(None), Status::Exited(Some(y))) => {
                let m = signed_decimal_spec(y as int);
                lemma_exited_middle(m);
                lemma_exited_middle(seq!['n', 'u', 'l', 'l']);
                lemma_decimal_canonical(if y < 0 { (-y) as nat } else { y as nat });
                assert(m[0] == 'n');
            },
            _ => {},
        }
    }
}

/// Whether `s` is unit status `st` in its quoted or map form.
fn unit_status_text(s: &str, st: Status) -> (r: bool)
    requires
        !(st is Exited),
    ensures
        r == (s@ == status_json_spec(st) || s@ == unit_map_json(st)),
{
    let mut quoted = String::new();
    push_status_json(&mut quoted, st);
    let mut map = String::new();
    proof {
        reveal_strlit("{\"");
        reveal_strlit("\":null}");
    }
    push_str(&mut map, "{\"");
    push_str(&mut map, st.name());
    push_str(&mut map, "\":null}");
    proof {
        assert(quoted@ =~= status_json_spec(st));
        assert(map@ =~= unit_map_json(st));
    }
    str_eq(s, quoted.as_str()) || str_eq(s, map.as_str())
}

/// Read a status back from its JSON text: `Some` exactly when the text
/// reads as a status.
pub fn parse_status_json(s: &str) -> (r: Option<Status>)
    ensures
        r == status_of_json(s@),
{
    let r = parse_status_json_inner(s);
    proof {
        match r {
            Some(st) => {
                assert forall|x: Status| status_json_reads_as(s@, x) implies x == st by {
                    lemma_status_json_unique(s@, x, st);
                }
            },
            None => {},
        }
    }
    r
}

fn parse_status_json_inner(s: &str) -> (r: Option<Status>)
    ensures
        match r {
            Some(st) => status_json_reads_as(s@, st),
            None => forall|st: Status| !status_json_reads_as(s@, st),
        },
{
    if unit_status_text(s, Status::Preparing) {
        return Some(Status::Preparing);
    }
    if unit_status_text(s, Status::Starting) {
        return Some(Status::Starting);
    }
    if unit_status_text(s, Status::Running) {
        return Some(Status::Running);
    }
    if unit_status_text(s, Status::Interrupted) {
        return Some(Status::Interrupted);
    }
    if unit_status_text(s, Status::Damaged) {
        return Some(Status::Damaged);
    }
    if unit_status_text(s, Status::Moved) {
        return Some(Status::Moved);
    }
    proof {
        assert forall|st: Status| !(st is Exited) implies !status_json_reads_as(s@, st) by {
            match st {
                Status::Preparing => {},
                Status::Starting => {},
                Status::Running => {},
                Status::Interrupted => {},
                Status::Damaged => {},
                Status::Moved => {},
                _ => {},
            }
        }
    }
    parse_exited_json(s)
}

/// An exit status's text between `{"exited":` and `}`, when `s` has that
/// shape.
fn exited_text(s: &str) -> (r: Option<Vec<char>>)
    ensures
        match r {
            Some(m) => s@ == exited_open() + m@ + seq!['}'],
            None => forall|m: Seq<char>| s@ != exited_open() + m + seq!['}'],
        },
{
    let cs = chars_of(s);
    let n = cs.len();
    if n < 11 || cs[n - 1] != '}' {
        proof {
            assert forall|m: Seq<char>| s@ != exited_open() + m + seq!['}'] by {
                lemma_exited_middle(m);
            }
        }
        return None;
    }
    let mut k: usize = 0;
    let open = ['{', '"', 'e', 'x', 'i', 't', 'e', 'd', '"', ':'];
    assert(open@ =~= exited_open());
    while k < 10
        invariant
            k <= 10,
            n == cs@.len(),
            n >= 11,
            cs@ == s@,
            open@ == exited_open(),
            forall|j: int| 0 <= j < k ==> cs@[j] == exited_open()[j],
        decreases 10 - k,
    {
        if cs[k] != open[k] {
            proof {
                assert(cs@[k as int] != exited_open()[k as int]);
                assert forall|m: Seq<char>| s@ != exited_open() + m + seq!['}'] by {
                    if s@ == exited_open() + m + seq!['}'] {
                        let a = exited_open() + m;
                        assert(a[k as int] == exited_open()[k as int]);
                        assert((a + seq!['}'])[k as int] == a[k as int]);
                        assert(s@[k as int] == cs@[k as int]);
                    }
                }
            }
            return None;
        }
        k = k + 1;
    }
    let mut middle: Vec<char> = Vec::new();
    let mut j: usize = 10;
    while j < n - 1
        invariant
            10 <= j <= n - 1,
            n == cs@.len(),
            cs@ == s@,
            cs@[n - 1] == '}',
            forall|i: int| 0 <= i < 10 ==> cs@[i] == exited_open()[i],
            middle@ == cs@.subrange(10, j as int),
        decreases n - 1 - j,
    {
        middle.push(cs[j]);
        j = j + 1;
        assert(middle@ =~= cs@.subrange(10, j as int));
    }
    proof {
        assert(s@ =~= exited_open() + middle@ + seq!['}']);
    }
    Some(middle)
}

/// Read an exit status from its JSON text.
fn parse_exited_json(s: &str) -> (r: Option<Status>)
    requires
        forall|st: Status| !(st is Exited) ==> !status_json_reads_as(s@, st),
    ensures
        match r {
            Some(st) => status_json_reads_as(s@, st),
            None => forall|st: Status| !status_json_reads_as(s@, st),
        },
{
    let middle = match exited_text(s) {
        Some(m) => m,
        None => {
            proof {
                assert forall|st: Status| (st is Exited) implies !status_json_reads_as(s@, st) by {
                    match st {
                        Status::Exited(Some(c)) => {
                            assert(s@ != exited_open() + signed_decimal_spec(c as int) + seq!['}']);
                        },
                        _ => {
                            assert(s@ != exited_open() + seq!['n', 'u', 'l', 'l'] + seq!['}']);
                            assert(exited_open() + seq!['n', 'u', 'l', 'l'] + seq!['}'] =~= exited_open()
                                + seq!['n', 'u', 'l', 'l', '}']);
                        },
                    }
                }
            }
            return None;
        },
    };
    let ghost mid = middle@;
    proof {
        lemma_exited_middle(mid);
        assert forall|m: Seq<char>| s@ == exited_open() + m + seq!['}'] implies m == mid by {
            lemma_exited_middle(m);
        }
    }
    if middle.len() == 4 && middle[0] == 'n' && middle[1] == 'u' && middle[2] == 'l' && middle[3]
        == 'l' {
        assert(mid =~= seq!['n', 'u', 'l', 'l']);
        assert(s@ =~= status_json_spec(Status::Exited(None)));
        return Some(Status::Exited(None));
    }
    let negative = middle.len() > 0 && middle[0] == '-';
    let start: usize = if negative {
        1
    } else {
        0
    };
    let mut digits: Vec<char> = Vec::new();
    let mut d: usize = start;
    while d < middle.len()
        invariant
            start <= d <= middle.len(),
            start == (if negative { 1usize } else { 0usize }),
            negative ==> middle.len() > 0,
            digits@ == middle@.subrange(start as int, d as int),
        decreases middle.len() - d,
    {
        digits.push(middle[d]);
        d = d + 1;
        assert(digits@ =~= middle@.subrange(start as int, d as int));
    }
    let parsed = parse_decimal(digits.as_slice());
    proof {
        if negative {
            assert(mid =~= seq!['-'] + digits@);
        } else {
            assert(mid =~= digits@);
        }
    }
    match parsed {
        Some(v) => {
            if negative && 1 <= v && v <= 2147483648 {
                let c: i32 = (0i64 - v as i64) as i32;
                proof {
                    assert(signed_decimal_spec(c as int) =~= seq!['-'] + decimal_spec(v as nat));
                }
                return Some(Status::Exited(Some(c)));
            } else if !negative && v <= 2147483647 {
                let c: i32 = v as i32;
                return Some(Status::Exited(Some(c)));
            }
        },
        None => {},
    }
    proof {
        assert forall|st: Status| (st is Exited) implies !status_json_reads_as(s@, st) by {
            match st {
                Status::Exited(Some(c)) => {
                    let m = signed_decimal_spec(c as int);
                    if s@ == exited_open() + m + seq!['}'] {
                        assert(m == mid);
                        if c < 0 {
                            lemma_decimal_canonical((-c) as nat);
                            assert(digits@ =~= decimal_spec((-c) as nat));
                            let w: u64 = (-c) as u64;
                            assert(decimal_spec(w as nat) == digits@);
                            if let Some(v) = parsed {
                                crate::decimal::lemma_decimal_injective(v as nat, w as nat);
                            }
                        } else {
                            lemma_decimal_canonical(c as nat);
                            assert(crate::decimal::is_digit(mid[0]));
                            assert(digits@ =~= decimal_spec(c as nat));
                            let w: u64 = c as u64;
                            assert(decimal_spec(w as nat) == digits@);
                            if let Some(v) = parsed {
                                crate::decimal::lemma_decimal_injective(v as nat, w as nat);
                            }
                        }
                    }
                },
                Status::Exited(None) => {
                    if s@ == exited_open() + seq!['n', 'u', 'l', 'l', '}'] {
                        assert(s@ =~= exited_open() + seq!['n', 'u', 'l', 'l'] + seq!['}']);
                        assert(seq!['n', 'u', 'l', 'l'] == mid);
                    }
                },
                _ => {},
            }
        }
    }
    None
}

// ---------------------------------------------------------------------------
// Lines of a file
// ---------------------------------------------------------------------------

/// The first `\n` at or after `i`, or the length.
pub open spec fn next_newline(s: Seq<char>, i: int) -> int
    decreases s.len() - i,
{
    if i >= s.len() {
        s.len() as int
    } else if s[i] == '\n' {
        i
    } else {
        next_newline(s, i + 1)
    }
}

/// A line without the carriage return of a `\r\n` ending.
pub open spec fn strip_cr(l: Seq<char>) -> Seq<char> {
    if l.len() > 0 && l.last() == '\r' {
        l.drop_last()
    } else {
        l
    }
}

/// The lines of `s` from position `i`, as `str::lines` yields them: split
/// after each `\n`, which is dropped with a `\r` before it; a final line
/// ending adds no empty line.
pub open spec fn lines_from(s: Seq<char>, i: int) -> Seq<Seq<char>>
    decreases s.len() - i,
{
    if i < 0 || i >= s.len() {
        Seq::empty()
    } else {
        let e = next_newline(s, i);
        proof {
            lemma_next_newline(s, i);
        }
        if e < s.len() {
            seq![strip_cr(s.subrange(i, e))] + lines_from(s, e + 1)
        } else {
            seq![s.subrange(i, s.len() as int)]
        }
    }
}

pub open spec fn text_lines(s: Seq<char>) -> Seq<Seq<char>> {
    lines_from(s, 0)
}

pub proof fn lemma_next_newline(s: Seq<char>, i: int)
    requires
        0 <= i <= s.len(),
    ensures
        i <= next_newline(s, i) <= s.len(),
        next_newline(s, i) < s.len() ==> s[next_newline(s, i)] == '\n',
        forall|j: int| i <= j < next_newline(s, i) ==> s[j] != '\n',
    decreases s.len() - i,
{
    if i < s.len() && s[i] != '\n' {
        lemma_next_newline(s, i + 1);
    }
}

proof fn lemma_lines_from_len(s: Seq<char>, i: int)
    requires
        0 <= i <= s.len(),
    ensures
        lines_from(s, i).len() <= s.len() - i,
    decreases s.len() - i,
{
    if i < s.len() {
        lemma_next_newline(s, i);
        let e = next_newline(s, i);
        if e < s.len() {
            lemma_lines_from_len(s, e + 1);
        }
    }
}

proof fn lemma_next_newline_shift(p: Seq<char>, s: Seq<char>, i: int)
    requires
        0 <= i <= s.len(),
    ensures
        next_newline(p + s, p.len() + i) == p.len() + next_newline(s, i),
    decreases s.len() - i,
{
    if i < s.len() {
        assert((p + s)[p.len() + i] == s[i]);
        if s[i] != '\n' {
            lemma_next_newline_shift(p, s, i + 1);
        }
    }
}

proof fn lemma_lines_from_shift(p: Seq<char>, s: Seq<char>, i: int)
    requires
        0 <= i <= s.len(),
    ensures
        lines_from(p + s, p.len() + i) == lines_from(s, i),
    decreases s.len() - i,
{
    if i < s.len() {
        lemma_next_newline_shift(p, s, i);
        lemma_next_newline(s, i);
        let e = next_newline(s, i);
        assert((p + s).subrange(p.len() + i, p.len() + e) =~= s.subrange(i, e));
        if e < s.len() {
            lemma_lines_from_shift(p, s, e + 1);
        } else {
            assert((p + s).subrange(p.len() + i, (p + s).len() as int) =~= s.subrange(i, s.len() as int));
        }
    }
}

/// Lines written one after another, each ended by a newline, read back as
/// the same lines, when none holds a newline or ends in a carriage return.
pub proof fn law_joined_lines_read_back(lines: Seq<Seq<char>>)
    requires
        forall|k: int| 0 <= k < lines.len() ==> plain_line(#[trigger] lines[k]),
    ensures
        text_lines(joined_lines(lines)) == lines,
    decreases lines.len(),
{
    if lines.len() > 0 {
        let l = lines[0];
        assert(plain_line(l));
        let p = l + seq!['\n'];
        let rest = joined_lines(lines.drop_first());
        let s = p + rest;
        assert(s == joined_lines(lines));
        assert forall|j: int| 0 <= j < l.len() implies s[j] != '\n' by {
            assert(s[j] == l[j]);
        }
        assert(s[l.len() as int] == '\n');
        lemma_next_newline_at(s, 0, l.len() as int);
        assert(s.subrange(0, l.len() as int) =~= l);
        assert(strip_cr(l) == l);
        lemma_lines_from_shift(p, rest, 0);
        assert forall|k: int| 0 <= k < lines.drop_first().len() implies plain_line(
            #[trigger] lines.drop_first()[k],
        ) by {
            assert(lines.drop_first()[k] == lines[k + 1]);
        }
        law_joined_lines_read_back(lines.drop_first());
        assert(lines =~= seq![l] + lines.drop_first());
    }
}

/// The lines of a text, as `str::lines` yields them.
pub fn lines_of(text: &str) -> (r: Vec<String>)
    ensures
        crate::text::strings_seq(r@) == text_lines(text@),
        r@.len() <= text@.len(),
{
    let cs = chars_of(text);
    let n = cs.len();
    let mut out: Vec<String> = Vec::new();
    let mut i: usize = 0;
    proof {
        lemma_lines_from_len(cs@, 0);
    }
    while i < n
        invariant
            n == cs@.len(),
            cs@ == text@,
            i <= n,
            crate::text::strings_seq(out@) + lines_from(cs@, i as int) == text_lines(cs@),
            out@.len() + lines_from(cs@, i as int).len() <= n,
        decreases n - i,
    {
        let mut line: Vec<char> = Vec::new();
        let mut e: usize = i;
        proof {
            lemma_next_newline(cs@, i as int);
        }
        while e < n && cs[e] != '\n'
            invariant
                i <= e <= n,
                n == cs@.len(),
                next_newline(cs@, i as int) >= e,
                forall|j: int| i <= j < e ==> cs@[j] != '\n',
                line@ == cs@.subrange(i as int, e as int),
            decreases n - e,
        {
            line.push(cs[e]);
            e = e + 1;
            assert(line@ =~= cs@.subrange(i as int, e as int));
            proof {
                lemma_next_newline_skip(cs@, i as int, e as int);
            }
        }
        proof {
            lemma_next_newline_at(cs@, i as int, e as int);
        }
        let ghost old_out = out@;
        let ghost rest = lines_from(cs@, i as int);
        if e < n {
            if line.len() > 0 && line[line.len() - 1] == '\r' {
                line.pop();
            }
            proof {
                assert(line@ == strip_cr(cs@.subrange(i as int, e as int)));
            }
            out.push(string_of(&line));
            proof {
                lemma_lines_from_len(cs@, e + 1);
                assert(crate::text::strings_seq(out@) =~= crate::text::strings_seq(old_out).push(line@));
                assert(rest == seq![line@] + lines_from(cs@, e + 1));
                assert(crate::text::strings_seq(out@) + lines_from(cs@, e + 1) =~= crate::text::strings_seq(old_out) + rest);
            }
            i = e + 1;
        } else {
            out.push(string_of(&line));
            proof {
                assert(crate::text::strings_seq(out@) =~= crate::text::strings_seq(old_out).push(line@));
                assert(rest == seq![line@]);
                assert(lines_from(cs@, n as int) == Seq::<Seq<char>>::empty());
                assert(crate::text::strings_seq(out@) + lines_from(cs@, n as int) =~= crate::text::strings_seq(old_out) + rest);
            }
            i = n;
        }
    }
    proof {
        assert(crate::text::strings_seq(out@) + Seq::<Seq<char>>::empty() =~= crate::text::strings_seq(out@));
    }
    out
}

proof fn lemma_next_newline_skip(s: Seq<char>, i: int, e: int)
    requires
        0 <= i <= e <= s.len(),
        forall|j: int| i <= j < e ==> s[j] != '\n',
    ensures
        next_newline(s, i) >= e,
    decreases e - i,
{
    if i < e {
        assert(s[i] != '\n');
        lemma_next_newline_skip(s, i + 1, e);
    } else {
        lemma_next_newline(s, i);
    }
}

proof fn lemma_next_newline_at(s: Seq<char>, i: int, e: int)
    requires
        0 <= i <= e <= s.len(),
        forall|j: int| i <= j < e ==> s[j] != '\n',
        e < s.len() ==> s[e] == '\n',
    ensures
        next_newline(s, i) == e,
    decreases e - i,
{
    if i < e {
        assert(s[i] != '\n');
        lemma_next_newline_at(s, i + 1, e);
    }
}

// ---------------------------------------------------------------------------
// Reading a log back
// ---------------------------------------------------------------------------

/// What one log line holds, as a JSON reader sees it: each field the reader
/// looks at (`None` when absent or of another type) and the line written
/// out again without its `crc` (what the checksum covers).
pub struct LogLineFields {
    pub crc: Option<u64>,
    pub unsigned: String,
    pub seq: Option<u64>,
    pub ts: Option<u64>,
    pub kind: Option<String>,
    /// The `status` value, written out as JSON.
    pub status: Option<String>,
    pub data: Option<String>,
}

/// A log line's fields, by value.
pub struct LineView {
    pub crc: Option<u64>,
    pub unsigned: Seq<char>,
    pub seq: Option<u64>,
    pub ts: Option<u64>,
    pub kind: Option<Seq<char>>,
    pub status: Option<Seq<char>>,
    pub data: Option<Seq<char>>,
}

/// The characters of an optional string.
pub open spec fn opt_text(o: Option<String>) -> Option<Seq<char>> {
    match o {
        Some(s) => Some(s@),
        None => None,
    }
}

impl View for LogLineFields {
    type V = LineView;

    open spec fn view(&self) -> LineView {
        LineView {
            crc: self.crc,
            unsigned: self.unsigned@,
            seq: self.seq,
            ts: self.ts,
            kind: opt_text(self.kind),
            status: opt_text(self.status),
            data: opt_text(self.data),
        }
    }
}

/// What `serde_json` reads from one line of text (`None` when it is not
/// JSON).
pub uninterp spec fn json_log_fields(line: Seq<char>) -> Option<LineView>;

/// The fields a reader finds in the line written for an event: the
/// checksum, the object without it, the sequence, the timestamp, the kind,
/// and the status's JSON or the output's base64.
pub open spec fn written_fields(seq: u64, ts: u64, kind: KindView) -> LineView {
    LineView {
        crc: Some(crc32_of(unsigned_line_spec(seq, ts, kind)) as u64),
        unsigned: unsigned_line_spec(seq, ts, kind),
        seq: Some(seq),
        ts: Some(ts),
        kind: Some(
            match kind {
                KindView::Output(_) => seq!['o', 'u', 't', 'p', 'u', 't'],
                KindView::Status(_) => seq!['s', 't', 'a', 't', 'u', 's'],
            },
        ),
        status: match kind {
            KindView::Status(st) => Some(status_json_spec(st)),
            KindView::Output(_) => None,
        },
        data: match kind {
            KindView::Output(b) => Some(base64_of(b)),
            KindView::Status(_) => None,
        },
    }
}

/// Parse one line as JSON with `serde_json::from_str` into a
/// `serde_json::Value` and pick out the fields a log line has; the line
/// without `crc` and the `status` value are written out with the `Value`'s
/// `to_string`. The result is named; of it, only what a line in this
/// library's own format reads as is stated: each field as written, and the
/// object without `crc` written out compactly with its keys in sorted order
/// (`Value`'s map is ordered by key unless serde_json's `preserve_order` is
/// on, which nothing here turns on), which is the order the writer uses.
#[verifier::external_body]
fn read_log_line(line: &str) -> (r: Option<LogLineFields>)
    ensures
        match r {
            Some(f) => json_log_fields(line@) == Some(f@),
            None => json_log_fields(line@) is None,
        },
        forall|seq: u64, ts: u64, kind: KindView| #[trigger] line_text(seq, ts, kind) == line@ ==> r
            is Some && r->0@ == written_fields(seq, ts, kind),
{
    let v: serde_json::Value = serde_json::from_str(line).ok()?;
    let mut bare = v.clone();
    if let Some(o) = bare.as_object_mut() {
        o.remove("crc");
    }
    let text = |k: &str| v.get(k).and_then(|x| x.as_str()).map(String::from);
    let num = |k: &str| v.get(k).and_then(|x| x.as_u64());
    Some(LogLineFields { crc: num("crc"), unsigned: bare.to_string(), seq: num("seq"), ts: num("ts"),
        kind: text("kind"), status: v.get("status").map(|x| x.to_string()), data: text("data") })
}

/// The state of reading a log, by value.
pub struct ScanView {
    pub log: Seq<(u64, KindView)>,
    pub last_seq: u64,
    /// The smallest timestamp seen (`u64::MAX` while none).
    pub min_ts: u64,
    pub last_ts: u64,
    pub last_output: Option<Seq<u8>>,
    pub corrupt: nat,
}

/// Append to a ring that keeps the newest [`LOG_CAP`] entries.
pub open spec fn push_capped<T>(log: Seq<T>, e: T) -> Seq<T> {
    if log.len() >= LOG_CAP {
        log.drop_first().push(e)
    } else {
        log.push(e)
    }
}

/// The entry a checksummed line carries, if its kind is known and its
/// payload reads: a status whose JSON reads back, or output whose base64
/// decodes (`decoded`).
pub open spec fn line_kind(f: LineView, decoded: Option<Seq<u8>>) -> Option<KindView> {
    match f.kind {
        Some(k) => if k == seq!['s', 't', 'a', 't', 'u', 's'] {
            match f.status {
                Some(t) => match status_of_json(t) {
                    Some(st) => Some(KindView::Status(st)),
                    None => None,
                },
                None => None,
            }
        } else if k == seq!['o', 'u', 't', 'p', 'u', 't'] {
            match (f.data, decoded) {
                (Some(_), Some(b)) => Some(KindView::Output(b)),
                _ => None,
            }
        } else {
            None
        },
        None => None,
    }
}

/// Take in one parsed line: a line whose `crc` is missing or differs from
/// the checksum of the rest (`crc`) is counted corrupt; a line without a
/// `seq` is skipped; a `ts` widens the time span; a known entry joins the
/// ring, raising the last seq, and output becomes the newest output.
pub open spec fn scan_absorb(s: ScanView, f: LineView, crc: u32, decoded: Option<Seq<u8>>) -> ScanView {
    if f.crc != Some(crc as u64) {
        ScanView { corrupt: s.corrupt + 1, ..s }
    } else {
        match f.seq {
            None => s,
            Some(seq) => {
                let t = match f.ts {
                    Some(ts) => ScanView {
                        min_ts: if ts < s.min_ts { ts } else { s.min_ts },
                        last_ts: if ts > s.last_ts { ts } else { s.last_ts },
                        ..s
                    },
                    None => s,
                };
                match line_kind(f, decoded) {
                    None => t,
                    Some(k) => ScanView {
                        log: push_capped(t.log, (seq, k)),
                        last_seq: if seq > t.last_seq { seq } else { t.last_seq },
                        last_output: match k {
                            KindView::Output(b) => Some(b),
                            KindView::Status(_) => t.last_output,
                        },
                        ..t
                    },
                }
            },
        }
    }
}

/// An empty read.
pub open spec fn scan_start() -> ScanView {
    ScanView {
        log: Seq::empty(),
        last_seq: 0,
        min_ts: u64::MAX,
        last_ts: 0,
        last_output: None,
        corrupt: 0,
    }
}

/// Take in one line of text: JSON that does not parse is skipped.
pub open spec fn scan_line(s: ScanView, line: Seq<char>) -> ScanView {
    match json_log_fields(line) {
        None => s,
        Some(f) => scan_absorb(
            s,
            f,
            crc32_of(f.unsigned),
            match f.data {
                Some(d) => base64_decoded(d),
                None => None,
            },
        ),
    }
}

/// Read lines in order from an empty read.
pub open spec fn scan_lines(lines: Seq<Seq<char>>) -> ScanView
    decreases lines.len(),
{
    if lines.len() == 0 {
        scan_start()
    } else {
        scan_line(scan_lines(lines.drop_last()), lines.last())
    }
}

/// The ring's entries by value.
pub open spec fn entries_view(log: Seq<(u64, EventKind)>) -> Seq<(u64, KindView)> {
    log.map_values(|e: (u64, EventKind)| (e.0, e.1@))
}

/// The bytes of an optional chunk.
pub open spec fn opt_bytes(o: Option<Vec<u8>>) -> Option<Seq<u8>> {
    match o {
        Some(v) => Some(v@),
        None => None,
    }
}

/// Reading a session's `events.log`: what has been taken in so far.
pub struct LogScan {
    pub log: VecDeque<(u64, EventKind)>,
    pub last_seq: u64,
    pub min_ts: u64,
    pub last_ts: u64,
    pub last_output: Option<Vec<u8>>,
    pub corrupt_lines: usize,
}

impl View for LogScan {
    type V = ScanView;

    open spec fn view(&self) -> ScanView {
        ScanView {
            log: entries_view(self.log@),
            last_seq: self.last_seq,
            min_ts: self.min_ts,
            last_ts: self.last_ts,
            last_output: opt_bytes(self.last_output),
            corrupt: self.corrupt_lines as nat,
        }
    }
}

impl LogScan {
    /// Nothing read yet.
    pub fn new() -> (r: LogScan)
        ensures
            r@ == scan_start(),
    {
        let r = LogScan {
            log: VecDeque::new(),
            last_seq: 0,
            min_ts: u64::MAX,
            last_ts: 0,
            last_output: None,
            corrupt_lines: 0,
        };
        assert(r@.log =~= Seq::<(u64, KindView)>::empty());
        r
    }

    /// Take in one parsed line, given the checksum of its unsigned text and
    /// what its `data` decodes to.
    pub fn absorb(&mut self, f: &LogLineFields, crc: u32, decoded: Option<Vec<u8>>)
        requires
            old(self).corrupt_lines < usize::MAX,
        ensures
            final(self)@ == scan_absorb(old(self)@, f@, crc, opt_bytes(decoded)),
    {
        let ok = match f.crc {
            Some(c) => c == crc as u64,
            None => false,
        };
        if !ok {
            self.corrupt_lines = self.corrupt_lines + 1;
            return;
        }
        let seq = match f.seq {
            Some(s) => s,
            None => {
                return;
            },
        };
        match f.ts {
            Some(ts) => {
                if ts < self.min_ts {
                    self.min_ts = ts;
                }
                if ts > self.last_ts {
                    self.last_ts = ts;
                }
            },
            None => {},
        }
        let ghost mid = self@;
        proof {
            reveal_strlit("status");
            reveal_strlit("output");
            assert("status"@ =~= seq!['s', 't', 'a', 't', 'u', 's']);
            assert("output"@ =~= seq!['o', 'u', 't', 'p', 'u', 't']);
        }
        let kind = match &f.kind {
            Some(k) => {
                let is_status = str_eq(k.as_str(), "status");
                let is_output = str_eq(k.as_str(), "output");
                assert(f@.kind == Some(k@));
                if is_status {
                    match &f.status {
                        Some(t) => {
                            assert(f@.status == Some(t@));
                            match parse_status_json(t.as_str()) {
                                Some(st) => Some(EventKind::Status(st)),
                                None => None,
                            }
                        },
                        None => None,
                    }
                } else if is_output {
                    match (&f.data, decoded) {
                        (Some(_), Some(b)) => Some(EventKind::Output(b)),
                        _ => None,
                    }
                } else {
                    None
                }
            },
            None => None,
        };
        match kind {
            Some(k) => {
                assert(line_kind(f@, opt_bytes(decoded)) == Some(k@));
                match &k {
                    EventKind::Output(b) => {
                        self.last_output = Some(crate::protocol::copy_bytes(b));
                    },
                    EventKind::Status(_) => {},
                }
                let ghost before = self.log@;
                if self.log.len() >= LOG_CAP {
                    self.log.pop_front();
                }
                self.log.push_back((seq, k));
                if seq > self.last_seq {
                    self.last_seq = seq;
                }
                proof {
                    assert(entries_view(self.log@) =~= push_capped(entries_view(before), (seq, k@)));
                }
            },
            None => {
                assert(line_kind(f@, opt_bytes(decoded)) is None);
            },
        }
    }
}

/// Everything read from a session's `events.log`.
pub struct LoadedLog {
    pub log: VecDeque<(u64, EventKind)>,
    pub last_seq: u64,
    /// Timestamp of the earliest entry (0 when there is none): a proxy for
    /// session creation when the meta is unreadable.
    pub first_ts: u64,
    /// Timestamp of the latest entry: a proxy for last activity.
    pub last_ts: u64,
    /// Raw bytes of the newest output chunk.
    pub last_output: Option<Vec<u8>>,
    /// Lines skipped because their checksum did not hold.
    pub corrupt_lines: usize,
}

/// `r` holds what reading ended in.
pub open spec fn loaded_from(r: LoadedLog, v: ScanView) -> bool {
    &&& entries_view(r.log@) == v.log
    &&& r.last_seq == v.last_seq
    &&& r.first_ts == (if v.min_ts == u64::MAX { 0 } else { v.min_ts })
    &&& r.last_ts == v.last_ts
    &&& opt_bytes(r.last_output) == v.last_output
    &&& r.corrupt_lines == v.corrupt
}

impl LogScan {
    /// What was read; a missing first timestamp reads as 0.
    pub fn finish(self) -> (r: LoadedLog)
        ensures
            loaded_from(r, self@),
    {
        LoadedLog {
            log: self.log,
            last_seq: self.last_seq,
            first_ts: if self.min_ts == u64::MAX {
                0
            } else {
                self.min_ts
            },
            last_ts: self.last_ts,
            last_output: self.last_output,
            corrupt_lines: self.corrupt_lines,
        }
    }
}

/// The lines written for some events (sequence, timestamp, entry), in
/// order.
pub open spec fn written_lines(es: Seq<(u64, u64, KindView)>) -> Seq<Seq<char>> {
    es.map_values(|e: (u64, u64, KindView)| line_text(e.0, e.1, e.2))
}

/// Taking in one event as written: it joins the ring, the last seq rises
/// to it, the time span widens to it, output becomes the newest output.
pub open spec fn scan_written(s: ScanView, e: (u64, u64, KindView)) -> ScanView {
    ScanView {
        log: push_capped(s.log, (e.0, e.2)),
        last_seq: if e.0 > s.last_seq { e.0 } else { s.last_seq },
        min_ts: if e.1 < s.min_ts { e.1 } else { s.min_ts },
        last_ts: if e.1 > s.last_ts { e.1 } else { s.last_ts },
        last_output: match e.2 {
            KindView::Output(b) => Some(b),
            KindView::Status(_) => s.last_output,
        },
        corrupt: s.corrupt,
    }
}

/// Events taken in, in order, from an empty read.
pub open spec fn written_scan(es: Seq<(u64, u64, KindView)>) -> ScanView
    decreases es.len(),
{
    if es.len() == 0 {
        scan_start()
    } else {
        scan_written(written_scan(es.drop_last()), es.last())
    }
}

/// A status's own JSON reads back as that status.
pub proof fn lemma_status_json_reads_back(st: Status)
    ensures
        status_of_json(status_json_spec(st)) == Some(st),
{
    let s = status_json_spec(st);
    assert(status_json_reads_as(s, st));
    let x = choose|x: Status| status_json_reads_as(s, x);
    lemma_status_json_unique(s, x, st);
}

/// A written line, read back with its checksum recomputed and its base64
/// decoded, is taken in as the event it was written for.
proof fn lemma_absorb_written(s: ScanView, e: (u64, u64, KindView), crc: u32, decoded: Option<Seq<u8>>)
    requires
        crc == crc32_of(unsigned_line_spec(e.0, e.1, e.2)),
        e.2 matches KindView::Output(b) ==> decoded == Some(b),
    ensures
        scan_absorb(s, written_fields(e.0, e.1, e.2), crc, decoded) == scan_written(s, e),
{
    reveal_strlit("status");
    match e.2 {
        KindView::Status(st) => {
            lemma_status_json_reads_back(st);
        },
        KindView::Output(_) => {},
    }
}

/// Rebuild a session's log from the text of its `events.log`: each line in
/// order, JSON that does not parse skipped, lines whose checksum fails
/// counted and skipped, the ring keeping the newest [`LOG_CAP`] entries. A
/// missing file reads as empty text.
pub fn load_log_text(text: &str) -> (r: LoadedLog)
    ensures
        loaded_from(r, scan_lines(text_lines(text@))),
        forall|es: Seq<(u64, u64, KindView)>| #[trigger] written_lines(es) == text_lines(text@)
            ==> loaded_from(r, written_scan(es)),
{
    let lines = lines_of(text);
    let ghost ls = crate::text::strings_seq(lines@);
    let mut scan = LogScan::new();
    let mut i: usize = 0;
    assert(ls.take(0) =~= Seq::<Seq<char>>::empty());
    while i < lines.len()
        invariant
            i <= lines.len(),
            ls == crate::text::strings_seq(lines@),
            scan@ == scan_lines(ls.take(i as int)),
            scan.corrupt_lines <= i,
            forall|es: Seq<(u64, u64, KindView)>| #[trigger] written_lines(es) == ls ==> scan@
                == written_scan(es.take(i as int)),
        decreases lines.len() - i,
    {
        let line = lines[i].as_str();
        proof {
            assert(ls.take(i + 1).drop_last() =~= ls.take(i as int));
            assert(ls.take(i + 1).last() == line@);
        }
        let ghost before = scan@;
        let read = read_log_line(line);
        match read {
            None => {
                proof {
                    assert forall|es: Seq<(u64, u64, KindView)>| #[trigger] written_lines(es) == ls
                        implies false by {
                        assert(written_lines(es).len() == es.len());
                        assert(ls.len() == lines@.len());
                        let e = es[i as int];
                        assert(written_lines(es)[i as int] == line_text(e.0, e.1, e.2));
                    }
                }
            },
            Some(f) => {
                let crc = crc32_text(f.unsigned.as_str());
                let decoded = match &f.data {
                    Some(d) => b64_decode(d.as_str()),
                    None => None,
                };
                scan.absorb(&f, crc, decoded);
                proof {
                    assert forall|es: Seq<(u64, u64, KindView)>| #[trigger] written_lines(es) == ls
                        implies scan@ == written_scan(es.take(i + 1)) by {
                        assert(written_lines(es).len() == es.len());
                        assert(ls.len() == lines@.len());
                        let e = es[i as int];
                        assert(written_lines(es)[i as int] == line_text(e.0, e.1, e.2));
                        assert(f@ == written_fields(e.0, e.1, e.2));
                        match e.2 {
                            KindView::Output(b) => {
                                assert(f@.data == Some(base64_of(b)));
                            },
                            KindView::Status(_) => {},
                        }
                        lemma_absorb_written(before, e, crc, opt_bytes(decoded));
                        assert(es.take(i + 1).drop_last() =~= es.take(i as int));
                        assert(es.take(i + 1).last() == e);
                    }
                }
            },
        }
        i = i + 1;
    }
    assert(ls.take(lines.len() as int) =~= ls);
    proof {
        assert forall|es: Seq<(u64, u64, KindView)>| #[trigger] written_lines(es) == ls implies es.take(
            lines.len() as int,
        ) == es by {
            assert(es.len() == written_lines(es).len());
            assert(es.take(lines.len() as int) =~= es);
        }
    }
    scan.finish()
}

// ---------------------------------------------------------------------------
// Durability of the writer
// ---------------------------------------------------------------------------

/// How durable each append must be: sync every line, or group commits —
/// sync at most once per interval (and always on flush).
#[derive(Debug, Clone, Copy, PartialEq, Eq, Structural)]
pub enum Durability {
    PerEvent,
    Batched { interval_ms: u64 },
}

impl Durability {
    /// Group commits, synced at most once a second.
    pub fn default_policy() -> (r: Durability)
        ensures
            r == (Durability::Batched { interval_ms: 1000 }),
    {
        Durability::Batched { interval_ms: 1000 }
    }

    /// Whether the writer syncs after a line, `elapsed_ms` after the last
    /// sync.
    pub fn sync_due(&self, elapsed_ms: u64) -> (r: bool)
        ensures
            r == match *self {
                Durability::PerEvent => true,
                Durability::Batched { interval_ms } => elapsed_ms >= interval_ms,
            },
    {
        match self {
            Durability::PerEvent => true,
            Durability::Batched { interval_ms } => elapsed_ms >= *interval_ms,
        }
    }
}

// ---------------------------------------------------------------------------
// The in-memory log
// ---------------------------------------------------------------------------

/// Entries after `after`, in order.
pub open spec fn entries_after(log: Seq<(u64, KindView)>, after: u64) -> Seq<(u64, KindView)> {
    log.filter(|e: (u64, KindView)| e.0 > after)
}

/// `evs` are the events of session `id` for `entries`, timestamps 0.
pub open spec fn events_for(evs: Seq<SessionEvent>, id: SessionId, entries: Seq<(u64, KindView)>) -> bool {
    &&& evs.len() == entries.len()
    &&& forall|k: int|
        0 <= k < evs.len() ==> (#[trigger] evs[k]).seq == entries[k].0 && evs[k].kind@
            == entries[k].1 && evs[k].ts == 0 && evs[k].session == id
}

/// One session's event log in memory: the ring of its newest entries and the
/// sequence counter. `snapshot_after` is the attach-replay source.
pub struct SessionLog {
    id: SessionId,
    ring: VecDeque<(u64, EventKind)>,
    seq: u64,
}

impl SessionLog {
    /// The session the log belongs to.
    pub closed spec fn id_spec(&self) -> SessionId {
        self.id
    }

    /// The ring's entries by value, oldest first.
    pub closed spec fn entries(&self) -> Seq<(u64, KindView)> {
        entries_view(self.ring@)
    }

    /// The sequence of the latest append.
    pub closed spec fn seq_spec(&self) -> u64 {
        self.seq
    }

    /// A well-kept log: the ring within its cap, no entry newer than the
    /// sequence.
    pub open spec fn wf(&self) -> bool {
        &&& self.entries().len() <= LOG_CAP
        &&& forall|k: int| 0 <= k < self.entries().len() ==> #[trigger] self.entries()[k].0 <= self.seq_spec()
    }

    /// A fresh log for a live session.
    pub fn new(id: SessionId) -> (r: SessionLog)
        ensures
            r.id_spec() == id,
            r.entries() == Seq::<(u64, KindView)>::empty(),
            r.seq_spec() == 0,
            r.wf(),
    {
        let r = SessionLog { id, ring: VecDeque::new(), seq: 0 };
        assert(r.entries() =~= Seq::<(u64, KindView)>::empty());
        r
    }

    /// A log rebuilt from disk: the ring as read, the sequence continuing
    /// from `last_seq`.
    pub fn restored(id: SessionId, log: VecDeque<(u64, EventKind)>, last_seq: u64) -> (r: SessionLog)
        ensures
            r.id_spec() == id,
            r.entries() == entries_view(log@),
            r.seq_spec() == last_seq,
    {
        SessionLog { id, ring: log, seq: last_seq }
    }

    /// The sequence the latest append was assigned.
    pub fn last_seq(&self) -> (r: u64)
        ensures
            r == self.seq_spec(),
    {
        self.seq
    }

    /// Append an event: assign the next sequence, keep it in the ring
    /// (dropping the oldest past [`LOG_CAP`]), and hand back the event to
    /// broadcast and write.
    pub fn append(&mut self, kind: EventKind, ts: u64) -> (r: SessionEvent)
        requires
            old(self).seq_spec() < u64::MAX,
        ensures
            final(self).seq_spec() == old(self).seq_spec() + 1,
            final(self).id_spec() == old(self).id_spec(),
            final(self).entries() == push_capped(old(self).entries(), (final(self).seq_spec(), kind@)),
            r.seq == final(self).seq_spec(),
            r.ts == ts,
            r.kind@ == kind@,
            r.session == old(self).id_spec(),
            old(self).wf() ==> final(self).wf(),
    {
        self.seq = self.seq + 1;
        let seq = self.seq;
        let ghost before = self.ring@;
        if self.ring.len() >= LOG_CAP {
            self.ring.pop_front();
        }
        let copy = kind.copy();
        self.ring.push_back((seq, copy));
        proof {
            assert(entries_view(self.ring@) =~= push_capped(entries_view(before), (seq, kind@)));
        }
        SessionEvent { session: self.id.copy(), seq, ts, kind }
    }

    /// The entries with a sequence above `after`, in order, as events
    /// (timestamp 0), and the sequence of the newest entry (0 when empty).
    pub fn snapshot_after(&self, after: u64) -> (r: (Vec<SessionEvent>, u64))
        ensures
            events_for(r.0@, self.id_spec(), entries_after(self.entries(), after)),
            r.1 == (if self.entries().len() == 0 { 0 } else { self.entries().last().0 }),
    {
        let ghost es = self.entries();
        let ghost p = |e: (u64, KindView)| e.0 > after;
        let mut out: Vec<SessionEvent> = Vec::new();
        let mut i: usize = 0;
        assert(es.take(0).filter(p) =~= Seq::<(u64, KindView)>::empty()) by {
            reveal(Seq::filter);
        }
        while i < self.ring.len()
            invariant
                i <= self.ring@.len(),
                es == entries_view(self.ring@),
                p == (|e: (u64, KindView)| e.0 > after),
                events_for(out@, self.id, es.take(i as int).filter(p)),
            decreases self.ring@.len() - i,
        {
            proof {
                assert(es.take(i + 1) =~= es.take(i as int).push(es[i as int]));
                es.take(i as int).lemma_filter_push(es[i as int], p);
            }
            let entry = &self.ring[i];
            if entry.0 > after {
                let ghost before = out@;
                out.push(SessionEvent { session: self.id.copy(), seq: entry.0, ts: 0, kind: entry.1.copy() });
                proof {
                    let f = es.take(i + 1).filter(p);
                    assert forall|k: int| 0 <= k < out@.len() implies (#[trigger] out@[k]).seq == f[k].0 && out@[k].kind@
                        == f[k].1 && out@[k].ts == 0 && out@[k].session == self.id by {
                        if k < before.len() {
                            assert(out@[k] == before[k]);
                        }
                    }
                }
            }
            i = i + 1;
        }
        assert(es.take(self.ring@.len() as int) =~= es);
        let last = if self.ring.len() == 0 {
            0
        } else {
            self.ring[self.ring.len() - 1].0
        };
        (out, last)
    }
}

/// Replay after an attach point: once the log has reached sequence `s`, an
/// append is the one entry after `s` — so replaying from `s` delivers new
/// output exactly once.
pub proof fn law_append_is_all_after_the_attach_point(
    log: Seq<(u64, KindView)>,
    s: u64,
    k: KindView,
)
    requires
        log.len() <= LOG_CAP,
        forall|i: int| 0 <= i < log.len() ==> #[trigger] log[i].0 <= s,
        s < u64::MAX,
    ensures
        entries_after(push_capped(log, ((s + 1) as u64, k)), s) == seq![((s + 1) as u64, k)],
{
    let p = |e: (u64, KindView)| e.0 > s;
    let base = if log.len() >= LOG_CAP { log.drop_first() } else { log };
    assert forall|i: int| 0 <= i < base.len() implies !p(#[trigger] base[i]) by {
        if log.len() >= LOG_CAP {
            assert(base[i] == log[i + 1]);
        }
    }
    assert(base.filter(p) =~= Seq::<(u64, KindView)>::empty()) by {
        base.lemma_all_neg_filter_empty(p);
    }
    base.lemma_filter_push(((s + 1) as u64, k), p);
    assert(push_capped(log, ((s + 1) as u64, k)) == base.push(((s + 1) as u64, k)));
    assert(Seq::<(u64, KindView)>::empty().push(((s + 1) as u64, k)) =~= seq![((s + 1) as u64, k)]);
}

} // verus!
