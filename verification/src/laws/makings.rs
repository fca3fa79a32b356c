//! What clients make, start and copy, and what the server does not understand.
use crate::laws::batches::{lemma_only_acts, only_acts};
use crate::laws::phrases::{
    is_name, lemma_behind, lemma_first_word, lemma_nothing_behind, lemma_quoted_in, one_statement,
    quotes_behind,
};
use crate::laws::sessions::only_asks;
use crate::personality::{PersonalityView, UnknownQueryBehavior};
use crate::semantic::discovery::discovered;
use crate::semantic::handle::handled;
use crate::semantic::words::{digits_end, leading_hex, nibble, pair_bytes};
use crate::session::SessionView;
use crate::strings::{ascii_upper, begins, holds, stands_at};
use crate::text::{dec, hex_byte, hex_text};
use vstd::prelude::*;
use vstd::utf8::is_ascii_chars;

verus! {

/// Whether a statement is about none of the things that come before what clients make.
pub open spec fn only_makes(u: Seq<char>) -> bool {
    &&& only_acts(u)
    &&& !holds(u, "EXECUTE AS"@)
    &&& !begins(u, "REVERT"@)
    &&& !begins(u, "BEGIN TRAN"@)
    &&& !begins(u, "ROLLBACK"@)
    &&& !begins(u, "COMMIT"@)
    &&& !holds(u, "CREATE LOGIN"@)
}

// ---------------------------------------------------------------------------
// Jobs

/// A job that a client makes is kept, under the name that it gives, behind those that it made
/// before, and nothing else changes.
pub proof fn lemma_jobs_are_made(
    session: SessionView,
    personality: PersonalityView,
    s: Seq<char>,
    at: int,
    between: Seq<char>,
    name: Seq<char>,
    after: Seq<char>,
)
    requires
        one_statement(s),
        only_makes(ascii_upper(s)),
        !holds(ascii_upper(s), "CREATE ASSEMBLY"@),
        holds(ascii_upper(s), "SP_ADD_JOB"@),
        quotes_behind(s, "@JOB_NAME"@, at, between, name, after),
    ensures
        ({
            let (next, outcome) = handled(session, personality, s);
            &&& next == SessionView {
                synthetic_jobs: session.synthetic_jobs.push(name),
                ..session
            }
            &&& outcome.error is None
            &&& outcome.result_sets.len() == 0
            &&& outcome.payload_candidate is None
        }),
{
    lemma_only_acts(session, personality, s);
    lemma_quoted_in(s, "@JOB_NAME"@, at, between, name, after);
}

/// A job without a name is numbered behind those that were made before, so no two jobs without
/// a name are called the same.
pub proof fn lemma_jobs_are_numbered(session: SessionView, personality: PersonalityView, s: Seq<char>)
    requires
        one_statement(s),
        only_makes(ascii_upper(s)),
        !holds(ascii_upper(s), "CREATE ASSEMBLY"@),
        holds(ascii_upper(s), "SP_ADD_JOB"@),
        !holds(ascii_upper(s), "@JOB_NAME"@),
        session.synthetic_jobs.len() < u32::MAX,
    ensures
        ({
            let (next, outcome) = handled(session, personality, s);
            let (second, _) = handled(next, personality, s);
            let n = session.synthetic_jobs.len();
            &&& next.synthetic_jobs == session.synthetic_jobs.push("Job"@ + dec((n + 1) as nat))
            &&& second.synthetic_jobs.len() == n + 2
            &&& second.synthetic_jobs[n as int] != second.synthetic_jobs[n + 1int]
            &&& outcome.error is None
        }),
{
    let n = session.synthetic_jobs.len();
    lemma_only_acts(session, personality, s);
    reveal_strlit("@JOB_NAME");
    lemma_nothing_behind(s, "@JOB_NAME"@);
    let next = handled(session, personality, s).0;
    lemma_only_acts(next, personality, s);
    let a = dec((n + 1) as nat);
    let b = dec((n + 2) as nat);
    crate::laws::wire::lemma_decimal_round_trip((n + 1) as nat);
    crate::laws::wire::lemma_decimal_round_trip((n + 2) as nat);
    reveal_strlit("Job");
    if "Job"@ + a == "Job"@ + b {
        assert(("Job"@ + a).skip(3) =~= a);
        assert(("Job"@ + b).skip(3) =~= b);
    }
}

/// A job that a client starts is said to have started, under its name. Nothing runs and nothing
/// changes.
pub proof fn lemma_jobs_are_started(
    session: SessionView,
    personality: PersonalityView,
    s: Seq<char>,
    at: int,
    between: Seq<char>,
    name: Seq<char>,
    after: Seq<char>,
)
    requires
        one_statement(s),
        only_makes(ascii_upper(s)),
        !holds(ascii_upper(s), "CREATE ASSEMBLY"@),
        !holds(ascii_upper(s), "SP_ADD_JOB"@),
        holds(ascii_upper(s), "SP_START_JOB"@),
        quotes_behind(s, "@JOB_NAME"@, at, between, name, after),
    ensures
        ({
            let (next, outcome) = handled(session, personality, s);
            &&& next == session
            &&& outcome.error is None
            &&& outcome.messages.len() == 1
            &&& outcome.messages[0] == "Job '"@ + name + "' started successfully."@
            &&& outcome.result_sets.len() == 0
        }),
{
    lemma_only_acts(session, personality, s);
    lemma_quoted_in(s, "@JOB_NAME"@, at, between, name, after);
}

// ---------------------------------------------------------------------------
// Assemblies

proof fn lemma_nibble(v: u8)
    requires
        v < 16,
    ensures
        ({
            let lower = if v < 10 {
                (v + 48) as char
            } else {
                (v + 87) as char
            };
            nibble(lower) == Some(v)
        }),
{
}

proof fn lemma_hex_byte(b: u8)
    ensures
        hex_byte(b).len() == 2,
        nibble(hex_byte(b)[0]) == Some((b / 16) as u8),
        nibble(hex_byte(b)[1]) == Some((b % 16) as u8),
        is_ascii_chars(hex_byte(b)),
{
    lemma_nibble((b / 16) as u8);
    lemma_nibble((b % 16) as u8);
}

proof fn lemma_hex_digits(code: Seq<u8>, rest: Seq<char>, n: nat)
    requires
        n <= code.len(),
    ensures
        hex_text(code).len() == 2 * code.len(),
        pair_bytes(hex_text(code) + rest, n) == code.take(n as int),
        forall|i: int|
            0 <= i < hex_text(code).len() ==> nibble(#[trigger] hex_text(code)[i]) is Some,
    decreases code.len(), n,
{
    if code.len() > 0 {
        let before = code.drop_last();
        let b = code.last();
        lemma_hex_byte(b);
        lemma_hex_digits(before, hex_byte(b) + rest, before.len());
        let text = hex_text(code);
        let head = hex_text(before);
        assert(text == head + hex_byte(b));
        assert forall|i: int| 0 <= i < text.len() implies nibble(#[trigger] text[i]) is Some by {
            if i < head.len() {
                assert(text[i] == head[i]);
            } else {
                assert(text[i] == hex_byte(b)[i - head.len()]);
            }
        }
        let all = text + rest;
        assert(all =~= head + (hex_byte(b) + rest));
        if n == 0 {
            assert(code.take(0) =~= seq![]);
        } else if n < code.len() {
            lemma_hex_digits(before, hex_byte(b) + rest, n);
            assert(before.take(n as int) =~= code.take(n as int));
        } else {
            assert(before.take(before.len() as int) =~= before);
            assert(all[2 * (n - 1)] == hex_byte(b)[0]);
            assert(all[2 * (n - 1) + 1] == hex_byte(b)[1]);
            assert(b == 16 * (b / 16) + b % 16);
            assert(code.take(n as int) =~= before.push(b));
        }
    } else {
        assert(code.take(0) =~= seq![]);
    }
}

proof fn lemma_digits_end(text: Seq<char>, rest: Seq<char>, i: int)
    requires
        0 <= i <= text.len(),
        forall|k: int| 0 <= k < text.len() ==> nibble(#[trigger] text[k]) is Some,
        rest.len() > 0 ==> nibble(rest[0]) is None,
    ensures
        digits_end(text + rest, i) == text.len(),
    decreases text.len() - i,
{
    let all = text + rest;
    if i < text.len() {
        assert(all[i] == text[i]);
        lemma_digits_end(text, rest, i + 1);
    } else if rest.len() > 0 {
        assert(all[i] == rest[0]);
    }
}

/// The bytes of a program that a client hands over in hexadecimal digits are the bytes that are
/// kept of it.
pub proof fn lemma_hex_is_read(code: Seq<u8>, rest: Seq<char>)
    requires
        code.len() > 0,
        rest.len() > 0 ==> !('0' <= rest[0] && rest[0] <= '9') && !('a' <= rest[0] && rest[0]
            <= 'f') && !('A' <= rest[0] && rest[0] <= 'F'),
    ensures
        leading_hex(hex_text(code) + rest) == Some(code),
{
    lemma_hex_digits(code, rest, code.len());
    lemma_digits_end(hex_text(code), rest, 0);
    assert(code.take(code.len() as int) =~= code);
}

/// An assembly that a client makes is kept under its name, and the program that it hands over
/// is offered to be kept, byte for byte.
pub proof fn lemma_assemblies_are_made(
    session: SessionView,
    personality: PersonalityView,
    name: Seq<char>,
    middle: Seq<char>,
    code: Seq<u8>,
    rest: Seq<char>,
)
    requires
        is_name(name),
        middle.len() > 0 && middle[0] == ' ',
        code.len() > 0,
        rest.len() > 0 ==> rest[0] == ' ',
        ({
            let s = "CREATE ASSEMBLY "@ + name + middle + "0x"@ + hex_text(code) + rest;
            let at = ("CREATE ASSEMBLY "@ + name + middle).len() as int;
            &&& one_statement(s)
            &&& only_makes(ascii_upper(s))
            &&& forall|j: int| 0 <= j < at ==> !stands_at(ascii_upper(s), "0X"@, j)
        }),
    ensures
        ({
            let s = "CREATE ASSEMBLY "@ + name + middle + "0x"@ + hex_text(code) + rest;
            let (next, outcome) = handled(session, personality, s);
            &&& next == SessionView {
                synthetic_assemblies: session.synthetic_assemblies.push(name),
                ..session
            }
            &&& outcome.error is None
            &&& outcome.result_sets.len() == 0
            &&& outcome.payload_candidate is Some
            &&& outcome.payload_candidate->Some_0.bytes == code
            &&& outcome.payload_candidate->Some_0.kind == "clr_assembly"@
        }),
{
    let head = "CREATE ASSEMBLY "@ + name + middle;
    let s = head + "0x"@ + hex_text(code) + rest;
    let u = ascii_upper(s);
    let at = head.len() as int;
    reveal_strlit("CREATE ASSEMBLY ");
    reveal_strlit("CREATE ASSEMBLY");
    reveal_strlit("0x");
    reveal_strlit("0X");
    lemma_only_acts(session, personality, s);
    assert(u.subrange(0, 15) =~= "CREATE ASSEMBLY"@);
    assert(stands_at(u, "CREATE ASSEMBLY"@, 0));
    lemma_behind(s, "CREATE ASSEMBLY"@, 0);
    let tail = middle + "0x"@ + hex_text(code) + rest;
    assert(s.subrange(15, s.len() as int) =~= seq![' '] + name + tail);
    assert(tail[0] == ' ');
    assert(crate::semantic::words::ends_word(' '));
    lemma_first_word(name, tail);
    assert(s[at] == '0' && s[at + 1] == 'x');
    assert(u.subrange(at, at + 2) =~= "0X"@);
    assert(stands_at(u, "0X"@, at));
    lemma_behind(s, "0X"@, at);
    assert(s.subrange(at + 2, s.len() as int) =~= hex_text(code) + rest);
    lemma_hex_is_read(code, rest);
}

// ---------------------------------------------------------------------------
// The rest

/// What a statement that the server does not understand is answered with: by the personality
/// an empty table, nothing, a syntax error or a refusal. The session stays as it is.
pub proof fn lemma_unknown_statements_are_answered(
    session: SessionView,
    personality: PersonalityView,
    s: Seq<char>,
)
    requires
        one_statement(s),
        only_asks(ascii_upper(s)),
        discovered(ascii_upper(s), session, personality) is None,
    ensures
        ({
            let (next, outcome) = handled(session, personality, s);
            &&& next == session
            &&& outcome.messages.len() == 0
            &&& match personality.unknown_query_behavior {
                UnknownQueryBehavior::Empty => outcome.error is None && outcome.result_sets.len()
                    == 1 && outcome.result_sets[0].rows.len() == 0,
                UnknownQueryBehavior::Success => outcome.error is None
                    && outcome.result_sets.len() == 0,
                UnknownQueryBehavior::SyntaxError => outcome.error is Some
                    && outcome.error->Some_0.number == 102 && outcome.result_sets.len() == 0,
                UnknownQueryBehavior::PermissionDenied => outcome.error is Some
                    && outcome.error->Some_0.number == 229 && outcome.result_sets.len() == 0,
            }
        }),
{
    lemma_only_acts(session, personality, s);
}

/// A copy that a client makes or brings back is said to have been made, a file that it looks
/// for is not there, and neither changes the session.
pub proof fn lemma_files_are_not_touched(
    session: SessionView,
    personality: PersonalityView,
    s: Seq<char>,
)
    requires
        one_statement(s),
        only_makes(ascii_upper(s)),
        !holds(ascii_upper(s), "CREATE ASSEMBLY"@),
        !holds(ascii_upper(s), "SP_ADD_JOB"@),
        !holds(ascii_upper(s), "SP_START_JOB"@),
        !holds(ascii_upper(s), "SP_OACREATE"@),
        holds(ascii_upper(s), "XP_FILEEXIST"@) || begins(ascii_upper(s), "BACKUP "@) || begins(
            ascii_upper(s),
            "RESTORE "@,
        ),
    ensures
        ({
            let (next, outcome) = handled(session, personality, s);
            &&& next == session
            &&& outcome.error is None
            &&& outcome.payload_candidate is None
            &&& holds(ascii_upper(s), "XP_FILEEXIST"@) ==> outcome.messages.len() == 0
                && outcome.result_sets.len() == 1 && outcome.result_sets[0].rows.len() == 1
                && outcome.result_sets[0].rows[0].len() == 3 && outcome.result_sets[0].rows[0][0]
                == Some("0"@)
            &&& !holds(ascii_upper(s), "XP_FILEEXIST"@) ==> outcome.messages.len() == 1
                && outcome.result_sets.len() == 0
        }),
{
    lemma_only_acts(session, personality, s);
}

} // verus!
