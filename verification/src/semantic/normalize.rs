//! Statements without what hides their meaning.
use crate::strings::{trim, trimmed, uppercase, uppercase_text, white_space};
use vstd::prelude::*;

verus! {

// ---------------------------------------------------------------------------
// What is blanked out

/// Where the first `*/` from `j` on begins.
pub open spec fn comment_end(s: Seq<char>, j: int) -> Option<int>
    decreases s.len() - j,
{
    if j < 0 || j + 1 >= s.len() {
        None
    } else if s[j] == '*' && s[j + 1] == '/' {
        Some(j)
    } else {
        comment_end(s, j + 1)
    }
}

/// The end of a comment lies behind its start, inside the text.
pub proof fn lemma_comment_end(s: Seq<char>, j: int)
    ensures
        comment_end(s, j) matches Some(k) ==> j <= k && k + 2 <= s.len(),
    decreases s.len() - j,
{
    if 0 <= j && j + 1 < s.len() && !(s[j] == '*' && s[j + 1] == '/') {
        lemma_comment_end(s, j + 1);
    }
}

/// A text from `i` on, with a blank in place of each comment between `/*` and `*/`.
pub open spec fn blocks_blanked(s: Seq<char>, i: int) -> Seq<char>
    decreases s.len() - i,
{
    if i < 0 || i >= s.len() {
        seq![]
    } else if i + 1 < s.len() && s[i] == '/' && s[i + 1] == '*' && comment_end(s, i + 2) is Some {
        proof {
            lemma_comment_end(s, i + 2);
        }
        seq![' '] + blocks_blanked(s, comment_end(s, i + 2)->0 + 2)
    } else {
        seq![s[i]] + blocks_blanked(s, i + 1)
    }
}

/// Where the line that covers `j` ends.
pub open spec fn line_end(s: Seq<char>, j: int) -> int
    decreases s.len() - j,
{
    if j < 0 || j >= s.len() || s[j] == '\r' || s[j] == '\n' {
        j
    } else {
        line_end(s, j + 1)
    }
}

/// A line ends behind its start, inside the text.
pub proof fn lemma_line_end(s: Seq<char>, j: int)
    ensures
        line_end(s, j) >= j,
        j <= s.len() ==> line_end(s, j) <= s.len(),
    decreases s.len() - j,
{
    if 0 <= j && j < s.len() && s[j] != '\r' && s[j] != '\n' {
        lemma_line_end(s, j + 1);
    }
}

/// A text from `i` on, with a blank in place of each comment from `--` to the end of its line.
pub open spec fn lines_blanked(s: Seq<char>, i: int) -> Seq<char>
    decreases s.len() - i,
{
    if i < 0 || i >= s.len() {
        seq![]
    } else if i + 1 < s.len() && s[i] == '-' && s[i + 1] == '-' {
        proof {
            lemma_line_end(s, i + 2);
        }
        seq![' '] + lines_blanked(s, line_end(s, i + 2))
    } else {
        seq![s[i]] + lines_blanked(s, i + 1)
    }
}

/// Where white space that covers `j` ends.
pub open spec fn space_end(s: Seq<char>, j: int) -> int
    decreases s.len() - j,
{
    if j < 0 || j >= s.len() || !white_space(s[j]) {
        j
    } else {
        space_end(s, j + 1)
    }
}

/// White space ends behind its start, inside the text.
pub proof fn lemma_space_end(s: Seq<char>, j: int)
    ensures
        space_end(s, j) >= j,
        j <= s.len() ==> space_end(s, j) <= s.len(),
    decreases s.len() - j,
{
    if 0 <= j && j < s.len() && white_space(s[j]) {
        lemma_space_end(s, j + 1);
    }
}

/// A text from `i` on, with one blank in place of each run of white space.
pub open spec fn spaces_joined(s: Seq<char>, i: int) -> Seq<char>
    decreases s.len() - i,
{
    if i < 0 || i >= s.len() {
        seq![]
    } else if white_space(s[i]) {
        proof {
            lemma_space_end(s, i + 1);
        }
        seq![' '] + spaces_joined(s, space_end(s, i + 1))
    } else {
        seq![s[i]] + spaces_joined(s, i + 1)
    }
}

// ---------------------------------------------------------------------------
// The expressions that find it

/// A comment between `/*` and `*/`.
pub const BLOCK_COMMENT: &'static str = r"(?s)/\*.*?\*/";

/// A comment from `--` to the end of its line.
pub const LINE_COMMENT: &'static str = r"(?m)--[^\r\n]*";

/// A run of white space.
pub const WHITE_SPACE_RUN: &'static str = r"\s+";

/// `regex::Regex::replace_all`, with one of three expressions and a blank as replacement.
/// Matches are found from left to right and do not overlap. The first expression matches
/// from `/*` to the nearest `*/` behind it, the second from `--` to the next carriage
/// return, line feed or the end, the third as much white space as there is.
#[verifier::external_body]
fn replace_all(expression: &str, text: &str, replacement: &str) -> (out: String)
    requires
        expression@ == BLOCK_COMMENT@ || expression@ == LINE_COMMENT@ || expression@
            == WHITE_SPACE_RUN@,
        replacement@ == " "@,
    ensures
        expression@ == BLOCK_COMMENT@ ==> out@ == blocks_blanked(text@, 0),
        expression@ == LINE_COMMENT@ ==> out@ == lines_blanked(text@, 0),
        expression@ == WHITE_SPACE_RUN@ ==> out@ == spaces_joined(text@, 0),
{
    regex::Regex::new(expression).expect("constant expression").replace_all(
        text,
        replacement,
    ).into_owned()
}

// ---------------------------------------------------------------------------
// Statements

/// A statement without comments, with single blanks between its words and none around them.
pub open spec fn plain_text(sql: Seq<char>) -> Seq<char> {
    spaces_joined(trimmed(lines_blanked(blocks_blanked(sql, 0), 0)), 0)
}

/// A statement without comments, with single blanks between its words, in upper case.
pub open spec fn normalized(sql: Seq<char>) -> Seq<char> {
    uppercase_text(plain_text(sql))
}

/// A statement without comments, with single blanks between its words and none around them.
pub fn plain(sql: &str) -> (text: String)
    ensures
        text@ == plain_text(sql@),
{
    let no_block = replace_all(BLOCK_COMMENT, sql, " ");
    let no_line = replace_all(LINE_COMMENT, no_block.as_str(), " ");
    let inner = trim(no_line.as_str());
    replace_all(WHITE_SPACE_RUN, inner.as_str(), " ")
}

/// A statement without comments, with single blanks between its words, in upper case.
pub fn normalize(sql: &str) -> (text: String)
    ensures
        text@ == normalized(sql@),
{
    let text = plain(sql);
    uppercase(text.as_str())
}

// ---------------------------------------------------------------------------
// Laws

/// Whether `/*` or its first half at the end stands nowhere in a text.
pub open spec fn opens_no_comment(s: Seq<char>) -> bool {
    (s.len() > 0 ==> s.last() != '/') && forall|i: int|
        0 <= i < s.len() - 1 ==> !(#[trigger] s[i] == '/' && s[i + 1] == '*')
}

/// Whether `*/` or its first half at the end stands nowhere in a text.
pub open spec fn closes_no_comment(s: Seq<char>) -> bool {
    (s.len() > 0 ==> s.last() != '*') && forall|i: int|
        0 <= i < s.len() - 1 ==> !(#[trigger] s[i] == '*' && s[i + 1] == '/')
}

proof fn lemma_comment_end_is(s: Seq<char>, j: int, end: int)
    requires
        0 <= j <= end,
        end + 1 < s.len(),
        s[end] == '*',
        s[end + 1] == '/',
        forall|i: int| j <= i < end ==> !(#[trigger] s[i] == '*' && s[i + 1] == '/'),
    ensures
        comment_end(s, j) == Some(end),
    decreases end - j,
{
    if j < end {
        lemma_comment_end_is(s, j + 1, end);
    }
}

proof fn lemma_comment_end_shifts(s: Seq<char>, t: Seq<char>, j: int, k: int)
    requires
        0 <= j <= s.len(),
        0 <= k <= t.len(),
        s.subrange(j, s.len() as int) == t.subrange(k, t.len() as int),
    ensures
        comment_end(t, k) == (match comment_end(s, j) {
            Some(e) => Some(e - j + k),
            None => None,
        }),
    decreases s.len() - j,
{
    let a = s.subrange(j, s.len() as int);
    let b = t.subrange(k, t.len() as int);
    assert(a.len() == b.len());
    if j + 1 < s.len() {
        assert(a[0] == s[j] && b[0] == t[k]);
        assert(a[1] == s[j + 1] && b[1] == t[k + 1]);
        assert(s.subrange(j + 1, s.len() as int) =~= a.subrange(1, a.len() as int));
        assert(t.subrange(k + 1, t.len() as int) =~= b.subrange(1, b.len() as int));
        lemma_comment_end_shifts(s, t, j + 1, k + 1);
    }
}

proof fn lemma_blanked_shifts(s: Seq<char>, t: Seq<char>, j: int, k: int)
    requires
        0 <= j <= s.len(),
        0 <= k <= t.len(),
        s.subrange(j, s.len() as int) == t.subrange(k, t.len() as int),
    ensures
        blocks_blanked(s, j) == blocks_blanked(t, k),
    decreases s.len() - j,
{
    let a = s.subrange(j, s.len() as int);
    let b = t.subrange(k, t.len() as int);
    assert(a.len() == b.len());
    if j < s.len() {
        assert(a[0] == s[j] && b[0] == t[k]);
        if j + 1 < s.len() {
            assert(a[1] == s[j + 1] && b[1] == t[k + 1]);
        }
        assert(s.subrange(j + 1, s.len() as int) =~= a.subrange(1, a.len() as int));
        assert(t.subrange(k + 1, t.len() as int) =~= b.subrange(1, b.len() as int));
        if j + 1 < s.len() && s[j] == '/' && s[j + 1] == '*' && comment_end(s, j + 2) is Some {
            assert(s.subrange(j + 2, s.len() as int) =~= a.subrange(2, a.len() as int));
            assert(t.subrange(k + 2, t.len() as int) =~= b.subrange(2, b.len() as int));
            lemma_comment_end_shifts(s, t, j + 2, k + 2);
            lemma_comment_end(s, j + 2);
            let e = comment_end(s, j + 2)->0;
            assert(s.subrange(e + 2, s.len() as int) =~= a.subrange(e + 2 - j, a.len() as int));
            assert(t.subrange(e + 2 - j + k, t.len() as int) =~= b.subrange(
                e + 2 - j,
                b.len() as int,
            ));
            lemma_blanked_shifts(s, t, e + 2, e + 2 - j + k);
        } else {
            if j + 1 < s.len() {
                assert(s.subrange(j + 2, s.len() as int) =~= a.subrange(2, a.len() as int));
                assert(t.subrange(k + 2, t.len() as int) =~= b.subrange(2, b.len() as int));
                lemma_comment_end_shifts(s, t, j + 2, k + 2);
            }
            lemma_blanked_shifts(s, t, j + 1, k + 1);
        }
    }
}

/// A text in which no comment opens before `n` is kept up to there.
proof fn lemma_kept_up_to(s: Seq<char>, i: int, n: int)
    requires
        0 <= i <= n <= s.len(),
        forall|j: int| i <= j < n && j + 1 < s.len() ==> !(#[trigger] s[j] == '/' && s[j + 1] == '*'),
    ensures
        blocks_blanked(s, i) == s.subrange(i, n) + blocks_blanked(s, n),
    decreases n - i,
{
    if i < n {
        lemma_kept_up_to(s, i + 1, n);
        assert(seq![s[i]] + (s.subrange(i + 1, n) + blocks_blanked(s, n)) =~= s.subrange(i, n)
            + blocks_blanked(s, n));
    } else {
        assert(s.subrange(i, n) + blocks_blanked(s, n) =~= blocks_blanked(s, n));
    }
}

/// Whether a statement holds no comment, and no white space but single blanks between words.
pub open spec fn is_plain(s: Seq<char>) -> bool {
    &&& forall|i: int|
        0 <= i < s.len() - 1 ==> !(#[trigger] s[i] == '/' && s[i + 1] == '*') && !(s[i] == '-' && s[i
            + 1] == '-') && !(white_space(s[i]) && white_space(s[i + 1]))
    &&& forall|i: int| 0 <= i < s.len() && white_space(#[trigger] s[i]) ==> s[i] == ' '
    &&& s.len() > 0 ==> !white_space(s[0]) && !white_space(s.last())
}

proof fn lemma_lines_kept(s: Seq<char>, i: int)
    requires
        is_plain(s),
        0 <= i <= s.len(),
    ensures
        lines_blanked(s, i) == s.subrange(i, s.len() as int),
    decreases s.len() - i,
{
    if i < s.len() {
        lemma_lines_kept(s, i + 1);
        assert(seq![s[i]] + s.subrange(i + 1, s.len() as int) =~= s.subrange(i, s.len() as int));
    }
}

proof fn lemma_spaces_kept(s: Seq<char>, i: int)
    requires
        is_plain(s),
        0 <= i <= s.len(),
    ensures
        spaces_joined(s, i) == s.subrange(i, s.len() as int),
    decreases s.len() - i,
{
    if i < s.len() {
        if white_space(s[i]) {
            assert(i + 1 < s.len());
            assert(!white_space(s[i + 1]));
            assert(space_end(s, i + 1) == i + 1);
        }
        lemma_spaces_kept(s, i + 1);
        assert(seq![s[i]] + s.subrange(i + 1, s.len() as int) =~= s.subrange(i, s.len() as int));
    }
}

/// A statement that is plain already stays as it is, but for its case.
pub proof fn lemma_plain_is_kept(s: Seq<char>)
    requires
        is_plain(s),
    ensures
        plain_text(s) == s,
        normalized(s) == uppercase_text(s),
{
    let n = s.len() as int;
    lemma_kept_up_to(s, 0, n);
    lemma_lines_kept(s, 0);
    lemma_spaces_kept(s, 0);
    assert(s.subrange(0, n) =~= s);
    assert(s + blocks_blanked(s, n) =~= s);
}

/// A comment hides nothing: a statement means the same with a blank in its place. What
/// stands before the comment opens none, and nothing inside closes it.
pub proof fn lemma_comment_is_a_blank(before: Seq<char>, inside: Seq<char>, after: Seq<char>)
    requires
        opens_no_comment(before),
        closes_no_comment(inside),
    ensures
        normalized(before + seq!['/', '*'] + inside + seq!['*', '/'] + after) == normalized(
            before + seq![' '] + after,
        ),
{
    let s = before + seq!['/', '*'] + inside + seq!['*', '/'] + after;
    let t = before + seq![' '] + after;
    let n = before.len() as int;
    let end = n + 2 + inside.len();
    assert forall|j: int| 0 <= j < n && j + 1 < s.len() implies !(#[trigger] s[j] == '/' && s[j + 1]
        == '*') by {
        assert(s[j] == before[j]);
        if j + 1 < n {
            assert(s[j + 1] == before[j + 1]);
        }
    }
    assert forall|j: int| 0 <= j < n && j + 1 < t.len() implies !(#[trigger] t[j] == '/' && t[j + 1]
        == '*') by {
        assert(t[j] == before[j]);
        if j + 1 < n {
            assert(t[j + 1] == before[j + 1]);
        }
    }
    lemma_kept_up_to(s, 0, n);
    lemma_kept_up_to(t, 0, n);
    assert(s.subrange(0, n) =~= before);
    assert(t.subrange(0, n) =~= before);
    assert forall|i: int| n + 2 <= i < end implies !(#[trigger] s[i] == '*' && s[i + 1] == '/') by {
        assert(s[i] == inside[i - n - 2]);
        if i + 1 < end {
            assert(s[i + 1] == inside[i + 1 - n - 2]);
        }
    }
    assert(s[end] == '*' && s[end + 1] == '/');
    lemma_comment_end_is(s, n + 2, end);
    assert(s[n] == '/' && s[n + 1] == '*');
    assert(t[n] == ' ');
    assert(s.subrange(end + 2, s.len() as int) =~= after);
    assert(t.subrange(n + 1, t.len() as int) =~= after);
    lemma_blanked_shifts(s, t, end + 2, n + 1);
}

} // verus!
