//! Answers as a client reads them. The reader here knows nothing of how answers are written:
//! it goes by the published layout of the tokens alone.
use crate::bytes::{be32, le16, le32, le64, u16_at, u32_at, u32_be_at, u64_at};
use crate::error::Model;
use crate::laws::wire::{
    lemma_16, lemma_32, lemma_32_be, lemma_64, lemma_byte, lemma_split, lemma_units_round_trip,
    lemma_utf16_round_trip, stands,
};
use crate::tds::sspi::{units_bytes, utf16_le};
use crate::tds::tokens::{
    b_text, cell, cells, collation_token, column_bytes, columns_bytes, done_kind, done_token,
    envchange_token, failure_of, first_units, infos_of, legacy_b_text, legacy_bytes, legacy_cell,
    legacy_cells, legacy_char, legacy_formats, legacy_metadata, legacy_names_bytes, legacy_us_text,
    login_ack, message_body, metadata, prefixed, response_of, row_of, rows_of, set_of, sets_of,
    success_of, us_text, Protocol, ResultSetView, SqlErrorView,
};
use crate::text::{dec, units_le, utf16_text, utf16_units};
use vstd::prelude::*;

verus! {

// ---------------------------------------------------------------------------
// What a client sees

/// A token as a client sees it.
pub enum Token {
    /// An error, or an information.
    Message {
        error: bool,
        number: u32,
        state: u8,
        class: u8,
        text: Seq<char>,
        server: Seq<char>,
        procedure: Seq<char>,
        line: int,
    },
    /// A change of the environment, with the value before and after.
    Change { kind: u8, new: Seq<char>, previous: Seq<char> },
    /// The collation of the server.
    Collation(Seq<u8>),
    /// The login was accepted.
    Acknowledged { interface: u8, version: u32, product: Seq<char>, build: Seq<u8> },
    /// The names of the columns of a table.
    Columns(Seq<Seq<char>>),
    /// The formats of so many columns.
    Formats(int),
    /// A row of a table.
    Row(Seq<Option<Seq<char>>>),
    /// The end of a table, of a request or of a procedure. Whether more follows, whether it
    /// failed, whether the rows are counted, what else the status says, and the rows.
    Done { of_procedure: bool, more: bool, failed: bool, counted: bool, other: int, rows: int },
}

/// Whether a client of this version reads the wide form of numbers.
pub open spec fn reads_wide(protocol: Protocol) -> bool {
    match protocol {
        Protocol::Tds42 => false,
        Protocol::Tds7(version) => version >= 0x7200_0000,
    }
}

/// A text of `n` units at a place: one byte each before version 7, two bytes since.
pub open spec fn text_at(legacy: bool, b: Seq<u8>, at: int, n: int) -> Option<(Seq<char>, int)> {
    if legacy {
        if at + n > b.len() {
            None
        } else {
            Some((Seq::new(n as nat, |i: int| b[at + i] as char), at + n))
        }
    } else if at + 2 * n > b.len() {
        None
    } else {
        Some((utf16_text(units_le(b.subrange(at, at + 2 * n))), at + 2 * n))
    }
}

/// A text behind a count of one byte.
pub open spec fn short_text(legacy: bool, b: Seq<u8>, at: int) -> Option<(Seq<char>, int)> {
    if at + 1 > b.len() {
        None
    } else {
        text_at(legacy, b, at + 1, b[at] as int)
    }
}

/// A text behind a count of two bytes.
pub open spec fn long_text(legacy: bool, b: Seq<u8>, at: int) -> Option<(Seq<char>, int)> {
    if at + 2 > b.len() {
        None
    } else {
        text_at(legacy, b, at + 2, u16_at(b, at) as int)
    }
}

/// The body of an error or an information that ends at `end`.
pub open spec fn message_at(protocol: Protocol, b: Seq<u8>, at: int, end: int, error: bool) -> Option<
    Token,
> {
    let legacy = protocol == Protocol::Tds42;
    let width = if reads_wide(protocol) {
        4int
    } else {
        2int
    };
    if at + 6 > end {
        None
    } else {
        match long_text(legacy, b, at + 6) {
            None => None,
            Some((text, p)) => match short_text(legacy, b, p) {
                None => None,
                Some((server, p)) => match short_text(legacy, b, p) {
                    None => None,
                    Some((procedure, p)) => if p + width != end {
                        None
                    } else {
                        Some(
                            Token::Message {
                                error,
                                number: u32_at(b, at),
                                state: b[at + 4],
                                class: b[at + 5],
                                text,
                                server,
                                procedure,
                                line: if width == 4 {
                                    u32_at(b, p) as int
                                } else {
                                    u16_at(b, p) as int
                                },
                            },
                        )
                    },
                },
            },
        }
    }
}

/// The body of a change of the environment that ends at `end`.
pub open spec fn change_at(b: Seq<u8>, at: int, end: int) -> Option<Token> {
    if at + 1 > end {
        None
    } else if b[at] == 7 {
        if at + 8 == end && b[at + 1] == 5 && b[at + 7] == 0 {
            Some(Token::Collation(b.subrange(at + 2, at + 7)))
        } else {
            None
        }
    } else {
        match short_text(false, b, at + 1) {
            None => None,
            Some((new, p)) => match short_text(false, b, p) {
                None => None,
                Some((previous, p)) => if p == end {
                    Some(Token::Change { kind: b[at], new, previous })
                } else {
                    None
                },
            },
        }
    }
}

/// The body of an acknowledgement that ends at `end`.
pub open spec fn acknowledgement_at(protocol: Protocol, b: Seq<u8>, at: int, end: int) -> Option<Token> {
    if at + 5 > end {
        None
    } else {
        match short_text(protocol == Protocol::Tds42, b, at + 5) {
            None => None,
            Some((product, p)) => if p + 4 == end {
                Some(
                    Token::Acknowledged {
                        interface: b[at],
                        version: u32_be_at(b, at + 1),
                        product,
                        build: b.subrange(p, p + 4),
                    },
                )
            } else {
                None
            },
        }
    }
}

/// The names of columns that stand one behind the other up to `end`.
pub open spec fn names_at(b: Seq<u8>, at: int, end: int) -> Option<Seq<Seq<char>>>
    decreases end - at,
{
    if at == end {
        Some(seq![])
    } else if at > end {
        None
    } else {
        match short_text(true, b, at) {
            None => None,
            Some((name, p)) => if p <= at || p > end {
                None
            } else {
                match names_at(b, p, end) {
                    None => None,
                    Some(names) => Some(seq![name] + names),
                }
            },
        }
    }
}

/// The names of the first `n` columns: each is nullable text in the collation of the server.
pub open spec fn columns_at(protocol: Protocol, b: Seq<u8>, at: int, n: nat) -> Option<
    (Seq<Seq<char>>, int),
>
    decreases n,
{
    if n == 0 {
        Some((seq![], at))
    } else {
        match columns_at(protocol, b, at, (n - 1) as nat) {
            None => None,
            Some((names, p)) => {
                let q = p + (if reads_wide(protocol) {
                    4int
                } else {
                    2int
                });
                if q + 10 <= b.len() && u16_at(b, q) == 1 && b[q + 2] == 0xe7 && u16_at(b, q + 3)
                    == 8000 {
                    match short_text(false, b, q + 10) {
                        None => None,
                        Some((name, p)) => Some((names.push(name), p)),
                    }
                } else {
                    None
                }
            },
        }
    }
}

/// The first `n` cells of a row.
pub open spec fn cells_at(legacy: bool, b: Seq<u8>, at: int, n: nat) -> Option<
    (Seq<Option<Seq<char>>>, int),
>
    decreases n,
{
    if n == 0 {
        Some((seq![], at))
    } else {
        match cells_at(legacy, b, at, (n - 1) as nat) {
            None => None,
            Some((row, p)) => if legacy {
                match short_text(true, b, p) {
                    None => None,
                    Some((text, q)) => Some(
                        (
                            row.push(
                                if text.len() == 0 {
                                    None
                                } else {
                                    Some(text)
                                },
                            ),
                            q,
                        ),
                    ),
                }
            } else if p + 2 > b.len() {
                None
            } else if u16_at(b, p) == 0xffff {
                Some((row.push(None), p + 2))
            } else if u16_at(b, p) % 2 != 0 {
                None
            } else {
                match text_at(false, b, p + 2, u16_at(b, p) as int / 2) {
                    None => None,
                    Some((text, q)) => Some((row.push(Some(text)), q)),
                }
            },
        }
    }
}

/// A closing token at a place.
pub open spec fn done_at(protocol: Protocol, b: Seq<u8>, at: int) -> Option<(Token, int)> {
    let end = at + (if reads_wide(protocol) {
        13int
    } else {
        9int
    });
    if end > b.len() {
        None
    } else {
        let status = u16_at(b, at + 1) as int;
        Some(
            (
                Token::Done {
                    of_procedure: b[at] == 0xfe,
                    more: status % 2 == 1,
                    failed: status / 2 % 2 == 1,
                    counted: status / 16 % 2 == 1,
                    other: status - status % 2 - 2 * (status / 2 % 2) - 16 * (status / 16 % 2),
                    rows: if reads_wide(protocol) {
                        u64_at(b, at + 5) as int
                    } else {
                        u32_at(b, at + 5) as int
                    },
                },
                end,
            ),
        )
    }
}

/// The token at a place, in a table with `width` columns, and where the next one begins.
#[verifier::opaque]
pub open spec fn token_at(protocol: Protocol, width: nat, b: Seq<u8>, at: int) -> Option<(Token, int)> {
    let legacy = protocol == Protocol::Tds42;
    if at < 0 || at + 3 > b.len() {
        if 0 <= at < b.len() && b[at] == 0xd1 {
            match cells_at(legacy, b, at + 1, width) {
                None => None,
                Some((row, p)) => Some((Token::Row(row), p)),
            }
        } else {
            None
        }
    } else if b[at] == 0xd1 {
        match cells_at(legacy, b, at + 1, width) {
            None => None,
            Some((row, p)) => Some((Token::Row(row), p)),
        }
    } else if b[at] == 0xfd || b[at] == 0xfe {
        done_at(protocol, b, at)
    } else if b[at] == 0x81 {
        match columns_at(protocol, b, at + 3, u16_at(b, at + 1) as nat) {
            None => None,
            Some((names, p)) => Some((Token::Columns(names), p)),
        }
    } else {
        let end = at + 3 + u16_at(b, at + 1);
        if end > b.len() {
            None
        } else {
            match (if b[at] == 0xaa {
                message_at(protocol, b, at + 3, end, true)
            } else if b[at] == 0xab {
                message_at(protocol, b, at + 3, end, false)
            } else if b[at] == 0xe3 {
                change_at(b, at + 3, end)
            } else if b[at] == 0xad {
                acknowledgement_at(protocol, b, at + 3, end)
            } else if b[at] == 0xa0 {
                match names_at(b, at + 3, end) {
                    None => None,
                    Some(names) => Some(Token::Columns(names)),
                }
            } else if b[at] == 0xa1 && (end - at - 3) % 6 == 0 {
                Some(Token::Formats((end - at - 3) / 6))
            } else {
                None
            }) {
                None => None,
                Some(token) => Some((token, end)),
            }
        }
    }
}

/// The tokens from a place up to the first closing token behind which nothing follows, and
/// where that one ends.
pub open spec fn seen_from(protocol: Protocol, width: nat, b: Seq<u8>, at: int) -> Option<
    (Seq<Token>, int),
>
    decreases b.len() - at,
{
    match token_at(protocol, width, b, at) {
        None => None,
        Some((token, p)) => if p <= at || at < 0 || p > b.len() {
            None
        } else if token matches Token::Done { more, .. } && !more {
            Some((seq![token], p))
        } else {
            let next = match token {
                Token::Columns(names) => names.len(),
                _ => width,
            };
            match seen_from(protocol, next, b, p) {
                None => None,
                Some((tokens, end)) => Some((seq![token] + tokens, end)),
            }
        },
    }
}

/// What a client sees of an answer: all its tokens, where the answer ends with the one that
/// says that nothing follows.
pub open spec fn seen(protocol: Protocol, b: Seq<u8>) -> Option<Seq<Token>> {
    match seen_from(protocol, 0, b, 0) {
        Some((tokens, end)) => if end == b.len() {
            Some(tokens)
        } else {
            None
        },
        None => None,
    }
}

// ---------------------------------------------------------------------------
// What a client is to see

/// A text as it arrives: at most `n` units of it since version 7; before, at most `n`
/// characters, with a question mark for each that is not ASCII.
pub open spec fn arriving(legacy: bool, text: Seq<char>, n: int) -> Seq<char> {
    if legacy {
        Seq::new(
            if text.len() > n {
                n as nat
            } else {
                text.len()
            },
            |i: int|
                if text[i] as u32 <= 0x7f {
                    text[i]
                } else {
                    '?'
                },
        )
    } else if utf16_units(text).len() <= n {
        text
    } else {
        utf16_text(utf16_units(text).take(n))
    }
}

/// An error or an information.
pub open spec fn told(protocol: Protocol, error: bool, message: SqlErrorView, server: Seq<char>) -> Token {
    let legacy = protocol == Protocol::Tds42;
    Token::Message {
        error,
        number: message.number,
        state: message.state,
        class: message.class,
        text: arriving(legacy, message.message, 0xffff),
        server: arriving(legacy, server, 255),
        procedure: seq![],
        line: 0,
    }
}

/// The first `n` messages of an answer.
pub open spec fn infos_told(
    protocol: Protocol,
    messages: Seq<Seq<char>>,
    server: Seq<char>,
    n: nat,
) -> Seq<Token> {
    Seq::new(
        n,
        |i: int|
            told(
                protocol,
                false,
                SqlErrorView { number: 0, state: 1, class: 0, message: messages[i] },
                server,
            ),
    )
}

/// A number of rows as it arrives.
pub open spec fn rows_counted(protocol: Protocol, n: nat) -> int {
    if !reads_wide(protocol) && n > 0xffff_ffff {
        0xffff_ffff
    } else {
        n as int
    }
}

/// A cell as it arrives. Before version 7, no text and an empty one are the same.
pub open spec fn cell_shown(protocol: Protocol, value: Option<Seq<char>>) -> Option<Seq<char>> {
    match value {
        None => None,
        Some(text) => if protocol != Protocol::Tds42 {
            Some(text)
        } else if text.len() == 0 {
            None
        } else {
            Some(arriving(true, text, 255))
        },
    }
}

/// The names of columns as they arrive.
pub open spec fn names_shown(protocol: Protocol, columns: Seq<Seq<char>>) -> Seq<Seq<char>> {
    Seq::new(columns.len(), |i: int| arriving(protocol == Protocol::Tds42, columns[i], 255))
}

/// A row as it arrives.
pub open spec fn row_shown(protocol: Protocol, row: Seq<Option<Seq<char>>>) -> Seq<
    Option<Seq<char>>,
> {
    Seq::new(row.len(), |i: int| cell_shown(protocol, row[i]))
}

/// The head of a table.
pub open spec fn head_shown(protocol: Protocol, set: ResultSetView) -> Seq<Token> {
    let names = Token::Columns(names_shown(protocol, set.columns));
    if protocol == Protocol::Tds42 {
        seq![names, Token::Formats(set.columns.len() as int)]
    } else {
        seq![names]
    }
}

/// The rows of a table.
pub open spec fn rows_shown(protocol: Protocol, set: ResultSetView, n: nat) -> Seq<Token> {
    Seq::new(n, |i: int| Token::Row(row_shown(protocol, set.rows[i])))
}

/// A table: its head, its rows and its end, which counts the rows and says whether more
/// follows.
pub open spec fn table_shown(protocol: Protocol, set: ResultSetView, more: bool, procedure: bool) -> Seq<
    Token,
> {
    head_shown(protocol, set) + rows_shown(protocol, set, set.rows.len()) + seq![
        Token::Done {
            of_procedure: procedure,
            more,
            failed: false,
            counted: true,
            other: 0,
            rows: rows_counted(protocol, set.rows.len()),
        },
    ]
}

/// The first `n` tables. Behind each but the last one more follows.
pub open spec fn tables_shown(
    protocol: Protocol,
    sets: Seq<ResultSetView>,
    n: nat,
    procedure: bool,
) -> Seq<Token>
    decreases n,
{
    if n == 0 {
        seq![]
    } else {
        tables_shown(protocol, sets, (n - 1) as nat, procedure) + table_shown(
            protocol,
            sets[n - 1],
            n != sets.len(),
            procedure,
        )
    }
}

/// The end of an answer without a table.
pub open spec fn ended(procedure: bool, failed: bool) -> Token {
    Token::Done { of_procedure: procedure, more: false, failed, counted: false, other: 0, rows: 0 }
}

// ---------------------------------------------------------------------------
// Texts

proof fn lemma_first_units(text: Seq<char>, n: int)
    requires
        n >= 0,
    ensures
        first_units(text, n).len() <= n,
        units_bytes(first_units(text, n)).len() == 2 * first_units(text, n).len(),
        utf16_text(units_le(units_bytes(first_units(text, n)))) == arriving(false, text, n),
{
    lemma_units_round_trip(first_units(text, n));
    lemma_utf16_round_trip(text);
}

proof fn lemma_short(b: Seq<u8>, at: int, text: Seq<char>)
    requires
        stands(b, at, b_text(text)),
    ensures
        short_text(false, b, at) == Some((arriving(false, text, 255), at + b_text(text).len())),
{
    let units = first_units(text, 255);
    lemma_first_units(text, 255);
    lemma_split(b, at, seq![units.len() as u8], units_bytes(units));
    lemma_byte(b, at, units.len() as u8);
}

proof fn lemma_long(b: Seq<u8>, at: int, text: Seq<char>)
    requires
        stands(b, at, us_text(text)),
    ensures
        long_text(false, b, at) == Some((arriving(false, text, 0xffff), at + us_text(text).len())),
{
    let units = first_units(text, 0xffff);
    lemma_first_units(text, 0xffff);
    lemma_split(b, at, le16(units.len() as u16), units_bytes(units));
    lemma_16(b, at, units.len() as u16);
}

proof fn lemma_legacy_char(c: char)
    ensures
        legacy_char(c) as char == (if c as u32 <= 0x7f {
            c
        } else {
            '?'
        }),
{
}

proof fn lemma_legacy_chars(b: Seq<u8>, at: int, text: Seq<char>, n: int)
    requires
        0 <= n,
        stands(b, at, legacy_bytes(text, n)),
    ensures
        text_at(true, b, at, legacy_bytes(text, n).len() as int) == Some(
            (arriving(true, text, n), at + legacy_bytes(text, n).len()),
        ),
{
    let raw = legacy_bytes(text, n);
    let got = Seq::new(raw.len(), |i: int| b[at + i] as char);
    assert forall|i: int| 0 <= i < raw.len() implies got[i] == arriving(true, text, n)[i] by {
        assert(b.subrange(at, at + raw.len())[i] == b[at + i]);
        lemma_legacy_char(text[i]);
    }
    assert(got =~= arriving(true, text, n));
}

proof fn lemma_legacy_short(b: Seq<u8>, at: int, text: Seq<char>)
    requires
        stands(b, at, legacy_b_text(text)),
    ensures
        short_text(true, b, at) == Some(
            (arriving(true, text, 255), at + legacy_b_text(text).len()),
        ),
{
    let raw = legacy_bytes(text, 255);
    lemma_split(b, at, seq![raw.len() as u8], raw);
    lemma_byte(b, at, raw.len() as u8);
    lemma_legacy_chars(b, at + 1, text, 255);
}

proof fn lemma_legacy_long(b: Seq<u8>, at: int, text: Seq<char>)
    requires
        stands(b, at, legacy_us_text(text)),
    ensures
        long_text(true, b, at) == Some(
            (arriving(true, text, 0xffff), at + legacy_us_text(text).len()),
        ),
{
    let raw = legacy_bytes(text, 0xffff);
    lemma_split(b, at, le16(raw.len() as u16), raw);
    lemma_16(b, at, raw.len() as u16);
    lemma_legacy_chars(b, at + 2, text, 0xffff);
}

// ---------------------------------------------------------------------------
// Tokens

proof fn lemma_wide(protocol: Protocol)
    ensures
        reads_wide(protocol) == protocol.wide(),
{
}

proof fn lemma_done(
    protocol: Protocol,
    width: nat,
    b: Seq<u8>,
    at: int,
    token: u8,
    status: u16,
    rows: u64,
)
    requires
        token == 0xfd || token == 0xfe,
        stands(b, at, done_token(protocol, token, status, rows)),
    ensures
        ({
            let s = status as int;
            &&& token_at(protocol, width, b, at) == Some(
                (
                    Token::Done {
                        of_procedure: token == 0xfe,
                        more: s % 2 == 1,
                        failed: s / 2 % 2 == 1,
                        counted: s / 16 % 2 == 1,
                        other: s - s % 2 - 2 * (s / 2 % 2) - 16 * (s / 16 % 2),
                        rows: rows_counted(protocol, rows as nat),
                    },
                    at + done_token(protocol, token, status, rows).len(),
                ),
            )
            &&& done_token(protocol, token, status, rows).len() > 0
        }),
{
    reveal(token_at);
    lemma_wide(protocol);
    let tail = if protocol.wide() {
        le64(rows)
    } else if rows > 0xffff_ffff {
        le32(0xffff_ffff)
    } else {
        le32(rows as u32)
    };
    lemma_split(b, at, seq![token] + le16(status) + le16(0), tail);
    lemma_split(b, at, seq![token] + le16(status), le16(0));
    lemma_split(b, at, seq![token], le16(status));
    lemma_byte(b, at, token);
    lemma_16(b, at + 1, status);
    if protocol.wide() {
        lemma_64(b, at + 5, rows);
    } else if rows > 0xffff_ffff {
        lemma_32(b, at + 5, 0xffff_ffff);
    } else {
        lemma_32(b, at + 5, rows as u32);
    }
}

proof fn lemma_prefixed(b: Seq<u8>, at: int, token: u8, body: Seq<u8>)
    requires
        prefixed(token, body) is Ok,
        stands(b, at, prefixed(token, body)->Ok_0),
    ensures
        at >= 0,
        b[at] == token,
        u16_at(b, at + 1) == body.len(),
        stands(b, at + 3, body),
        prefixed(token, body)->Ok_0.len() == 3 + body.len(),
{
    let n = body.len() as u16;
    lemma_split(b, at, seq![token] + le16(n), body);
    lemma_split(b, at, seq![token], le16(n));
    lemma_byte(b, at, token);
    lemma_16(b, at + 1, n);
}

#[verifier::spinoff_prover]
proof fn lemma_message(
    protocol: Protocol,
    width: nat,
    b: Seq<u8>,
    at: int,
    token: u8,
    message: SqlErrorView,
    server: Seq<char>,
)
    requires
        token == 0xaa || token == 0xab,
        prefixed(token, message_body(protocol, message, server)) is Ok,
        stands(b, at, prefixed(token, message_body(protocol, message, server))->Ok_0),
    ensures
        token_at(protocol, width, b, at) == Some(
            (
                told(protocol, token == 0xaa, message, server),
                at + prefixed(token, message_body(protocol, message, server))->Ok_0.len(),
            ),
        ),
{
    let body = message_body(protocol, message, server);
    lemma_prefixed(b, at, token, body);
    lemma_wide(protocol);
    let legacy = protocol == Protocol::Tds42;
    let p = at + 3;
    let head = le32(message.number) + seq![message.state, message.class];
    let texts = if legacy {
        legacy_us_text(message.message) + legacy_b_text(server) + legacy_b_text(""@)
    } else {
        us_text(message.message) + b_text(server) + b_text(""@)
    };
    let line = if protocol.wide() {
        le32(0)
    } else {
        le16(0)
    };
    assert(body == head + texts + line);
    lemma_split(b, p, head + texts, line);
    lemma_split(b, p, head, texts);
    lemma_split(b, p, le32(message.number), seq![message.state, message.class]);
    lemma_32(b, p, message.number);
    assert(b.subrange(p + 4, p + 6)[0] == message.state);
    assert(b.subrange(p + 4, p + 6)[1] == message.class);
    let q = p + 6;
    reveal_strlit("");
    if legacy {
        let x = legacy_us_text(message.message);
        let y = legacy_b_text(server);
        let z = legacy_b_text(""@);
        lemma_split(b, q, x + y, z);
        lemma_split(b, q, x, y);
        lemma_legacy_long(b, q, message.message);
        lemma_legacy_short(b, q + x.len(), server);
        lemma_legacy_short(b, q + x.len() + y.len(), ""@);
        assert(arriving(true, ""@, 255) =~= seq![]);
    } else {
        let x = us_text(message.message);
        let y = b_text(server);
        let z = b_text(""@);
        lemma_split(b, q, x + y, z);
        lemma_split(b, q, x, y);
        lemma_long(b, q, message.message);
        lemma_short(b, q + x.len(), server);
        lemma_short(b, q + x.len() + y.len(), ""@);
        assert(utf16_units(""@).len() == 0);
        assert(arriving(false, ""@, 255) =~= seq![]);
    }
    let r = q + texts.len();
    if protocol.wide() {
        lemma_32(b, r, 0);
    } else {
        lemma_16(b, r, 0);
    }
    let end = p + body.len();
    assert(message_at(protocol, b, p, end, token == 0xaa) == Some(
        told(protocol, token == 0xaa, message, server),
    ));
    assert(token_at(protocol, width, b, at) == Some(
        (told(protocol, token == 0xaa, message, server), end),
    )) by {
        reveal(token_at);
    }
}

/// The tokens that were seen, behind others.
pub open spec fn prepended(first: Seq<Token>, rest: Option<(Seq<Token>, int)>) -> Option<
    (Seq<Token>, int),
> {
    match rest {
        None => None,
        Some((tokens, end)) => Some((first + tokens, end)),
    }
}

proof fn lemma_prepended(a: Seq<Token>, c: Seq<Token>, rest: Option<(Seq<Token>, int)>)
    ensures
        prepended(a, prepended(c, rest)) == prepended(a + c, rest),
        prepended(seq![], rest) == rest,
{
    if let Some((tokens, end)) = rest {
        assert(a + (c + tokens) =~= a + c + tokens);
        assert(seq![] + tokens =~= tokens);
    }
}

proof fn lemma_infos(
    protocol: Protocol,
    width: nat,
    b: Seq<u8>,
    at: int,
    messages: Seq<Seq<char>>,
    server: Seq<char>,
    n: nat,
)
    requires
        infos_of(protocol, messages, server, n) is Ok,
        stands(b, at, infos_of(protocol, messages, server, n)->Ok_0),
    ensures
        seen_from(protocol, width, b, at) == prepended(
            infos_told(protocol, messages, server, n),
            seen_from(
                protocol,
                width,
                b,
                at + infos_of(protocol, messages, server, n)->Ok_0.len(),
            ),
        ),
    decreases n,
{
    if n == 0 {
        assert(infos_told(protocol, messages, server, 0) =~= seq![]);
        lemma_prepended(seq![], seq![], seen_from(protocol, width, b, at));
    } else {
        let m = (n - 1) as nat;
        let x = infos_of(protocol, messages, server, m)->Ok_0;
        let message = SqlErrorView { number: 0, state: 1, class: 0, message: messages[n - 1] };
        let y = prefixed(0xab, message_body(protocol, message, server))->Ok_0;
        lemma_split(b, at, x, y);
        lemma_infos(protocol, width, b, at, messages, server, m);
        lemma_message(protocol, width, b, at + x.len(), 0xab, message, server);
        lemma_prefixed(b, at + x.len(), 0xab, message_body(protocol, message, server));
        let token = told(protocol, false, message, server);
        let rest = seen_from(protocol, width, b, at + x.len() + y.len());
        assert(seen_from(protocol, width, b, at + x.len()) == prepended(seq![token], rest));
        lemma_prepended(infos_told(protocol, messages, server, m), seq![token], rest);
        assert(infos_told(protocol, messages, server, m) + seq![token] =~= infos_told(
            protocol,
            messages,
            server,
            n,
        ));
    }
}

// ---------------------------------------------------------------------------
// Tables

proof fn lemma_column(protocol: Protocol, b: Seq<u8>, at: int, name: Seq<char>)
    requires
        stands(b, at, column_bytes(protocol, name)),
    ensures
        ({
            let q = at + (if reads_wide(protocol) {
                4int
            } else {
                2int
            });
            &&& q + 10 <= b.len()
            &&& u16_at(b, q) == 1
            &&& b[q + 2] == 0xe7
            &&& u16_at(b, q + 3) == 8000
            &&& short_text(false, b, q + 10) == Some(
                (arriving(false, name, 255), at + column_bytes(protocol, name).len()),
            )
        }),
{
    lemma_wide(protocol);
    let a = if protocol.wide() {
        le32(0)
    } else {
        le16(0)
    };
    let q = at + a.len();
    let collation = seq![0x09u8, 0x04, 0xd0, 0x00, 0x34];
    lemma_split(b, at, a + le16(1) + seq![0xe7u8] + le16(8000) + collation, b_text(name));
    lemma_split(b, at, a + le16(1) + seq![0xe7u8] + le16(8000), collation);
    lemma_split(b, at, a + le16(1) + seq![0xe7u8], le16(8000));
    lemma_split(b, at, a + le16(1), seq![0xe7u8]);
    lemma_split(b, at, a, le16(1));
    lemma_16(b, q, 1);
    lemma_byte(b, q + 2, 0xe7);
    lemma_16(b, q + 3, 8000);
    lemma_short(b, q + 10, name);
}

proof fn lemma_columns(protocol: Protocol, b: Seq<u8>, at: int, columns: Seq<Seq<char>>, n: nat)
    requires
        n <= columns.len(),
        stands(b, at, columns_bytes(protocol, columns, n)),
    ensures
        columns_at(protocol, b, at, n) == Some(
            (
                Seq::new(n, |i: int| arriving(false, columns[i], 255)),
                at + columns_bytes(protocol, columns, n).len(),
            ),
        ),
    decreases n,
{
    let names = Seq::new(n, |i: int| arriving(false, columns[i], 255));
    if n == 0 {
        assert(names =~= seq![]);
    } else {
        let m = (n - 1) as nat;
        let x = columns_bytes(protocol, columns, m);
        lemma_split(b, at, x, column_bytes(protocol, columns[n - 1]));
        lemma_columns(protocol, b, at, columns, m);
        lemma_column(protocol, b, at + x.len(), columns[n - 1]);
        let before = Seq::new(m, |i: int| arriving(false, columns[i], 255));
        assert(names =~= before.push(arriving(false, columns[n - 1], 255)));
    }
}

proof fn lemma_cells(b: Seq<u8>, at: int, row: Seq<Option<Seq<char>>>, n: nat)
    requires
        n <= row.len(),
        cells(row, n) is Ok,
        stands(b, at, cells(row, n)->Ok_0),
    ensures
        cells_at(false, b, at, n) == Some((row.take(n as int), at + cells(row, n)->Ok_0.len())),
    decreases n,
{
    if n == 0 {
        assert(row.take(0) =~= seq![]);
    } else {
        let m = (n - 1) as nat;
        let x = cells(row, m)->Ok_0;
        let y = cell(row[n - 1])->Ok_0;
        lemma_split(b, at, x, y);
        lemma_cells(b, at, row, m);
        let p = at + x.len();
        match row[n - 1] {
            None => {
                lemma_16(b, p, 0xffff);
            },
            Some(text) => {
                lemma_utf16_round_trip(text);
                let raw = utf16_le(text);
                lemma_split(b, p, le16(raw.len() as u16), raw);
                lemma_16(b, p, raw.len() as u16);
            },
        }
        assert(row.take(n as int) =~= row.take(m as int).push(row[n - 1]));
    }
}

proof fn lemma_legacy_cells(b: Seq<u8>, at: int, row: Seq<Option<Seq<char>>>, n: nat)
    requires
        n <= row.len(),
        stands(b, at, legacy_cells(row, n)),
    ensures
        cells_at(true, b, at, n) == Some(
            (row_shown(Protocol::Tds42, row).take(n as int), at + legacy_cells(row, n).len()),
        ),
    decreases n,
{
    let shown = row_shown(Protocol::Tds42, row);
    if n == 0 {
        assert(shown.take(0) =~= seq![]);
    } else {
        let m = (n - 1) as nat;
        let x = legacy_cells(row, m);
        let y = legacy_cell(row[n - 1]);
        lemma_split(b, at, x, y);
        lemma_legacy_cells(b, at, row, m);
        let p = at + x.len();
        match row[n - 1] {
            None => {
                lemma_byte(b, p, 0);
            },
            Some(text) => {
                lemma_legacy_short(b, p, text);
            },
        }
        assert(shown.take(n as int) =~= shown.take(m as int).push(shown[n - 1]));
    }
}

proof fn lemma_row(
    protocol: Protocol,
    width: nat,
    b: Seq<u8>,
    at: int,
    row: Seq<Option<Seq<char>>>,
)
    requires
        row_of(protocol, row, width as int) is Ok,
        stands(b, at, row_of(protocol, row, width as int)->Ok_0),
    ensures
        token_at(protocol, width, b, at) == Some(
            (
                Token::Row(row_shown(protocol, row)),
                at + row_of(protocol, row, width as int)->Ok_0.len(),
            ),
        ),
        row_of(protocol, row, width as int)->Ok_0.len() > 0,
{
    reveal(token_at);
    let shown = row_shown(protocol, row);
    assert(shown.take(row.len() as int) =~= shown);
    if protocol == Protocol::Tds42 {
        lemma_split(b, at, seq![0xd1u8], legacy_cells(row, row.len()));
        lemma_byte(b, at, 0xd1);
        lemma_legacy_cells(b, at + 1, row, row.len());
    } else {
        lemma_split(b, at, seq![0xd1u8], cells(row, row.len())->Ok_0);
        lemma_byte(b, at, 0xd1);
        lemma_cells(b, at + 1, row, row.len());
        assert(row.take(row.len() as int) =~= shown);
    }
}

proof fn lemma_rows(protocol: Protocol, b: Seq<u8>, at: int, set: ResultSetView, n: nat)
    requires
        n <= set.rows.len(),
        rows_of(protocol, set, n) is Ok,
        stands(b, at, rows_of(protocol, set, n)->Ok_0),
    ensures
        seen_from(protocol, set.columns.len(), b, at) == prepended(
            rows_shown(protocol, set, n),
            seen_from(
                protocol,
                set.columns.len(),
                b,
                at + rows_of(protocol, set, n)->Ok_0.len(),
            ),
        ),
    decreases n,
{
    let width = set.columns.len();
    if n == 0 {
        assert(rows_shown(protocol, set, 0) =~= seq![]);
        lemma_prepended(seq![], seq![], seen_from(protocol, width, b, at));
    } else {
        let m = (n - 1) as nat;
        let x = rows_of(protocol, set, m)->Ok_0;
        let y = row_of(protocol, set.rows[n - 1], width as int)->Ok_0;
        lemma_split(b, at, x, y);
        lemma_rows(protocol, b, at, set, m);
        lemma_row(protocol, width, b, at + x.len(), set.rows[n - 1]);
        let token = Token::Row(row_shown(protocol, set.rows[n - 1]));
        let rest = seen_from(protocol, width, b, at + x.len() + y.len());
        assert(seen_from(protocol, width, b, at + x.len()) == prepended(seq![token], rest));
        lemma_prepended(rows_shown(protocol, set, m), seq![token], rest);
        assert(rows_shown(protocol, set, m) + seq![token] =~= rows_shown(protocol, set, n));
    }
}

proof fn lemma_names(b: Seq<u8>, at: int, end: int, columns: Seq<Seq<char>>, n: nat)
    requires
        n <= columns.len(),
        stands(b, at, legacy_names_bytes(columns, n)),
        at + legacy_names_bytes(columns, n).len() <= end,
    ensures
        names_at(b, at, end) == (match names_at(
            b,
            at + legacy_names_bytes(columns, n).len(),
            end,
        ) {
            None => None,
            Some(names) => Some(Seq::new(n, |i: int| arriving(true, columns[i], 255)) + names),
        }),
    decreases n,
{
    let shown = Seq::new(n, |i: int| arriving(true, columns[i], 255));
    if n == 0 {
        if let Some(names) = names_at(b, at, end) {
            assert(shown + names =~= names);
        }
    } else {
        let m = (n - 1) as nat;
        let x = legacy_names_bytes(columns, m);
        let y = legacy_b_text(columns[n - 1]);
        lemma_split(b, at, x, y);
        lemma_names(b, at, end, columns, m);
        lemma_legacy_short(b, at + x.len(), columns[n - 1]);
        let before = Seq::new(m, |i: int| arriving(true, columns[i], 255));
        let name = arriving(true, columns[n - 1], 255);
        if let Some(names) = names_at(b, at + x.len() + y.len(), end) {
            assert(before + (seq![name] + names) =~= shown + names);
        }
    }
}

proof fn lemma_formats(n: nat)
    ensures
        legacy_formats(n).len() == 6 * n,
    decreases n,
{
    if n > 0 {
        lemma_formats((n - 1) as nat);
    }
}

/// The head of a table as it is written.
spec fn head_of(protocol: Protocol, set: ResultSetView) -> Model<Seq<u8>> {
    if protocol == Protocol::Tds42 {
        legacy_metadata(set.columns)
    } else {
        metadata(protocol, set.columns)
    }
}

proof fn lemma_legacy_head(width: nat, b: Seq<u8>, at: int, columns: Seq<Seq<char>>)
    requires
        legacy_metadata(columns) is Ok,
        stands(b, at, legacy_metadata(columns)->Ok_0),
    ensures
        ({
            let n = columns.len();
            let x = prefixed(0xa0, legacy_names_bytes(columns, n))->Ok_0;
            let p = at + x.len();
            &&& x.len() > 0
            &&& token_at(Protocol::Tds42, width, b, at) == Some(
                (Token::Columns(names_shown(Protocol::Tds42, columns)), p),
            )
            &&& token_at(Protocol::Tds42, n, b, p) == Some(
                (Token::Formats(n as int), at + legacy_metadata(columns)->Ok_0.len()),
            )
            &&& p < at + legacy_metadata(columns)->Ok_0.len()
        }),
{
    let n = columns.len();
    let raw = legacy_names_bytes(columns, n);
    let x = prefixed(0xa0, raw)->Ok_0;
    let y = prefixed(0xa1, legacy_formats(n))->Ok_0;
    lemma_split(b, at, x, y);
    lemma_prefixed(b, at, 0xa0, raw);
    lemma_prefixed(b, at + x.len(), 0xa1, legacy_formats(n));
    lemma_names(b, at + 3, at + x.len(), columns, n);
    assert(names_at(b, at + x.len(), at + x.len()) == Some(Seq::<Seq<char>>::empty()));
    assert(Seq::new(n, |i: int| arriving(true, columns[i], 255)) + seq![] =~= names_shown(
        Protocol::Tds42,
        columns,
    ));
    lemma_formats(n);
    let end = at + x.len() + y.len();
    assert((end - (at + x.len()) - 3) / 6 == n && (end - (at + x.len()) - 3) % 6 == 0);
    assert(names_at(b, at + 3, at + x.len()) == Some(names_shown(Protocol::Tds42, columns)));
    assert(token_at(Protocol::Tds42, width, b, at) == Some(
        (Token::Columns(names_shown(Protocol::Tds42, columns)), at + x.len()),
    )) by {
        reveal(token_at);
    }
    assert(token_at(Protocol::Tds42, n, b, at + x.len()) == Some((Token::Formats(n as int), end)))
        by {
        reveal(token_at);
    }
}

proof fn lemma_head(protocol: Protocol, width: nat, b: Seq<u8>, at: int, set: ResultSetView)
    requires
        head_of(protocol, set) is Ok,
        stands(b, at, head_of(protocol, set)->Ok_0),
    ensures
        seen_from(protocol, width, b, at) == prepended(
            head_shown(protocol, set),
            seen_from(protocol, set.columns.len(), b, at + head_of(protocol, set)->Ok_0.len()),
        ),
{
    let n = set.columns.len();
    let names = Token::Columns(names_shown(protocol, set.columns));
    let rest = seen_from(protocol, n, b, at + head_of(protocol, set)->Ok_0.len());
    if protocol == Protocol::Tds42 {
        lemma_legacy_head(width, b, at, set.columns);
        let x = prefixed(0xa0, legacy_names_bytes(set.columns, n))->Ok_0;
        let formats = Token::Formats(n as int);
        assert(seen_from(protocol, n, b, at + x.len()) == prepended(seq![formats], rest));
        lemma_prepended(seq![names], seq![formats], rest);
        assert(seq![names] + seq![formats] =~= head_shown(protocol, set));
    } else {
        let columns = columns_bytes(protocol, set.columns, n);
        lemma_split(b, at, seq![0x81u8] + le16(n as u16), columns);
        lemma_split(b, at, seq![0x81u8], le16(n as u16));
        lemma_byte(b, at, 0x81);
        lemma_16(b, at + 1, n as u16);
        lemma_columns(protocol, b, at + 3, set.columns, n);
        assert(Seq::new(n, |i: int| arriving(false, set.columns[i], 255)) =~= names_shown(
            protocol,
            set.columns,
        ));
        assert(token_at(protocol, width, b, at) == Some(
            (names, at + head_of(protocol, set)->Ok_0.len()),
        )) by {
            reveal(token_at);
        }
    }
}

#[verifier::spinoff_prover]
proof fn lemma_table(
    protocol: Protocol,
    width: nat,
    b: Seq<u8>,
    at: int,
    set: ResultSetView,
    more: bool,
    done_proc: bool,
)
    requires
        set.rows.len() <= u64::MAX,
        set_of(protocol, set, more, done_proc) is Ok,
        stands(b, at, set_of(protocol, set, more, done_proc)->Ok_0),
    ensures
        ({
            let end = at + set_of(protocol, set, more, done_proc)->Ok_0.len();
            let shown = table_shown(protocol, set, more, done_proc);
            &&& more ==> seen_from(protocol, width, b, at) == prepended(
                shown,
                seen_from(protocol, set.columns.len(), b, end),
            )
            &&& !more ==> seen_from(protocol, width, b, at) == Some((shown, end))
        }),
{
    let head = head_of(protocol, set)->Ok_0;
    let rows = rows_of(protocol, set, set.rows.len())->Ok_0;
    let status: u16 = if more {
        0x11
    } else {
        0x10
    };
    let kind = done_kind(done_proc);
    let count = set.rows.len() as u64;
    let done = done_token(protocol, kind, status, count);
    let n = set.columns.len();
    lemma_split(b, at, head + rows, done);
    lemma_split(b, at, head, rows);
    lemma_head(protocol, width, b, at, set);
    lemma_rows(protocol, b, at + head.len(), set, set.rows.len());
    let p = at + head.len() + rows.len();
    lemma_done(protocol, n, b, p, kind, status, count);
    let token = Token::Done {
        of_procedure: done_proc,
        more,
        failed: false,
        counted: true,
        other: 0,
        rows: rows_counted(protocol, set.rows.len()),
    };
    assert(token_at(protocol, n, b, p) == Some((token, p + done.len())));
    let a = head_shown(protocol, set);
    let c = rows_shown(protocol, set, set.rows.len());
    let rest = seen_from(protocol, n, b, p);
    lemma_prepended(a, c, rest);
    let end = p + done.len();
    if more {
        let later = seen_from(protocol, n, b, end);
        assert(rest == prepended(seq![token], later));
        lemma_prepended(a + c, seq![token], later);
    } else {
        assert(rest == Some((seq![token], end)));
    }
}

#[verifier::spinoff_prover]
proof fn lemma_tables(
    protocol: Protocol,
    width: nat,
    b: Seq<u8>,
    at: int,
    sets: Seq<ResultSetView>,
    n: nat,
    done_proc: bool,
)
    requires
        n <= sets.len(),
        forall|i: int| 0 <= i < sets.len() ==> (#[trigger] sets[i]).rows.len() <= u64::MAX,
        sets_of(protocol, sets, n, done_proc) is Ok,
        stands(b, at, sets_of(protocol, sets, n, done_proc)->Ok_0),
    ensures
        ({
            let end = at + sets_of(protocol, sets, n, done_proc)->Ok_0.len();
            let shown = tables_shown(protocol, sets, n, done_proc);
            let next = if n == 0 {
                width
            } else {
                sets[n - 1].columns.len()
            };
            &&& n < sets.len() ==> seen_from(protocol, width, b, at) == prepended(
                shown,
                seen_from(protocol, next, b, end),
            )
            &&& 0 < n == sets.len() ==> seen_from(protocol, width, b, at) == Some((shown, end))
        }),
    decreases n,
{
    if n == 0 {
        lemma_prepended(seq![], seq![], seen_from(protocol, width, b, at));
    } else {
        let m = (n - 1) as nat;
        let x = sets_of(protocol, sets, m, done_proc)->Ok_0;
        let y = set_of(protocol, sets[n - 1], n < sets.len(), done_proc)->Ok_0;
        lemma_split(b, at, x, y);
        lemma_tables(protocol, width, b, at, sets, m, done_proc);
        let next = if m == 0 {
            width
        } else {
            sets[m - 1].columns.len()
        };
        lemma_table(protocol, next, b, at + x.len(), sets[n - 1], n < sets.len(), done_proc);
        let shown = tables_shown(protocol, sets, m, done_proc);
        let table = table_shown(protocol, sets[n - 1], n < sets.len(), done_proc);
        if n < sets.len() {
            let rest = seen_from(protocol, sets[n - 1].columns.len(), b, at + x.len() + y.len());
            lemma_prepended(shown, table, rest);
        }
    }
}

// ---------------------------------------------------------------------------
// Laws

proof fn lemma_end(protocol: Protocol, width: nat, b: Seq<u8>, at: int, done_proc: bool, status: u16)
    requires
        status == 0 || status == 2,
        stands(b, at, done_token(protocol, done_kind(done_proc), status, 0)),
    ensures
        seen_from(protocol, width, b, at) == Some(
            (
                seq![ended(done_proc, status == 2)],
                at + done_token(protocol, done_kind(done_proc), status, 0).len(),
            ),
        ),
{
    lemma_done(protocol, width, b, at, done_kind(done_proc), status, 0);
}

/// A client that stops at the first closing token behind which nothing follows reads an answer
/// from end to end. It sees the messages in order, and then either the error and that the
/// request failed, or the tables in order, each with its names, its cells and the number of
/// its rows, the last one as the last. Without error and tables it sees that the request is
/// done.
#[verifier::spinoff_prover]
pub proof fn lemma_answers_are_read(
    protocol: Protocol,
    sets: Seq<ResultSetView>,
    messages: Seq<Seq<char>>,
    error: Option<SqlErrorView>,
    server: Seq<char>,
    done_proc: bool,
)
    requires
        forall|i: int| 0 <= i < sets.len() ==> (#[trigger] sets[i]).rows.len() <= u64::MAX,
    ensures
        response_of(protocol, sets, messages, error, server, done_proc) matches Ok(bytes) ==> seen(
            protocol,
            bytes,
        ) == Some(
            infos_told(protocol, messages, server, messages.len()) + match error {
                Some(e) => seq![told(protocol, true, e, server), ended(done_proc, true)],
                None => if sets.len() == 0 {
                    seq![ended(done_proc, false)]
                } else {
                    tables_shown(protocol, sets, sets.len(), done_proc)
                },
            },
        ),
{
    if let Ok(b) = response_of(protocol, sets, messages, error, server, done_proc) {
        let x = infos_of(protocol, messages, server, messages.len())->Ok_0;
        let told_first = infos_told(protocol, messages, server, messages.len());
        let kind = done_kind(done_proc);
        let y = match error {
            Some(e) => prefixed(0xaa, message_body(protocol, e, server))->Ok_0 + done_token(
                protocol,
                kind,
                2,
                0,
            ),
            None => if sets.len() == 0 {
                done_token(protocol, kind, 0, 0)
            } else {
                sets_of(protocol, sets, sets.len(), done_proc)->Ok_0
            },
        };
        assert(b == x + y);
        assert(b.subrange(0, b.len() as int) =~= b);
        lemma_split(b, 0, x, y);
        lemma_infos(protocol, 0, b, 0, messages, server, messages.len());
        let at = x.len() as int;
        match error {
            Some(e) => {
                let z = prefixed(0xaa, message_body(protocol, e, server))->Ok_0;
                lemma_split(b, at, z, done_token(protocol, kind, 2, 0));
                lemma_message(protocol, 0, b, at, 0xaa, e, server);
                lemma_prefixed(b, at, 0xaa, message_body(protocol, e, server));
                lemma_end(protocol, 0, b, at + z.len(), done_proc, 2);
                let token = told(protocol, true, e, server);
                assert(seen_from(protocol, 0, b, at) == Some(
                    (seq![token] + seq![ended(done_proc, true)], b.len() as int),
                ));
                assert(seq![token] + seq![ended(done_proc, true)] =~= seq![
                    token,
                    ended(done_proc, true),
                ]);
            },
            None => if sets.len() == 0 {
                lemma_end(protocol, 0, b, at, done_proc, 0);
            } else {
                lemma_tables(protocol, 0, b, at, sets, sets.len(), done_proc);
            },
        }
    }
}

// ---------------------------------------------------------------------------
// Logins

proof fn lemma_change(
    protocol: Protocol,
    width: nat,
    b: Seq<u8>,
    at: int,
    kind: u8,
    new: Seq<char>,
    previous: Seq<char>,
)
    requires
        kind != 7,
        envchange_token(kind, new, previous) is Ok,
        stands(b, at, envchange_token(kind, new, previous)->Ok_0),
    ensures
        token_at(protocol, width, b, at) == Some(
            (
                Token::Change {
                    kind,
                    new: arriving(false, new, 255),
                    previous: arriving(false, previous, 255),
                },
                at + envchange_token(kind, new, previous)->Ok_0.len(),
            ),
        ),
        envchange_token(kind, new, previous)->Ok_0.len() > 0,
{
    let body = seq![kind] + b_text(new) + b_text(previous);
    lemma_prefixed(b, at, 0xe3, body);
    let p = at + 3;
    lemma_split(b, p, seq![kind] + b_text(new), b_text(previous));
    lemma_split(b, p, seq![kind], b_text(new));
    lemma_byte(b, p, kind);
    lemma_short(b, p + 1, new);
    lemma_short(b, p + 1 + b_text(new).len(), previous);
    reveal(token_at);
}

proof fn lemma_collation(protocol: Protocol, width: nat, b: Seq<u8>, at: int)
    requires
        stands(b, at, collation_token()->Ok_0),
    ensures
        token_at(protocol, width, b, at) == Some(
            (
                Token::Collation(seq![0x09u8, 0x04, 0xd0, 0x00, 0x34]),
                at + collation_token()->Ok_0.len(),
            ),
        ),
        collation_token()->Ok_0.len() > 0,
{
    let body = seq![7u8, 5, 0x09, 0x04, 0xd0, 0x00, 0x34, 0];
    lemma_prefixed(b, at, 0xe3, body);
    let p = at + 3;
    let part = b.subrange(p, p + 8);
    assert(part[0] == b[p] && part[1] == b[p + 1] && part[7] == b[p + 7]);
    assert(b.subrange(p + 2, p + 7) =~= part.subrange(2, 7));
    assert(b.subrange(p + 2, p + 7) =~= seq![0x09u8, 0x04, 0xd0, 0x00, 0x34]);
    reveal(token_at);
}

/// The version that an answer to a login carries.
pub open spec fn version_shown(protocol: Protocol) -> u32 {
    match protocol {
        Protocol::Tds42 => 0x0402_0000,
        Protocol::Tds7(version) => version,
    }
}

/// The build that an answer to a login carries.
pub open spec fn build_shown(protocol: Protocol) -> Seq<u8> {
    match protocol {
        Protocol::Tds42 => seq![95u8, 16, 0, 89],
        Protocol::Tds7(_) => seq![16u8, 0, 16, 89],
    }
}

proof fn lemma_acknowledgement(
    protocol: Protocol,
    width: nat,
    b: Seq<u8>,
    at: int,
    product: Seq<char>,
)
    requires
        login_ack(protocol, product) is Ok,
        stands(b, at, login_ack(protocol, product)->Ok_0),
    ensures
        token_at(protocol, width, b, at) == Some(
            (
                Token::Acknowledged {
                    interface: 1,
                    version: version_shown(protocol),
                    product: arriving(protocol == Protocol::Tds42, product, 255),
                    build: build_shown(protocol),
                },
                at + login_ack(protocol, product)->Ok_0.len(),
            ),
        ),
        login_ack(protocol, product)->Ok_0.len() > 0,
{
    let text = if protocol == Protocol::Tds42 {
        legacy_b_text(product)
    } else {
        b_text(product)
    };
    let version = version_shown(protocol);
    let build = build_shown(protocol);
    let body = seq![1u8] + be32(version) + text + build;
    lemma_prefixed(b, at, 0xad, body);
    let p = at + 3;
    lemma_split(b, p, seq![1u8] + be32(version) + text, build);
    lemma_split(b, p, seq![1u8] + be32(version), text);
    lemma_split(b, p, seq![1u8], be32(version));
    lemma_byte(b, p, 1);
    lemma_32_be(b, p + 1, version);
    if protocol == Protocol::Tds42 {
        lemma_legacy_short(b, p + 5, product);
    } else {
        lemma_short(b, p + 5, product);
    }
    reveal(token_at);
}

proof fn lemma_split_eight(
    b: Seq<u8>,
    p1: Seq<u8>,
    p2: Seq<u8>,
    p3: Seq<u8>,
    p4: Seq<u8>,
    p5: Seq<u8>,
    p6: Seq<u8>,
    p7: Seq<u8>,
    p8: Seq<u8>,
)
    requires
        stands(b, 0, p1 + p2 + p3 + p4 + p5 + p6 + p7 + p8),
    ensures
        stands(b, 0, p1),
        stands(b, p1.len() as int, p2),
        stands(b, (p1.len() + p2.len()) as int, p3),
        stands(b, (p1.len() + p2.len() + p3.len()) as int, p4),
        stands(b, (p1.len() + p2.len() + p3.len() + p4.len()) as int, p5),
        stands(b, (p1.len() + p2.len() + p3.len() + p4.len() + p5.len()) as int, p6),
        stands(
            b,
            (p1.len() + p2.len() + p3.len() + p4.len() + p5.len() + p6.len()) as int,
            p7,
        ),
        stands(
            b,
            (p1.len() + p2.len() + p3.len() + p4.len() + p5.len() + p6.len() + p7.len()) as int,
            p8,
        ),
{
    lemma_split(b, 0, p1 + p2 + p3 + p4 + p5 + p6 + p7, p8);
    lemma_split(b, 0, p1 + p2 + p3 + p4 + p5 + p6, p7);
    lemma_split(b, 0, p1 + p2 + p3 + p4 + p5, p6);
    lemma_split(b, 0, p1 + p2 + p3 + p4, p5);
    lemma_split(b, 0, p1 + p2 + p3, p4);
    lemma_split(b, 0, p1 + p2, p3);
    lemma_split(b, 0, p1, p2);
}

/// What a client is to see of a login that was accepted.
pub open spec fn welcome(
    protocol: Protocol,
    database: Seq<char>,
    language: Seq<char>,
    packet_size: u32,
    product: Seq<char>,
) -> Seq<Token> {
    let legacy = protocol == Protocol::Tds42;
    let acknowledged = Token::Acknowledged {
        interface: 1,
        version: version_shown(protocol),
        product: arriving(legacy, product, 255),
        build: build_shown(protocol),
    };
    if legacy {
        seq![acknowledged, ended(false, false)]
    } else {
        seq![
            Token::Change { kind: 1, new: arriving(false, database, 255), previous: seq![] },
            told(
                protocol,
                false,
                SqlErrorView {
                    number: 5701,
                    state: 2,
                    class: 0,
                    message: "Changed database context to '"@ + database + "'."@,
                },
                seq![],
            ),
            Token::Collation(seq![0x09u8, 0x04, 0xd0, 0x00, 0x34]),
            Token::Change { kind: 2, new: arriving(false, language, 255), previous: seq![] },
            told(
                protocol,
                false,
                SqlErrorView {
                    number: 5703,
                    state: 1,
                    class: 0,
                    message: "Changed language setting to "@ + language + "."@,
                },
                seq![],
            ),
            acknowledged,
            Token::Change { kind: 4, new: dec(packet_size as nat), previous: "4096"@ },
            ended(false, false),
        ]
    }
}

spec fn ten_to(k: nat) -> nat
    decreases k,
{
    if k == 0 {
        1
    } else {
        10 * ten_to((k - 1) as nat)
    }
}

proof fn lemma_digits_short(n: nat)
    requires
        n <= 0xffff_ffff,
    ensures
        dec(n).len() <= 10,
        utf16_units(dec(n)).len() <= 255,
{
    reveal_with_fuel(ten_to, 11);
    lemma_dec_len(n, 10);
    lemma_units_bound(dec(n));
}

proof fn lemma_dec_len(n: nat, k: nat)
    requires
        k > 0,
        n < ten_to(k),
    ensures
        dec(n).len() <= k,
    decreases k,
{
    if n >= 10 {
        assert(ten_to(0) == 1);
        lemma_dec_len(n / 10, (k - 1) as nat);
    }
}

proof fn lemma_units_bound(text: Seq<char>)
    ensures
        utf16_units(text).len() <= 2 * text.len(),
    decreases text.len(),
{
    if text.len() > 0 {
        lemma_units_bound(text.drop_last());
    }
}

/// Whether the `i`th of some tokens stands at its place, right before the next one, and ends
/// the answer only if it is the last one.
spec fn linked(
    protocol: Protocol,
    b: Seq<u8>,
    tokens: Seq<Token>,
    places: Seq<int>,
    i: int,
) -> bool {
    &&& 0 <= places[i] < places[i + 1] <= b.len()
    &&& token_at(protocol, 0, b, places[i]) == Some((tokens[i], places[i + 1]))
    &&& !(tokens[i] is Columns)
    &&& if i == tokens.len() - 1 {
        tokens[i] matches Token::Done { more, .. } && !more
    } else {
        !(tokens[i] is Done)
    }
}

/// Whether tokens stand at places one behind the other, and only the last one ends the answer.
spec fn chained(protocol: Protocol, b: Seq<u8>, tokens: Seq<Token>, places: Seq<int>) -> bool {
    &&& places.len() == tokens.len() + 1
    &&& forall|i: int|
        0 <= i < tokens.len() ==> #[trigger] linked(protocol, b, tokens, places, i)
}

proof fn lemma_chain(
    protocol: Protocol,
    b: Seq<u8>,
    tokens: Seq<Token>,
    places: Seq<int>,
    i: int,
)
    requires
        chained(protocol, b, tokens, places),
        0 <= i < tokens.len(),
    ensures
        seen_from(protocol, 0, b, places[i]) == Some(
            (tokens.subrange(i, tokens.len() as int), places.last()),
        ),
    decreases tokens.len() - i,
{
    let rest = tokens.subrange(i + 1, tokens.len() as int);
    assert(tokens.subrange(i, tokens.len() as int) =~= seq![tokens[i]] + rest);
    assert(linked(protocol, b, tokens, places, i));
    if i + 1 < tokens.len() {
        lemma_chain(protocol, b, tokens, places, i + 1);
    } else {
        assert(seq![tokens[i]] + rest =~= seq![tokens[i]]);
    }
}

/// A client whose login was accepted reads the answer from end to end: the database and the
/// language that it is in, the version and the product that it speaks to, the size of the
/// packets, and that nothing failed.
#[verifier::spinoff_prover]
#[verifier::rlimit(60)]
pub proof fn lemma_welcomes_are_read(
    protocol: Protocol,
    database: Seq<char>,
    language: Seq<char>,
    packet_size: u32,
    product: Seq<char>,
)
    ensures
        success_of(protocol, database, language, packet_size, product) matches Ok(bytes) ==> seen(
            protocol,
            bytes,
        ) == Some(welcome(protocol, database, language, packet_size, product)),
{
    if let Ok(b) = success_of(protocol, database, language, packet_size, product) {
        assert(b.subrange(0, b.len() as int) =~= b);
        reveal_strlit("");
        assert(""@ =~= seq![]);
        let last = done_token(protocol, 0xfd, 0, 0);
        let ack = login_ack(protocol, product)->Ok_0;
        if protocol == Protocol::Tds42 {
            lemma_split(b, 0, ack, last);
            lemma_acknowledgement(protocol, 0, b, 0, product);
            lemma_end(protocol, 0, b, ack.len() as int, false, 0);
            let t = welcome(protocol, database, language, packet_size, product);
            assert(seq![t[0]] + seq![ended(false, false)] =~= t);
        } else {
            let t = welcome(protocol, database, language, packet_size, product);
            let m1 = SqlErrorView {
                number: 5701,
                state: 2,
                class: 0,
                message: "Changed database context to '"@ + database + "'."@,
            };
            let m2 = SqlErrorView {
                number: 5703,
                state: 1,
                class: 0,
                message: "Changed language setting to "@ + language + "."@,
            };
            let p1 = envchange_token(1, database, ""@)->Ok_0;
            let p2 = prefixed(0xab, message_body(protocol, m1, ""@))->Ok_0;
            let p3 = collation_token()->Ok_0;
            let p4 = envchange_token(2, language, ""@)->Ok_0;
            let p5 = prefixed(0xab, message_body(protocol, m2, ""@))->Ok_0;
            let p6 = ack;
            let p7 = envchange_token(4, dec(packet_size as nat), "4096"@)->Ok_0;
            assert(b == p1 + p2 + p3 + p4 + p5 + p6 + p7 + last);
            lemma_split_eight(b, p1, p2, p3, p4, p5, p6, p7, last);
            let a1 = p1.len() as int;
            let a2 = a1 + p2.len();
            let a3 = a2 + p3.len();
            let a4 = a3 + p4.len();
            let a5 = a4 + p5.len();
            let a6 = a5 + p6.len();
            let a7 = a6 + p7.len();
            lemma_done(protocol, 0, b, a7, 0xfd, 0, 0);
            lemma_digits_short(packet_size as nat);
            reveal_strlit("4096");
            lemma_units_bound("4096"@);
            lemma_change(protocol, 0, b, a6, 4, dec(packet_size as nat), "4096"@);
            lemma_acknowledgement(protocol, 0, b, a5, product);
            lemma_message(protocol, 0, b, a4, 0xab, m2, ""@);
            lemma_prefixed(b, a4, 0xab, message_body(protocol, m2, ""@));
            assert(utf16_units(""@).len() == 0);
            lemma_change(protocol, 0, b, a3, 2, language, ""@);
            lemma_collation(protocol, 0, b, a2);
            lemma_message(protocol, 0, b, a1, 0xab, m1, ""@);
            lemma_prefixed(b, a1, 0xab, message_body(protocol, m1, ""@));
            lemma_change(protocol, 0, b, 0, 1, database, ""@);
            let places = seq![0int, a1, a2, a3, a4, a5, a6, a7, b.len() as int];
            assert(linked(protocol, b, t, places, 0));
            assert(linked(protocol, b, t, places, 1));
            assert(linked(protocol, b, t, places, 2));
            assert(linked(protocol, b, t, places, 3));
            assert(linked(protocol, b, t, places, 4));
            assert(linked(protocol, b, t, places, 5));
            assert(linked(protocol, b, t, places, 6));
            assert(linked(protocol, b, t, places, 7));
            lemma_chain(protocol, b, t, places, 0);
            assert(t.subrange(0, 8) =~= t);
        }
    }
}

/// A client whose login was refused reads the answer from end to end: that the login failed,
/// in a state of its own where the account is locked, and that the request failed.
pub proof fn lemma_refusals_are_read(protocol: Protocol, server: Seq<char>, locked: bool)
    ensures
        failure_of(protocol, server, locked) matches Ok(bytes) ==> ({
            let tokens = seen(protocol, bytes)->0;
            &&& seen(protocol, bytes) is Some
            &&& tokens.len() == 2
            &&& tokens[0] matches Token::Message { error, number, state, class, text, .. }
            &&& error && number == 18456 && class == 14
            &&& state == (if locked {
                23u8
            } else {
                1u8
            })
            &&& tokens[1] == ended(false, true)
        }),
{
    if let Ok(b) = failure_of(protocol, server, locked) {
        assert(b.subrange(0, b.len() as int) =~= b);
        let e = crate::tds::tokens::refusal(locked);
        let x = prefixed(0xaa, message_body(protocol, e, server))->Ok_0;
        lemma_split(b, 0, x, done_token(protocol, 0xfd, 2, 0));
        lemma_message(protocol, 0, b, 0, 0xaa, e, server);
        lemma_prefixed(b, 0, 0xaa, message_body(protocol, e, server));
        lemma_end(protocol, 0, b, x.len() as int, false, 2);
        let token = told(protocol, true, e, server);
        assert(seen_from(protocol, 0, b, 0) == Some(
            (seq![token] + seq![ended(false, true)], b.len() as int),
        ));
    }
}

} // verus!
