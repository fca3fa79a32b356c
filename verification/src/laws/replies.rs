//! What can be told is told: replies are given whenever their parts fit the wire.
use crate::laws::wire::{lemma_units_round_trip, lemma_utf16_round_trip};
use crate::tds::sspi::utf16_le;
use crate::tds::tokens::{
    b_text, cell, cells, envchange_token, failure_of, first_units, infos_of, legacy_b_text,
    legacy_formats, legacy_metadata, legacy_names_bytes, legacy_us_text, login_ack, message_body,
    metadata, prefixed, refusal, response_of, row_of, rows_of, set_of, sets_of, success_of, us_text,
    Protocol, ResultSetView, SqlErrorView,
};
use crate::text::{char_units, utf16_units};
use vstd::prelude::*;

verus! {

/// Whether a text is short enough for a message.
pub open spec fn brief(text: Seq<char>) -> bool {
    text.len() <= 15_000
}

/// Whether a table can be told: it has no more than 255 columns, every row has a cell for each
/// of them, and no cell is longer than a cell can be.
pub open spec fn tellable(set: ResultSetView) -> bool {
    &&& set.columns.len() <= 255
    &&& forall|i: int|
        0 <= i < set.rows.len() ==> row_tellable(#[trigger] set.rows[i], set.columns.len() as int)
}

/// Whether a row can be told.
pub open spec fn row_tellable(row: Seq<Option<Seq<char>>>, width: int) -> bool {
    &&& row.len() == width
    &&& forall|i: int|
        0 <= i < row.len() ==> ((#[trigger] row[i]) matches Some(text) ==> brief(text))
}

proof fn lemma_units_bound(text: Seq<char>)
    ensures
        utf16_units(text).len() <= 2 * text.len(),
        utf16_le(text).len() <= 4 * text.len(),
    decreases text.len(),
{
    lemma_utf16_round_trip(text);
    if text.len() > 0 {
        lemma_units_bound(text.drop_last());
        assert(char_units(text.last()).len() <= 2);
    }
}

proof fn lemma_b_text(text: Seq<char>)
    ensures
        b_text(text).len() <= 511,
        legacy_b_text(text).len() <= 256,
{
    lemma_units_round_trip(first_units(text, 255));
}

proof fn lemma_message(protocol: Protocol, message: SqlErrorView, server: Seq<char>, token: u8)
    requires
        brief(message.message),
    ensures
        prefixed(token, message_body(protocol, message, server)) is Ok,
{
    lemma_b_text(server);
    lemma_b_text(""@);
    lemma_units_bound(message.message);
    lemma_units_round_trip(first_units(message.message, 0xffff));
    assert(us_text(message.message).len() <= 60_002);
    assert(legacy_us_text(message.message).len() <= 15_002);
}

proof fn lemma_infos_given(
    protocol: Protocol,
    messages: Seq<Seq<char>>,
    server: Seq<char>,
    n: nat,
)
    requires
        n <= messages.len(),
        forall|i: int| 0 <= i < messages.len() ==> brief(#[trigger] messages[i]),
    ensures
        infos_of(protocol, messages, server, n) is Ok,
    decreases n,
{
    if n > 0 {
        lemma_infos_given(protocol, messages, server, (n - 1) as nat);
        assert(brief(messages[n - 1]));
        lemma_message(
            protocol,
            SqlErrorView { number: 0, state: 1, class: 0, message: messages[n - 1] },
            server,
            0xab,
        );
    }
}

proof fn lemma_cells_given(row: Seq<Option<Seq<char>>>, n: nat)
    requires
        n <= row.len(),
        row_tellable(row, row.len() as int),
    ensures
        cells(row, n) is Ok,
    decreases n,
{
    if n > 0 {
        lemma_cells_given(row, (n - 1) as nat);
        assert(row[n - 1] matches Some(text) ==> brief(text));
        if let Some(text) = row[n - 1] {
            lemma_units_bound(text);
        }
        assert(cell(row[n - 1]) is Ok);
    }
}

proof fn lemma_rows_given(protocol: Protocol, set: ResultSetView, n: nat)
    requires
        n <= set.rows.len(),
        tellable(set),
    ensures
        rows_of(protocol, set, n) is Ok,
    decreases n,
{
    if n > 0 {
        lemma_rows_given(protocol, set, (n - 1) as nat);
        assert(row_tellable(set.rows[n - 1], set.columns.len() as int));
        lemma_cells_given(set.rows[n - 1], set.rows[n - 1].len());
        assert(row_of(protocol, set.rows[n - 1], set.columns.len() as int) is Ok);
    }
}

proof fn lemma_legacy_columns(columns: Seq<Seq<char>>, n: nat)
    requires
        n <= columns.len(),
    ensures
        legacy_names_bytes(columns, n).len() <= 256 * n,
        legacy_formats(n).len() == 6 * n,
    decreases n,
{
    if n > 0 {
        lemma_legacy_columns(columns, (n - 1) as nat);
        lemma_b_text(columns[n - 1]);
    }
}

proof fn lemma_sets_given(
    protocol: Protocol,
    sets: Seq<ResultSetView>,
    n: nat,
    done_proc: bool,
)
    requires
        n <= sets.len(),
        forall|i: int| 0 <= i < sets.len() ==> tellable(#[trigger] sets[i]),
    ensures
        sets_of(protocol, sets, n, done_proc) is Ok,
    decreases n,
{
    if n > 0 {
        lemma_sets_given(protocol, sets, (n - 1) as nat, done_proc);
        let set = sets[n - 1];
        assert(tellable(sets[n - 1]));
        lemma_rows_given(protocol, set, set.rows.len());
        lemma_legacy_columns(set.columns, set.columns.len());
        assert(legacy_metadata(set.columns) is Ok);
        assert(metadata(protocol, set.columns) is Ok);
        assert(set_of(protocol, set, n < sets.len(), done_proc) is Ok);
    }
}

/// An answer is given whenever its messages are brief and its tables can be told: no request is
/// left without one.
pub proof fn lemma_answers_are_given(
    protocol: Protocol,
    sets: Seq<ResultSetView>,
    messages: Seq<Seq<char>>,
    error: Option<SqlErrorView>,
    server: Seq<char>,
    done_proc: bool,
)
    requires
        forall|i: int| 0 <= i < messages.len() ==> brief(#[trigger] messages[i]),
        forall|i: int| 0 <= i < sets.len() ==> tellable(#[trigger] sets[i]),
        error matches Some(e) ==> brief(e.message),
    ensures
        response_of(protocol, sets, messages, error, server, done_proc) is Ok,
{
    lemma_infos_given(protocol, messages, server, messages.len());
    lemma_sets_given(protocol, sets, sets.len(), done_proc);
    if let Some(e) = error {
        lemma_message(protocol, e, server, 0xaa);
    }
}

proof fn lemma_change(kind: u8, new: Seq<char>, old_value: Seq<char>)
    ensures
        envchange_token(kind, new, old_value) is Ok,
{
    lemma_b_text(new);
    lemma_b_text(old_value);
}

/// A login that is accepted is told so, whatever the server calls itself, where the names of
/// the database and the language are brief.
pub proof fn lemma_welcomes_are_given(
    protocol: Protocol,
    database: Seq<char>,
    language: Seq<char>,
    packet_size: u32,
    product: Seq<char>,
)
    requires
        database.len() <= 10_000,
        language.len() <= 10_000,
    ensures
        success_of(protocol, database, language, packet_size, product) is Ok,
{
    lemma_b_text(product);
    assert(login_ack(protocol, product) is Ok);
    lemma_change(1, database, ""@);
    lemma_change(2, language, ""@);
    lemma_change(4, crate::text::dec(packet_size as nat), "4096"@);
    reveal_strlit("Changed database context to '");
    reveal_strlit("Changed language setting to ");
    reveal_strlit("'.");
    reveal_strlit(".");
    lemma_message(
        protocol,
        SqlErrorView {
            number: 5701,
            state: 2,
            class: 0,
            message: "Changed database context to '"@ + database + "'."@,
        },
        ""@,
        0xab,
    );
    lemma_message(
        protocol,
        SqlErrorView {
            number: 5703,
            state: 1,
            class: 0,
            message: "Changed language setting to "@ + language + "."@,
        },
        ""@,
        0xab,
    );
}

/// A login that is refused is always told so.
pub proof fn lemma_refusals_are_given(protocol: Protocol, server: Seq<char>, locked: bool)
    ensures
        failure_of(protocol, server, locked) is Ok,
{
    reveal_strlit("Login failed for user.");
    reveal_strlit("Login failed for user. Reason: Account is locked out.");
    lemma_message(protocol, refusal(locked), server, 0xaa);
}

} // verus!
