//! The tokens of the server's answers.
use crate::bytes::{
    be32, le16, le32, le64, push_bytes, push_u16, push_u32, push_u32_be, push_u64,
};
use crate::error::{protocol as protocol_error, Error, ErrorView, Model, Result};
use crate::tds::sspi::{units_bytes, utf16, utf16_le};
use crate::text::{
    cat3, chars_of, dec, decimal, encode_utf16, lemma_views_empty, lemma_views_push, opt_view,
    utf16_units, views,
};
use vstd::prelude::*;
use vstd::string::*;

verus! {

broadcast use {lemma_views_push, lemma_views_empty};

pub const LOGINACK: u8 = 0xad;
pub const ENVCHANGE: u8 = 0xe3;
pub const ERROR: u8 = 0xaa;
pub const INFO: u8 = 0xab;
pub const COLMETADATA: u8 = 0x81;
pub const COLNAME: u8 = 0xa0;
pub const COLFMT: u8 = 0xa1;
pub const ROW: u8 = 0xd1;
pub const DONE: u8 = 0xfd;
pub const DONEPROC: u8 = 0xfe;
pub const SSPI: u8 = 0xed;
pub const DONE_MORE: u16 = 0x0001;
pub const DONE_ERROR: u16 = 0x0002;
pub const DONE_COUNT: u16 = 0x0010;

/// The protocol that an answer is written in.
#[derive(Clone, Copy, Debug, PartialEq, Eq, Structural)]
pub enum Protocol {
    Tds42,
    Tds7(u32),
}

impl Protocol {
    /// Whether user types, line numbers and row counts have their wide form.
    pub open spec fn wide(self) -> bool {
        match self {
            Protocol::Tds42 => false,
            Protocol::Tds7(version) => version / 0x100_0000 >= 0x72,
        }
    }

    fn uses_wide_fields(self) -> (wide: bool)
        ensures
            wide == self.wide(),
    {
        match self {
            Protocol::Tds42 => false,
            Protocol::Tds7(version) => version / 0x100_0000 >= 0x72,
        }
    }
}

/// A table of texts.
#[derive(Debug)]
pub struct ResultSet {
    pub columns: Vec<String>,
    pub rows: Vec<Vec<Option<String>>>,
}

/// An error that is reported to a client.
#[derive(Debug)]
pub struct SqlError {
    pub number: u32,
    pub state: u8,
    pub class: u8,
    pub message: String,
}

/// The model of a [`ResultSet`].
pub struct ResultSetView {
    pub columns: Seq<Seq<char>>,
    pub rows: Seq<Seq<Option<Seq<char>>>>,
}

/// The model of a [`SqlError`].
pub struct SqlErrorView {
    pub number: u32,
    pub state: u8,
    pub class: u8,
    pub message: Seq<char>,
}

/// The model of a row.
pub open spec fn row_view(row: Seq<Option<String>>) -> Seq<Option<Seq<char>>> {
    Seq::new(row.len(), |i: int| opt_view(row[i]))
}

/// The models of rows.
pub open spec fn rows_view(rows: Seq<Vec<Option<String>>>) -> Seq<Seq<Option<Seq<char>>>> {
    Seq::new(rows.len(), |i: int| row_view(rows[i]@))
}

impl View for ResultSet {
    type V = ResultSetView;

    open spec fn view(&self) -> ResultSetView {
        ResultSetView { columns: views(self.columns@), rows: rows_view(self.rows@) }
    }
}

impl View for SqlError {
    type V = SqlErrorView;

    open spec fn view(&self) -> SqlErrorView {
        SqlErrorView {
            number: self.number,
            state: self.state,
            class: self.class,
            message: self.message@,
        }
    }
}

/// A table with one cell.
pub open spec fn single_cell(column: Seq<char>, value: Seq<char>) -> ResultSetView {
    ResultSetView { columns: seq![column], rows: seq![seq![Some(value)]] }
}

impl ResultSet {
    /// A table with one cell.
    pub fn single(column: &str, value: &str) -> (set: ResultSet)
        ensures
            set@ == single_cell(column@, value@),
    {
        let mut columns: Vec<String> = Vec::new();
        columns.push(column.to_owned());
        let mut row: Vec<Option<String>> = Vec::new();
        row.push(Some(value.to_owned()));
        assert(row_view(row@) =~= seq![Some(value@)]);
        let mut rows: Vec<Vec<Option<String>>> = Vec::new();
        rows.push(row);
        assert(rows_view(rows@) =~= seq![seq![Some(value@)]]);
        assert(views(columns@) =~= seq![column@]);
        ResultSet { columns, rows }
    }
}

// ---------------------------------------------------------------------------
// Texts

/// The first `n` units of a text.
pub open spec fn first_units(text: Seq<char>, n: int) -> Seq<u16> {
    if utf16_units(text).len() > n {
        utf16_units(text).take(n)
    } else {
        utf16_units(text)
    }
}

/// A text of at most 255 units behind a one-byte count.
pub open spec fn b_text(text: Seq<char>) -> Seq<u8> {
    seq![first_units(text, 255).len() as u8] + units_bytes(first_units(text, 255))
}

/// A text of at most 65535 units behind a two-byte count.
pub open spec fn us_text(text: Seq<char>) -> Seq<u8> {
    le16(first_units(text, 0xffff).len() as u16) + units_bytes(first_units(text, 0xffff))
}

/// A character in one byte; those that have none become a question mark.
pub open spec fn legacy_char(c: char) -> u8 {
    if c as u32 <= 0x7f {
        c as u8
    } else {
        0x3f
    }
}

/// The first `max` characters of a text, one byte each.
pub open spec fn legacy_bytes(text: Seq<char>, max: int) -> Seq<u8> {
    Seq::new(
        if text.len() > max {
            max as nat
        } else {
            text.len()
        },
        |i: int| legacy_char(text[i]),
    )
}

/// A text of at most 255 characters behind a one-byte count, one byte each.
pub open spec fn legacy_b_text(text: Seq<char>) -> Seq<u8> {
    seq![legacy_bytes(text, 255).len() as u8] + legacy_bytes(text, 255)
}

/// A text of at most 65535 characters behind a two-byte count, one byte each.
pub open spec fn legacy_us_text(text: Seq<char>) -> Seq<u8> {
    le16(legacy_bytes(text, 0xffff).len() as u16) + legacy_bytes(text, 0xffff)
}

fn push_units(out: &mut Vec<u8>, units: &Vec<u16>, n: usize)
    requires
        n <= units@.len(),
    ensures
        final(out)@ == old(out)@ + units_bytes(units@.take(n as int)),
{
    let mut i: usize = 0;
    assert(out@ =~= old(out)@ + units_bytes(units@.take(0)));
    while i < n
        invariant
            i <= n <= units@.len(),
            out@ == old(out)@ + units_bytes(units@.take(i as int)),
        decreases n - i,
    {
        push_u16(out, units[i]);
        i += 1;
        assert(units@.take(i as int).drop_last() =~= units@.take(i as int - 1));
        assert(out@ =~= old(out)@ + units_bytes(units@.take(i as int)));
    }
}

fn b_varchar(out: &mut Vec<u8>, value: &str)
    ensures
        final(out)@ == old(out)@ + b_text(value@),
{
    let units = encode_utf16(value);
    let n: usize = if units.len() > 255 {
        255
    } else {
        units.len()
    };
    assert(units@.take(n as int) =~= first_units(value@, 255));
    out.push(n as u8);
    push_units(out, &units, n);
    assert(out@ =~= old(out)@ + b_text(value@));
}

fn us_varchar(out: &mut Vec<u8>, value: &str)
    ensures
        final(out)@ == old(out)@ + us_text(value@),
{
    let units = encode_utf16(value);
    let n: usize = if units.len() > 0xffff {
        0xffff
    } else {
        units.len()
    };
    assert(units@.take(n as int) =~= first_units(value@, 0xffff));
    push_u16(out, n as u16);
    push_units(out, &units, n);
    assert(out@ =~= old(out)@ + us_text(value@));
}

fn legacy_string(value: &str, max: usize) -> (bytes: Vec<u8>)
    ensures
        bytes@ == legacy_bytes(value@, max as int),
{
    let chars = chars_of(value);
    let mut bytes: Vec<u8> = Vec::new();
    let mut i: usize = 0;
    while i < chars.len() && i < max
        invariant
            i <= chars.len(),
            i <= max,
            chars@ == value@,
            bytes@ =~= legacy_bytes(value@, i as int),
        decreases chars.len() - i,
    {
        let c = chars[i];
        if c as u32 <= 0x7f {
            bytes.push(c as u8);
        } else {
            bytes.push(0x3f);
        }
        i += 1;
    }
    assert(bytes@ =~= legacy_bytes(value@, max as int));
    bytes
}

fn legacy_b_varchar(out: &mut Vec<u8>, value: &str)
    ensures
        final(out)@ == old(out)@ + legacy_b_text(value@),
{
    let bytes = legacy_string(value, 255);
    out.push(bytes.len() as u8);
    push_bytes(out, bytes.as_slice());
    assert(out@ =~= old(out)@ + legacy_b_text(value@));
}

fn legacy_us_varchar(out: &mut Vec<u8>, value: &str)
    ensures
        final(out)@ == old(out)@ + legacy_us_text(value@),
{
    let bytes = legacy_string(value, 0xffff);
    push_u16(out, bytes.len() as u16);
    push_bytes(out, bytes.as_slice());
    assert(out@ =~= old(out)@ + legacy_us_text(value@));
}

// ---------------------------------------------------------------------------
// Tokens

/// Bytes, or why they cannot be written.
pub type Encoded = Model<Seq<u8>>;

/// What follows bytes that may not have been written.
pub open spec fn followed(first: Encoded, second: Encoded) -> Encoded {
    match first {
        Err(e) => Err(e),
        Ok(a) => match second {
            Err(e) => Err(e),
            Ok(b) => Ok(a + b),
        },
    }
}

/// Bytes that were appended: `expected` says what, the others what the code returned and
/// left.
spec fn appended(result: Result<()>, before: Seq<u8>, expected: Encoded, after: Seq<u8>) -> bool {
    match expected {
        Ok(bytes) => result is Ok && after == before + bytes,
        Err(e) => result is Err && result->Err_0@ == e,
    }
}

/// A token whose body stands behind its length.
pub open spec fn prefixed(token: u8, body: Seq<u8>) -> Encoded {
    if body.len() > 0xffff {
        Err(ErrorView::Limit("TDS token length"@))
    } else {
        Ok(seq![token] + le16(body.len() as u16) + body)
    }
}

fn push_prefixed(out: &mut Vec<u8>, token: u8, body: &[u8]) -> (result: Result<()>)
    ensures
        appended(result, old(out)@, prefixed(token, body@), final(out)@),
{
    if body.len() > 0xffff {
        return Err(Error::Limit("TDS token length"));
    }
    out.push(token);
    push_u16(out, body.len() as u16);
    push_bytes(out, body);
    assert(out@ =~= old(out)@ + (seq![token] + le16(body@.len() as u16) + body@));
    Ok(())
}

/// A closing token.
pub open spec fn done_token(protocol: Protocol, token: u8, status: u16, rows: u64) -> Seq<u8> {
    seq![token] + le16(status) + le16(0) + if protocol.wide() {
        le64(rows)
    } else if rows > 0xffff_ffff {
        le32(0xffff_ffff)
    } else {
        le32(rows as u32)
    }
}

fn done(out: &mut Vec<u8>, protocol: Protocol, token: u8, status: u16, rows: u64)
    ensures
        final(out)@ == old(out)@ + done_token(protocol, token, status, rows),
{
    out.push(token);
    push_u16(out, status);
    push_u16(out, 0);
    if protocol.uses_wide_fields() {
        push_u64(out, rows);
    } else if rows > 0xffff_ffff {
        push_u32(out, 0xffff_ffff);
    } else {
        push_u32(out, rows as u32);
    }
    assert(out@ =~= old(out)@ + done_token(protocol, token, status, rows));
}

/// The body of an error or an information: number, state and class, the message, the server,
/// no procedure, and line zero.
pub open spec fn message_body(protocol: Protocol, message: SqlErrorView, server: Seq<char>) -> Seq<
    u8,
> {
    le32(message.number) + seq![message.state, message.class] + (if protocol == Protocol::Tds42 {
        legacy_us_text(message.message) + legacy_b_text(server) + legacy_b_text(""@)
    } else {
        us_text(message.message) + b_text(server) + b_text(""@)
    }) + if protocol.wide() {
        le32(0)
    } else {
        le16(0)
    }
}

fn message_token(
    out: &mut Vec<u8>,
    protocol: Protocol,
    token: u8,
    message: &SqlError,
    server: &str,
) -> (result: Result<()>)
    ensures
        appended(
            result,
            old(out)@,
            prefixed(token, message_body(protocol, message@, server@)),
            final(out)@,
        ),
{
    let mut body: Vec<u8> = Vec::new();
    push_u32(&mut body, message.number);
    body.push(message.state);
    body.push(message.class);
    let ghost head = le32(message.number) + seq![message.state, message.class];
    assert(body@ =~= head);
    if protocol == Protocol::Tds42 {
        legacy_us_varchar(&mut body, message.message.as_str());
        legacy_b_varchar(&mut body, server);
        legacy_b_varchar(&mut body, "");
        assert(body@ =~= head + (legacy_us_text(message.message@) + legacy_b_text(server@)
            + legacy_b_text(""@)));
    } else {
        us_varchar(&mut body, message.message.as_str());
        b_varchar(&mut body, server);
        b_varchar(&mut body, "");
        assert(body@ =~= head + (us_text(message.message@) + b_text(server@) + b_text(""@)));
    }
    if protocol.uses_wide_fields() {
        push_u32(&mut body, 0);
    } else {
        push_u16(&mut body, 0);
    }
    push_prefixed(out, token, body.as_slice())
}

/// An information.
pub open spec fn info_token(
    protocol: Protocol,
    number: u32,
    state: u8,
    message: Seq<char>,
    server: Seq<char>,
) -> Encoded {
    prefixed(
        0xab,
        message_body(protocol, SqlErrorView { number, state, class: 0, message }, server),
    )
}

fn info(
    out: &mut Vec<u8>,
    protocol: Protocol,
    number: u32,
    state: u8,
    message: &str,
    server: &str,
) -> (result: Result<()>)
    ensures
        appended(
            result,
            old(out)@,
            info_token(protocol, number, state, message@, server@),
            final(out)@,
        ),
{
    let message = SqlError { number, state, class: 0, message: message.to_owned() };
    message_token(out, protocol, INFO, &message, server)
}

/// A change of the environment: its kind, the new value and the old one.
pub open spec fn envchange_token(kind: u8, new: Seq<char>, old_value: Seq<char>) -> Encoded {
    prefixed(0xe3, seq![kind] + b_text(new) + b_text(old_value))
}

fn envchange(out: &mut Vec<u8>, kind: u8, new: &str, old_value: &str) -> (result: Result<()>)
    ensures
        appended(result, old(out)@, envchange_token(kind, new@, old_value@), final(out)@),
{
    let mut body: Vec<u8> = Vec::new();
    body.push(kind);
    assert(body@ =~= seq![kind]);
    b_varchar(&mut body, new);
    b_varchar(&mut body, old_value);
    push_prefixed(out, ENVCHANGE, body.as_slice())
}

// ---------------------------------------------------------------------------
// Logins

/// The change to the collation of the server.
pub open spec fn collation_token() -> Encoded {
    prefixed(0xe3, seq![7u8, 5, 0x09, 0x04, 0xd0, 0x00, 0x34, 0])
}

/// The acknowledgement of a login.
pub open spec fn login_ack(protocol: Protocol, product: Seq<char>) -> Encoded {
    match protocol {
        Protocol::Tds42 => prefixed(
            0xad,
            seq![1u8] + be32(0x0402_0000) + legacy_b_text(product) + seq![95u8, 16, 0, 89],
        ),
        Protocol::Tds7(version) => prefixed(
            0xad,
            seq![1u8] + be32(version) + b_text(product) + seq![16u8, 0, 16, 89],
        ),
    }
}

/// The answer to a login that was accepted.
pub open spec fn success_of(
    protocol: Protocol,
    database: Seq<char>,
    language: Seq<char>,
    packet_size: u32,
    product: Seq<char>,
) -> Encoded {
    let finish = Ok(done_token(protocol, 0xfd, 0, 0));
    if protocol == Protocol::Tds42 {
        followed(login_ack(protocol, product), finish)
    } else {
        followed(
            followed(
                followed(
                    followed(
                        followed(
                            followed(
                                followed(
                                    envchange_token(1, database, ""@),
                                    info_token(
                                        protocol,
                                        5701,
                                        2,
                                        "Changed database context to '"@ + database + "'."@,
                                        ""@,
                                    ),
                                ),
                                collation_token(),
                            ),
                            envchange_token(2, language, ""@),
                        ),
                        info_token(
                            protocol,
                            5703,
                            1,
                            "Changed language setting to "@ + language + "."@,
                            ""@,
                        ),
                    ),
                    login_ack(protocol, product),
                ),
                envchange_token(4, dec(packet_size as nat), "4096"@),
            ),
            finish,
        )
    }
}

fn push_login_ack(out: &mut Vec<u8>, protocol: Protocol, product: &str) -> (result: Result<()>)
    ensures
        appended(result, old(out)@, login_ack(protocol, product@), final(out)@),
{
    let mut body: Vec<u8> = Vec::new();
    body.push(1);
    match protocol {
        Protocol::Tds42 => {
            push_u32_be(&mut body, 0x0402_0000);
            legacy_b_varchar(&mut body, product);
            push_bytes(&mut body, &[95, 16, 0, 89]);
            assert(body@ =~= seq![1u8] + be32(0x0402_0000) + legacy_b_text(product@) + seq![
                95u8,
                16,
                0,
                89,
            ]);
        },
        Protocol::Tds7(version) => {
            push_u32_be(&mut body, version);
            b_varchar(&mut body, product);
            push_bytes(&mut body, &[16, 0, 16, 89]);
            assert(body@ =~= seq![1u8] + be32(version) + b_text(product@) + seq![16u8, 0, 16, 89]);
        },
    }
    push_prefixed(out, LOGINACK, body.as_slice())
}

/// The answer to a login that was accepted.
pub fn login_success(
    protocol: Protocol,
    database: &str,
    language: &str,
    packet_size: u32,
    product_name: &str,
) -> (result: Result<Vec<u8>>)
    ensures
        crate::error::outcome(result) == success_of(
            protocol,
            database@,
            language@,
            packet_size,
            product_name@,
        ),
{
    let mut out: Vec<u8> = Vec::new();
    if protocol == Protocol::Tds42 {
        push_login_ack(&mut out, protocol, product_name)?;
        done(&mut out, protocol, DONE, 0, 0);
        assert(out@ =~= success_of(
            protocol,
            database@,
            language@,
            packet_size,
            product_name@,
        )->Ok_0);
        return Ok(out);
    }
    envchange(&mut out, 1, database, "")?;
    assert(out@ =~= envchange_token(1, database@, ""@)->Ok_0);
    info(
        &mut out,
        protocol,
        5701,
        2,
        cat3("Changed database context to '", database, "'.").as_str(),
        "",
    )?;
    let collation: [u8; 8] = [7, 5, 0x09, 0x04, 0xd0, 0x00, 0x34, 0];
    assert(collation@ =~= seq![7u8, 5, 0x09, 0x04, 0xd0, 0x00, 0x34, 0]);
    push_prefixed(&mut out, ENVCHANGE, &collation)?;
    envchange(&mut out, 2, language, "")?;
    info(
        &mut out,
        protocol,
        5703,
        1,
        cat3("Changed language setting to ", language, ".").as_str(),
        "",
    )?;
    push_login_ack(&mut out, protocol, product_name)?;
    envchange(&mut out, 4, decimal(packet_size as u128).as_str(), "4096")?;
    done(&mut out, protocol, DONE, 0, 0);
    Ok(out)
}

/// The error that a refused login gets.
pub open spec fn refusal(locked: bool) -> SqlErrorView {
    SqlErrorView {
        number: 18456,
        state: if locked {
            23
        } else {
            1
        },
        class: 14,
        message: if locked {
            "Login failed for user. Reason: Account is locked out."@
        } else {
            "Login failed for user."@
        },
    }
}

/// The answer to a login that was refused.
pub open spec fn failure_of(protocol: Protocol, server: Seq<char>, locked: bool) -> Encoded {
    followed(
        prefixed(0xaa, message_body(protocol, refusal(locked), server)),
        Ok(done_token(protocol, 0xfd, 0x0002, 0)),
    )
}

/// The answer to a login that was refused.
pub fn login_failure(protocol: Protocol, server: &str, locked: bool) -> (result: Result<Vec<u8>>)
    ensures
        crate::error::outcome(result) == failure_of(protocol, server@, locked),
{
    let error = if locked {
        SqlError {
            number: 18456,
            state: 23,
            class: 14,
            message: "Login failed for user. Reason: Account is locked out.".to_owned(),
        }
    } else {
        SqlError { number: 18456, state: 1, class: 14, message: "Login failed for user.".to_owned() }
    };
    let mut out: Vec<u8> = Vec::new();
    message_token(&mut out, protocol, ERROR, &error, server)?;
    done(&mut out, protocol, DONE, DONE_ERROR, 0);
    assert(out@ =~= failure_of(protocol, server@, locked)->Ok_0);
    Ok(out)
}

/// A challenge to an integrated login.
pub fn sspi_challenge(token: &[u8]) -> (result: Result<Vec<u8>>)
    ensures
        crate::error::outcome(result) == prefixed(0xed, token@),
{
    let mut out: Vec<u8> = Vec::new();
    push_prefixed(&mut out, SSPI, token)?;
    assert(out@ =~= prefixed(0xed, token@)->Ok_0);
    Ok(out)
}

// ---------------------------------------------------------------------------
// Result sets

/// The description of a column: nullable text.
pub open spec fn column_bytes(protocol: Protocol, name: Seq<char>) -> Seq<u8> {
    (if protocol.wide() {
        le32(0)
    } else {
        le16(0)
    }) + le16(1) + seq![0xe7u8] + le16(8000) + seq![0x09u8, 0x04, 0xd0, 0x00, 0x34] + b_text(name)
}

/// The descriptions of the first `n` columns.
pub open spec fn columns_bytes(protocol: Protocol, columns: Seq<Seq<char>>, n: nat) -> Seq<u8>
    decreases n,
{
    if n == 0 {
        seq![]
    } else {
        columns_bytes(protocol, columns, (n - 1) as nat) + column_bytes(protocol, columns[n - 1])
    }
}

/// The description of a table.
pub open spec fn metadata(protocol: Protocol, columns: Seq<Seq<char>>) -> Encoded {
    if columns.len() > 0xffff {
        Err(ErrorView::Limit("result column count"@))
    } else {
        Ok(
            seq![0x81u8] + le16(columns.len() as u16) + columns_bytes(
                protocol,
                columns,
                columns.len(),
            ),
        )
    }
}

/// The names of the first `n` columns, one byte to a character.
pub open spec fn legacy_names_bytes(columns: Seq<Seq<char>>, n: nat) -> Seq<u8>
    decreases n,
{
    if n == 0 {
        seq![]
    } else {
        legacy_names_bytes(columns, (n - 1) as nat) + legacy_b_text(columns[n - 1])
    }
}

/// The formats of `n` columns: nullable text.
pub open spec fn legacy_formats(n: nat) -> Seq<u8>
    decreases n,
{
    if n == 0 {
        seq![]
    } else {
        legacy_formats((n - 1) as nat) + seq![2u8, 0, 1, 0, 0x27, 0xff]
    }
}

/// The description of a table before version 7.
pub open spec fn legacy_metadata(columns: Seq<Seq<char>>) -> Encoded {
    followed(
        prefixed(0xa0, legacy_names_bytes(columns, columns.len())),
        prefixed(0xa1, legacy_formats(columns.len())),
    )
}

/// A cell.
pub open spec fn cell(value: Option<Seq<char>>) -> Encoded {
    match value {
        None => Ok(le16(0xffff)),
        Some(text) => if utf16_le(text).len() > 0xffff {
            Err(ErrorView::Limit("result cell length"@))
        } else {
            Ok(le16(utf16_le(text).len() as u16) + utf16_le(text))
        },
    }
}

/// The first `n` cells of a row.
pub open spec fn cells(row: Seq<Option<Seq<char>>>, n: nat) -> Encoded
    decreases n,
{
    if n == 0 {
        Ok(seq![])
    } else {
        followed(cells(row, (n - 1) as nat), cell(row[n - 1]))
    }
}

/// A cell before version 7.
pub open spec fn legacy_cell(value: Option<Seq<char>>) -> Seq<u8> {
    match value {
        None => seq![0u8],
        Some(text) => legacy_b_text(text),
    }
}

/// The first `n` cells of a row before version 7.
pub open spec fn legacy_cells(row: Seq<Option<Seq<char>>>, n: nat) -> Seq<u8>
    decreases n,
{
    if n == 0 {
        seq![]
    } else {
        legacy_cells(row, (n - 1) as nat) + legacy_cell(row[n - 1])
    }
}

/// A row of a table with the given number of columns.
pub open spec fn row_of(protocol: Protocol, row: Seq<Option<Seq<char>>>, width: int) -> Encoded {
    if row.len() != width {
        Err(ErrorView::Protocol("synthetic row width mismatch"@))
    } else if protocol == Protocol::Tds42 {
        Ok(seq![0xd1u8] + legacy_cells(row, row.len()))
    } else {
        followed(Ok(seq![0xd1u8]), cells(row, row.len()))
    }
}

/// The first `n` rows of a table.
pub open spec fn rows_of(protocol: Protocol, set: ResultSetView, n: nat) -> Encoded
    decreases n,
{
    if n == 0 {
        Ok(seq![])
    } else {
        followed(
            rows_of(protocol, set, (n - 1) as nat),
            row_of(protocol, set.rows[n - 1], set.columns.len() as int),
        )
    }
}

/// The closing token of a command or a procedure.
pub open spec fn done_kind(done_proc: bool) -> u8 {
    if done_proc {
        0xfe
    } else {
        0xfd
    }
}

/// A table: its description, its rows and a closing token, which says whether another table
/// follows.
pub open spec fn set_of(protocol: Protocol, set: ResultSetView, more: bool, done_proc: bool) -> Encoded {
    followed(
        followed(
            if protocol == Protocol::Tds42 {
                legacy_metadata(set.columns)
            } else {
                metadata(protocol, set.columns)
            },
            rows_of(protocol, set, set.rows.len()),
        ),
        Ok(
            done_token(
                protocol,
                done_kind(done_proc),
                if more {
                    0x11
                } else {
                    0x10
                },
                set.rows.len() as u64,
            ),
        ),
    )
}

/// The first `n` tables.
pub open spec fn sets_of(
    protocol: Protocol,
    sets: Seq<ResultSetView>,
    n: nat,
    done_proc: bool,
) -> Encoded
    decreases n,
{
    if n == 0 {
        Ok(seq![])
    } else {
        followed(
            sets_of(protocol, sets, (n - 1) as nat, done_proc),
            set_of(protocol, sets[n - 1], n < sets.len(), done_proc),
        )
    }
}

/// The first `n` messages.
pub open spec fn infos_of(
    protocol: Protocol,
    messages: Seq<Seq<char>>,
    server: Seq<char>,
    n: nat,
) -> Encoded
    decreases n,
{
    if n == 0 {
        Ok(seq![])
    } else {
        followed(
            infos_of(protocol, messages, server, (n - 1) as nat),
            info_token(protocol, 0, 1, messages[n - 1], server),
        )
    }
}

/// The answer to a request: the messages, and then either an error or the tables; an empty
/// closing token where there are none.
pub open spec fn response_of(
    protocol: Protocol,
    sets: Seq<ResultSetView>,
    messages: Seq<Seq<char>>,
    error: Option<SqlErrorView>,
    server: Seq<char>,
    done_proc: bool,
) -> Encoded {
    followed(
        infos_of(protocol, messages, server, messages.len()),
        match error {
            Some(e) => followed(
                prefixed(0xaa, message_body(protocol, e, server)),
                Ok(done_token(protocol, done_kind(done_proc), 0x0002, 0)),
            ),
            None => if sets.len() == 0 {
                Ok(done_token(protocol, done_kind(done_proc), 0, 0))
            } else {
                sets_of(protocol, sets, sets.len(), done_proc)
            },
        },
    )
}

fn push_column(out: &mut Vec<u8>, protocol: Protocol, name: &str)
    ensures
        final(out)@ == old(out)@ + column_bytes(protocol, name@),
{
    if protocol.uses_wide_fields() {
        push_u32(out, 0);
    } else {
        push_u16(out, 0);
    }
    push_u16(out, 1);
    out.push(0xe7);
    push_u16(out, 8000);
    push_bytes(out, &[0x09, 0x04, 0xd0, 0x00, 0x34]);
    b_varchar(out, name);
    assert(out@ =~= old(out)@ + column_bytes(protocol, name@));
}

fn colmetadata(out: &mut Vec<u8>, protocol: Protocol, columns: &Vec<String>) -> (result: Result<()>)
    ensures
        appended(result, old(out)@, metadata(protocol, views(columns@)), final(out)@),
{
    if columns.len() > 0xffff {
        return Err(Error::Limit("result column count"));
    }
    out.push(COLMETADATA);
    push_u16(out, columns.len() as u16);
    let ghost head = old(out)@ + (seq![0x81u8] + le16(columns@.len() as u16));
    assert(out@ =~= head + columns_bytes(protocol, views(columns@), 0));
    let mut i: usize = 0;
    while i < columns.len()
        invariant
            i <= columns@.len(),
            out@ == head + columns_bytes(protocol, views(columns@), i as nat),
        decreases columns.len() - i,
    {
        push_column(out, protocol, columns[i].as_str());
        i += 1;
        assert(out@ =~= head + columns_bytes(protocol, views(columns@), i as nat));
    }
    assert(out@ =~= old(out)@ + metadata(protocol, views(columns@))->Ok_0);
    Ok(())
}

fn legacy_colmetadata(out: &mut Vec<u8>, columns: &Vec<String>) -> (result: Result<()>)
    ensures
        appended(result, old(out)@, legacy_metadata(views(columns@)), final(out)@),
{
    let mut names: Vec<u8> = Vec::new();
    let mut formats: Vec<u8> = Vec::new();
    let mut i: usize = 0;
    while i < columns.len()
        invariant
            i <= columns@.len(),
            names@ == legacy_names_bytes(views(columns@), i as nat),
            formats@ == legacy_formats(i as nat),
        decreases columns.len() - i,
    {
        let ghost before = formats@;
        legacy_b_varchar(&mut names, columns[i].as_str());
        push_bytes(&mut formats, &[2, 0, 1, 0, 0x27, 0xff]);
        assert(formats@ =~= before + seq![2u8, 0, 1, 0, 0x27, 0xff]);
        i += 1;
    }
    push_prefixed(out, COLNAME, names.as_slice())?;
    push_prefixed(out, COLFMT, formats.as_slice())?;
    assert(out@ =~= old(out)@ + legacy_metadata(views(columns@))->Ok_0);
    Ok(())
}

fn push_cells(out: &mut Vec<u8>, row: &Vec<Option<String>>) -> (result: Result<()>)
    ensures
        appended(result, old(out)@, cells(row_view(row@), row@.len()), final(out)@),
{
    let ghost view = row_view(row@);
    let mut i: usize = 0;
    assert(out@ =~= old(out)@ + seq![]);
    while i < row.len()
        invariant
            i <= row@.len(),
            view == row_view(row@),
            cells(view, i as nat) is Ok,
            out@ == old(out)@ + cells(view, i as nat)->Ok_0,
        decreases row.len() - i,
    {
        match &row[i] {
            Some(value) => {
                let encoded = utf16(value.as_str());
                if encoded.len() > 0xffff {
                    proof {
                        lemma_cells_fail(view, i as nat, view.len());
                    }
                    return Err(Error::Limit("result cell length"));
                }
                push_u16(out, encoded.len() as u16);
                push_bytes(out, encoded.as_slice());
            },
            None => {
                push_u16(out, 0xffff);
            },
        }
        i += 1;
        assert(out@ =~= old(out)@ + cells(view, i as nat)->Ok_0);
    }
    Ok(())
}

proof fn lemma_cells_fail(row: Seq<Option<Seq<char>>>, i: nat, n: nat)
    requires
        i < n,
        cells(row, i) is Ok,
        cell(row[i as int]) is Err,
    ensures
        cells(row, n) is Err,
        cells(row, n)->Err_0 == cell(row[i as int])->Err_0,
    decreases n,
{
    if n > i + 1 {
        lemma_cells_fail(row, i, (n - 1) as nat);
    }
}

fn push_row(out: &mut Vec<u8>, protocol: Protocol, row: &Vec<Option<String>>, width: usize) -> (result: Result<
    (),
>)
    ensures
        appended(
            result,
            old(out)@,
            row_of(protocol, row_view(row@), width as int),
            final(out)@,
        ),
{
    if row.len() != width {
        return Err(protocol_error("synthetic row width mismatch"));
    }
    out.push(ROW);
    assert(out@ =~= old(out)@ + seq![0xd1u8]);
    if protocol != Protocol::Tds42 {
        push_cells(out, row)?;
        assert(out@ =~= old(out)@ + row_of(protocol, row_view(row@), width as int)->Ok_0);
        return Ok(());
    }
    let ghost head = out@;
    let mut i: usize = 0;
    assert(out@ =~= head + legacy_cells(row_view(row@), 0));
    while i < row.len()
        invariant
            i <= row@.len(),
            out@ == head + legacy_cells(row_view(row@), i as nat),
        decreases row.len() - i,
    {
        match &row[i] {
            Some(value) => {
                legacy_b_varchar(out, value.as_str());
            },
            None => {
                out.push(0);
            },
        }
        i += 1;
        assert(out@ =~= head + legacy_cells(row_view(row@), i as nat));
    }
    assert(out@ =~= old(out)@ + row_of(protocol, row_view(row@), width as int)->Ok_0);
    Ok(())
}

proof fn lemma_rows_fail(protocol: Protocol, set: ResultSetView, i: nat, n: nat)
    requires
        i < n,
        rows_of(protocol, set, i) is Ok,
        row_of(protocol, set.rows[i as int], set.columns.len() as int) is Err,
    ensures
        rows_of(protocol, set, n) is Err,
        rows_of(protocol, set, n)->Err_0 == row_of(
            protocol,
            set.rows[i as int],
            set.columns.len() as int,
        )->Err_0,
    decreases n,
{
    if n > i + 1 {
        lemma_rows_fail(protocol, set, i, (n - 1) as nat);
    }
}

fn push_rows(out: &mut Vec<u8>, protocol: Protocol, set: &ResultSet) -> (result: Result<()>)
    ensures
        appended(result, old(out)@, rows_of(protocol, set@, set@.rows.len()), final(out)@),
{
    let mut i: usize = 0;
    assert(out@ =~= old(out)@ + seq![]);
    while i < set.rows.len()
        invariant
            i <= set.rows@.len(),
            rows_of(protocol, set@, i as nat) is Ok,
            out@ == old(out)@ + rows_of(protocol, set@, i as nat)->Ok_0,
        decreases set.rows.len() - i,
    {
        if let Err(e) = push_row(out, protocol, &set.rows[i], set.columns.len()) {
            proof {
                lemma_rows_fail(protocol, set@, i as nat, set@.rows.len());
            }
            return Err(e);
        }
        i += 1;
        assert(out@ =~= old(out)@ + rows_of(protocol, set@, i as nat)->Ok_0);
    }
    Ok(())
}

fn push_set(out: &mut Vec<u8>, protocol: Protocol, set: &ResultSet, more: bool, done_proc: bool) -> (result: Result<
    (),
>)
    ensures
        appended(result, old(out)@, set_of(protocol, set@, more, done_proc), final(out)@),
{
    if protocol == Protocol::Tds42 {
        legacy_colmetadata(out, &set.columns)?;
    } else {
        colmetadata(out, protocol, &set.columns)?;
    }
    push_rows(out, protocol, set)?;
    done(
        out,
        protocol,
        if done_proc {
            DONEPROC
        } else {
            DONE
        },
        if more {
            DONE_MORE + DONE_COUNT
        } else {
            DONE_COUNT
        },
        set.rows.len() as u64,
    );
    assert(out@ =~= old(out)@ + set_of(protocol, set@, more, done_proc)->Ok_0);
    Ok(())
}

proof fn lemma_sets_fail(
    protocol: Protocol,
    sets: Seq<ResultSetView>,
    done_proc: bool,
    i: nat,
    n: nat,
)
    requires
        i < n,
        sets_of(protocol, sets, i, done_proc) is Ok,
        set_of(protocol, sets[i as int], i + 1 < sets.len(), done_proc) is Err,
    ensures
        sets_of(protocol, sets, n, done_proc) is Err,
        sets_of(protocol, sets, n, done_proc)->Err_0 == set_of(
            protocol,
            sets[i as int],
            i + 1 < sets.len(),
            done_proc,
        )->Err_0,
    decreases n,
{
    if n > i + 1 {
        lemma_sets_fail(protocol, sets, done_proc, i, (n - 1) as nat);
    }
}

fn push_sets(out: &mut Vec<u8>, protocol: Protocol, sets: &[ResultSet], done_proc: bool) -> (result: Result<
    (),
>)
    ensures
        appended(
            result,
            old(out)@,
            sets_of(protocol, views(sets@), sets@.len(), done_proc),
            final(out)@,
        ),
{
    let ghost list = views(sets@);
    let mut i: usize = 0;
    assert(out@ =~= old(out)@ + seq![]);
    while i < sets.len()
        invariant
            i <= sets@.len(),
            list == views(sets@),
            sets_of(protocol, list, i as nat, done_proc) is Ok,
            out@ == old(out)@ + sets_of(protocol, list, i as nat, done_proc)->Ok_0,
        decreases sets.len() - i,
    {
        if let Err(e) = push_set(out, protocol, &sets[i], i + 1 < sets.len(), done_proc) {
            proof {
                lemma_sets_fail(protocol, list, done_proc, i as nat, list.len());
            }
            return Err(e);
        }
        i += 1;
        assert(out@ =~= old(out)@ + sets_of(protocol, list, i as nat, done_proc)->Ok_0);
    }
    Ok(())
}

proof fn lemma_infos_fail(
    protocol: Protocol,
    messages: Seq<Seq<char>>,
    server: Seq<char>,
    i: nat,
    n: nat,
)
    requires
        i < n,
        infos_of(protocol, messages, server, i) is Ok,
        info_token(protocol, 0, 1, messages[i as int], server) is Err,
    ensures
        infos_of(protocol, messages, server, n) is Err,
        infos_of(protocol, messages, server, n)->Err_0 == info_token(
            protocol,
            0,
            1,
            messages[i as int],
            server,
        )->Err_0,
    decreases n,
{
    if n > i + 1 {
        lemma_infos_fail(protocol, messages, server, i, (n - 1) as nat);
    }
}

fn push_infos(out: &mut Vec<u8>, protocol: Protocol, messages: &[String], server: &str) -> (result: Result<
    (),
>)
    ensures
        appended(
            result,
            old(out)@,
            infos_of(protocol, views(messages@), server@, messages@.len()),
            final(out)@,
        ),
{
    let ghost list = views(messages@);
    let mut i: usize = 0;
    assert(out@ =~= old(out)@ + seq![]);
    while i < messages.len()
        invariant
            i <= messages@.len(),
            list == views(messages@),
            infos_of(protocol, list, server@, i as nat) is Ok,
            out@ == old(out)@ + infos_of(protocol, list, server@, i as nat)->Ok_0,
        decreases messages.len() - i,
    {
        if let Err(e) = info(out, protocol, 0, 1, messages[i].as_str(), server) {
            proof {
                lemma_infos_fail(protocol, list, server@, i as nat, list.len());
            }
            return Err(e);
        }
        i += 1;
        assert(out@ =~= old(out)@ + infos_of(protocol, list, server@, i as nat)->Ok_0);
    }
    Ok(())
}

/// The answer to a request.
pub fn response(
    protocol: Protocol,
    result_sets: &[ResultSet],
    messages: &[String],
    sql_error: Option<&SqlError>,
    server: &str,
    done_proc: bool,
) -> (result: Result<Vec<u8>>)
    ensures
        crate::error::outcome(result) == response_of(
            protocol,
            views(result_sets@),
            views(messages@),
            opt_view(sql_error),
            server@,
            done_proc,
        ),
{
    let ghost expected = response_of(
        protocol,
        views(result_sets@),
        views(messages@),
        opt_view(sql_error),
        server@,
        done_proc,
    );
    let kind: u8 = if done_proc {
        DONEPROC
    } else {
        DONE
    };
    let mut out: Vec<u8> = Vec::new();
    push_infos(&mut out, protocol, messages, server)?;
    let ghost head = infos_of(protocol, views(messages@), server@, messages@.len())->Ok_0;
    assert(out@ =~= head);
    if let Some(error) = sql_error {
        message_token(&mut out, protocol, ERROR, error, server)?;
        done(&mut out, protocol, kind, DONE_ERROR, 0);
        assert(out@ =~= expected->Ok_0);
        return Ok(out);
    }
    if result_sets.len() == 0 {
        done(&mut out, protocol, kind, 0, 0);
        return Ok(out);
    }
    push_sets(&mut out, protocol, result_sets, done_proc)?;
    Ok(out)
}

} // verus!
