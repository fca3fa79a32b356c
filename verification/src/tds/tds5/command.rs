//! Commands in a TDS 5 token stream: procedure calls, dynamic SQL and cursors.
use crate::bytes::{read_u16, read_u32, signed32, to_i32, u16_at, u32_at};
use crate::error::{outcome, protocol, reads, Error, ErrorView, Model, Result};
use crate::tds::tds5::names::{cursor_command, cursor_command_name};
use crate::tds::tds5::scan::{scan, Scan, Scanned, Scanner};
use crate::text::{cat3, opt_view, read_utf8, text_in_utf8};
use vstd::prelude::*;

verus! {

/// A command as it is reported.
#[derive(Debug)]
pub struct Tds5Command {
    pub token: u8,
    pub name: &'static str,
    pub body_bytes: usize,
    pub operation: Option<&'static str>,
    pub identifier: Option<String>,
    pub text: Option<String>,
    pub cursor_id: Option<i32>,
    pub status_or_options: Option<u32>,
    pub secondary_status: Option<u32>,
    pub table_name: Option<String>,
    pub row_number: Option<i32>,
    pub total_rows: Option<i32>,
    pub row_count: Option<i32>,
    pub option_code: Option<u8>,
    pub option_argument: Option<String>,
}

/// The model of a [`Tds5Command`].
pub struct CommandView {
    pub token: u8,
    pub name: Seq<char>,
    pub body_bytes: usize,
    pub operation: Option<Seq<char>>,
    pub identifier: Option<Seq<char>>,
    pub text: Option<Seq<char>>,
    pub cursor_id: Option<i32>,
    pub status_or_options: Option<u32>,
    pub secondary_status: Option<u32>,
    pub table_name: Option<Seq<char>>,
    pub row_number: Option<i32>,
    pub total_rows: Option<i32>,
    pub row_count: Option<i32>,
    pub option_code: Option<u8>,
    pub option_argument: Option<Seq<char>>,
}

impl View for Tds5Command {
    type V = CommandView;

    open spec fn view(&self) -> CommandView {
        CommandView {
            token: self.token,
            name: self.name@,
            body_bytes: self.body_bytes,
            operation: opt_view(self.operation),
            identifier: opt_view(self.identifier),
            text: opt_view(self.text),
            cursor_id: self.cursor_id,
            status_or_options: self.status_or_options,
            secondary_status: self.secondary_status,
            table_name: opt_view(self.table_name),
            row_number: self.row_number,
            total_rows: self.total_rows,
            row_count: self.row_count,
            option_code: self.option_code,
            option_argument: opt_view(self.option_argument),
        }
    }
}

/// A command of which only the token is known.
pub open spec fn bare_command(token: u8, name: Seq<char>, body_bytes: int) -> CommandView {
    CommandView {
        token,
        name,
        body_bytes: body_bytes as usize,
        operation: None,
        identifier: None,
        text: None,
        cursor_id: None,
        status_or_options: None,
        secondary_status: None,
        table_name: None,
        row_number: None,
        total_rows: None,
        row_count: None,
        option_code: None,
        option_argument: None,
    }
}

/// A command of which only the token is known.
pub fn bare(token: u8, name: &'static str, body_bytes: usize) -> (command: Tds5Command)
    ensures
        command@ == bare_command(token, name@, body_bytes as int),
{
    Tds5Command {
        token,
        name,
        body_bytes,
        operation: None,
        identifier: None,
        text: None,
        cursor_id: None,
        status_or_options: None,
        secondary_status: None,
        table_name: None,
        row_number: None,
        total_rows: None,
        row_count: None,
        option_code: None,
        option_argument: None,
    }
}

// ---------------------------------------------------------------------------
// Language and procedure calls

/// A language command: a status byte and the text.
pub open spec fn language_command(body: Seq<u8>) -> Model<CommandView> {
    if body.len() == 0 {
        Err(ErrorView::Protocol("empty TDS 5 LANGUAGE token"@))
    } else {
        Ok(
            CommandView {
                text: Some(text_in_utf8(body.subrange(1, body.len() as int))),
                ..bare_command(0x21, "language"@, body.len() as int)
            },
        )
    }
}

pub fn parse_language(body: &[u8]) -> (result: Result<Tds5Command>)
    ensures
        outcome(result) == language_command(body@),
{
    if body.len() == 0 {
        return Err(protocol("empty TDS 5 LANGUAGE token"));
    }
    let mut command = bare(0x21, "language", body.len());
    command.text = Some(read_utf8(&body[1..body.len()]));
    Ok(command)
}

/// Whether a name of `length` bytes behind `prefix` bytes, with two bytes of flags
/// behind it, is the whole body.
pub open spec fn exact_name(body: Seq<u8>, prefix: int, length: int) -> bool {
    prefix + length + 2 == body.len()
}

/// The procedure name of a wide call. Clients disagree on how wide its length is, so
/// only a width that makes up the whole body counts.
pub open spec fn wide_procedure_name(body: Seq<u8>) -> Model<Seq<char>> {
    if body.len() >= 1 && exact_name(body, 1, body[0] as int) {
        Ok(text_in_utf8(body.subrange(1, 1 + body[0])))
    } else if body.len() >= 2 && exact_name(body, 2, u16_at(body, 0) as int) {
        Ok(text_in_utf8(body.subrange(2, 2 + u16_at(body, 0))))
    } else if body.len() >= 4 && exact_name(body, 4, u32_at(body, 0) as int) {
        Ok(text_in_utf8(body.subrange(4, 4 + u32_at(body, 0))))
    } else {
        Err(ErrorView::Protocol("TDS 5 DBRPC2 procedure name has no exact length framing"@))
    }
}

/// The procedure name of a call.
pub open spec fn procedure_name(body: Seq<u8>, wide: bool) -> Model<Seq<char>> {
    if wide {
        wide_procedure_name(body)
    } else {
        match scan(body).b_varbyte() {
            Err(e) => Err(e),
            Ok((name, c)) => match c.skip(2) {
                Err(e) => Err(e),
                Ok((_, c)) => if c.done() {
                    Ok(name)
                } else {
                    Err(ErrorView::Protocol("trailing TDS 5 DBRPC bytes"@))
                },
            },
        }
    }
}

/// A procedure call.
pub open spec fn procedure_call(token: u8, body: Seq<u8>) -> Model<CommandView> {
    match procedure_name(body, token == 0xe8) {
        Err(e) => Err(e),
        Ok(name) => Ok(
            CommandView {
                identifier: Some(name),
                ..bare_command(
                    token,
                    if token == 0xe8 {
                        "dbrpc2"@
                    } else {
                        "dbrpc"@
                    },
                    body.len() as int,
                )
            },
        ),
    }
}

fn parse_exact_dbrpc2_name(body: &[u8]) -> (result: Result<String>)
    ensures
        outcome(result) == wide_procedure_name(body@),
{
    let len: usize = body.len();
    if len >= 1 {
        let length: usize = body[0] as usize;
        if len >= 3 && length == len - 3 {
            return Ok(read_utf8(&body[1..1 + length]));
        }
    }
    if len >= 2 {
        let length: usize = read_u16(body, 0) as usize;
        if len >= 4 && length == len - 4 {
            return Ok(read_utf8(&body[2..2 + length]));
        }
    }
    if len >= 4 {
        let length: usize = read_u32(body, 0) as usize;
        if len >= 6 && length == len - 6 {
            return Ok(read_utf8(&body[4..4 + length]));
        }
    }
    Err(protocol("TDS 5 DBRPC2 procedure name has no exact length framing"))
}

pub fn parse_dbrpc(token: u8, body: &[u8]) -> (result: Result<Tds5Command>)
    ensures
        outcome(result) == procedure_call(token, body@),
{
    let wide = token == 0xe8;
    let name = if wide {
        parse_exact_dbrpc2_name(body)?
    } else {
        let mut cursor = Scanner::new(body);
        let name = cursor.b_varbyte()?;
        cursor.skip(2)?;
        if !cursor.done() {
            return Err(protocol("trailing TDS 5 DBRPC bytes"));
        }
        name
    };
    let mut command = bare(
        token,
        if wide {
            "dbrpc2"
        } else {
            "dbrpc"
        },
        body.len(),
    );
    command.identifier = Some(name);
    Ok(command)
}

// ---------------------------------------------------------------------------
// Dynamic SQL

/// The name of a dynamic SQL operation.
pub open spec fn dynamic_operation(operation: u8) -> Seq<char> {
    match operation {
        0 => "invalid"@,
        1 => "prepare"@,
        2 => "execute"@,
        4 => "deallocate"@,
        8 => "execute_immediate"@,
        16 => "procedure_name"@,
        32 => "acknowledge"@,
        64 => "describe_input"@,
        128 => "describe_output"@,
        _ => "unknown"@,
    }
}

impl Scan {
    /// Text behind a length of two bytes, or of four where the field is wide.
    pub open spec fn wide_text(self, wide: bool) -> Scanned<Seq<char>> {
        if wide {
            self.ul_varbyte()
        } else {
            self.us_varbyte()
        }
    }
}

/// A dynamic SQL command: the operation, a status, an identifier and, where anything
/// is left, the statement.
pub open spec fn dynamic_command(token: u8, body: Seq<u8>) -> Model<CommandView> {
    let wide = token != 0xe7;
    match scan(body).u8() {
        Err(e) => Err(e),
        Ok((operation, c)) => match c.u8() {
            Err(e) => Err(e),
            Ok((_, c)) => match c.b_varbyte() {
                Err(e) => Err(e),
                Ok((identifier, c)) => {
                    let command = CommandView {
                        operation: Some(dynamic_operation(operation)),
                        identifier: Some(identifier),
                        ..bare_command(
                            token,
                            if wide {
                                "dynamic2"@
                            } else {
                                "dynamic"@
                            },
                            body.len() as int,
                        )
                    };
                    if c.done() {
                        Ok(command)
                    } else {
                        match c.wide_text(wide) {
                            Err(e) => Err(e),
                            Ok((text, c)) => if c.done() {
                                Ok(CommandView { text: Some(text), ..command })
                            } else {
                                Err(ErrorView::Protocol("trailing TDS 5 DYNAMIC bytes"@))
                            },
                        }
                    }
                },
            },
        },
    }
}

fn wide_text(cursor: &mut Scanner<'_>, wide: bool) -> (result: Result<String>)
    ensures
        reads(result, old(cursor)@.wide_text(wide), final(cursor)@),
        final(cursor)@.beyond(old(cursor)@),
{
    if wide {
        cursor.ul_varbyte_string()
    } else {
        cursor.us_varbyte_string()
    }
}

pub fn parse_dynamic(token: u8, body: &[u8]) -> (result: Result<Tds5Command>)
    ensures
        outcome(result) == dynamic_command(token, body@),
{
    let wide = token != 0xe7;
    let mut cursor = Scanner::new(body);
    let operation: u8 = cursor.u8()?;
    let _ = cursor.u8()?;
    let identifier = cursor.b_varbyte()?;
    let text = if cursor.done() {
        None
    } else {
        Some(wide_text(&mut cursor, wide)?)
    };
    if !cursor.done() {
        return Err(protocol("trailing TDS 5 DYNAMIC bytes"));
    }
    let mut command = bare(
        token,
        if wide {
            "dynamic2"
        } else {
            "dynamic"
        },
        body.len(),
    );
    command.operation = Some(
        match operation {
            0 => "invalid",
            1 => "prepare",
            2 => "execute",
            4 => "deallocate",
            8 => "execute_immediate",
            16 => "procedure_name",
            32 => "acknowledge",
            64 => "describe_input",
            128 => "describe_output",
            _ => "unknown",
        },
    );
    command.identifier = Some(identifier);
    command.text = text;
    Ok(command)
}

// ---------------------------------------------------------------------------
// Cursors

impl Scan {
    /// `n` names, of which nothing is kept.
    pub open spec fn skip_names(self, n: nat) -> Scanned<()>
        decreases n,
    {
        if n == 0 {
            Ok(((), self))
        } else {
            match self.b_varbyte() {
                Err(e) => Err(e),
                Ok((_, c)) => c.skip_names((n - 1) as nat),
            }
        }
    }
}

/// A cursor declaration: the name, options, a status, the statement and the columns for
/// update.
pub open spec fn cursor_declaration(token: u8, body: Seq<u8>, wide: bool) -> Model<CommandView> {
    match scan(body).b_varbyte() {
        Err(e) => Err(e),
        Ok((identifier, c)) => match c.u8_or_u32(wide) {
            Err(e) => Err(e),
            Ok((options, c)) => match c.u8() {
                Err(e) => Err(e),
                Ok((status, c)) => match c.wide_text(wide) {
                    Err(e) => Err(e),
                    Ok((text, c)) => match c.u16() {
                        Err(e) => Err(e),
                        Ok((count, c)) => if count > 1024 {
                            Err(ErrorView::Limit("TDS 5 cursor update column count"@))
                        } else {
                            match c.skip_names(count as nat) {
                                Err(e) => Err(e),
                                Ok((_, c)) => if !c.done() {
                                    Err(
                                        ErrorView::Protocol(
                                            "trailing TDS 5 cursor declaration bytes"@,
                                        ),
                                    )
                                } else {
                                    Ok(
                                        CommandView {
                                            identifier: Some(identifier),
                                            text: Some(text),
                                            status_or_options: Some(options),
                                            secondary_status: Some(status as u32),
                                            ..bare_command(
                                                token,
                                                if wide {
                                                    "cursor_declare3"@
                                                } else {
                                                    "cursor_declare"@
                                                },
                                                body.len() as int,
                                            )
                                        },
                                    )
                                },
                            }
                        },
                    },
                },
            },
        },
    }
}

fn skip_names(cursor: &mut Scanner<'_>, count: u16) -> (result: Result<()>)
    ensures
        reads(result, old(cursor)@.skip_names(count as nat), final(cursor)@),
        final(cursor)@.beyond(old(cursor)@),
{
    let mut i: u16 = 0;
    while i < count
        invariant
            i <= count,
            old(cursor)@.skip_names(count as nat) == cursor@.skip_names((count - i) as nat),
            cursor@.beyond(old(cursor)@),
        decreases count - i,
    {
        let _ = cursor.b_varbyte()?;
        i += 1;
    }
    Ok(())
}

pub fn parse_cursor_declare(token: u8, body: &[u8], wide: bool) -> (result: Result<Tds5Command>)
    ensures
        outcome(result) == cursor_declaration(token, body@, wide),
{
    let mut cursor = Scanner::new(body);
    let identifier = cursor.b_varbyte()?;
    let options: u32 = cursor.u8_or_u32(wide)?;
    let status: u32 = cursor.u8()? as u32;
    let text = wide_text(&mut cursor, wide)?;
    let column_count: u16 = cursor.u16()?;
    if column_count > 1024 {
        return Err(Error::Limit("TDS 5 cursor update column count"));
    }
    skip_names(&mut cursor, column_count)?;
    if !cursor.done() {
        return Err(protocol("trailing TDS 5 cursor declaration bytes"));
    }
    let mut command = bare(
        token,
        if wide {
            "cursor_declare3"
        } else {
            "cursor_declare"
        },
        body.len(),
    );
    command.identifier = Some(identifier);
    command.text = Some(text);
    command.status_or_options = Some(options);
    command.secondary_status = Some(status);
    Ok(command)
}

/// The name of a cursor or option command.
pub open spec fn simple_name(token: u8) -> Seq<char> {
    match token {
        0x80 => "cursor_close"@,
        0x81 => "cursor_delete"@,
        0x82 => "cursor_fetch"@,
        0x83 => "cursor_info"@,
        0x84 => "cursor_open"@,
        0x85 => "cursor_update"@,
        0x86 => "cursor_declare"@,
        0x87 => "cursor_info2"@,
        0x88 => "cursor_info3"@,
        0xa6 => "option_command"@,
        _ => "unknown"@,
    }
}

fn simple_command_name(token: u8) -> (name: &'static str)
    ensures
        name@ == simple_name(token),
{
    match token {
        0x80 => "cursor_close",
        0x81 => "cursor_delete",
        0x82 => "cursor_fetch",
        0x83 => "cursor_info",
        0x84 => "cursor_open",
        0x85 => "cursor_update",
        0x86 => "cursor_declare",
        0x87 => "cursor_info2",
        0x88 => "cursor_info3",
        0xa6 => "option_command",
        _ => "unknown",
    }
}

/// The name of an option operation.
pub open spec fn option_operation(operation: u8) -> Seq<char> {
    match operation {
        1 => "set"@,
        2 => "default"@,
        3 => "list"@,
        4 => "info"@,
        _ => "unknown"@,
    }
}

/// The name of a fetch direction.
pub open spec fn fetch_operation(operation: u8) -> Seq<char> {
    match operation {
        1 => "next"@,
        2 => "previous"@,
        3 => "first"@,
        4 => "last"@,
        5 => "absolute"@,
        6 => "relative"@,
        _ => "unknown"@,
    }
}

/// An option command: the operation, the option and its argument.
pub open spec fn option_command(body: Seq<u8>) -> Model<CommandView> {
    match scan(body).u8() {
        Err(e) => Err(e),
        Ok((operation, c)) => match c.u8() {
            Err(e) => Err(e),
            Ok((option, c)) => match c.b_varbyte() {
                Err(e) => Err(e),
                Ok((argument, c)) => if !c.done() {
                    Err(ErrorView::Protocol("trailing TDS 5 OPTIONCMD bytes"@))
                } else {
                    Ok(
                        CommandView {
                            operation: Some(option_operation(operation)),
                            option_code: Some(option),
                            option_argument: Some(argument),
                            ..bare_command(0xa6, simple_name(0xa6), body.len() as int)
                        },
                    )
                },
            },
        },
    }
}

impl Scan {
    /// The row count of a cursor information command, which is there where the status
    /// says so.
    pub open spec fn row_count(self, status: u32, command: CommandView) -> Scanned<CommandView> {
        if status & 0x20 != 0 {
            match self.u32() {
                Err(e) => Err(e),
                Ok((n, c)) => Ok(
                    (CommandView { row_count: Some(signed32(n) as i32), ..command }, c),
                ),
            }
        } else {
            Ok((command, self))
        }
    }

    /// What follows the cursor in the body of a cursor command.
    pub open spec fn cursor_tail(self, token: u8, command: CommandView) -> Scanned<CommandView> {
        match token {
            0x80 | 0x84 => match self.u8() {
                Err(e) => Err(e),
                Ok((status, c)) => Ok(
                    (CommandView { status_or_options: Some(status as u32), ..command }, c),
                ),
            },
            0x81 | 0x85 => match self.u8() {
                Err(e) => Err(e),
                Ok((status, c)) => match c.b_varbyte() {
                    Err(e) => Err(e),
                    Ok((table, c)) => {
                        let named = CommandView {
                            status_or_options: Some(status as u32),
                            table_name: Some(table),
                            ..command
                        };
                        if token == 0x81 {
                            Ok((named, c))
                        } else {
                            match c.us_varbyte() {
                                Err(e) => Err(e),
                                Ok((text, c)) => Ok(
                                    (CommandView { text: Some(text), ..named }, c),
                                ),
                            }
                        }
                    },
                },
            },
            0x82 => match self.u8() {
                Err(e) => Err(e),
                Ok((fetch, c)) => {
                    let named = CommandView { operation: Some(fetch_operation(fetch)), ..command };
                    if fetch == 5 || fetch == 6 {
                        match c.u32() {
                            Err(e) => Err(e),
                            Ok((n, c)) => Ok(
                                (CommandView { row_number: Some(signed32(n) as i32), ..named }, c),
                            ),
                        }
                    } else {
                        Ok((named, c))
                    }
                },
            },
            0x83 => match self.u8() {
                Err(e) => Err(e),
                Ok((operation, c)) => match c.u16() {
                    Err(e) => Err(e),
                    Ok((status, c)) => c.row_count(
                        status as u32,
                        CommandView {
                            operation: Some(cursor_command(operation)),
                            status_or_options: Some(status as u32),
                            ..command
                        },
                    ),
                },
            },
            0x88 => match self.u8() {
                Err(e) => Err(e),
                Ok((operation, c)) => match c.u32() {
                    Err(e) => Err(e),
                    Ok((status, c)) => match c.u32() {
                        Err(e) => Err(e),
                        Ok((row_number, c)) => match c.u32() {
                            Err(e) => Err(e),
                            Ok((total_rows, c)) => c.row_count(
                                status,
                                CommandView {
                                    operation: Some(cursor_command(operation)),
                                    status_or_options: Some(status),
                                    row_number: Some(signed32(row_number) as i32),
                                    total_rows: Some(signed32(total_rows) as i32),
                                    ..command
                                },
                            ),
                        },
                    },
                },
            },
            _ => Ok((command, self)),
        }
    }
}

/// A command on a cursor, which is named where its number is zero.
pub open spec fn cursor_use(token: u8, body: Seq<u8>) -> Model<CommandView> {
    match scan(body).u32() {
        Err(e) => Err(e),
        Ok((id, c)) => {
            let command = CommandView {
                cursor_id: Some(signed32(id) as i32),
                ..bare_command(token, simple_name(token), body.len() as int)
            };
            match (if id == 0 {
                match c.b_varbyte() {
                    Err(e) => Err(e),
                    Ok((name, c)) => c.cursor_tail(
                        token,
                        CommandView { identifier: Some(name), ..command },
                    ),
                }
            } else {
                c.cursor_tail(token, command)
            }) {
                Err(e) => Err(e),
                Ok((command, c)) => if c.done() {
                    Ok(command)
                } else {
                    Err(
                        ErrorView::Protocol("trailing TDS 5 "@ + simple_name(token) + " bytes"@),
                    )
                },
            }
        },
    }
}

/// A cursor or option command.
pub open spec fn simple_command(token: u8, body: Seq<u8>) -> Model<CommandView> {
    if token == 0x87 {
        Ok(bare_command(token, simple_name(token), body.len() as int))
    } else if token == 0xa6 {
        option_command(body)
    } else {
        cursor_use(token, body)
    }
}

fn parse_option_command(body: &[u8]) -> (result: Result<Tds5Command>)
    ensures
        outcome(result) == option_command(body@),
{
    let mut cursor = Scanner::new(body);
    let operation: u8 = cursor.u8()?;
    let option: u8 = cursor.u8()?;
    let argument = cursor.b_varbyte()?;
    if !cursor.done() {
        return Err(protocol("trailing TDS 5 OPTIONCMD bytes"));
    }
    let mut command = bare(0xa6, simple_command_name(0xa6), body.len());
    command.operation = Some(
        match operation {
            1 => "set",
            2 => "default",
            3 => "list",
            4 => "info",
            _ => "unknown",
        },
    );
    command.option_code = Some(option);
    command.option_argument = Some(argument);
    Ok(command)
}

fn parse_cursor_tail(cursor: &mut Scanner<'_>, token: u8, command: Tds5Command) -> (result: Result<
    Tds5Command,
>)
    ensures
        reads(result, old(cursor)@.cursor_tail(token, command@), final(cursor)@),
        result matches Ok(after) ==> after.name == command.name,
        final(cursor)@.beyond(old(cursor)@),
{
    let mut command = command;
    match token {
        0x80 | 0x84 => {
            command.status_or_options = Some(cursor.u8()? as u32);
        },
        0x81 | 0x85 => {
            command.status_or_options = Some(cursor.u8()? as u32);
            command.table_name = Some(cursor.b_varbyte()?);
            if token == 0x85 {
                command.text = Some(cursor.us_varbyte_string()?);
            }
        },
        0x82 => {
            let fetch: u8 = cursor.u8()?;
            command.operation = Some(
                match fetch {
                    1 => "next",
                    2 => "previous",
                    3 => "first",
                    4 => "last",
                    5 => "absolute",
                    6 => "relative",
                    _ => "unknown",
                },
            );
            if fetch == 5 || fetch == 6 {
                command.row_number = Some(to_i32(cursor.u32()?));
            }
        },
        0x83 => {
            command.operation = Some(cursor_command_name(cursor.u8()?));
            let status: u32 = cursor.u16()? as u32;
            command.status_or_options = Some(status);
            if status & 0x20 != 0 {
                command.row_count = Some(to_i32(cursor.u32()?));
            }
        },
        0x88 => {
            command.operation = Some(cursor_command_name(cursor.u8()?));
            let status: u32 = cursor.u32()?;
            command.status_or_options = Some(status);
            command.row_number = Some(to_i32(cursor.u32()?));
            command.total_rows = Some(to_i32(cursor.u32()?));
            if status & 0x20 != 0 {
                command.row_count = Some(to_i32(cursor.u32()?));
            }
        },
        _ => {},
    }
    Ok(command)
}

pub fn parse_simple_command(token: u8, body: &[u8]) -> (result: Result<Tds5Command>)
    ensures
        outcome(result) == simple_command(token, body@),
{
    if token == 0xa6 {
        return parse_option_command(body);
    }
    let mut command = bare(token, simple_command_name(token), body.len());
    if token == 0x87 {
        return Ok(command);
    }
    let mut cursor = Scanner::new(body);
    let cursor_id: u32 = cursor.u32()?;
    command.cursor_id = Some(to_i32(cursor_id));
    if cursor_id == 0 {
        command.identifier = Some(cursor.b_varbyte()?);
    }
    let command = parse_cursor_tail(&mut cursor, token, command)?;
    if !cursor.done() {
        return Err(Error::Protocol(cat3("trailing TDS 5 ", command.name, " bytes")));
    }
    Ok(command)
}

} // verus!
