//! The client's TDS 5 token stream: encrypted passwords, challenge and response, and
//! opaque security sessions, with the commands and rows that may surround them.
use crate::bytes::{copied, read_u16, u16_at};
use crate::error::{outcome, protocol, Error, ErrorView, Result};
use crate::tds::tds5::command::{
    bare, bare_command, cursor_declaration, dynamic_command, language_command,
    parse_cursor_declare, parse_dbrpc, parse_dynamic, parse_language, parse_simple_command,
    procedure_call, simple_command, CommandView, Tds5Command,
};
use crate::tds::tds5::format::{
    alternate_format, parameter_format, parse_alternate_format, parse_parameter_format,
    parse_row_format, row_format, AlternateFormatView, Parameter, ParameterView, Tds5AlternateFormat,
    Tds5ParameterValue, ValueRecord,
};
use crate::tds::tds5::names::{
    generic_u16_token_name, generic_u32_token_name, is_published_token, message_name,
    message_type_name, narrow_token_name, published_token, wide_token_name,
};
use crate::tds::tds5::opaque::{
    opaque_security, parse_opaque_security, OpaqueSecurityView, Tds5OpaqueSecurity,
};
use crate::tds::tds5::scan::{scan, Scan, Scanner};
use crate::tds::tds5::values::{read_records, RecordKind, Records, RecordsView};
use crate::text::{
    cat2, cat3, dec, decimal, lemma_views_append, lemma_views_empty, lemma_views_push, opt_view,
    read_utf8, text_in_utf8, views,
};
use vstd::prelude::*;

verus! {

broadcast use {lemma_views_push, lemma_views_empty, lemma_views_append};

// ---------------------------------------------------------------------------
// Data

/// A message token as it is reported.
#[derive(Debug)]
pub struct Tds5Message {
    pub message_type: u16,
    pub name: &'static str,
    pub status: u8,
    pub extra_bytes: usize,
}

/// A token as it is inventoried: how long its body is and how that is known.
#[derive(Debug)]
pub struct Tds5Token {
    pub token: u8,
    pub name: &'static str,
    pub body_bytes: usize,
    pub framing: &'static str,
}

/// A region of the input that could not be parsed.
#[derive(Clone, Copy, Debug, PartialEq, Eq)]
pub struct Tds5UnparsedRegion {
    pub offset: usize,
    pub bytes: usize,
    pub first_byte: Option<u8>,
}

/// The encrypted password for a remote server.
#[derive(Debug)]
pub struct Tds5RemotePassword {
    pub server_name: String,
    pub ciphertext_bytes: usize,
    pub ciphertext: Vec<u8>,
}

/// Everything that is reported of a token stream. The raw values may hold credentials.
#[derive(Debug)]
pub struct AuthenticationStream {
    pub commands: Vec<Tds5Command>,
    pub tokens: Vec<Tds5Token>,
    pub message_types: Vec<Tds5Message>,
    pub parameter_formats: usize,
    pub parameter_sets: usize,
    pub parameter_value_bytes: Vec<usize>,
    pub parameter_values: Vec<Tds5ParameterValue>,
    pub row_formats: usize,
    pub rows: usize,
    pub alternate_formats: Vec<Tds5AlternateFormat>,
    pub alternate_rows: usize,
    pub row_value_bytes: Vec<usize>,
    pub row_values: Vec<Tds5ParameterValue>,
    pub encrypted_login_password_bytes: Option<usize>,
    pub encrypted_remote_passwords: Vec<Tds5RemotePassword>,
    pub encrypted_symmetric_key_bytes: Option<usize>,
    pub opaque_security: Vec<Tds5OpaqueSecurity>,
    pub unparsed_regions: Vec<Tds5UnparsedRegion>,
    pub parse_warnings: Vec<String>,
    pub encrypted_login_password: Option<Vec<u8>>,
    pub encrypted_symmetric_key: Option<Vec<u8>>,
    pub raw_parameter_values: Vec<Vec<u8>>,
    pub unknown_token: Option<u8>,
    pub trailing_bytes: usize,
}

/// The model of a [`Tds5Message`].
pub struct MessageView {
    pub message_type: u16,
    pub name: Seq<char>,
    pub status: u8,
    pub extra_bytes: usize,
}

/// The model of a [`Tds5Token`].
pub struct TokenView {
    pub token: u8,
    pub name: Seq<char>,
    pub body_bytes: usize,
    pub framing: Seq<char>,
}

/// The model of a [`Tds5RemotePassword`].
pub struct RemotePasswordView {
    pub server_name: Seq<char>,
    pub ciphertext_bytes: usize,
    pub ciphertext: Seq<u8>,
}

/// The model of an [`AuthenticationStream`].
pub struct StreamView {
    pub commands: Seq<CommandView>,
    pub tokens: Seq<TokenView>,
    pub message_types: Seq<MessageView>,
    pub parameter_formats: nat,
    pub parameter_sets: nat,
    pub parameter_value_bytes: Seq<usize>,
    pub parameter_values: Seq<ValueRecord>,
    pub row_formats: nat,
    pub rows: nat,
    pub alternate_formats: Seq<AlternateFormatView>,
    pub alternate_rows: nat,
    pub row_value_bytes: Seq<usize>,
    pub row_values: Seq<ValueRecord>,
    pub encrypted_login_password: Option<Seq<u8>>,
    pub encrypted_login_password_bytes: Option<usize>,
    pub encrypted_remote_passwords: Seq<RemotePasswordView>,
    pub encrypted_symmetric_key: Option<Seq<u8>>,
    pub encrypted_symmetric_key_bytes: Option<usize>,
    pub opaque_security: Seq<OpaqueSecurityView>,
    pub unparsed_regions: Seq<Tds5UnparsedRegion>,
    pub parse_warnings: Seq<Seq<char>>,
    pub raw_parameter_values: Seq<Seq<u8>>,
    pub unknown_token: Option<u8>,
    pub trailing_bytes: usize,
}

impl View for Tds5Message {
    type V = MessageView;

    open spec fn view(&self) -> MessageView {
        MessageView {
            message_type: self.message_type,
            name: self.name@,
            status: self.status,
            extra_bytes: self.extra_bytes,
        }
    }
}

impl View for Tds5Token {
    type V = TokenView;

    open spec fn view(&self) -> TokenView {
        TokenView {
            token: self.token,
            name: self.name@,
            body_bytes: self.body_bytes,
            framing: self.framing@,
        }
    }
}

impl View for Tds5RemotePassword {
    type V = RemotePasswordView;

    open spec fn view(&self) -> RemotePasswordView {
        RemotePasswordView {
            server_name: self.server_name@,
            ciphertext_bytes: self.ciphertext_bytes,
            ciphertext: self.ciphertext@,
        }
    }
}

impl View for AuthenticationStream {
    type V = StreamView;

    open spec fn view(&self) -> StreamView {
        StreamView {
            commands: views(self.commands@),
            tokens: views(self.tokens@),
            message_types: views(self.message_types@),
            parameter_formats: self.parameter_formats as nat,
            parameter_sets: self.parameter_sets as nat,
            parameter_value_bytes: self.parameter_value_bytes@,
            parameter_values: views(self.parameter_values@),
            row_formats: self.row_formats as nat,
            rows: self.rows as nat,
            alternate_formats: views(self.alternate_formats@),
            alternate_rows: self.alternate_rows as nat,
            row_value_bytes: self.row_value_bytes@,
            row_values: views(self.row_values@),
            encrypted_login_password: opt_view(self.encrypted_login_password),
            encrypted_login_password_bytes: self.encrypted_login_password_bytes,
            encrypted_remote_passwords: views(self.encrypted_remote_passwords@),
            encrypted_symmetric_key: opt_view(self.encrypted_symmetric_key),
            encrypted_symmetric_key_bytes: self.encrypted_symmetric_key_bytes,
            opaque_security: views(self.opaque_security@),
            unparsed_regions: self.unparsed_regions@,
            parse_warnings: views(self.parse_warnings@),
            raw_parameter_values: views(self.raw_parameter_values@),
            unknown_token: self.unknown_token,
            trailing_bytes: self.trailing_bytes,
        }
    }
}

/// A stream of which nothing has been read.
pub open spec fn empty_stream() -> StreamView {
    StreamView {
        commands: seq![],
        tokens: seq![],
        message_types: seq![],
        parameter_formats: 0,
        parameter_sets: 0,
        parameter_value_bytes: seq![],
        parameter_values: seq![],
        row_formats: 0,
        rows: 0,
        alternate_formats: seq![],
        alternate_rows: 0,
        row_value_bytes: seq![],
        row_values: seq![],
        encrypted_login_password: None,
        encrypted_login_password_bytes: None,
        encrypted_remote_passwords: seq![],
        encrypted_symmetric_key: None,
        encrypted_symmetric_key_bytes: None,
        opaque_security: seq![],
        unparsed_regions: seq![],
        parse_warnings: seq![],
        raw_parameter_values: seq![],
        unknown_token: None,
        trailing_bytes: 0,
    }
}

impl AuthenticationStream {
    /// A stream of which nothing has been read.
    pub fn empty() -> (stream: Self)
        ensures
            stream@ == empty_stream(),
    {
        AuthenticationStream {
            commands: Vec::new(),
            tokens: Vec::new(),
            message_types: Vec::new(),
            parameter_formats: 0,
            parameter_sets: 0,
            parameter_value_bytes: Vec::new(),
            parameter_values: Vec::new(),
            row_formats: 0,
            rows: 0,
            alternate_formats: Vec::new(),
            alternate_rows: 0,
            row_value_bytes: Vec::new(),
            row_values: Vec::new(),
            encrypted_login_password_bytes: None,
            encrypted_remote_passwords: Vec::new(),
            encrypted_symmetric_key_bytes: None,
            opaque_security: Vec::new(),
            unparsed_regions: Vec::new(),
            parse_warnings: Vec::new(),
            encrypted_login_password: None,
            encrypted_symmetric_key: None,
            raw_parameter_values: Vec::new(),
            unknown_token: None,
            trailing_bytes: 0,
        }
    }

    /// The bytes of a parameter value.
    pub fn parameter_value(&self, index: usize) -> (value: Option<&[u8]>)
        ensures
            opt_view(value) == (if index < self@.raw_parameter_values.len() {
                Some(self@.raw_parameter_values[index as int])
            } else {
                None
            }),
    {
        if index < self.raw_parameter_values.len() {
            Some(self.raw_parameter_values[index].as_slice())
        } else {
            None
        }
    }
}

// ---------------------------------------------------------------------------
// What each token adds

impl StreamView {
    /// The number of tokens that count toward the limit.
    pub open spec fn count(self) -> nat {
        self.commands.len() + self.message_types.len() + self.parameter_formats
            + self.parameter_sets + self.row_formats + self.rows + self.alternate_formats.len()
            + self.alternate_rows
    }

    pub open spec fn with_token(
        self,
        token: u8,
        name: Seq<char>,
        body_bytes: int,
        framing: Seq<char>,
    ) -> StreamView {
        StreamView {
            tokens: self.tokens.push(
                TokenView { token, name, body_bytes: body_bytes as usize, framing },
            ),
            ..self
        }
    }

    pub open spec fn with_command(self, command: CommandView) -> StreamView {
        StreamView { commands: self.commands.push(command), ..self }
    }
}

/// A format for alternate rows by its number.
#[derive(Debug)]
pub struct AlternateColumns {
    pub compute_id: u16,
    pub columns: Vec<Parameter>,
}

/// The model of [`AlternateColumns`].
pub struct AlternateColumnsView {
    pub compute_id: u16,
    pub columns: Seq<ParameterView>,
}

impl View for AlternateColumns {
    type V = AlternateColumnsView;

    open spec fn view(&self) -> AlternateColumnsView {
        AlternateColumnsView { compute_id: self.compute_id, columns: views(self.columns@) }
    }
}

/// The place of the format `compute_id` from `i` on.
pub open spec fn format_index(formats: Seq<AlternateColumnsView>, compute_id: u16, i: int) -> Option<
    int,
>
    decreases formats.len() - i,
{
    if i < 0 || i >= formats.len() {
        None
    } else if formats[i].compute_id == compute_id {
        Some(i)
    } else {
        format_index(formats, compute_id, i + 1)
    }
}

/// The state of reading a stream: what is reported so far, the formats in force, the bytes
/// of values read, and the message type that the next parameters belong to.
pub struct StreamState {
    pub out: StreamView,
    pub parameters: Seq<ParameterView>,
    pub row_parameters: Seq<ParameterView>,
    pub alternates: Seq<AlternateColumnsView>,
    pub consumed: int,
    pub message: Option<u16>,
}

/// What a token gives: the state behind it and the place behind it.
pub type Step = core::result::Result<(StreamState, Scan), ErrorView>;

/// The framing of a body length.
pub open spec fn width_name(wide: bool) -> Seq<char> {
    if wide {
        "u32"@
    } else {
        "u16"@
    }
}

/// The lengths of reported values.
pub open spec fn lengths(values: Seq<ValueRecord>) -> Seq<usize> {
    Seq::new(values.len(), |i: int| values[i].bytes)
}

/// The first value from `i` on that is not empty.
pub open spec fn first_nonempty(raw: Seq<Seq<u8>>, i: int) -> Option<Seq<u8>>
    decreases raw.len() - i,
{
    if i < 0 || i >= raw.len() {
        None
    } else if raw[i].len() > 0 {
        Some(raw[i])
    } else {
        first_nonempty(raw, i + 1)
    }
}

/// The remote passwords in the first `n` pairs of values: a server name and a ciphertext.
pub open spec fn remote_passwords(raw: Seq<Seq<u8>>, n: nat) -> Seq<RemotePasswordView>
    decreases n,
{
    if n == 0 {
        seq![]
    } else {
        remote_passwords(raw, (n - 1) as nat).push(
            RemotePasswordView {
                server_name: text_in_utf8(raw[2 * n - 2]),
                ciphertext_bytes: raw[2 * n - 1].len() as usize,
                ciphertext: raw[2 * n - 1],
            },
        )
    }
}

/// Whether parameters of this message hold an encrypted login password.
pub open spec fn password_message(message: Option<u16>) -> bool {
    message == Some(2u16) || message == Some(15u16) || message == Some(31u16)
}

/// Whether parameters of this message hold remote passwords.
pub open spec fn remote_message(message: Option<u16>) -> bool {
    message == Some(3u16) || message == Some(22u16) || message == Some(32u16)
}

impl StreamView {
    /// The stream with the values of one parameter set, whose message says what they are.
    #[verifier::opaque]
    pub open spec fn with_parameters(
        self,
        values: Seq<ValueRecord>,
        raw: Seq<Seq<u8>>,
        message: Option<u16>,
    ) -> StreamView {
        StreamView {
            parameter_value_bytes: self.parameter_value_bytes + lengths(values),
            parameter_values: self.parameter_values + values,
            raw_parameter_values: self.raw_parameter_values + raw,
            parameter_sets: self.parameter_sets + 1,
            ..self.with_password(raw, message).with_opaque(raw, message).with_remote(
                raw,
                message,
            ).with_key(raw, message)
        }
    }

    pub open spec fn with_password(self, raw: Seq<Seq<u8>>, message: Option<u16>) -> StreamView {
        if password_message(message) && self.encrypted_login_password is None && first_nonempty(
            raw,
            0,
        ) is Some {
            StreamView {
                encrypted_login_password: first_nonempty(raw, 0),
                encrypted_login_password_bytes: Some(first_nonempty(raw, 0)->0.len() as usize),
                ..self
            }
        } else {
            self
        }
    }

    pub open spec fn with_opaque(self, raw: Seq<Seq<u8>>, message: Option<u16>) -> StreamView {
        if message == Some(11u16) {
            StreamView { opaque_security: self.opaque_security.push(opaque_security(raw)), ..self }
        } else {
            self
        }
    }

    pub open spec fn with_remote(self, raw: Seq<Seq<u8>>, message: Option<u16>) -> StreamView {
        if remote_message(message) {
            StreamView {
                encrypted_remote_passwords: self.encrypted_remote_passwords + remote_passwords(
                    raw,
                    (raw.len() / 2) as nat,
                ),
                parse_warnings: if raw.len() % 2 == 0 {
                    self.parse_warnings
                } else {
                    self.parse_warnings.push(
                        "TDS 5 remote-password message has "@ + dec(raw.len())
                            + " parameters; expected pairs"@,
                    )
                },
                ..self
            }
        } else {
            self
        }
    }

    pub open spec fn with_key(self, raw: Seq<Seq<u8>>, message: Option<u16>) -> StreamView {
        if message == Some(34u16) {
            let keyed = if raw.len() == 0 {
                self
            } else {
                StreamView {
                    encrypted_symmetric_key: Some(raw[0]),
                    encrypted_symmetric_key_bytes: Some(raw[0].len() as usize),
                    ..self
                }
            };
            if raw.len() == 1 {
                keyed
            } else {
                StreamView {
                    parse_warnings: keyed.parse_warnings.push(
                        "TDS 5 symmetric-key message has "@ + dec(raw.len())
                            + " parameters; expected one"@,
                    ),
                    ..keyed
                }
            }
        } else {
            self
        }
    }
}

impl StreamState {
    /// The state with other output.
    pub open spec fn output(self, out: StreamView) -> StreamState {
        StreamState { out, ..self }
    }

    pub open spec fn language(self, c: Scan) -> Step {
        match c.body(true) {
            Err(e) => Err(e),
            Ok((body, c)) => match language_command(body) {
                Err(e) => Err(e),
                Ok(command) => Ok(
                    (
                        self.output(
                            self.out.with_command(command).with_token(
                                0x21,
                                "language"@,
                                body.len() as int,
                                "u32"@,
                            ),
                        ),
                        c,
                    ),
                ),
            },
        }
    }

    pub open spec fn call(self, token: u8, c: Scan) -> Step {
        match c.body(token == 0xe8) {
            Err(e) => Err(e),
            Ok((body, c)) => match procedure_call(token, body) {
                Err(e) => Err(e),
                Ok(command) => Ok(
                    (
                        self.output(
                            self.out.with_command(command).with_token(
                                token,
                                command.name,
                                body.len() as int,
                                width_name(token == 0xe8),
                            ),
                        ),
                        c,
                    ),
                ),
            },
        }
    }

    pub open spec fn dynamic(self, token: u8, c: Scan) -> Step {
        match c.body(token != 0xe7) {
            Err(e) => Err(e),
            Ok((body, c)) => match dynamic_command(token, body) {
                Err(e) => Err(e),
                Ok(command) => Ok(
                    (
                        self.output(
                            self.out.with_command(command).with_token(
                                token,
                                command.name,
                                body.len() as int,
                                width_name(token != 0xe7),
                            ),
                        ),
                        c,
                    ),
                ),
            },
        }
    }

    pub open spec fn cursor(self, token: u8, c: Scan) -> Step {
        match c.body(token == 0x10) {
            Err(e) => Err(e),
            Ok((body, c)) => match (if token == 0x10 {
                cursor_declaration(token, body, true)
            } else if token == 0x86 {
                cursor_declaration(token, body, false)
            } else {
                simple_command(token, body)
            }) {
                Err(e) => Err(e),
                Ok(command) => Ok(
                    (
                        self.output(
                            self.out.with_command(command).with_token(
                                token,
                                command.name,
                                body.len() as int,
                                width_name(token == 0x10),
                            ),
                        ),
                        c,
                    ),
                ),
            },
        }
    }

    pub open spec fn logout(self, c: Scan) -> Step {
        match c.u8() {
            Err(e) => Err(e),
            Ok((n, c)) => match c.skip(n as int) {
                Err(e) => Err(e),
                Ok((_, c)) => Ok(
                    (
                        self.output(
                            self.out.with_command(
                                bare_command(0x71, "logout"@, n as int),
                            ).with_token(0x71, "logout"@, n as int, "u8"@),
                        ),
                        c,
                    ),
                ),
            },
        }
    }

    pub open spec fn msg(self, c: Scan) -> Step {
        match c.u8() {
            Err(e) => Err(e),
            Ok((n, c)) => match c.take(n as int) {
                Err(e) => Err(e),
                Ok((body, c)) => if n < 3 {
                    Err(ErrorView::Protocol("short TDS 5 MSG token"@))
                } else {
                    let message_type = u16_at(body, 1);
                    Ok(
                        (
                            StreamState {
                                out: StreamView {
                                    message_types: self.out.message_types.push(
                                        MessageView {
                                            message_type,
                                            name: message_name(message_type),
                                            status: body[0],
                                            extra_bytes: (n - 3) as usize,
                                        },
                                    ),
                                    ..self.out.with_token(0x65, "message"@, n as int, "u8"@)
                                },
                                message: Some(message_type),
                                ..self
                            },
                            c,
                        ),
                    )
                },
            },
        }
    }

    pub open spec fn parameter_format(self, token: u8, c: Scan) -> Step {
        let wide = token == 0x20;
        match c.body(wide) {
            Err(e) => Err(e),
            Ok((body, c)) => match parameter_format(body, wide) {
                Err(e) => Err(e),
                Ok(parameters) => Ok(
                    (
                        StreamState {
                            out: StreamView {
                                parameter_formats: self.out.parameter_formats + 1,
                                ..self.out.with_token(
                                    token,
                                    if wide {
                                        "parameter_format2"@
                                    } else {
                                        "parameter_format"@
                                    },
                                    body.len() as int,
                                    width_name(wide),
                                )
                            },
                            parameters,
                            ..self
                        },
                        c,
                    ),
                ),
            },
        }
    }

    pub open spec fn row_format(self, token: u8, c: Scan) -> Step {
        let wide = token == 0x61;
        match c.body(wide) {
            Err(e) => Err(e),
            Ok((body, c)) => match row_format(body, wide) {
                Err(e) => Err(e),
                Ok(row_parameters) => Ok(
                    (
                        StreamState {
                            out: StreamView {
                                row_formats: self.out.row_formats + 1,
                                ..self.out.with_token(
                                    token,
                                    if wide {
                                        "row_format2"@
                                    } else {
                                        "row_format"@
                                    },
                                    body.len() as int,
                                    width_name(wide),
                                )
                            },
                            row_parameters,
                            ..self
                        },
                        c,
                    ),
                ),
            },
        }
    }

    /// The records of a list of values, none read yet.
    pub open spec fn no_records(self) -> RecordsView {
        RecordsView { values: seq![], raw: seq![], consumed: self.consumed }
    }

    pub open spec fn row(self, c: Scan, max: int) -> Step {
        if self.row_parameters.len() == 0 {
            Err(ErrorView::Protocol("TDS 5 ROW without ROWFMT/ROWFMT2"@))
        } else {
            match c.records(self.row_parameters, 0, max, RecordKind::Row, self.no_records()) {
                Err(e) => Err(e),
                Ok((records, after)) => Ok(
                    (
                        StreamState {
                            out: StreamView {
                                rows: self.out.rows + 1,
                                row_value_bytes: self.out.row_value_bytes + lengths(records.values),
                                row_values: self.out.row_values + records.values,
                                ..self.out.with_token(0xd1, "row"@, after.at - c.at, "metadata"@)
                            },
                            consumed: records.consumed,
                            ..self
                        },
                        after,
                    ),
                ),
            }
        }
    }

    pub open spec fn alternate_format(self, c: Scan) -> Step {
        match c.body(false) {
            Err(e) => Err(e),
            Ok((body, c)) => match alternate_format(body) {
                Err(e) => Err(e),
                Ok((format, columns)) => {
                    let entry = AlternateColumnsView { compute_id: format.compute_id, columns };
                    let found = format_index(self.alternates, format.compute_id, 0);
                    if found is None && self.alternates.len() >= 1024 {
                        Err(ErrorView::Limit("TDS 5 alternate format count"@))
                    } else {
                        Ok(
                            (
                                StreamState {
                                    out: StreamView {
                                        alternate_formats: self.out.alternate_formats.push(format),
                                        ..self.out.with_token(
                                            0xa8,
                                            "alternate_format"@,
                                            body.len() as int,
                                            "u16"@,
                                        )
                                    },
                                    alternates: match found {
                                        Some(i) => self.alternates.update(i, entry),
                                        None => self.alternates.push(entry),
                                    },
                                    ..self
                                },
                                c,
                            ),
                        )
                    }
                },
            },
        }
    }

    pub open spec fn alternate_row(self, c: Scan, max: int) -> Step {
        match c.u16() {
            Err(e) => Err(e),
            Ok((compute_id, body)) => match format_index(self.alternates, compute_id, 0) {
                None => Err(
                    ErrorView::Protocol(
                        "TDS 5 ALTROW references unknown compute id "@ + dec(compute_id as nat),
                    ),
                ),
                Some(i) => match body.records(
                    self.alternates[i].columns,
                    0,
                    max,
                    RecordKind::AlternateRow,
                    self.no_records(),
                ) {
                    Err(e) => Err(e),
                    Ok((records, after)) => Ok(
                        (
                            StreamState {
                                out: StreamView {
                                    alternate_rows: self.out.alternate_rows + 1,
                                    row_value_bytes: self.out.row_value_bytes + lengths(
                                        records.values,
                                    ),
                                    row_values: self.out.row_values + records.values,
                                    ..self.out.with_token(
                                        0xd3,
                                        "alternate_row"@,
                                        after.at - c.at,
                                        "metadata"@,
                                    )
                                },
                                consumed: records.consumed,
                                ..self
                            },
                            after,
                        ),
                    ),
                },
            },
        }
    }

    /// A parameter set belongs to the last message, which it uses up.
    pub open spec fn parameter_set(self, c: Scan, max: int) -> Step {
        if self.parameters.len() == 0 {
            Err(ErrorView::Protocol("TDS 5 PARAMS without PARAMFMT"@))
        } else {
            match c.records(self.parameters, 0, max, RecordKind::Parameters, self.no_records()) {
                Err(e) => Err(e),
                Ok((records, after)) => Ok(
                    (
                        StreamState {
                            out: self.out.with_parameters(
                                records.values,
                                records.raw,
                                self.message,
                            ).with_token(
                                0xd7,
                                "parameters"@,
                                records.consumed - self.consumed,
                                "metadata"@,
                            ),
                            consumed: records.consumed,
                            message: None,
                            ..self
                        },
                        after,
                    ),
                ),
            }
        }
    }

    /// A token with a length and an opaque body. One with a two-byte length counts as a
    /// command.
    pub open spec fn opaque_body(self, token: u8, name: Seq<char>, wide: bool, c: Scan) -> Step {
        match c.body(wide) {
            Err(e) => Err(e),
            Ok((body, c)) => {
                let out = if wide {
                    self.out
                } else {
                    self.out.with_command(bare_command(token, name, body.len() as int))
                };
                Ok(
                    (
                        self.output(
                            out.with_token(token, name, body.len() as int, width_name(wide)),
                        ),
                        c,
                    ),
                )
            },
        }
    }

    /// A token of fixed length.
    pub open spec fn fixed(self, token: u8, name: Seq<char>, n: int, c: Scan) -> Step {
        match c.skip(n) {
            Err(e) => Err(e),
            Ok((_, c)) => Ok((self.output(self.out.with_token(token, name, n, "fixed"@)), c)),
        }
    }

    /// What the token `token`, whose body starts at `c`, gives.
    #[verifier::opaque]
    pub open spec fn step(self, token: u8, c: Scan, max: int) -> Step {
        match token {
            0x21 => self.language(c),
            0xe6 | 0xe8 => self.call(token, c),
            0x62 | 0xa3 | 0xe7 => self.dynamic(token, c),
            0x10 | 0x80 | 0x81 | 0x82 | 0x83 | 0x84 | 0x85 | 0x86 | 0x87 | 0x88 | 0xa6 =>
            self.cursor(token, c),
            0x71 => self.logout(c),
            0x65 => self.msg(c),
            0xec | 0x20 => self.parameter_format(token, c),
            0x61 | 0xee => self.row_format(token, c),
            0xd1 => self.row(c, max),
            0xa8 => self.alternate_format(c),
            0xd3 => self.alternate_row(c, max),
            0xd7 => self.parameter_set(c, max),
            0x78 => self.fixed(token, "offset"@, 4, c),
            0x79 => self.fixed(token, "return_status"@, 4, c),
            0x7c => self.fixed(token, "procedure_id"@, 8, c),
            0xfd => self.fixed(token, "done"@, 8, c),
            0xfe => self.fixed(token, "done_proc"@, 8, c),
            0xff => self.fixed(token, "done_in_proc"@, 8, c),
            _ => match wide_token_name(token) {
                Some(name) => self.opaque_body(token, name, true, c),
                None => match narrow_token_name(token) {
                    Some(name) => self.opaque_body(token, name, false, c),
                    None => Ok((self, c)),
                },
            },
        }
    }

    /// The report of the tokens from `c` on. An unknown token ends the reading; what
    /// stands behind it is counted.
    pub open spec fn run(self, c: Scan, max: int) -> core::result::Result<StreamView, ErrorView>
        decreases c.left(),
    {
        if c.done() {
            Ok(self.out)
        } else {
            match c.u8() {
                Err(e) => Err(e),
                Ok((token, body)) => if !published_token(token) {
                    Ok(
                        StreamView {
                            unknown_token: Some(token),
                            trailing_bytes: body.left() as usize,
                            ..self.out
                        },
                    )
                } else {
                    match self.step(token, body, max) {
                        Err(e) => Err(e),
                        Ok((state, after)) => if state.out.count() > 4096 {
                            Err(ErrorView::Limit("TDS 5 authentication token count"@))
                        } else if after.left() < c.left() {
                            state.run(after, max)
                        } else {
                            // A token takes up input, so this is never reached.
                            Err(ErrorView::Protocol("truncated TDS 5 token stream"@))
                        },
                    }
                },
            }
        }
    }
}

/// The state before the first token.
pub open spec fn start_state() -> StreamState {
    StreamState {
        out: empty_stream(),
        parameters: seq![],
        row_parameters: seq![],
        alternates: seq![],
        consumed: 0,
        message: None,
    }
}

/// The report of a token stream whose values may have `max` bytes in all.
pub open spec fn authentication(input: Seq<u8>, max: int) -> core::result::Result<
    StreamView,
    ErrorView,
> {
    start_state().run(scan(input), max)
}

// ---------------------------------------------------------------------------
// Reading a stream

/// The state of reading a stream.
struct StreamParser {
    out: AuthenticationStream,
    parameters: Vec<Parameter>,
    row_parameters: Vec<Parameter>,
    alternates: Vec<AlternateColumns>,
    consumed: usize,
    message: Option<u16>,
}

impl View for StreamParser {
    type V = StreamState;

    closed spec fn view(&self) -> StreamState {
        StreamState {
            out: self.out@,
            parameters: views(self.parameters@),
            row_parameters: views(self.row_parameters@),
            alternates: views(self.alternates@),
            consumed: self.consumed as int,
            message: self.message,
        }
    }
}

/// A token that was read: `step` says what it gives, the others what the code returned and
/// left.
spec fn stepped(result: Result<()>, step: Step, state: StreamState, after: Scan) -> bool {
    match step {
        Ok((s, c)) => result is Ok && state == s && after == c,
        Err(e) => result is Err && result->Err_0@ == e,
    }
}

fn width(wide: bool) -> (name: &'static str)
    ensures
        name@ == width_name(wide),
{
    if wide {
        "u32"
    } else {
        "u16"
    }
}

fn value_lengths(values: &Vec<Tds5ParameterValue>) -> (list: Vec<usize>)
    ensures
        list@ == lengths(views(values@)),
{
    let mut list: Vec<usize> = Vec::new();
    let mut i: usize = 0;
    while i < values.len()
        invariant
            i <= values@.len(),
            list@ =~= lengths(views(values@)).take(i as int),
        decreases values.len() - i,
    {
        list.push(values[i].bytes);
        i += 1;
    }
    list
}

fn first_value(raw: &Vec<Vec<u8>>) -> (value: Option<Vec<u8>>)
    ensures
        opt_view(value) == first_nonempty(views(raw@), 0),
{
    let mut i: usize = 0;
    while i < raw.len()
        invariant
            i <= raw@.len(),
            first_nonempty(views(raw@), 0) == first_nonempty(views(raw@), i as int),
        decreases raw.len() - i,
    {
        if raw[i].len() > 0 {
            return Some(copied(raw[i].as_slice()));
        }
        i += 1;
    }
    None
}

fn push_remote_passwords(list: &mut Vec<Tds5RemotePassword>, raw: &Vec<Vec<u8>>)
    ensures
        views(final(list)@) == views(old(list)@) + remote_passwords(
            views(raw@),
            (raw@.len() / 2) as nat,
        ),
{
    let mut i: usize = 0;
    assert(views(list@) =~= views(old(list)@) + remote_passwords(views(raw@), 0));
    while i < raw.len() / 2
        invariant
            i <= raw@.len() / 2,
            views(list@) == views(old(list)@) + remote_passwords(views(raw@), i as nat),
        decreases raw.len() / 2 - i,
    {
        let name = &raw[2 * i];
        let ciphertext = &raw[2 * i + 1];
        let ghost before = views(list@);
        list.push(
            Tds5RemotePassword {
                server_name: read_utf8(name.as_slice()),
                ciphertext_bytes: ciphertext.len(),
                ciphertext: copied(ciphertext.as_slice()),
            },
        );
        i += 1;
        assert(views(list@) =~= views(old(list)@) + remote_passwords(views(raw@), i as nat));
    }
}

impl AuthenticationStream {
    fn push_token(
        &mut self,
        token: u8,
        name: &'static str,
        body_bytes: usize,
        framing: &'static str,
    )
        ensures
            final(self)@ == old(self)@.with_token(token, name@, body_bytes as int, framing@),
    {
        self.tokens.push(Tds5Token { token, name, body_bytes, framing });
    }

    fn push_command(&mut self, command: Tds5Command)
        ensures
            final(self)@ == old(self)@.with_command(command@),
    {
        self.commands.push(command);
    }

    fn note_password(&mut self, raw: &Vec<Vec<u8>>, message: Option<u16>)
        ensures
            final(self)@ == old(self)@.with_password(views(raw@), message),
    {
        let expected = match message {
            Some(n) => n == 2 || n == 15 || n == 31,
            None => false,
        };
        if expected && self.encrypted_login_password.is_none() {
            if let Some(value) = first_value(raw) {
                self.encrypted_login_password_bytes = Some(value.len());
                self.encrypted_login_password = Some(value);
            }
        }
    }

    fn note_opaque(&mut self, raw: &Vec<Vec<u8>>, message: Option<u16>)
        ensures
            final(self)@ == old(self)@.with_opaque(views(raw@), message),
    {
        if let Some(11) = message {
            self.opaque_security.push(parse_opaque_security(raw));
        }
    }

    fn note_remote(&mut self, raw: &Vec<Vec<u8>>, message: Option<u16>)
        ensures
            final(self)@ == old(self)@.with_remote(views(raw@), message),
    {
        let expected = match message {
            Some(n) => n == 3 || n == 22 || n == 32,
            None => false,
        };
        if expected {
            push_remote_passwords(&mut self.encrypted_remote_passwords, raw);
            if raw.len() % 2 != 0 {
                self.parse_warnings.push(
                    cat3(
                        "TDS 5 remote-password message has ",
                        decimal(raw.len() as u128).as_str(),
                        " parameters; expected pairs",
                    ),
                );
            }
        }
    }

    fn note_key(&mut self, raw: &Vec<Vec<u8>>, message: Option<u16>)
        ensures
            final(self)@ == old(self)@.with_key(views(raw@), message),
    {
        if let Some(34) = message {
            if raw.len() > 0 {
                let value = copied(raw[0].as_slice());
                self.encrypted_symmetric_key_bytes = Some(value.len());
                self.encrypted_symmetric_key = Some(value);
            }
            if raw.len() != 1 {
                self.parse_warnings.push(
                    cat3(
                        "TDS 5 symmetric-key message has ",
                        decimal(raw.len() as u128).as_str(),
                        " parameters; expected one",
                    ),
                );
            }
        }
    }

    fn push_parameters(
        &mut self,
        values: Vec<Tds5ParameterValue>,
        raw: Vec<Vec<u8>>,
        message: Option<u16>,
    )
        requires
            old(self)@.count() <= 4096,
        ensures
            final(self)@ == old(self)@.with_parameters(views(values@), views(raw@), message),
    {
        reveal(StreamView::with_parameters);
        let mut values = values;
        let mut raw = raw;
        self.note_password(&raw, message);
        self.note_opaque(&raw, message);
        self.note_remote(&raw, message);
        self.note_key(&raw, message);
        let mut list = value_lengths(&values);
        self.parameter_value_bytes.append(&mut list);
        self.parameter_values.append(&mut values);
        self.raw_parameter_values.append(&mut raw);
        self.parameter_sets = self.parameter_sets + 1;
    }
}

impl StreamParser {
    fn language(&mut self, cursor: &mut Scanner<'_>) -> (result: Result<()>)
        ensures
            stepped(result, old(self)@.language(old(cursor)@), final(self)@, final(cursor)@),
            final(cursor)@.beyond(old(cursor)@),
    {
        let body = cursor.body(true)?;
        let command = parse_language(body)?;
        self.out.push_command(command);
        self.out.push_token(0x21, "language", body.len(), "u32");
        Ok(())
    }

    fn call(&mut self, token: u8, cursor: &mut Scanner<'_>) -> (result: Result<()>)
        ensures
            stepped(result, old(self)@.call(token, old(cursor)@), final(self)@, final(cursor)@),
            final(cursor)@.beyond(old(cursor)@),
    {
        let body = cursor.body(token == 0xe8)?;
        let command = parse_dbrpc(token, body)?;
        let name = command.name;
        self.out.push_command(command);
        self.out.push_token(token, name, body.len(), width(token == 0xe8));
        Ok(())
    }

    fn dynamic(&mut self, token: u8, cursor: &mut Scanner<'_>) -> (result: Result<()>)
        ensures
            stepped(result, old(self)@.dynamic(token, old(cursor)@), final(self)@, final(cursor)@),
            final(cursor)@.beyond(old(cursor)@),
    {
        let body = cursor.body(token != 0xe7)?;
        let command = parse_dynamic(token, body)?;
        let name = command.name;
        self.out.push_command(command);
        self.out.push_token(token, name, body.len(), width(token != 0xe7));
        Ok(())
    }

    fn cursor(&mut self, token: u8, cursor: &mut Scanner<'_>) -> (result: Result<()>)
        ensures
            stepped(result, old(self)@.cursor(token, old(cursor)@), final(self)@, final(cursor)@),
            final(cursor)@.beyond(old(cursor)@),
    {
        let body = cursor.body(token == 0x10)?;
        let command = if token == 0x10 {
            parse_cursor_declare(token, body, true)?
        } else if token == 0x86 {
            parse_cursor_declare(token, body, false)?
        } else {
            parse_simple_command(token, body)?
        };
        let name = command.name;
        self.out.push_command(command);
        self.out.push_token(token, name, body.len(), width(token == 0x10));
        Ok(())
    }

    fn logout(&mut self, cursor: &mut Scanner<'_>) -> (result: Result<()>)
        ensures
            stepped(result, old(self)@.logout(old(cursor)@), final(self)@, final(cursor)@),
            final(cursor)@.beyond(old(cursor)@),
    {
        let len: usize = cursor.u8()? as usize;
        cursor.skip(len)?;
        self.out.push_command(bare(0x71, "logout", len));
        self.out.push_token(0x71, "logout", len, "u8");
        Ok(())
    }

    fn msg(&mut self, cursor: &mut Scanner<'_>) -> (result: Result<()>)
        ensures
            stepped(result, old(self)@.msg(old(cursor)@), final(self)@, final(cursor)@),
            final(cursor)@.beyond(old(cursor)@),
    {
        let len: usize = cursor.u8()? as usize;
        let body = cursor.take(len)?;
        if len < 3 {
            return Err(protocol("short TDS 5 MSG token"));
        }
        let message_type: u16 = read_u16(body, 1);
        self.message = Some(message_type);
        self.out.message_types.push(
            Tds5Message {
                message_type,
                name: message_type_name(message_type),
                status: body[0],
                extra_bytes: len - 3,
            },
        );
        self.out.push_token(0x65, "message", len, "u8");
        Ok(())
    }

    fn parameter_format(&mut self, token: u8, cursor: &mut Scanner<'_>) -> (result: Result<()>)
        requires
            old(self)@.out.count() <= 4096,
        ensures
            stepped(
                result,
                old(self)@.parameter_format(token, old(cursor)@),
                final(self)@,
                final(cursor)@,
            ),
            final(cursor)@.beyond(old(cursor)@),
    {
        let wide = token == 0x20;
        let body = cursor.body(wide)?;
        self.parameters = parse_parameter_format(body, wide)?;
        self.out.parameter_formats = self.out.parameter_formats + 1;
        self.out.push_token(
            token,
            if wide {
                "parameter_format2"
            } else {
                "parameter_format"
            },
            body.len(),
            width(wide),
        );
        Ok(())
    }

    fn row_format(&mut self, token: u8, cursor: &mut Scanner<'_>) -> (result: Result<()>)
        requires
            old(self)@.out.count() <= 4096,
        ensures
            stepped(
                result,
                old(self)@.row_format(token, old(cursor)@),
                final(self)@,
                final(cursor)@,
            ),
            final(cursor)@.beyond(old(cursor)@),
    {
        let wide = token == 0x61;
        let body = cursor.body(wide)?;
        self.row_parameters = parse_row_format(body, wide)?;
        self.out.row_formats = self.out.row_formats + 1;
        self.out.push_token(
            token,
            if wide {
                "row_format2"
            } else {
                "row_format"
            },
            body.len(),
            width(wide),
        );
        Ok(())
    }

    fn row(&mut self, cursor: &mut Scanner<'_>, max: usize) -> (result: Result<()>)
        requires
            old(self)@.out.count() <= 4096,
        ensures
            stepped(result, old(self)@.row(old(cursor)@, max as int), final(self)@, final(cursor)@),
            final(cursor)@.beyond(old(cursor)@),
    {
        if self.row_parameters.len() == 0 {
            return Err(protocol("TDS 5 ROW without ROWFMT/ROWFMT2"));
        }
        let start: usize = cursor.position;
        let records = read_records(
            cursor,
            &self.row_parameters,
            max,
            self.consumed,
            RecordKind::Row,
        )?;
        self.push_row_values(records);
        self.out.rows = self.out.rows + 1;
        self.out.push_token(0xd1, "row", cursor.position - start, "metadata");
        Ok(())
    }

    fn push_row_values(&mut self, records: Records)
        ensures
            final(self)@ == (StreamState {
                out: StreamView {
                    row_value_bytes: old(self)@.out.row_value_bytes + lengths(records@.values),
                    row_values: old(self)@.out.row_values + records@.values,
                    ..old(self)@.out
                },
                consumed: records@.consumed,
                ..old(self)@
            }),
    {
        let mut values = records.values;
        let mut list = value_lengths(&values);
        self.out.row_value_bytes.append(&mut list);
        self.out.row_values.append(&mut values);
        self.consumed = records.consumed;
    }

    fn find_format(&self, compute_id: u16) -> (place: Option<usize>)
        ensures
            format_index(self@.alternates, compute_id, 0) == (match place {
                Some(i) => Some(i as int),
                None => None,
            }),
            place matches Some(i) ==> i < self@.alternates.len(),
    {
        let mut i: usize = 0;
        while i < self.alternates.len()
            invariant
                i <= self.alternates@.len(),
                format_index(self@.alternates, compute_id, 0) == format_index(
                    self@.alternates,
                    compute_id,
                    i as int,
                ),
            decreases self.alternates.len() - i,
        {
            if self.alternates[i].compute_id == compute_id {
                return Some(i);
            }
            i += 1;
        }
        None
    }

    fn alternate_format(&mut self, cursor: &mut Scanner<'_>) -> (result: Result<()>)
        ensures
            stepped(result, old(self)@.alternate_format(old(cursor)@), final(self)@, final(cursor)@),
            final(cursor)@.beyond(old(cursor)@),
    {
        let body = cursor.body(false)?;
        let (format, columns) = parse_alternate_format(body)?;
        let entry = AlternateColumns { compute_id: format.compute_id, columns };
        let ghost before = self@.alternates;
        match self.find_format(format.compute_id) {
            Some(i) => {
                let ghost e = entry@;
                self.alternates.set(i, entry);
                assert(views(self.alternates@) =~= before.update(i as int, e));
            },
            None => {
                if self.alternates.len() >= 1024 {
                    return Err(Error::Limit("TDS 5 alternate format count"));
                }
                self.alternates.push(entry);
            },
        }
        self.out.alternate_formats.push(format);
        self.out.push_token(0xa8, "alternate_format", body.len(), "u16");
        Ok(())
    }

    fn alternate_row(&mut self, cursor: &mut Scanner<'_>, max: usize) -> (result: Result<()>)
        requires
            old(self)@.out.count() <= 4096,
        ensures
            stepped(
                result,
                old(self)@.alternate_row(old(cursor)@, max as int),
                final(self)@,
                final(cursor)@,
            ),
            final(cursor)@.beyond(old(cursor)@),
    {
        let start: usize = cursor.position;
        let compute_id: u16 = cursor.u16()?;
        let i: usize = match self.find_format(compute_id) {
            Some(i) => i,
            None => {
                return Err(
                    Error::Protocol(
                        cat2(
                            "TDS 5 ALTROW references unknown compute id ",
                            decimal(compute_id as u128).as_str(),
                        ),
                    ),
                );
            },
        };
        let records = read_records(
            cursor,
            &self.alternates[i].columns,
            max,
            self.consumed,
            RecordKind::AlternateRow,
        )?;
        self.push_row_values(records);
        self.out.alternate_rows = self.out.alternate_rows + 1;
        self.out.push_token(0xd3, "alternate_row", cursor.position - start, "metadata");
        Ok(())
    }

    fn parameter_set(&mut self, cursor: &mut Scanner<'_>, max: usize) -> (result: Result<()>)
        requires
            old(self)@.out.count() <= 4096,
        ensures
            stepped(
                result,
                old(self)@.parameter_set(old(cursor)@, max as int),
                final(self)@,
                final(cursor)@,
            ),
            final(cursor)@.beyond(old(cursor)@),
    {
        if self.parameters.len() == 0 {
            return Err(protocol("TDS 5 PARAMS without PARAMFMT"));
        }
        let records = read_records(
            cursor,
            &self.parameters,
            max,
            self.consumed,
            RecordKind::Parameters,
        )?;
        let bytes: usize = records.consumed - self.consumed;
        self.out.push_parameters(records.values, records.raw, self.message);
        self.out.push_token(0xd7, "parameters", bytes, "metadata");
        self.consumed = records.consumed;
        self.message = None;
        Ok(())
    }

    fn opaque_body(
        &mut self,
        token: u8,
        name: &'static str,
        wide: bool,
        cursor: &mut Scanner<'_>,
    ) -> (result: Result<()>)
        ensures
            stepped(
                result,
                old(self)@.opaque_body(token, name@, wide, old(cursor)@),
                final(self)@,
                final(cursor)@,
            ),
            final(cursor)@.beyond(old(cursor)@),
    {
        let len: usize = cursor.body(wide)?.len();
        if !wide {
            self.out.push_command(bare(token, name, len));
        }
        self.out.push_token(token, name, len, width(wide));
        Ok(())
    }

    fn fixed(
        &mut self,
        token: u8,
        name: &'static str,
        n: usize,
        cursor: &mut Scanner<'_>,
    ) -> (result: Result<()>)
        ensures
            stepped(
                result,
                old(self)@.fixed(token, name@, n as int, old(cursor)@),
                final(self)@,
                final(cursor)@,
            ),
            final(cursor)@.beyond(old(cursor)@),
    {
        cursor.skip(n)?;
        self.out.push_token(token, name, n, "fixed");
        Ok(())
    }

    fn step(&mut self, token: u8, cursor: &mut Scanner<'_>, max: usize) -> (result: Result<()>)
        requires
            old(self)@.out.count() <= 4096,
        ensures
            stepped(
                result,
                old(self)@.step(token, old(cursor)@, max as int),
                final(self)@,
                final(cursor)@,
            ),
            final(cursor)@.beyond(old(cursor)@),
    {
        reveal(StreamState::step);
        match token {
            0x21 => self.language(cursor),
            0xe6 | 0xe8 => self.call(token, cursor),
            // Clients disagree on which of two values the wide dynamic token has.
            0x62 | 0xa3 | 0xe7 => self.dynamic(token, cursor),
            0x10 | 0x80 | 0x81 | 0x82 | 0x83 | 0x84 | 0x85 | 0x86 | 0x87 | 0x88
            | 0xa6 => self.cursor(token, cursor),
            0x71 => self.logout(cursor),
            0x65 => self.msg(cursor),
            0xec | 0x20 => self.parameter_format(token, cursor),
            0x61 | 0xee => self.row_format(token, cursor),
            0xd1 => self.row(cursor, max),
            0xa8 => self.alternate_format(cursor),
            0xd3 => self.alternate_row(cursor, max),
            0xd7 => self.parameter_set(cursor, max),
            0x78 => self.fixed(token, "offset", 4, cursor),
            0x79 => self.fixed(token, "return_status", 4, cursor),
            0x7c => self.fixed(token, "procedure_id", 8, cursor),
            0xfd => self.fixed(token, "done", 8, cursor),
            0xfe => self.fixed(token, "done_proc", 8, cursor),
            0xff => self.fixed(token, "done_in_proc", 8, cursor),
            _ => {
                if let Some(name) = generic_u32_token_name(token) {
                    return self.opaque_body(token, name, true, cursor);
                }
                if let Some(name) = generic_u16_token_name(token) {
                    return self.opaque_body(token, name, false, cursor);
                }
                Ok(())
            },
        }
    }

    fn over_limit(&self) -> (over: bool)
        ensures
            over == (self@.out.count() > 4096),
    {
        let total: u128 = self.out.commands.len() as u128 + self.out.message_types.len() as u128
            + self.out.parameter_formats as u128 + self.out.parameter_sets as u128
            + self.out.row_formats as u128 + self.out.rows as u128
            + self.out.alternate_formats.len() as u128 + self.out.alternate_rows as u128;
        total > 4096
    }
}

/// The report of a token stream whose values may have `max_value_bytes` bytes in all. An
/// unknown token ends the reading; it is reported with the number of bytes behind it.
pub fn parse_authentication(input: &[u8], max_value_bytes: usize) -> (result: Result<
    AuthenticationStream,
>)
    ensures
        outcome(result) == authentication(input@, max_value_bytes as int),
        result matches Ok(stream) ==> stream@.count() <= 4096,
{
    let mut cursor = Scanner::new(input);
    let mut parser = StreamParser {
        out: AuthenticationStream::empty(),
        parameters: Vec::new(),
        row_parameters: Vec::new(),
        alternates: Vec::new(),
        consumed: 0,
        message: None,
    };
    assert(parser@ == start_state());
    while !cursor.done()
        invariant
            parser@.out.count() <= 4096,
            authentication(input@, max_value_bytes as int) == parser@.run(
                cursor@,
                max_value_bytes as int,
            ),
        decreases cursor@.left(),
    {
        let token: u8 = cursor.u8()?;
        if !is_published_token(token) {
            let mut out = parser.out;
            out.unknown_token = Some(token);
            out.trailing_bytes = cursor.remaining();
            return Ok(out);
        }
        parser.step(token, &mut cursor, max_value_bytes)?;
        if parser.over_limit() {
            return Err(Error::Limit("TDS 5 authentication token count"));
        }
    }
    Ok(parser.out)
}

} // verus!
