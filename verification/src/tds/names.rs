//! Packet types and their names.
use vstd::prelude::*;

verus! {

pub const SQL_BATCH: u8 = 0x01;
pub const RPC: u8 = 0x03;
pub const TABULAR_RESULT: u8 = 0x04;
pub const LOGIN: u8 = 0x02;
pub const LOGIN7: u8 = 0x10;
pub const PRELOGIN: u8 = 0x12;
pub const ATTENTION: u8 = 0x06;
pub const BULK_LOAD: u8 = 0x07;
pub const FEDAUTH_TOKEN: u8 = 0x08;
pub const TRANSACTION_MANAGER: u8 = 0x0e;
pub const SSPI: u8 = 0x11;
pub const TDS5_NORMAL: u8 = 0x0f;
pub const TDS5_COMMAND_SEQUENCE_LOGIN: u8 = 0x14;

/// The name of a packet type.
pub open spec fn packet_name(packet_type: u8) -> Seq<char> {
    match packet_type {
        0x01 => "sql_batch"@,
        0x02 => "pre_tds7_login"@,
        0x03 => "rpc"@,
        0x04 => "tabular_result"@,
        0x06 => "attention"@,
        0x07 => "bulk_load"@,
        0x08 => "federated_authentication_token"@,
        0x0e => "transaction_manager_request"@,
        0x10 => "login7"@,
        0x11 => "sspi"@,
        0x12 => "prelogin"@,
        0x0f => "tds5_token_stream"@,
        0x05 | 0x09 | 0x0a | 0x0b | 0x0c | 0x0d => "unused"@,
        _ => "unknown"@,
    }
}

/// The name of a packet type.
pub fn packet_type_name(packet_type: u8) -> (name: &'static str)
    ensures
        name@ == packet_name(packet_type),
{
    match packet_type {
        0x01 => "sql_batch",
        0x02 => "pre_tds7_login",
        0x03 => "rpc",
        0x04 => "tabular_result",
        0x06 => "attention",
        0x07 => "bulk_load",
        0x08 => "federated_authentication_token",
        0x0e => "transaction_manager_request",
        0x10 => "login7",
        0x11 => "sspi",
        0x12 => "prelogin",
        0x0f => "tds5_token_stream",
        0x05 | 0x09 | 0x0a | 0x0b | 0x0c | 0x0d => "unused",
        _ => "unknown",
    }
}

/// The name of a packet type before TDS 7 and in TDS 5.
pub open spec fn legacy_packet_name(packet_type: u8) -> Seq<char> {
    match packet_type {
        0x01 => "language"@,
        0x02 => "login"@,
        0x03 => "rpc"@,
        0x04 => "response"@,
        0x05 => "unformatted"@,
        0x06 => "attention"@,
        0x07 => "bulk"@,
        0x08 => "setup"@,
        0x09 => "close"@,
        0x0a => "error"@,
        0x0b => "protocol_acknowledgement"@,
        0x0c => "echo"@,
        0x0d => "logout"@,
        0x0e => "end_parameters"@,
        0x0f => "normal"@,
        0x10 => "urgent"@,
        0x11 => "migrate"@,
        0x12 => "hello"@,
        0x13 => "command_sequence_normal"@,
        0x14 => "command_sequence_login"@,
        0x15 => "command_sequence_liveness"@,
        0x16 => "command_sequence_reserved_1"@,
        0x17 => "command_sequence_reserved_2"@,
        _ => "unknown"@,
    }
}

/// The name of a packet type before TDS 7 and in TDS 5. Several of these types mean
/// something else in TDS 7, so callers choose this table by what was negotiated.
pub fn legacy_packet_type_name(packet_type: u8) -> (name: &'static str)
    ensures
        name@ == legacy_packet_name(packet_type),
{
    match packet_type {
        0x01 => "language",
        0x02 => "login",
        0x03 => "rpc",
        0x04 => "response",
        0x05 => "unformatted",
        0x06 => "attention",
        0x07 => "bulk",
        0x08 => "setup",
        0x09 => "close",
        0x0a => "error",
        0x0b => "protocol_acknowledgement",
        0x0c => "echo",
        0x0d => "logout",
        0x0e => "end_parameters",
        0x0f => "normal",
        0x10 => "urgent",
        0x11 => "migrate",
        0x12 => "hello",
        0x13 => "command_sequence_normal",
        0x14 => "command_sequence_login",
        0x15 => "command_sequence_liveness",
        0x16 => "command_sequence_reserved_1",
        0x17 => "command_sequence_reserved_2",
        _ => "unknown",
    }
}

/// The types that have a name before TDS 7 and in TDS 5 are those from 1 to 0x17.
pub proof fn lemma_legacy_packet_types_are_named(packet_type: u8)
    ensures
        1 <= packet_type <= 0x17 <==> legacy_packet_name(packet_type) != "unknown"@,
{
    reveal_strlit("unknown");
    reveal_strlit("language");
    reveal_strlit("login");
    reveal_strlit("rpc");
    reveal_strlit("response");
    reveal_strlit("unformatted");
    reveal_strlit("attention");
    reveal_strlit("bulk");
    reveal_strlit("setup");
    reveal_strlit("close");
    reveal_strlit("error");
    reveal_strlit("protocol_acknowledgement");
    reveal_strlit("echo");
    reveal_strlit("logout");
    reveal_strlit("end_parameters");
    reveal_strlit("normal");
    reveal_strlit("urgent");
    reveal_strlit("migrate");
    reveal_strlit("hello");
    reveal_strlit("command_sequence_normal");
    reveal_strlit("command_sequence_login");
    reveal_strlit("command_sequence_liveness");
    reveal_strlit("command_sequence_reserved_1");
    reveal_strlit("command_sequence_reserved_2");
    assert("unknown"@.len() == 7);
    assert("migrate"@[0] == 'm');
    assert("unknown"@[0] == 'u');
    if 1 <= packet_type <= 0x17 {
        assert(legacy_packet_name(packet_type).len() != 7 || legacy_packet_name(packet_type)[0]
            == 'm');
    }
}

/// Whether packets of a type carry credentials.
pub open spec fn authentication_packet(packet_type: u8) -> bool {
    packet_type == LOGIN || packet_type == LOGIN7 || packet_type == SSPI || packet_type
        == FEDAUTH_TOKEN
}

/// Whether packets of a type carry credentials.
pub fn is_authentication_packet(packet_type: u8) -> (yes: bool)
    ensures
        yes == authentication_packet(packet_type),
{
    packet_type == LOGIN || packet_type == LOGIN7 || packet_type == SSPI || packet_type
        == FEDAUTH_TOKEN
}

} // verus!
