//! The names of TDS 5 tokens, messages and flags.
use crate::text::{lemma_views_empty, lemma_views_push};
use vstd::prelude::*;

verus! {

broadcast use {lemma_views_push, lemma_views_empty};

/// The tokens of the published grammar.
pub const PUBLISHED_TDS5_TOKEN_IDS: [u8; 55] = [
    0x10, 0x20, 0x21, 0x22, 0x23, 0x2a, 0x60, 0x61, 0x62, 0x65, 0x71, 0x78, 0x79, 0x7c, 0x80, 0x81,
    0x82, 0x83, 0x84, 0x85, 0x86, 0x87, 0x88, 0xa0, 0xa1, 0xa2, 0xa3, 0xa4, 0xa5, 0xa6, 0xa7, 0xa8,
    0xa9, 0xaa, 0xab, 0xac, 0xad, 0xae, 0xaf, 0xca, 0xd1, 0xd3, 0xd7, 0xe0, 0xe2, 0xe3, 0xe5, 0xe6,
    0xe7, 0xe8, 0xec, 0xee, 0xfd, 0xfe, 0xff,
];

/// Whether a token belongs to the published grammar.
pub open spec fn published_token(token: u8) -> bool {
    token == 0x10 || 0x20 <= token <= 0x23 || token == 0x2a || 0x60 <= token <= 0x62 || token == 0x65
        || token == 0x71 || token == 0x78 || token == 0x79 || token == 0x7c || 0x80 <= token <= 0x88
        || 0xa0 <= token <= 0xaf || token == 0xca || token == 0xd1 || token == 0xd3 || token == 0xd7
        || token == 0xe0 || token == 0xe2 || token == 0xe3 || 0xe5 <= token <= 0xe8 || token == 0xec
        || token == 0xee || token >= 0xfd
}

/// The name of a message type.
pub open spec fn message_name(value: u16) -> Seq<char> {
    match value {
        1 => "secure_encryption"@,
        2 => "encrypted_login_password"@,
        3 => "encrypted_remote_password"@,
        4 => "secure_challenge"@,
        5 => "secure_response"@,
        6 => "get_security_label"@,
        7 => "security_label"@,
        8 => "table_name"@,
        9 => "gateway_reserved"@,
        10 => "omni_capabilities"@,
        11 => "opaque_security"@,
        12 => "ha_failover"@,
        13 => "empty"@,
        14 => "secure_encryption_v2"@,
        15 => "encrypted_login_password_v2"@,
        16 => "supported_ciphers"@,
        17 => "migration_request"@,
        18 => "migration_sync"@,
        19 => "migration_continue"@,
        20 => "migration_ignore"@,
        21 => "migration_failure"@,
        22 => "encrypted_remote_password_v2"@,
        23 => "migration_resume"@,
        24 => "hello"@,
        25 => "login_parameters"@,
        26 => "grid_migration_request"@,
        27 => "grid_quiesce"@,
        28 => "grid_unquiesce"@,
        29 => "grid_event"@,
        30 => "secure_encryption_v3"@,
        31 => "encrypted_login_password_v3"@,
        32 => "encrypted_remote_password_v3"@,
        33 => "disaster_recovery_map"@,
        34 => "secure_symmetric_key"@,
        35 => "secure_encryption_v4"@,
        _ => "unknown"@,
    }
}

/// The name of a message type.
pub fn message_type_name(value: u16) -> (name: &'static str)
    ensures
        name@ == message_name(value),
{
    match value {
        1 => "secure_encryption",
        2 => "encrypted_login_password",
        3 => "encrypted_remote_password",
        4 => "secure_challenge",
        5 => "secure_response",
        6 => "get_security_label",
        7 => "security_label",
        8 => "table_name",
        9 => "gateway_reserved",
        10 => "omni_capabilities",
        11 => "opaque_security",
        12 => "ha_failover",
        13 => "empty",
        14 => "secure_encryption_v2",
        15 => "encrypted_login_password_v2",
        16 => "supported_ciphers",
        17 => "migration_request",
        18 => "migration_sync",
        19 => "migration_continue",
        20 => "migration_ignore",
        21 => "migration_failure",
        22 => "encrypted_remote_password_v2",
        23 => "migration_resume",
        24 => "hello",
        25 => "login_parameters",
        26 => "grid_migration_request",
        27 => "grid_quiesce",
        28 => "grid_unquiesce",
        29 => "grid_event",
        30 => "secure_encryption_v3",
        31 => "encrypted_login_password_v3",
        32 => "encrypted_remote_password_v3",
        33 => "disaster_recovery_map",
        34 => "secure_symmetric_key",
        35 => "secure_encryption_v4",
        _ => "unknown",
    }
}

/// The name of an aggregate operator.
pub open spec fn operator_name(operator: u8) -> Seq<char> {
    match operator {
        0x09 => "count_big"@,
        0x30 => "stdev"@,
        0x31 => "stdevp"@,
        0x32 => "var"@,
        0x33 => "varp"@,
        0x4b | 0x4c => "count"@,
        0x4d | 0x4e => "sum"@,
        0x4f | 0x50 => "avg"@,
        0x51 => "min"@,
        0x52 => "max"@,
        0x72 => "checksum_agg"@,
        _ => "unknown"@,
    }
}

/// The name of an aggregate operator.
pub fn aggregate_operator_name(operator: u8) -> (name: &'static str)
    ensures
        name@ == operator_name(operator),
{
    match operator {
        0x09 => "count_big",
        0x30 => "stdev",
        0x31 => "stdevp",
        0x32 => "var",
        0x33 => "varp",
        0x4b | 0x4c => "count",
        0x4d | 0x4e => "sum",
        0x4f | 0x50 => "avg",
        0x51 => "min",
        0x52 => "max",
        0x72 => "checksum_agg",
        _ => "unknown",
    }
}

/// The name of a cursor information command.
pub open spec fn cursor_command(command: u8) -> Seq<char> {
    match command {
        1 => "set_cursor_rows"@,
        2 => "inquire"@,
        3 => "inform"@,
        4 => "list_all"@,
        _ => "unknown"@,
    }
}

/// The name of a cursor information command.
pub fn cursor_command_name(command: u8) -> (name: &'static str)
    ensures
        name@ == cursor_command(command),
{
    match command {
        1 => "set_cursor_rows",
        2 => "inquire",
        3 => "inform",
        4 => "list_all",
        _ => "unknown",
    }
}

/// The name of a token with a two-byte length and an opaque body.
pub open spec fn narrow_token_name(token: u8) -> Option<Seq<char>> {
    match token {
        0x23 => Some("cursor_declare2"@),
        0x2a => Some("column_format_old"@),
        0x60 => Some("debug_command"@),
        0xa0 => Some("column_name"@),
        0xa1 => Some("column_format"@),
        0xa2 => Some("event_notice"@),
        0xa4 => Some("table_name"@),
        0xa5 => Some("column_info"@),
        0xa7 => Some("alternate_name"@),
        0xa8 => Some("alternate_format"@),
        0xa9 => Some("order_by"@),
        0xaa => Some("error"@),
        0xab => Some("info"@),
        0xac => Some("return_value"@),
        0xad => Some("login_ack"@),
        0xae => Some("control"@),
        0xaf => Some("alternate_control"@),
        0xca => Some("key"@),
        0xe0 => Some("rpc"@),
        0xe2 => Some("capability"@),
        0xe3 => Some("environment_change"@),
        0xe5 => Some("extended_error"@),
        _ => None,
    }
}

/// The name of a token with a two-byte length and an opaque body.
pub fn generic_u16_token_name(token: u8) -> (name: Option<&'static str>)
    ensures
        crate::text::opt_view(name) == narrow_token_name(token),
{
    match token {
        0x23 => Some("cursor_declare2"),
        0x2a => Some("column_format_old"),
        0x60 => Some("debug_command"),
        0xa0 => Some("column_name"),
        0xa1 => Some("column_format"),
        0xa2 => Some("event_notice"),
        0xa4 => Some("table_name"),
        0xa5 => Some("column_info"),
        0xa7 => Some("alternate_name"),
        0xa8 => Some("alternate_format"),
        0xa9 => Some("order_by"),
        0xaa => Some("error"),
        0xab => Some("info"),
        0xac => Some("return_value"),
        0xad => Some("login_ack"),
        0xae => Some("control"),
        0xaf => Some("alternate_control"),
        0xca => Some("key"),
        0xe0 => Some("rpc"),
        0xe2 => Some("capability"),
        0xe3 => Some("environment_change"),
        0xe5 => Some("extended_error"),
        _ => None,
    }
}

/// The name of a token with a four-byte length and an opaque body.
pub open spec fn wide_token_name(token: u8) -> Option<Seq<char>> {
    match token {
        0x22 => Some("order_by2"@),
        _ => None,
    }
}

/// The name of a token with a four-byte length and an opaque body.
pub fn generic_u32_token_name(token: u8) -> (name: Option<&'static str>)
    ensures
        crate::text::opt_view(name) == wide_token_name(token),
{
    match token {
        0x22 => Some("order_by2"),
        _ => None,
    }
}

/// The published message types are those that have a name.
pub proof fn lemma_published_messages_are_named(message_type: u16)
    ensures
        1 <= message_type <= 35 <==> message_name(message_type) != "unknown"@,
{
    reveal_strlit("unknown");
    reveal_strlit("secure_encryption");
    reveal_strlit("encrypted_login_password");
    reveal_strlit("encrypted_remote_password");
    reveal_strlit("secure_challenge");
    reveal_strlit("secure_response");
    reveal_strlit("get_security_label");
    reveal_strlit("security_label");
    reveal_strlit("table_name");
    reveal_strlit("gateway_reserved");
    reveal_strlit("omni_capabilities");
    reveal_strlit("opaque_security");
    reveal_strlit("ha_failover");
    reveal_strlit("empty");
    reveal_strlit("secure_encryption_v2");
    reveal_strlit("encrypted_login_password_v2");
    reveal_strlit("supported_ciphers");
    reveal_strlit("migration_request");
    reveal_strlit("migration_sync");
    reveal_strlit("migration_continue");
    reveal_strlit("migration_ignore");
    reveal_strlit("migration_failure");
    reveal_strlit("encrypted_remote_password_v2");
    reveal_strlit("migration_resume");
    reveal_strlit("hello");
    reveal_strlit("login_parameters");
    reveal_strlit("grid_migration_request");
    reveal_strlit("grid_quiesce");
    reveal_strlit("grid_unquiesce");
    reveal_strlit("grid_event");
    reveal_strlit("secure_encryption_v3");
    reveal_strlit("encrypted_login_password_v3");
    reveal_strlit("encrypted_remote_password_v3");
    reveal_strlit("disaster_recovery_map");
    reveal_strlit("secure_symmetric_key");
    reveal_strlit("secure_encryption_v4");
    assert("unknown"@.len() == 7);
    if 1 <= message_type <= 35 {
        assert(message_name(message_type).len() != 7);
    }
}

/// The list of published tokens holds exactly the published tokens.
pub proof fn lemma_published_token_list(token: u8)
    ensures
        published_token(token) <==> PUBLISHED_TDS5_TOKEN_IDS@.contains(token),
{
    let ids = PUBLISHED_TDS5_TOKEN_IDS@;
    assert(ids.len() == 55);
    if ids.contains(token) {
        let i = choose|i: int| 0 <= i < ids.len() && ids[i] == token;
        assert(published_token(ids[i]));
    }
    if published_token(token) {
        let i: int = if token == 0x10 {
            0
        } else if token <= 0x23 {
            token - 0x20 + 1
        } else if token == 0x2a {
            5
        } else if token <= 0x62 {
            token - 0x60 + 6
        } else if token == 0x65 {
            9
        } else if token == 0x71 {
            10
        } else if token <= 0x79 {
            token - 0x78 + 11
        } else if token == 0x7c {
            13
        } else if token <= 0x88 {
            token - 0x80 + 14
        } else if token <= 0xaf {
            token - 0xa0 + 23
        } else if token == 0xca {
            39
        } else if token == 0xd1 {
            40
        } else if token == 0xd3 {
            41
        } else if token == 0xd7 {
            42
        } else if token == 0xe0 {
            43
        } else if token <= 0xe3 {
            token - 0xe2 + 44
        } else if token <= 0xe8 {
            token - 0xe5 + 46
        } else if token == 0xec {
            50
        } else if token == 0xee {
            51
        } else {
            token - 0xfd + 52
        };
        assert(ids[i] == token);
    }
}

/// Whether a token belongs to the published grammar.
pub fn is_published_token(token: u8) -> (published: bool)
    ensures
        published == published_token(token),
{
    token == 0x10 || (0x20 <= token && token <= 0x23) || token == 0x2a || (0x60 <= token && token
        <= 0x62) || token == 0x65 || token == 0x71 || token == 0x78 || token == 0x79 || token == 0x7c
        || (0x80 <= token && token <= 0x88) || (0xa0 <= token && token <= 0xaf) || token == 0xca
        || token == 0xd1 || token == 0xd3 || token == 0xd7 || token == 0xe0 || token == 0xe2 || token
        == 0xe3 || (0xe5 <= token && token <= 0xe8) || token == 0xec || token == 0xee || token
        >= 0xfd
}

/// Whether a message type belongs to the published grammar.
pub fn is_published_message_type(message_type: u16) -> (published: bool)
    ensures
        published == (1 <= message_type <= 35),
        published == (message_name(message_type) != "unknown"@),
{
    proof {
        lemma_published_messages_are_named(message_type);
    }
    1 <= message_type && message_type <= 35
}

} // verus!
