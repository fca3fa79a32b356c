//! Which configurations can be used.
use crate::config::{config_error, ConfigView, TlsMode};
use vstd::prelude::*;

verus! {

/// Whether every limit leaves room for what it limits.
pub open spec fn roomy(config: ConfigView) -> bool {
    let l = config.limits;
    &&& 1 <= config.listener.max_connections
    &&& 1 <= config.listener.max_connections_per_ip
    &&& 1 <= l.telemetry_queue_capacity
    &&& l.max_packet_bytes >= 8 && l.max_packet_bytes < 0x1_0000
    &&& l.max_message_bytes >= l.max_packet_bytes && l.max_message_bytes >= l.max_sql_batch_bytes
}

/// A configuration is refused by the first thing that is wrong with it, and one with nothing
/// wrong can be used: its address is one, its limits leave room, what is to be encrypted has a
/// certificate and a key, there is a database to be in, and passwords do not end up on the
/// screen.
pub proof fn lemma_configs_are_checked(config: ConfigView, address_error: Option<Seq<char>>)
    ensures
        ({
            let encrypts = config.tls.mode != TlsMode::Disabled;
            let equipped = config.tls.certificate_der is Some && config.tls.private_key_der is Some;
            let leaks = config.telemetry.stdout && config.telemetry.capture_login_passwords;
            let homeless = config.personality.databases.len() == 0;
            &&& config_error(config, address_error) is None <==> address_error is None && roomy(
                config,
            ) && (encrypts ==> equipped) && !homeless && !leaks
            &&& config_error(config, address_error) matches Some(e) ==> e is Config
        }),
{
}

/// To leave more room never makes a configuration unusable: more connections, a longer queue,
/// or longer messages.
pub proof fn lemma_room_does_no_harm(config: ConfigView, more: ConfigView)
    requires
        config_error(config, None) is None,
        more.listener.max_connections >= config.listener.max_connections,
        more.listener.max_connections_per_ip >= config.listener.max_connections_per_ip,
        more.limits.telemetry_queue_capacity >= config.limits.telemetry_queue_capacity,
        more.limits.max_message_bytes >= config.limits.max_message_bytes,
        more.limits.max_packet_bytes == config.limits.max_packet_bytes,
        more.limits.max_sql_batch_bytes == config.limits.max_sql_batch_bytes,
        more.tls == config.tls,
        more.telemetry == config.telemetry,
        more.personality == config.personality,
    ensures
        config_error(more, None) is None,
{
}

} // verus!
