//! The data the master application exchanges with its user interface, and
//! the rules by which it turns requests into connection settings and
//! command values.
use crate::master::{MasterConfig, MasterState, TlsConfig};
use crate::text;
use vstd::prelude::*;

verus! {

/// Event payload announcing a connection's new state.
pub struct ConnectionStateEvent {
    pub id: String,
    pub state: String,
}

/// A request to create a master connection; absent fields take defaults.
pub struct CreateConnectionRequest {
    pub target_address: String,
    pub port: u16,
    pub common_address: Option<u16>,
    pub timeout_ms: Option<u64>,
    /// TLS configuration
    pub use_tls: Option<bool>,
    pub ca_file: Option<String>,
    pub cert_file: Option<String>,
    pub key_file: Option<String>,
    pub accept_invalid_certs: Option<bool>,
}

/// A request to send a control command.
pub struct ControlCommandRequest {
    pub connection_id: String,
    pub ioa: u32,
    pub common_address: u16,
    pub command_type: String,
    pub value: String,
    pub select: Option<bool>,
}

/// What the user interface shows of a connection.
pub struct ConnectionInfo {
    pub id: String,
    pub target_address: String,
    pub port: u16,
    pub common_address: u16,
    pub state: String,
    pub use_tls: bool,
}

/// What the user interface shows of a received data point.
pub struct ReceivedDataPointInfo {
    pub ioa: u32,
    pub asdu_type: String,
    pub category: String,
    pub value: String,
    pub quality_iv: bool,
    pub timestamp: Option<String>,
    pub update_seq: u64,
}

/// Received data points changed since a sequence number.
pub struct IncrementalDataResponse {
    pub seq: u64,
    pub total_count: usize,
    pub points: Vec<ReceivedDataPointInfo>,
}

/// The identifier of the `n`-th connection: `conn_<n>`.
pub open spec fn connection_id_text(n: u32) -> Seq<char> {
    "conn_"@ + text::dec_str(n as nat)
}

/// The identifier given to the `n`-th connection.
pub fn connection_id(n: u32) -> (r: String)
    ensures
        r@ == connection_id_text(n),
{
    let mut s = String::new();
    s.append("conn_");
    text::push_dec(&mut s, n as u64);
    s
}

/// Hands out the identifier for counter value `*next` and advances the
/// counter by one.
pub fn take_connection_id(next: &mut u32) -> (r: String)
    requires
        *old(next) < u32::MAX,
    ensures
        r@ == connection_id_text(*old(next)),
        *final(next) == *old(next) + 1,
{
    let id = connection_id(*next);
    *next = *next + 1;
    id
}

proof fn lemma_dec_str_len(n: nat)
    ensures
        text::dec_str(n).len() >= 1,
        n >= 10 ==> text::dec_str(n).len() >= 2,
    decreases n,
{
    if n >= 10 {
        lemma_dec_str_len(n / 10);
    }
}

proof fn lemma_dec_str_injective(a: nat, b: nat)
    requires
        text::dec_str(a) == text::dec_str(b),
    ensures
        a == b,
    decreases a,
{
    lemma_dec_str_len(a);
    lemma_dec_str_len(b);
    let sa = text::dec_str(a);
    let sb = text::dec_str(b);
    if a < 10 && b < 10 {
        assert(sa[0] == sb[0]);
    } else if a >= 10 && b >= 10 {
        assert(sa.last() == sb.last());
        assert(sa.drop_last() =~= text::dec_str(a / 10));
        assert(sb.drop_last() =~= text::dec_str(b / 10));
        lemma_dec_str_injective(a / 10, b / 10);
    } else {
        assert(sa.len() != sb.len());
    }
}

/// Connection identifiers are never reused: counter values that differ give
/// identifiers that differ, and the counter only grows, so every identifier
/// handed out by `take_connection_id` is new.
pub proof fn lemma_connection_ids_never_reused(a: u32, b: u32)
    requires
        a != b,
    ensures
        connection_id_text(a) != connection_id_text(b),
{
    let p = "conn_"@;
    if connection_id_text(a) == connection_id_text(b) {
        assert(text::dec_str(a as nat) =~= connection_id_text(a).skip(p.len() as int));
        assert(text::dec_str(b as nat) =~= connection_id_text(b).skip(p.len() as int));
        lemma_dec_str_injective(a as nat, b as nat);
    }
}

/// The string held in an optional field, or the empty string.
fn string_or_empty(s: Option<String>) -> (r: String)
    ensures
        r@ == match s {
            Some(x) => x@,
            None => Seq::<char>::empty(),
        },
{
    match s {
        Some(x) => x,
        None => String::new(),
    }
}

/// The connection settings a request asks for: common address 1, timeout
/// 3000 ms, no TLS, empty certificate paths and strict certificate checks
/// unless the request says otherwise.
pub fn master_config_from_request(request: CreateConnectionRequest) -> (r: MasterConfig)
    ensures
        r.target_address@ == request.target_address@,
        r.port == request.port,
        r.common_address == match request.common_address {
            Some(c) => c,
            None => 1,
        },
        r.timeout_ms == match request.timeout_ms {
            Some(t) => t,
            None => 3000,
        },
        r.tls.enabled == match request.use_tls {
            Some(b) => b,
            None => false,
        },
        r.tls.ca_file@ == match request.ca_file {
            Some(x) => x@,
            None => Seq::<char>::empty(),
        },
        r.tls.cert_file@ == match request.cert_file {
            Some(x) => x@,
            None => Seq::<char>::empty(),
        },
        r.tls.key_file@ == match request.key_file {
            Some(x) => x@,
            None => Seq::<char>::empty(),
        },
        r.tls.accept_invalid_certs == match request.accept_invalid_certs {
            Some(b) => b,
            None => false,
        },
{
    MasterConfig {
        target_address: request.target_address,
        port: request.port,
        common_address: match request.common_address {
            Some(c) => c,
            None => 1,
        },
        timeout_ms: match request.timeout_ms {
            Some(t) => t,
            None => 3000,
        },
        tls: TlsConfig {
            enabled: match request.use_tls {
                Some(b) => b,
                None => false,
            },
            ca_file: string_or_empty(request.ca_file),
            cert_file: string_or_empty(request.cert_file),
            key_file: string_or_empty(request.key_file),
            accept_invalid_certs: match request.accept_invalid_certs {
                Some(b) => b,
                None => false,
            },
        },
    }
}

/// The name of a connection state, as its variant is spelled.
pub open spec fn state_name(s: MasterState) -> Seq<char> {
    match s {
        MasterState::Disconnected => "Disconnected"@,
        MasterState::Connecting => "Connecting"@,
        MasterState::Connected => "Connected"@,
        MasterState::Error => "Error"@,
    }
}

impl MasterState {
    /// The name of this state, e.g. `"Connected"`.
    pub fn name(&self) -> (r: &'static str)
        ensures
            r@ == state_name(*self),
    {
        match self {
            MasterState::Disconnected => "Disconnected",
            MasterState::Connecting => "Connecting",
            MasterState::Connected => "Connected",
            MasterState::Error => "Error",
        }
    }
}

/// What the user interface shows of connection `id` with settings `config`
/// in state `state`.
pub fn connection_info(id: String, config: &MasterConfig, state: MasterState) -> (r: ConnectionInfo)
    ensures
        r.id == id,
        r.target_address@ == config.target_address@,
        r.port == config.port,
        r.common_address == config.common_address,
        r.state@ == state_name(state),
        r.use_tls == config.tls.enabled,
{
    ConnectionInfo {
        id,
        target_address: config.target_address.clone(),
        port: config.port,
        common_address: config.common_address,
        state: state.name().to_string(),
        use_tls: config.tls.enabled,
    }
}

/// The kinds of control command the user interface can send.
#[derive(Debug, Clone, Copy, PartialEq, Eq, Structural)]
pub enum ControlKind {
    Single,
    Double,
    SetpointFloat,
}

/// The control command named by a command type, if any.
pub open spec fn control_kind_of(s: Seq<char>) -> Option<ControlKind> {
    if s == "single"@ {
        Some(ControlKind::Single)
    } else if s == "double"@ {
        Some(ControlKind::Double)
    } else if s == "setpoint_float"@ {
        Some(ControlKind::SetpointFloat)
    } else {
        None
    }
}

/// The control command named by `command_type`: `single`, `double` or
/// `setpoint_float`.
pub fn control_kind(command_type: &str) -> (r: Option<ControlKind>)
    ensures
        r == control_kind_of(command_type@),
{
    if text::str_eq(command_type, "single") {
        Some(ControlKind::Single)
    } else if text::str_eq(command_type, "double") {
        Some(ControlKind::Double)
    } else if text::str_eq(command_type, "setpoint_float") {
        Some(ControlKind::SetpointFloat)
    } else {
        None
    }
}

/// The state of a single command given as text: `true`, `1` and `ON` mean
/// on; `false`, `0` and `OFF` mean off.
pub open spec fn single_value_of(s: Seq<char>) -> Option<bool> {
    if s == "true"@ || s == "1"@ || s == "ON"@ {
        Some(true)
    } else if s == "false"@ || s == "0"@ || s == "OFF"@ {
        Some(false)
    } else {
        None
    }
}

/// Reads the value of a single command; any other text is refused with
/// `invalid bool: <text>`.
pub fn parse_single_command_value(value: &str) -> (r: Result<bool, String>)
    ensures
        match single_value_of(value@) {
            Some(b) => r == Ok::<bool, String>(b),
            None => r matches Err(e) && e@ == "invalid bool: "@ + value@,
        },
{
    if text::str_eq(value, "true") || text::str_eq(value, "1") || text::str_eq(value, "ON") {
        Ok(true)
    } else if text::str_eq(value, "false") || text::str_eq(value, "0") || text::str_eq(value, "OFF") {
        Ok(false)
    } else {
        let mut e = String::new();
        e.append("invalid bool: ");
        e.append(value);
        Err(e)
    }
}

} // verus!
