//! The decisions of the WalletConnect pairing: which topic to poll, what each relay message
//! asks of the client, how a wait for approval ends, and the pairing URI.
use crate::codec::{hex_encode, hex_lower, push_char};
use crate::qubic_transactions::array32;
use crate::session::Session;
use crate::wallet_connect::{WalletConnectConfig, WalletConnectError, DEFAULT_RELAY_URL, build_relay_endpoints, relay_auth_endpoint};
use vstd::prelude::*;

verus! {

/// The value of a hexadecimal digit, either case; -1 for any other character.
pub open spec fn hex_value(c: char) -> int {
    if '0' <= c && c <= '9' {
        c as int - 48
    } else if 'a' <= c && c <= 'f' {
        c as int - 87
    } else if 'A' <= c && c <= 'F' {
        c as int - 55
    } else {
        -1
    }
}

/// Text that `hex::decode` accepts: an even number of hexadecimal digits.
pub open spec fn is_hex_text(s: Seq<char>) -> bool {
    &&& s.len() % 2 == 0
    &&& forall|i: int| 0 <= i < s.len() ==> hex_value(#[trigger] s[i]) >= 0
}

/// `v` is what the hexadecimal text `s` decodes to, two digits per byte, high nibble first.
pub open spec fn hex_decodes_to(s: Seq<char>, v: Seq<u8>) -> bool {
    &&& s.len() == 2 * v.len()
    &&& forall|i: int|
        0 <= i < v.len() ==> #[trigger] v[i] == hex_value(s[2 * i]) * 16 + hex_value(s[2 * i + 1])
}

/// The value of the digit written for `d` is `d`.
proof fn lemma_hex_digit_value(d: nat)
    requires
        d < 16,
    ensures
        hex_value(crate::codec::hex_digit(d)) == d,
{
}

/// Lowercase hexadecimal decodes back: the text that `hex_lower` writes for `v` is accepted by
/// `hex::decode`, and decodes to `v`.
pub proof fn lemma_hex_round_trip(v: Seq<u8>)
    ensures
        is_hex_text(hex_encode(v)),
        hex_decodes_to(hex_encode(v), v),
    decreases v.len(),
{
    if v.len() > 0 {
        let t = v.drop_first();
        lemma_hex_round_trip(t);
        let hi = crate::codec::hex_digit(v[0] as nat / 16);
        let lo = crate::codec::hex_digit(v[0] as nat % 16);
        lemma_hex_digit_value(v[0] as nat / 16);
        lemma_hex_digit_value(v[0] as nat % 16);
        let s = hex_encode(v);
        let st = hex_encode(t);
        assert(s =~= seq![hi, lo] + st);
        assert forall|i: int| 0 <= i < s.len() implies hex_value(#[trigger] s[i]) >= 0 by {
            if i >= 2 {
                assert(s[i] == st[i - 2]);
            }
        }
        assert(s.len() % 2 == 0);
        assert forall|i: int| 0 <= i < v.len() implies #[trigger] v[i] == hex_value(s[2 * i]) * 16
            + hex_value(s[2 * i + 1]) by {
            if i == 0 {
                assert(v[0] as nat == (v[0] as nat / 16) * 16 + v[0] as nat % 16);
            } else {
                assert(s[2 * i] == st[2 * (i - 1)]);
                assert(s[2 * i + 1] == st[2 * (i - 1) + 1]);
                assert(v[i] == t[i - 1]);
            }
        }
    }
}

/// Calls `hex::decode` (hex 0.4). Its source (`FromHex for Vec<u8>` and `val`) accepts exactly
/// an even number of digits `0-9`, `a-f`, `A-F` and turns each pair into one byte, high nibble
/// first. On failure the error's text is handed back; what that text says is not stated.
#[verifier::external_body]
pub(crate) fn hex_decode(s: &str) -> (r: Result<Vec<u8>, String>)
    ensures
        r is Ok <==> is_hex_text(s@),
        r matches Ok(v) ==> hex_decodes_to(s@, v@),
{
    hex::decode(s).map_err(|e| e.to_string())
}

/// The character of a decimal digit.
pub open spec fn digit_char(d: nat) -> char {
    (48 + d) as char
}

/// The decimal text of `n`, without leading zeros.
pub open spec fn decimal(n: nat) -> Seq<char>
    decreases n,
{
    if n < 10 {
        seq![digit_char(n)]
    } else {
        decimal(n / 10).push(digit_char(n % 10))
    }
}

/// The decimal text of a signed number, with a leading `-` when it is negative.
pub open spec fn signed_decimal(n: int) -> Seq<char> {
    if n < 0 {
        seq!['-'] + decimal((-n) as nat)
    } else {
        decimal(n as nat)
    }
}

fn digit(d: u64) -> (r: char)
    requires
        d < 10,
    ensures
        r == digit_char(d as nat),
{
    match d {
        0 => '0',
        1 => '1',
        2 => '2',
        3 => '3',
        4 => '4',
        5 => '5',
        6 => '6',
        7 => '7',
        8 => '8',
        _ => '9',
    }
}

/// Appends the decimal text of `n` to `s`.
fn push_decimal(s: &mut String, n: u64)
    ensures
        final(s)@ == old(s)@ + decimal(n as nat),
    decreases n,
{
    if n < 10 {
        push_char(s, digit(n));
    } else {
        push_decimal(s, n / 10);
        push_char(s, digit(n % 10));
    }
}

/// Appends the decimal text of a signed `n` to `s`.
fn push_signed_decimal(s: &mut String, n: i64)
    ensures
        final(s)@ == old(s)@ + signed_decimal(n as int),
{
    if n < 0 {
        push_char(s, '-');
        let m: u64 = if n == i64::MIN {
            9223372036854775808u64
        } else {
            (-n) as u64
        };
        push_decimal(s, m);
    } else {
        push_decimal(s, n as u64);
    }
}

/// The pairing URI that a wallet scans: `wc:<topic>@2?expiryTimestamp=<expiry>&relay-protocol=irn&symKey=<key>`.
pub open spec fn pairing_uri_text(topic: Seq<char>, expiry: nat, sym_key: Seq<u8>) -> Seq<char> {
    "wc:"@ + topic + "@2?expiryTimestamp="@ + decimal(expiry) + "&relay-protocol=irn&symKey="@
        + hex_encode(sym_key)
}

/// Builds the pairing URI for a topic, a proposal expiry and the symmetric key.
pub fn pairing_uri(topic: &str, expiry_timestamp: u64, sym_key: &[u8; 32]) -> (r: String)
    ensures
        r@ == pairing_uri_text(topic@, expiry_timestamp as nat, sym_key@),
{
    let mut s = String::from_str("wc:");
    s.append(topic);
    s.append("@2?expiryTimestamp=");
    push_decimal(&mut s, expiry_timestamp);
    s.append("&relay-protocol=irn&symKey=");
    let key = hex_lower(sym_key);
    s.append(key.as_str());
    proof {
        reveal_strlit("wc:");
        reveal_strlit("@2?expiryTimestamp=");
        reveal_strlit("&relay-protocol=irn&symKey=");
    }
    s
}

/// Seconds for which a session proposal stays valid.
pub const PROPOSAL_TTL_SECS: u64 = 300;

/// The expiry of a proposal made at Unix time `now`.
pub fn proposal_expiry(now: u64) -> (r: u64)
    requires
        now + PROPOSAL_TTL_SECS <= u64::MAX,
    ensures
        r == now + PROPOSAL_TTL_SECS,
{
    now + PROPOSAL_TTL_SECS
}

/// The relay that a configuration names, or the default relay.
pub open spec fn relay_base(config: WalletConnectConfig) -> Seq<char> {
    match config.relay_url {
        Some(u) => u@,
        None => DEFAULT_RELAY_URL@,
    }
}

/// The relay RPC and authentication endpoints for a configuration.
pub fn connection_endpoints(config: &WalletConnectConfig) -> (r: (String, String))
    ensures
        r.1@ == relay_auth_endpoint(relay_base(*config)),
        r.0@ == relay_auth_endpoint(relay_base(*config)) + "/rpc"@,
{
    match &config.relay_url {
        Some(u) => build_relay_endpoints(u.as_str()),
        None => build_relay_endpoints(DEFAULT_RELAY_URL),
    }
}

/// Checks that a configuration can start a client: its project id must not be empty.
pub fn check_config(config: &WalletConnectConfig) -> (r: Result<(), WalletConnectError>)
    ensures
        r is Ok <==> config.project_id@.len() > 0,
        r matches Err(e) ==> e matches WalletConnectError::Other(m) && m@ == "Project ID is required"@,
{
    if config.project_id.unicode_len() == 0 {
        Err(WalletConnectError::Other(String::from_str("Project ID is required")))
    } else {
        Ok(())
    }
}

/// The pairing topic, or the topic derived once the wallet answered the proposal.
#[derive(Debug, Clone, Copy, PartialEq, Eq, Structural)]
pub enum TopicKind {
    Initial,
    Derived,
}

/// What the listener knows of the pairing.
#[derive(Debug, Clone)]
pub struct RelayState {
    pub topic: String,
    pub sym_key: [u8; 32],
    pub derived_sym_key: Option<[u8; 32]>,
    pub derived_topic: Option<String>,
    pub session_established: bool,
}

/// The topic to poll for `kind`, with its symmetric key, if there is one.
pub open spec fn poll_target(state: RelayState, kind: TopicKind) -> Option<(Seq<char>, [u8; 32])> {
    match kind {
        TopicKind::Initial => Some((state.topic@, state.sym_key)),
        TopicKind::Derived => match (state.derived_sym_key, state.derived_topic) {
            (Some(k), Some(t)) => Some((t@, k)),
            _ => None,
        },
    }
}

/// The topic to poll for `kind` and the key that decrypts its messages; `None` when the
/// derived topic is not known yet.
pub fn topic_to_poll(state: &RelayState, kind: TopicKind) -> (r: Option<(String, [u8; 32])>)
    ensures
        r is Some <==> poll_target(*state, kind) is Some,
        r matches Some(p) ==> poll_target(*state, kind) == Some((p.0@, p.1)),
{
    match kind {
        TopicKind::Initial => Some((state.topic.clone(), state.sym_key)),
        TopicKind::Derived => match (&state.derived_sym_key, &state.derived_topic) {
            (Some(k), Some(t)) => Some((t.clone(), *k)),
            _ => None,
        },
    }
}

/// The topic that the session lives on: the derived topic when there is one.
pub open spec fn session_topic(state: RelayState) -> Seq<char> {
    match state.derived_topic {
        Some(t) => t@,
        None => state.topic@,
    }
}

fn session_topic_of(state: &RelayState) -> (r: String)
    ensures
        r@ == session_topic(*state),
{
    match &state.derived_topic {
        Some(t) => t.clone(),
        None => state.topic.clone(),
    }
}

/// A decrypted message that the wallet sent over the relay.
#[derive(Debug, Clone)]
pub enum RelayMessage {
    /// The wallet answers the session proposal with its public key in hexadecimal.
    SessionProposeResponse { responder_public_key: String },
    /// The wallet settles the session.
    SessionSettle {
        expiry: u64,
        controller_public_key: String,
        namespaces: serde_json::Value,
        relay_protocol: String,
    },
    SessionSettleResult(bool),
    SessionRequest(serde_json::Value),
    SessionDelete(serde_json::Value),
    Error { code: i64, message: String },
    Other,
}

/// What the client does with a relay message.
#[derive(Debug)]
pub enum RelayAction {
    /// Nothing.
    Ignore,
    /// Derive the shared key with the wallet's public key, subscribe to the derived topic and
    /// record it.
    SubscribeDerived { responder_public_key: [u8; 32] },
    /// Store the session, mark it established, report the approval, announce the update and
    /// acknowledge the settlement on the session topic.
    EstablishSession { session: Session },
    /// Hand a wallet request on to the event handler.
    ForwardRequest { topic: String, request: serde_json::Value },
    /// Report the rejection and announce the deletion.
    DeleteSession { payload: serde_json::Value },
    /// Report the rejection and fail with `error`.
    Reject { error: WalletConnectError },
}

/// The failure text of a wallet error.
pub open spec fn wallet_error_text(code: int, message: Seq<char>) -> Seq<char> {
    "Wallet error (code "@ + signed_decimal(code) + "): "@ + message
}

/// What the client does with `msg`, received on the topic of `kind`.
pub open spec fn relay_decision(state: RelayState, kind: TopicKind, msg: RelayMessage) -> spec_fn(Result<RelayAction, WalletConnectError>) -> bool {
    |r: Result<RelayAction, WalletConnectError>| match msg {
        RelayMessage::SessionProposeResponse { responder_public_key } => {
            if kind != TopicKind::Initial || state.derived_topic is Some {
                r matches Ok(RelayAction::Ignore)
            } else if !is_hex_text(responder_public_key@) {
                r matches Err(WalletConnectError::Other(m)) && m@.len() >= 30 && m@.subrange(0, 30) == "Invalid responder public key: "@
            } else if responder_public_key@.len() != 64 {
                r matches Err(WalletConnectError::Other(m)) && m@ == "Responder public key must contain 32 bytes"@
            } else {
                r matches Ok(RelayAction::SubscribeDerived { responder_public_key: k })
                    && hex_decodes_to(responder_public_key@, k@)
            }
        },
        RelayMessage::SessionSettle { expiry, controller_public_key, namespaces, relay_protocol } => {
            if kind != TopicKind::Derived {
                r matches Ok(RelayAction::Ignore)
            } else {
                r matches Ok(RelayAction::EstablishSession { session: s }) && s.topic@ == session_topic(state)
                    && s.expiry == expiry && s.acknowledged && s.controller@ == controller_public_key@
                    && s.namespaces == namespaces && s.relay_protocol@ == relay_protocol@
            }
        },
        RelayMessage::SessionRequest(request) => {
            r matches Ok(RelayAction::ForwardRequest { topic: t, request: q }) && q == request
                && t@ == (if kind == TopicKind::Derived { session_topic(state) } else { state.topic@ })
        },
        RelayMessage::SessionDelete(payload) => {
            r matches Ok(RelayAction::DeleteSession { payload: p }) && p == payload
        },
        RelayMessage::Error { code, message } => {
            r matches Ok(RelayAction::Reject { error: WalletConnectError::ConnectionFailed(m) })
                && m@ == wallet_error_text(code as int, message@)
        },
        RelayMessage::SessionSettleResult(_) => r matches Ok(RelayAction::Ignore),
        RelayMessage::Other => r matches Ok(RelayAction::Ignore),
    }
}

/// Decides what the client does with a decrypted relay message received on the topic of
/// `kind`: a proposal answer on the pairing topic yields the wallet's key (once), a settlement
/// on the derived topic yields the session, requests and deletions are passed on, a wallet
/// error rejects the connection, and everything else is ignored.
pub fn handle_relay_message(state: &RelayState, kind: TopicKind, msg: RelayMessage) -> (r: Result<RelayAction, WalletConnectError>)
    ensures
        (relay_decision(*state, kind, msg))(r),
{
    match msg {
        RelayMessage::SessionProposeResponse { responder_public_key } => {
            if kind != TopicKind::Initial || state.derived_topic.is_some() {
                return Ok(RelayAction::Ignore);
            }
            match hex_decode(responder_public_key.as_str()) {
                Err(e) => {
                    let mut m = String::from_str("Invalid responder public key: ");
                    m.append(e.as_str());
                    proof {
                        reveal_strlit("Invalid responder public key: ");
                        assert(m@.subrange(0, 30) =~= "Invalid responder public key: "@);
                    }
                    Err(WalletConnectError::Other(m))
                },
                Ok(v) => {
                    if v.len() != 32 {
                        Err(WalletConnectError::Other(String::from_str("Responder public key must contain 32 bytes")))
                    } else {
                        let k = array32(v.as_slice());
                        Ok(RelayAction::SubscribeDerived { responder_public_key: k })
                    }
                },
            }
        },
        RelayMessage::SessionSettle { expiry, controller_public_key, namespaces, relay_protocol } => {
            if kind != TopicKind::Derived {
                return Ok(RelayAction::Ignore);
            }
            let session = Session {
                topic: session_topic_of(state),
                expiry,
                acknowledged: true,
                controller: controller_public_key,
                namespaces,
                relay_protocol,
            };
            Ok(RelayAction::EstablishSession { session })
        },
        RelayMessage::SessionRequest(request) => {
            let topic = if kind == TopicKind::Derived {
                session_topic_of(state)
            } else {
                state.topic.clone()
            };
            Ok(RelayAction::ForwardRequest { topic, request })
        },
        RelayMessage::SessionDelete(payload) => Ok(RelayAction::DeleteSession { payload }),
        RelayMessage::Error { code, message } => {
            let mut m = String::from_str("Wallet error (code ");
            push_signed_decimal(&mut m, code);
            m.append("): ");
            m.append(message.as_str());
            proof {
                reveal_strlit("Wallet error (code ");
                reveal_strlit("): ");
            }
            Ok(RelayAction::Reject { error: WalletConnectError::ConnectionFailed(m) })
        },
        RelayMessage::SessionSettleResult(_) => Ok(RelayAction::Ignore),
        RelayMessage::Other => Ok(RelayAction::Ignore),
    }
}

/// The state once the derived topic and its key are known.
pub fn with_derived_topic(state: RelayState, derived_sym_key: [u8; 32], derived_topic: String) -> (r: RelayState)
    ensures
        r.topic == state.topic,
        r.sym_key == state.sym_key,
        r.derived_sym_key == Some(derived_sym_key),
        r.derived_topic == Some(derived_topic),
        r.session_established == state.session_established,
{
    RelayState { derived_sym_key: Some(derived_sym_key), derived_topic: Some(derived_topic), ..state }
}

/// The state once the session is established.
pub fn with_session_established(state: RelayState) -> (r: RelayState)
    ensures
        r == (RelayState { session_established: true, ..state }),
{
    RelayState { session_established: true, ..state }
}

/// How a wait for the wallet's approval ended.
#[derive(Debug, Clone, Copy, PartialEq, Eq, Structural)]
pub enum ApprovalOutcome {
    /// No connection was pending.
    NoPendingConnection,
    /// The listener reported the wallet's answer.
    Answered(bool),
    /// The listener went away without an answer.
    ChannelClosed,
    /// The time ran out.
    TimedOut,
}

/// The result of waiting for approval: the wallet's answer, `Ok(true)` when it approved and
/// `Ok(false)` when it rejected; an error for a timeout, a closed channel or a wait with
/// nothing pending.
pub fn approval_result(outcome: ApprovalOutcome) -> (r: Result<bool, WalletConnectError>)
    ensures
        r is Ok <==> outcome is Answered,
        outcome matches ApprovalOutcome::Answered(b) ==> r == Ok::<bool, WalletConnectError>(b),
        outcome == ApprovalOutcome::ChannelClosed ==> (r matches Err(WalletConnectError::Other(m)) && m@ == "Connection channel closed"@),
        outcome == ApprovalOutcome::TimedOut ==> (r matches Err(WalletConnectError::Timeout)),
        outcome == ApprovalOutcome::NoPendingConnection ==> (r matches Err(WalletConnectError::Other(m)) && m@ == "No pending connection (did you call connect() first?)"@),
{
    match outcome {
        ApprovalOutcome::NoPendingConnection => Err(WalletConnectError::Other(String::from_str("No pending connection (did you call connect() first?)"))),
        ApprovalOutcome::Answered(b) => Ok(b),
        ApprovalOutcome::ChannelClosed => Err(WalletConnectError::Other(String::from_str("Connection channel closed"))),
        ApprovalOutcome::TimedOut => Err(WalletConnectError::Timeout),
    }
}

/// Seconds for which a simulated session stays valid.
pub const SIMULATED_SESSION_SECS: u64 = 86400;

/// The session that a simulated approval stores: on the pairing topic, acknowledged, with
/// controller `wallet`, relay protocol `irn` and the namespaces given, valid for a day from `now`.
pub fn simulated_session(pairing_topic: String, now: u64, namespaces: serde_json::Value) -> (r: Session)
    requires
        now + SIMULATED_SESSION_SECS <= u64::MAX,
    ensures
        r.topic == pairing_topic,
        r.expiry == now + SIMULATED_SESSION_SECS,
        r.acknowledged,
        r.controller@ == "wallet"@,
        r.namespaces == namespaces,
        r.relay_protocol@ == "irn"@,
{
    Session {
        topic: pairing_topic,
        expiry: now + SIMULATED_SESSION_SECS,
        acknowledged: true,
        controller: String::from_str("wallet"),
        namespaces,
        relay_protocol: String::from_str("irn"),
    }
}

/// What a WalletConnect client keeps between calls: whether it was initialized, the
/// established session, the pairing URI it handed out and the pairing topic.
#[derive(Debug)]
pub struct ClientState {
    pub initialized: bool,
    pub session: Option<Session>,
    pub connection_url: String,
    pub pairing_topic: String,
}

/// A copy of an optional session.
fn clone_session(s: &Option<Session>) -> (r: Option<Session>)
    ensures
        r == *s,
{
    match s {
        Some(x) => Some(x.clone()),
        None => None,
    }
}

/// Whether a session is there and active at Unix time `now`.
pub open spec fn session_active_at(session: Option<Session>, now: u64) -> bool {
    match session {
        Some(s) => s.active_at(now),
        None => false,
    }
}

impl ClientState {
    /// A client that is not initialized, without session, URI or pairing topic.
    pub fn new() -> (r: Self)
        ensures
            !r.initialized,
            r.session is None,
            r.connection_url@.len() == 0,
            r.pairing_topic@.len() == 0,
    {
        ClientState {
            initialized: false,
            session: None,
            connection_url: String::new(),
            pairing_topic: String::new(),
        }
    }

    /// Initializes the client: refused with `Other("Project ID is required")` when the
    /// configuration has no project id, otherwise marked initialized.
    pub fn init(self, config: &WalletConnectConfig) -> (r: Result<Self, WalletConnectError>)
        ensures
            r is Ok <==> config.project_id@.len() > 0,
            r matches Ok(t) ==> t == (ClientState { initialized: true, ..self }),
            r matches Err(e) ==> e matches WalletConnectError::Other(m) && m@ == "Project ID is required"@,
    {
        match check_config(config) {
            Ok(()) => Ok(ClientState { initialized: true, ..self }),
            Err(e) => Err(e),
        }
    }

    /// The current session.
    pub fn get_session(&self) -> (r: Option<Session>)
        ensures
            r == self.session,
    {
        clone_session(&self.session)
    }

    /// Records the session established with the wallet.
    pub fn set_session(&mut self, session: Session)
        ensures
            final(self).session == Some(session),
            final(self).initialized == old(self).initialized,
            final(self).connection_url == old(self).connection_url,
            final(self).pairing_topic == old(self).pairing_topic,
    {
        self.session = Some(session);
    }

    /// Forgets the session.
    pub fn clear_session(&mut self)
        ensures
            final(self).session is None,
            final(self).initialized == old(self).initialized,
            final(self).connection_url == old(self).connection_url,
            final(self).pairing_topic == old(self).pairing_topic,
    {
        self.session = None;
    }

    /// The pairing URI handed out last; empty when there is none.
    pub fn get_connection_url(&self) -> (r: String)
        ensures
            r == self.connection_url,
    {
        self.connection_url.clone()
    }

    /// Whether there is a session, acknowledged and unexpired at Unix time `now`.
    pub fn is_session_active_at(&self, now: u64) -> (r: bool)
        ensures
            r == session_active_at(self.session, now),
    {
        match &self.session {
            Some(s) => s.is_active_at(now),
            None => false,
        }
    }

    /// Whether there is a session, acknowledged and unexpired now, by the system clock.
    pub fn is_session_active(&self) -> (r: bool)
        ensures
            exists|now: u64| r == session_active_at(self.session, now),
            r ==> self.session is Some,
    {
        let now = crate::session::now_secs();
        self.is_session_active_at(now)
    }

    /// Disconnects: forgets the session and the pairing URI, and gives back the topic of the
    /// session that was there, which the client announces as deleted.
    pub fn disconnect(&mut self) -> (r: Option<String>)
        ensures
            r == (match old(self).session {
                Some(s) => Some(s.topic),
                None => None::<String>,
            }),
            final(self).session is None,
            final(self).connection_url@.len() == 0,
            final(self).initialized == old(self).initialized,
            final(self).pairing_topic == old(self).pairing_topic,
    {
        let topic = match &self.session {
            Some(s) => Some(s.topic.clone()),
            None => None,
        };
        self.session = None;
        self.connection_url = String::new();
        topic
    }
}

/// The first step of connecting: refused with `NotInitialized` before `init`; otherwise the
/// previous pairing is cleaned up, so that the session, the pairing URI and the pairing topic
/// are all cleared before a new pairing is made.
pub fn begin_connect(s: ClientState) -> (r: Result<ClientState, WalletConnectError>)
    ensures
        !s.initialized <==> r matches Err(WalletConnectError::NotInitialized),
        r is Ok <==> s.initialized,
        r matches Ok(t) ==> t.initialized && t.session is None && t.connection_url@.len() == 0
            && t.pairing_topic@.len() == 0,
{
    if !s.initialized {
        return Err(WalletConnectError::NotInitialized);
    }
    Ok(ClientState {
        initialized: true,
        session: None,
        connection_url: String::new(),
        pairing_topic: String::new(),
    })
}

/// The last step of connecting: records the new pairing topic and the URI handed out.
pub fn finish_connect(s: ClientState, topic: String, uri: String) -> (r: ClientState)
    ensures
        r.connection_url == uri,
        r.pairing_topic == topic,
        r.session == s.session,
        r.initialized == s.initialized,
{
    ClientState { connection_url: uri, pairing_topic: topic, ..s }
}

/// A simulated wallet answer: refused with `Other("No pending connection to simulate")` when
/// no connection is pending; an approval stores the simulated session on the pairing topic,
/// valid for a day from `now`; a rejection changes nothing.
pub fn simulate_answer(
    s: ClientState,
    pending: bool,
    success: bool,
    now: u64,
    namespaces: serde_json::Value,
) -> (r: Result<ClientState, WalletConnectError>)
    requires
        now + SIMULATED_SESSION_SECS <= u64::MAX,
    ensures
        r is Ok <==> pending,
        !pending ==> (r matches Err(WalletConnectError::Other(m)) && m@ == "No pending connection to simulate"@),
        r matches Ok(t) ==> t.initialized == s.initialized && t.connection_url == s.connection_url
            && t.pairing_topic == s.pairing_topic && (if success {
                t.session matches Some(x) && x.topic == s.pairing_topic && x.expiry == now
                    + SIMULATED_SESSION_SECS && x.acknowledged && x.controller@ == "wallet"@
                    && x.namespaces == namespaces && x.relay_protocol@ == "irn"@
            } else {
                t.session == s.session
            }),
{
    if !pending {
        return Err(WalletConnectError::Other(String::from_str("No pending connection to simulate")));
    }
    if success {
        let topic = s.pairing_topic.clone();
        let session = simulated_session(topic, now, namespaces);
        Ok(ClientState { session: Some(session), ..s })
    } else {
        Ok(s)
    }
}

} // verus!
