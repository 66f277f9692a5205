//! The Qubic WalletConnect namespace, its configuration and relay endpoints.
use crate::rpc::trim_end_char;
use vstd::prelude::*;

verus! {

/// The WalletConnect namespace of Qubic.
pub const QUBIC_NAMESPACE: &'static str = "qubic";

/// The relay used when the configuration names none.
pub const DEFAULT_RELAY_URL: &'static str = "wss://relay.walletconnect.org";

/// WalletConnect connection status.
#[derive(Debug, Clone, Copy, PartialEq, Eq)]
pub enum WalletConnectionStatus {
    Idle,
    Connecting,
    RequestingAccounts,
    Connected,
    ProposalExpired,
    UserRejectedConnection,
    Error,
}

/// Metadata that the dapp presents to the wallet.
#[derive(Debug, Clone)]
pub struct ClientMetadata {
    pub name: String,
    pub description: String,
    pub url: String,
    pub icons: Vec<String>,
}

impl Default for ClientMetadata {
    fn default() -> (r: Self)
        ensures
            r.name@ == "RandomLottery"@,
            r.description@ == "Lottery"@,
            r.url@ == "https://qubicrl.org"@,
            r.icons@.len() == 1,
            r.icons@[0]@ == "https://qx.qubic.org/assets/icons/favicon.ico"@,
    {
        let mut icons: Vec<String> = Vec::new();
        icons.push(String::from_str("https://qx.qubic.org/assets/icons/favicon.ico"));
        ClientMetadata {
            name: String::from_str("RandomLottery"),
            description: String::from_str("Lottery"),
            url: String::from_str("https://qubicrl.org"),
            icons,
        }
    }
}

/// Configuration of a WalletConnect client.
#[derive(Debug, Clone)]
pub struct WalletConnectConfig {
    pub project_id: String,
    pub qubic_chain_id: String,
    pub metadata: ClientMetadata,
    pub relay_url: Option<String>,
}

impl WalletConnectConfig {
    /// A configuration with the default metadata and relay.
    pub fn new(project_id: String, qubic_chain_id: String) -> (r: Self)
        ensures
            r.project_id == project_id,
            r.qubic_chain_id == qubic_chain_id,
            r.metadata.name@ == "RandomLottery"@,
            r.metadata.description@ == "Lottery"@,
            r.metadata.url@ == "https://qubicrl.org"@,
            r.metadata.icons@.len() == 1,
            r.metadata.icons@[0]@ == "https://qx.qubic.org/assets/icons/favicon.ico"@,
            r.relay_url matches Some(u) && u@ == DEFAULT_RELAY_URL@,
    {
        WalletConnectConfig {
            project_id,
            qubic_chain_id,
            metadata: ClientMetadata::default(),
            relay_url: Some(String::from_str(DEFAULT_RELAY_URL)),
        }
    }

    pub fn with_metadata(self, metadata: ClientMetadata) -> (r: Self)
        ensures
            r == (WalletConnectConfig { metadata, ..self }),
    {
        WalletConnectConfig { metadata, ..self }
    }

    pub fn with_relay_url(self, url: String) -> (r: Self)
        ensures
            r == (WalletConnectConfig { relay_url: Some(url), ..self }),
    {
        WalletConnectConfig { relay_url: Some(url), ..self }
    }
}

/// Transaction parameters sent to the wallet.
#[derive(Debug, Clone)]
pub struct QubicTransactionParams {
    pub from: String,
    pub to: String,
    pub amount: u64,
    pub tick: Option<u64>,
    pub input_type: Option<u16>,
    pub payload: Option<String>,
}

/// The answer of a signing request.
#[derive(Debug, Clone)]
pub struct SignatureResponse {
    pub signature: String,
    pub signed_transaction: Option<String>,
}

/// Errors of WalletConnect operations.
#[derive(Debug)]
pub enum WalletConnectError {
    NotInitialized,
    NoActiveSession,
    ConnectionFailed(String),
    ProposalExpired,
    UserRejected,
    InvalidChainId,
    RequestFailed(String),
    SerializationError(String),
    RelayError(String),
    SessionExpired,
    InvalidResponse(String),
    Timeout,
    Other(String),
}

/// WalletConnect event types.
#[derive(Debug, Clone, PartialEq, Eq)]
pub enum WalletConnectEvent {
    SessionProposal,
    SessionRequest,
    SessionDelete,
    SessionExpire,
    ProposalExpire,
    SessionEvent,
    SessionUpdate,
    SessionExtend,
    SessionPing,
}

impl WalletConnectEvent {
    /// The protocol name of the event.
    pub fn as_str(&self) -> (r: &'static str)
        ensures
            r@ == (match self {
                WalletConnectEvent::SessionProposal => "session_proposal"@,
                WalletConnectEvent::SessionRequest => "session_request"@,
                WalletConnectEvent::SessionDelete => "session_delete"@,
                WalletConnectEvent::SessionExpire => "session_expire"@,
                WalletConnectEvent::ProposalExpire => "proposal_expire"@,
                WalletConnectEvent::SessionEvent => "session_event"@,
                WalletConnectEvent::SessionUpdate => "session_update"@,
                WalletConnectEvent::SessionExtend => "session_extend"@,
                WalletConnectEvent::SessionPing => "session_ping"@,
            }),
    {
        match self {
            WalletConnectEvent::SessionProposal => "session_proposal",
            WalletConnectEvent::SessionRequest => "session_request",
            WalletConnectEvent::SessionDelete => "session_delete",
            WalletConnectEvent::SessionExpire => "session_expire",
            WalletConnectEvent::ProposalExpire => "proposal_expire",
            WalletConnectEvent::SessionEvent => "session_event",
            WalletConnectEvent::SessionUpdate => "session_update",
            WalletConnectEvent::SessionExtend => "session_extend",
            WalletConnectEvent::SessionPing => "session_ping",
        }
    }
}

/// Qubic WalletConnect methods.
#[derive(Debug, Clone, Copy, PartialEq, Eq)]
pub enum QubicMethod {
    RequestAccounts,
    SendQubic,
    SignTransaction,
    SendTransaction,
    Sign,
}

/// The protocol name of a method.
pub open spec fn method_name(m: QubicMethod) -> Seq<char> {
    match m {
        QubicMethod::RequestAccounts => "qubic_requestAccounts"@,
        QubicMethod::SendQubic => "qubic_sendQubic"@,
        QubicMethod::SignTransaction => "qubic_signTransaction"@,
        QubicMethod::SendTransaction => "qubic_sendTransaction"@,
        QubicMethod::Sign => "qubic_sign"@,
    }
}

/// The protocol names of all methods, in declaration order.
pub open spec fn all_method_names() -> Seq<Seq<char>> {
    seq![
        method_name(QubicMethod::RequestAccounts),
        method_name(QubicMethod::SendQubic),
        method_name(QubicMethod::SignTransaction),
        method_name(QubicMethod::SendTransaction),
        method_name(QubicMethod::Sign),
    ]
}

impl QubicMethod {
    /// The protocol name of the method.
    pub fn as_str(&self) -> (r: &'static str)
        ensures
            r@ == method_name(*self),
    {
        match self {
            QubicMethod::RequestAccounts => "qubic_requestAccounts",
            QubicMethod::SendQubic => "qubic_sendQubic",
            QubicMethod::SignTransaction => "qubic_signTransaction",
            QubicMethod::SendTransaction => "qubic_sendTransaction",
            QubicMethod::Sign => "qubic_sign",
        }
    }

    /// The protocol names of all methods.
    pub fn all_methods() -> (r: Vec<&'static str>)
        ensures
            r@.len() == 5,
            forall|i: int| 0 <= i < 5 ==> (#[trigger] r@[i])@ == all_method_names()[i],
    {
        let mut v: Vec<&'static str> = Vec::new();
        v.push(QubicMethod::RequestAccounts.as_str());
        v.push(QubicMethod::SendQubic.as_str());
        v.push(QubicMethod::SignTransaction.as_str());
        v.push(QubicMethod::SendTransaction.as_str());
        v.push(QubicMethod::Sign.as_str());
        v
    }
}

/// Qubic wallet events.
#[derive(Debug, Clone, Copy, PartialEq, Eq)]
pub enum QubicEvent {
    AmountChanged,
    AssetAmountChanged,
    AccountsChanged,
}

/// The protocol name of an event.
pub open spec fn event_name(e: QubicEvent) -> Seq<char> {
    match e {
        QubicEvent::AmountChanged => "amountChanged"@,
        QubicEvent::AssetAmountChanged => "assetAmountChanged"@,
        QubicEvent::AccountsChanged => "accountsChanged"@,
    }
}

/// The protocol names of all events, in declaration order.
pub open spec fn all_event_names() -> Seq<Seq<char>> {
    seq![
        event_name(QubicEvent::AmountChanged),
        event_name(QubicEvent::AssetAmountChanged),
        event_name(QubicEvent::AccountsChanged),
    ]
}

impl QubicEvent {
    /// The protocol name of the event.
    pub fn as_str(&self) -> (r: &'static str)
        ensures
            r@ == event_name(*self),
    {
        match self {
            QubicEvent::AmountChanged => "amountChanged",
            QubicEvent::AssetAmountChanged => "assetAmountChanged",
            QubicEvent::AccountsChanged => "accountsChanged",
        }
    }

    /// The protocol names of all events.
    pub fn all_events() -> (r: Vec<&'static str>)
        ensures
            r@.len() == 3,
            forall|i: int| 0 <= i < 3 ==> (#[trigger] r@[i])@ == all_event_names()[i],
    {
        let mut v: Vec<&'static str> = Vec::new();
        v.push(QubicEvent::AmountChanged.as_str());
        v.push(QubicEvent::AssetAmountChanged.as_str());
        v.push(QubicEvent::AccountsChanged.as_str());
        v
    }
}

/// The Qubic namespace that a session proposal asks for.
#[derive(Debug, Clone)]
pub struct QubicNamespace {
    pub chains: Vec<String>,
    pub methods: Vec<String>,
    pub events: Vec<String>,
}

/// Owned copies of the strings of `v`.
fn to_owned_all(v: &Vec<&'static str>) -> (r: Vec<String>)
    ensures
        r@.len() == v@.len(),
        forall|i: int| 0 <= i < v@.len() ==> (#[trigger] r@[i])@ == v@[i]@,
{
    let mut out: Vec<String> = Vec::new();
    let mut i: usize = 0;
    while i < v.len()
        invariant
            i <= v@.len(),
            out@.len() == i,
            forall|j: int| 0 <= j < i ==> (#[trigger] out@[j])@ == v@[j]@,
        decreases v@.len() - i,
    {
        out.push(String::from_str(v[i]));
        i = i + 1;
    }
    out
}

impl QubicNamespace {
    /// The namespace of one chain with every Qubic method and event.
    pub fn new(chain_id: String) -> (r: Self)
        ensures
            r.chains@ == seq![chain_id],
            r.methods@.len() == 5,
            forall|i: int| 0 <= i < 5 ==> (#[trigger] r.methods@[i])@ == all_method_names()[i],
            r.events@.len() == 3,
            forall|i: int| 0 <= i < 3 ==> (#[trigger] r.events@[i])@ == all_event_names()[i],
    {
        let mut chains: Vec<String> = Vec::new();
        chains.push(chain_id);
        let methods = to_owned_all(&QubicMethod::all_methods());
        let events = to_owned_all(&QubicEvent::all_events());
        QubicNamespace { chains, methods, events }
    }
}

/// `c` is white space in the sense of the Unicode `White_Space` property, which is what
/// `char::is_whitespace` and `str::trim` use.
pub open spec fn is_white_space(c: char) -> bool {
    let n = c as u32;
    ||| 9 <= n <= 13
    ||| n == 32
    ||| n == 0x85
    ||| n == 0xA0
    ||| n == 0x1680
    ||| 0x2000 <= n <= 0x200A
    ||| n == 0x2028
    ||| n == 0x2029
    ||| n == 0x202F
    ||| n == 0x205F
    ||| n == 0x3000
}

fn white_space(c: char) -> (r: bool)
    ensures
        r == is_white_space(c),
{
    let n = c as u32;
    (9 <= n && n <= 13) || n == 32 || n == 0x85 || n == 0xA0 || n == 0x1680 || (0x2000 <= n && n
        <= 0x200A) || n == 0x2028 || n == 0x2029 || n == 0x202F || n == 0x205F || n == 0x3000
}

/// `s` without leading and trailing white space.
pub open spec fn trim_white(s: Seq<char>) -> Seq<char> {
    s.subrange(lead_white(s) as int, (s.len() - trail_white(s)) as int)
}

/// The number of leading white-space characters of `s`, counting at most all of them.
pub open spec fn lead_white(s: Seq<char>) -> nat
    decreases s.len(),
{
    if s.len() > 0 && is_white_space(s[0]) {
        1 + lead_white(s.drop_first())
    } else {
        0
    }
}

/// The number of trailing white-space characters of `s` that are not leading ones.
pub open spec fn trail_white(s: Seq<char>) -> nat
    decreases s.len(),
{
    if s.len() > lead_white(s) && is_white_space(s.last()) {
        1 + trail_white(s.drop_last())
    } else {
        0
    }
}

/// `s` starts with `p`.
pub open spec fn has_prefix(s: Seq<char>, p: Seq<char>) -> bool {
    p.len() <= s.len() && s.subrange(0, p.len() as int) == p
}

/// `s` without every leading repetition of `p`.
pub open spec fn strip_prefixes(s: Seq<char>, p: Seq<char>) -> Seq<char>
    decreases s.len(),
{
    if p.len() > 0 && has_prefix(s, p) {
        strip_prefixes(s.subrange(p.len() as int, s.len() as int), p)
    } else {
        s
    }
}

/// The relay URL with an HTTP scheme: `wss://` becomes `https://`, `ws://` becomes `http://`,
/// an HTTP(S) URL stays, and anything else gets `https://` in front of it, after any leading
/// `://` are dropped.
pub open spec fn http_relay_base(t: Seq<char>) -> Seq<char> {
    if has_prefix(t, "wss://"@) {
        "https://"@ + t.subrange(6, t.len() as int)
    } else if has_prefix(t, "ws://"@) {
        "http://"@ + t.subrange(5, t.len() as int)
    } else if has_prefix(t, "https://"@) || has_prefix(t, "http://"@) {
        t
    } else {
        "https://"@ + strip_prefixes(t, "://"@)
    }
}

/// The authentication endpoint of a relay: its HTTP base without trailing `/`.
pub open spec fn relay_auth_endpoint(url: Seq<char>) -> Seq<char> {
    trim_end_char(http_relay_base(trim_white(url)), '/')
}

/// Whether `s` starts with `p`, comparing character by character.
fn starts_with_str(s: &str, p: &str) -> (r: bool)
    ensures
        r == has_prefix(s@, p@),
{
    let n = s.unicode_len();
    let m = p.unicode_len();
    if m > n {
        return false;
    }
    let mut i: usize = 0;
    while i < m
        invariant
            i <= m,
            m <= n,
            n == s@.len(),
            m == p@.len(),
            forall|j: int| 0 <= j < i ==> s@[j] == p@[j],
        decreases m - i,
    {
        if s.get_char(i) != p.get_char(i) {
            assert(s@.subrange(0, m as int)[i as int] != p@[i as int]);
            return false;
        }
        i = i + 1;
    }
    assert(s@.subrange(0, m as int) =~= p@);
    true
}

/// The position after every leading repetition of `p` in `s`.
fn strip_prefixes_pos(s: &str, p: &str) -> (r: usize)
    requires
        p@.len() > 0,
    ensures
        r <= s@.len(),
        s@.subrange(r as int, s@.len() as int) == strip_prefixes(s@, p@),
{
    let n = s.unicode_len();
    let m = p.unicode_len();
    let mut pos: usize = 0;
    assert(s@.subrange(0, n as int) =~= s@);
    loop
        invariant
            pos <= n,
            n == s@.len(),
            m == p@.len(),
            m > 0,
            strip_prefixes(s@.subrange(pos as int, n as int), p@) == strip_prefixes(s@, p@),
        decreases n - pos,
    {
        let rest = s.substring_char(pos, n);
        if !starts_with_str(rest, p) {
            return pos;
        }
        assert(rest@.subrange(m as int, rest@.len() as int) =~= s@.subrange(pos + m, n as int));
        pos = pos + m;
    }
}

/// The HTTP RPC and authentication endpoints of a WalletConnect relay URL.
pub fn build_relay_endpoints(relay_url: &str) -> (r: (String, String))
    ensures
        r.1@ == relay_auth_endpoint(relay_url@),
        r.0@ == relay_auth_endpoint(relay_url@) + "/rpc"@,
{
    let n = relay_url.unicode_len();
    let mut start: usize = 0;
    assert(relay_url@.subrange(0, n as int) =~= relay_url@);
    while start < n && white_space(relay_url.get_char(start))
        invariant
            start <= n,
            n == relay_url@.len(),
            lead_white(relay_url@) == start + lead_white(relay_url@.subrange(start as int, n as int)),
        decreases n - start,
    {
        assert(relay_url@.subrange(start as int, n as int).drop_first() =~= relay_url@.subrange(
            start + 1,
            n as int,
        ));
        start = start + 1;
    }
    proof {
        lemma_lead_white_stop(relay_url@, start as nat);
    }
    let mut end: usize = n;
    while end > start && white_space(relay_url.get_char(end - 1))
        invariant
            start <= end <= n,
            n == relay_url@.len(),
            lead_white(relay_url@) == start,
            trail_white(relay_url@) == (n - end) + trail_white(relay_url@.subrange(0, end as int)),
            lead_white(relay_url@.subrange(0, end as int)) == start,
        decreases end - start,
    {
        proof {
            lemma_lead_white_prefix(relay_url@, start as nat, (end - 1) as nat);
        }
        assert(relay_url@.subrange(0, end as int).drop_last() =~= relay_url@.subrange(
            0,
            end - 1,
        ));
        end = end - 1;
    }
    assert(trail_white(relay_url@.subrange(0, end as int)) == 0);
    let trimmed = relay_url.substring_char(start, end);
    assert(trimmed@ == trim_white(relay_url@));
    proof {
        reveal_strlit("wss://");
        reveal_strlit("ws://");
        reveal_strlit("https://");
        reveal_strlit("http://");
        reveal_strlit("://");
        reveal_strlit("/rpc");
    }
    let tn = trimmed.unicode_len();
    let base: String = if starts_with_str(trimmed, "wss://") {
        let mut b = String::from_str("https://");
        b.append(trimmed.substring_char(6, tn));
        b
    } else if starts_with_str(trimmed, "ws://") {
        let mut b = String::from_str("http://");
        b.append(trimmed.substring_char(5, tn));
        b
    } else if starts_with_str(trimmed, "https://") || starts_with_str(trimmed, "http://") {
        String::from_str(trimmed)
    } else {
        let p = strip_prefixes_pos(trimmed, "://");
        let mut b = String::from_str("https://");
        b.append(trimmed.substring_char(p, tn));
        b
    };
    let base_str = base.as_str();
    let bn = base_str.unicode_len();
    let mut e: usize = bn;
    assert(base_str@.subrange(0, bn as int) =~= base_str@);
    while e > 0 && base_str.get_char(e - 1) == '/'
        invariant
            e <= bn,
            bn == base_str@.len(),
            trim_end_char(base_str@.subrange(0, e as int), '/') == trim_end_char(base_str@, '/'),
        decreases e,
    {
        assert(base_str@.subrange(0, e as int).drop_last() =~= base_str@.subrange(0, e - 1));
        e = e - 1;
    }
    let auth = String::from_str(base_str.substring_char(0, e));
    let mut rpc = String::from_str(base_str.substring_char(0, e));
    rpc.append("/rpc");
    (rpc, auth)
}

/// Once a character is not white space, the leading white space of `s` ends there.
proof fn lemma_lead_white_stop(s: Seq<char>, k: nat)
    requires
        k <= s.len(),
        lead_white(s) == k + lead_white(s.subrange(k as int, s.len() as int)),
        k == s.len() || !is_white_space(s[k as int]),
    ensures
        lead_white(s) == k,
{
    let t = s.subrange(k as int, s.len() as int);
    if k < s.len() {
        assert(t[0] == s[k as int]);
    }
}

/// Removing characters after the leading white space keeps it.
proof fn lemma_lead_white_prefix(s: Seq<char>, k: nat, e: nat)
    requires
        k <= e,
        e < s.len(),
        lead_white(s.subrange(0, (e + 1) as int)) == k,
    ensures
        lead_white(s.subrange(0, e as int)) == k,
    decreases k,
{
    let a = s.subrange(0, (e + 1) as int);
    let b = s.subrange(0, e as int);
    if k > 0 {
        assert(is_white_space(a[0]));
        assert(a[0] == b[0] || e == 0);
        if e == 0 {
            assert(lead_white(a.drop_first()) == 0);
        } else {
            assert(a.drop_first() =~= s.drop_first().subrange(0, e as int));
            assert(b.drop_first() =~= s.drop_first().subrange(0, e - 1));
            lemma_lead_white_prefix(s.drop_first(), (k - 1) as nat, (e - 1) as nat);
        }
    } else {
        if e > 0 {
            assert(a[0] == b[0]);
        }
    }
}

} // verus!
