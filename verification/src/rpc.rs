//! Qubic RPC endpoints: URL joining and the request and response records.
use crate::codec::{base64_encode, base64_standard, base64_standard_decode, is_base64_text};
use std::collections::HashMap;
use vstd::prelude::*;

verus! {

/// The RPC base URL used when nothing else is configured.
pub const DEFAULT_QUBIC_RPC_QUERY: &'static str = "https://rpc.qubic.org/live/v1/";

/// `s` without its trailing `c` characters.
pub open spec fn trim_end_char(s: Seq<char>, c: char) -> Seq<char>
    decreases s.len(),
{
    if s.len() > 0 && s.last() == c {
        trim_end_char(s.drop_last(), c)
    } else {
        s
    }
}

/// `s` without its leading `c` characters.
pub open spec fn trim_start_char(s: Seq<char>, c: char) -> Seq<char>
    decreases s.len(),
{
    if s.len() > 0 && s[0] == c {
        trim_start_char(s.drop_first(), c)
    } else {
        s
    }
}

/// `base` and `path` joined by exactly one `/`.
pub open spec fn joined_url(base: Seq<char>, path: Seq<char>) -> Seq<char> {
    trim_end_char(base, '/') + seq!['/'] + trim_start_char(path, '/')
}

/// The length of `s` once its trailing `c` characters are removed.
pub(crate) fn trimmed_end_len(s: &str, c: char) -> (r: usize)
    ensures
        r <= s@.len(),
        s@.subrange(0, r as int) == trim_end_char(s@, c),
{
    let n = s.unicode_len();
    let mut e: usize = n;
    assert(s@.subrange(0, n as int) =~= s@);
    while e > 0 && s.get_char(e - 1) == c
        invariant
            e <= n,
            n == s@.len(),
            trim_end_char(s@.subrange(0, e as int), c) == trim_end_char(s@, c),
        decreases e,
    {
        assert(s@.subrange(0, e as int).drop_last() =~= s@.subrange(0, e - 1));
        e = e - 1;
    }
    e
}

/// The number of leading `c` characters of `s`.
fn trimmed_start_len(s: &str, c: char) -> (r: usize)
    ensures
        r <= s@.len(),
        s@.subrange(r as int, s@.len() as int) == trim_start_char(s@, c),
{
    let n = s.unicode_len();
    let mut b: usize = 0;
    assert(s@.subrange(0, n as int) =~= s@);
    while b < n && s.get_char(b) == c
        invariant
            b <= n,
            n == s@.len(),
            trim_start_char(s@.subrange(b as int, n as int), c) == trim_start_char(s@, c),
        decreases n - b,
    {
        assert(s@.subrange(b as int, n as int).drop_first() =~= s@.subrange(b + 1, n as int));
        b = b + 1;
    }
    b
}

/// Joins a base URL and a path with exactly one `/` between them.
pub fn join_url(base: &str, path: &str) -> (r: String)
    ensures
        r@ == joined_url(base@, path@),
{
    let e = trimmed_end_len(base, '/');
    let b = trimmed_start_len(path, '/');
    let n = path.unicode_len();
    let mut out = String::from_str(base.substring_char(0, e));
    out.append("/");
    proof {
        reveal_strlit("/");
    }
    out.append(path.substring_char(b, n));
    out
}

/// The base URL that RPC calls use: the one set in the process, else the one named by the
/// environment, else the default.
pub open spec fn rpc_base_url(override_url: Option<String>, env_url: Option<String>) -> Seq<char> {
    match override_url {
        Some(u) => u@,
        None => match env_url {
            Some(e) => e@,
            None => DEFAULT_QUBIC_RPC_QUERY@,
        },
    }
}

/// Picks the RPC base URL: an override set in the process wins over the environment's
/// `QUBIC_RPC_BASE_URL`, which wins over the default.
pub fn resolve_rpc_base_url(override_url: Option<String>, env_url: Option<String>) -> (r: String)
    ensures
        r@ == rpc_base_url(override_url, env_url),
{
    match override_url {
        Some(u) => u,
        None => match env_url {
            Some(e) => e,
            None => String::from_str(DEFAULT_QUBIC_RPC_QUERY),
        },
    }
}

/// The path of the smart-contract query endpoint.
pub const PATH_QUERY_SMART_CONTRACT: &'static str = "querySmartContract";

/// The smart-contract query endpoint: the one named by the environment's
/// `QUBIC_RPC_QUERY_SMART_CONTRACT`, else the query path under the base URL.
pub fn query_smart_contract_url(env_url: Option<String>, base: &str) -> (r: String)
    ensures
        r@ == (match env_url {
            Some(e) => e@,
            None => joined_url(base@, PATH_QUERY_SMART_CONTRACT@),
        }),
{
    match env_url {
        Some(e) => e,
        None => join_url(base, PATH_QUERY_SMART_CONTRACT),
    }
}

/// The body of a `querySmartContract` call.
#[derive(Debug, Clone)]
pub struct QueryRequest {
    pub contract_index: u32,
    pub input_type: u32,
    pub input_size: u32,
    /// The request bytes in standard base64.
    pub request_data: String,
}

/// The body that asks contract `contract_index` for `input_type` with `request_bytes`.
pub fn build_query_request(contract_index: u32, input_type: u32, request_bytes: &[u8]) -> (r: QueryRequest)
    requires
        (request_bytes@.len() / 3) * 4 + 4 <= usize::MAX,
    ensures
        r.contract_index == contract_index,
        r.input_type == input_type,
        r.input_size == request_bytes@.len() as u32,
        r.request_data@ == base64_encode(request_bytes@),
{
    let request_data = base64_standard(request_bytes);
    QueryRequest {
        contract_index,
        input_type,
        input_size: request_bytes.len() as u32,
        request_data,
    }
}

/// The body that broadcasts the transaction bytes `tx_bytes`, in standard base64.
pub fn encode_broadcast_request(tx_bytes: &[u8]) -> (r: BroadcastTransactionRequest)
    requires
        (tx_bytes@.len() / 3) * 4 + 4 <= usize::MAX,
    ensures
        r.encoded_transaction@ == base64_encode(tx_bytes@),
{
    BroadcastTransactionRequest { encoded_transaction: base64_standard(tx_bytes) }
}

/// The fields of a `querySmartContract` answer. `result` holds the answer's `result` field
/// when that field is a JSON string; the bytes returned come from `responseData` or `data`.
#[derive(Debug, Clone)]
pub struct QueryResponsePossible {
    pub response_data: Option<String>,
    pub data: Option<String>,
    pub result: Option<String>,
}

/// The base64 field that carries the answer: `responseData`, else `data`.
pub open spec fn answer_field(b: QueryResponsePossible) -> Option<String> {
    match b.response_data {
        Some(t) => Some(t),
        None => b.data,
    }
}

/// What a smart-contract query returns for the raw answer `raw`, parsed as `parsed` (`None`
/// when it is not such a JSON object).
pub open spec fn query_answer(raw: Seq<u8>, parsed: Option<QueryResponsePossible>, r: Result<Vec<u8>, String>) -> bool {
    match parsed {
        None => r matches Ok(v) && v@ == raw,
        Some(b) => match answer_field(b) {
            Some(t) => if is_base64_text(t@) {
                r matches Ok(v) && base64_encode(v@) == t@
            } else {
                r matches Err(m) && m@.len() >= 34 && m@.subrange(0, 34) == "Failed to decode base64 response: "@
            },
            None => r matches Ok(v) && v@ == raw,
        },
    }
}

/// Turns the answer of a smart-contract query into the bytes it carries: the base64 of
/// `responseData`, else of `data`, decoded (an error when it is not base64); when neither
/// field is there, or the answer is not such a JSON object, the raw answer.
pub fn decode_query_response(raw: Vec<u8>, parsed: Option<QueryResponsePossible>) -> (r: Result<Vec<u8>, String>)
    ensures
        query_answer(raw@, parsed, r),
{
    match parsed {
        None => Ok(raw),
        Some(b) => {
            let field = match b.response_data {
                Some(t) => Some(t),
                None => b.data,
            };
            match field {
                Some(t) => match base64_standard_decode(t.as_str()) {
                    Ok(v) => Ok(v),
                    Err(e) => {
                        let mut m = String::from_str("Failed to decode base64 response: ");
                        m.append(e.as_str());
                        proof {
                            reveal_strlit("Failed to decode base64 response: ");
                            assert(m@.subrange(0, 34) =~= "Failed to decode base64 response: "@);
                        }
                        Err(m)
                    },
                },
                None => Ok(raw),
            }
        },
    }
}

/// A balance record.
#[derive(Debug, Clone)]
pub struct BalanceInfo {
    pub id: String,
    pub balance: String,
    pub valid_for_tick: u64,
    pub latest_incoming_transfer_tick: u64,
    pub latest_outgoing_transfer_tick: u64,
}

/// The answer to a balance query.
#[derive(Debug, Clone)]
pub struct BalanceResponse {
    pub balance: BalanceInfo,
}

/// The last tick that the archive processed.
#[derive(Debug, Clone, Copy)]
pub struct GetLastProcessedTickResponse {
    pub tick_number: u32,
    pub epoch: u32,
    pub interval_initial_tick: u32,
}

/// A range of processed ticks in an epoch.
#[derive(Debug, Clone, Copy)]
pub struct ProcessedTickInterval {
    pub epoch: u32,
    pub first_tick: u32,
    pub last_tick: u32,
}

/// The processed tick ranges.
#[derive(Debug, Clone)]
pub struct GetProcessedTickIntervalsResponse {
    pub processed_tick_intervals: Vec<ProcessedTickInterval>,
}

/// A request for the data of one tick.
#[derive(Debug, Clone, Copy)]
pub struct GetTickDataRequest {
    pub tick_number: u32,
}

/// The data of a tick.
#[derive(Debug, Clone)]
pub struct TickData {
    pub tick_number: u32,
    pub epoch: u32,
    pub computor_index: u32,
    pub timestamp: String,
    pub var_struct: String,
    pub time_lock: String,
    pub transaction_hashes: Vec<String>,
    pub contract_fees: Vec<String>,
    pub signature: String,
}

/// The answer to a tick data query; empty for a tick without data.
#[derive(Debug, Clone)]
pub struct GetTickDataResponse {
    pub tick_data: Option<TickData>,
}

/// The current tick.
#[derive(Debug, Clone, Copy)]
pub struct TickInfo {
    pub tick: u32,
    pub duration: u32,
    pub epoch: u32,
    pub initial_tick: u32,
}

/// The answer to a tick query.
#[derive(Debug, Clone, Copy)]
pub struct TickInfoResponse {
    pub tick_info: TickInfo,
}

/// A transaction to broadcast, base64-encoded.
#[derive(Debug, Clone)]
pub struct BroadcastTransactionRequest {
    pub encoded_transaction: String,
}

/// The answer to a broadcast.
#[derive(Debug, Clone)]
pub struct BroadcastTransactionResponse {
    pub peers_broadcasted: i32,
    pub encoded_transaction: String,
    pub transaction_id: String,
}

/// The computors of an epoch.
#[derive(Debug, Clone)]
pub struct ComputorList {
    pub epoch: u32,
    pub tick_number: u32,
    pub identities: Vec<String>,
    pub signature: String,
}

/// A request for the computor lists of an epoch.
#[derive(Debug, Clone, Copy)]
pub struct GetComputorListsForEpochRequest {
    pub epoch: u32,
}

/// The computor lists of an epoch.
#[derive(Debug, Clone)]
pub struct GetComputorListsForEpochResponse {
    pub computors_lists: Vec<ComputorList>,
}

/// A request for one transaction by its hash.
#[derive(Debug, Clone)]
pub struct GetTransactionByHashRequest {
    pub hash: String,
}

/// The transaction with a hash, when there is one.
#[derive(Debug, Clone)]
pub struct GetTransactionByHashResponse {
    pub transaction: Option<Transaction>,
}

/// A request for the transactions of an identity.
#[derive(Debug, Clone, Default)]
pub struct GetTransactionsForIdentityRequest {
    pub identity: String,
    pub filters: Option<HashMap<String, String>>,
    pub ranges: Option<HashMap<String, Range>>,
    pub pagination: Option<Pagination>,
}

/// The transactions of an identity.
#[derive(Debug, Clone)]
pub struct GetTransactionsForIdentityResponse {
    pub valid_for_tick: u32,
    pub hits: Hits,
    pub transactions: Vec<Transaction>,
}

/// A request for the transactions of a tick.
#[derive(Debug, Clone, Default)]
pub struct GetTransactionsForTickRequest {
    pub tick_number: u32,
    pub filters: Option<HashMap<String, String>>,
    pub ranges: Option<HashMap<String, Range>>,
}

/// The transactions of a tick.
#[derive(Debug, Clone)]
pub struct GetTransactionsForTickResponse {
    pub transactions: Vec<Transaction>,
}

/// A transaction as the archive reports it.
#[derive(Debug, Clone)]
pub struct Transaction {
    pub hash: String,
    pub amount: String,
    pub source: String,
    pub destination: String,
    pub tick_number: u32,
    pub timestamp: String,
    pub input_type: u32,
    pub input_size: u32,
    pub input_data: String,
    pub signature: String,
    pub money_flew: Option<bool>,
}

/// A page of a result list.
#[derive(Debug, Clone, Default)]
pub struct Pagination {
    pub offset: Option<u32>,
    pub size: Option<u32>,
}

/// Bounds on a numeric field, as decimal text.
#[derive(Debug, Clone, Default)]
pub struct Range {
    pub gt: Option<String>,
    pub gte: Option<String>,
    pub lt: Option<String>,
    pub lte: Option<String>,
}

/// Result counts of a paged query.
#[derive(Debug, Clone, Copy)]
pub struct Hits {
    pub total: u32,
    pub from: u32,
    pub size: u32,
}

} // verus!
