//! Addresses of a Bob JSON-RPC node.
use crate::rpc::{trim_end_char, trimmed_end_len};
use vstd::prelude::*;

verus! {

/// The JSON-RPC endpoint of a local Bob node.
pub const DEFAULT_BOB_RPC_ENDPOINT: &'static str = "http://localhost:40420/qubic";

/// The JSON-RPC endpoint under a node's base URL: the base without trailing `/`, then `/qubic`.
pub fn bob_endpoint_url(base_url: &str) -> (r: String)
    ensures
        r@ == trim_end_char(base_url@, '/') + "/qubic"@,
{
    let e = trimmed_end_len(base_url, '/');
    let mut out = String::from_str(base_url.substring_char(0, e));
    out.append("/qubic");
    out
}

} // verus!
