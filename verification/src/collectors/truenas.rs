//! TrueNAS SCALE 25.04+ offers JSON-RPC 2.0 over WebSocket; that collector is
//! scaffolded only and reads nothing, writes nothing and manages no tokens.
use vstd::prelude::*;
use super::CollectorError;

verus! {

/// Always the unsupported-source error naming the scaffolded TrueNAS collector.
pub fn collect() -> (r: Result<(), CollectorError>)
    ensures
        r matches Err(CollectorError::UnsupportedSource(m)) && m@
            == "TrueNAS SCALE 25.04+ JSON-RPC 2.0 over WebSocket collector is scaffolded; deprecated REST is not used for MVP"@,
{
    Err(CollectorError::UnsupportedSource(
        String::from_str(
            "TrueNAS SCALE 25.04+ JSON-RPC 2.0 over WebSocket collector is scaffolded; deprecated REST is not used for MVP",
        ),
    ))
}

} // verus!
