//! Proxmox is a configured source kind whose API collector is not part of this
//! release: collection reports it as unsupported.
use vstd::prelude::*;
use super::CollectorError;

verus! {

/// Always the unsupported-source error naming the missing Proxmox collector.
pub fn collect() -> (r: Result<(), CollectorError>)
    ensures
        r matches Err(CollectorError::UnsupportedSource(m))
            && m@ == "proxmox API collector is not part of the SSH/local MVP"@,
{
    Err(CollectorError::UnsupportedSource(
        String::from_str("proxmox API collector is not part of the SSH/local MVP"),
    ))
}

} // verus!
