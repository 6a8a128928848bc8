use vstd::prelude::*;

verus! {

/// Relies on `SystemTime::elapsed` of `UNIX_EPOCH`: milliseconds elapsed
/// since the epoch, or 0 when the clock stands before it. Nothing is promised
/// of the value: it depends on the machine's clock.
#[verifier::external_body]
fn epoch_millis() -> (r: u128) {
    std::time::UNIX_EPOCH.elapsed().map(|d| d.as_millis()).unwrap_or(0)
}

/// Current wall-clock time in milliseconds since the Unix epoch, truncated to
/// 64 bits as the message timestamps store it.
pub fn now_millis() -> (r: u64) {
    let ms: u128 = epoch_millis();
    ms as u64
}

} // verus!
