//! The calls that the library makes into other crates. Verus does not read
//! the bodies in this file: what each contract says is taken on trust from
//! the documentation and the source of the crate that is called.

use crate::models::Timestamp;
use vstd::prelude::*;

verus! {

/// The error of `serde_json`. Nothing is known of its contents.
#[verifier::external_type_specification]
#[verifier::external_body]
pub struct ExJsonError(serde_json::Error);

/// The cargo name that `serde_json::from_str` reads from `data` when it
/// decodes the text as a `nanocl_stubs::cargo_spec::CargoSpecPartial`;
/// `None` when the text does not decode as one.
pub uninterp spec fn config_name(data: Seq<char>) -> Option<Seq<char>>;

/// Decodes `data` with `serde_json::from_str` as a
/// `nanocl_stubs::cargo_spec::CargoSpecPartial` and hands out the `name`
/// field of the result, or the decoder's error. The contract claims only
/// that the outcome depends on the text alone, which is what
/// [`config_name`] names.
#[verifier::external_body]
pub(crate) fn decode_name(data: &str) -> (decoded: Result<String, serde_json::Error>)
    ensures
        match decoded {
            Ok(name) => config_name(data@) == Some(name@),
            Err(_) => config_name(data@) is None,
        },
{
    match serde_json::from_str::<nanocl_stubs::cargo_spec::CargoSpecPartial>(data) {
        Ok(partial) => Ok(partial.name),
        Err(e) => Err(e),
    }
}

/// The current time by `chrono::Utc::now`, as seconds since the epoch and
/// nanoseconds within the second. Nothing is claimed of the result. The
/// call panics where the clock of the machine stands before the epoch.
#[verifier::external_body]
pub(crate) fn utc_now() -> (now: Timestamp) {
    let now = chrono::Utc::now();
    Timestamp { secs: now.timestamp(), nanos: now.timestamp_subsec_nanos() }
}

/// A random identifier by `uuid::Uuid::new_v4`, in its hyphenated text
/// form. Nothing is claimed of the result, not even that it differs from
/// an earlier one. The call panics where the machine has no source of
/// randomness.
#[verifier::external_body]
pub(crate) fn fresh_key() -> (key: String) {
    uuid::Uuid::new_v4().to_string()
}

} // verus!
