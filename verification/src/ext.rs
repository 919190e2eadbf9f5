//! Wrappers around the outside collaborators the timer core needs: the
//! wall clock, the random palette index, and the stop channel for an
//! alarm playback task.

use vstd::prelude::*;

verus! {

#[verifier::external_type_specification]
#[verifier::external_body]
#[verifier::reject_recursive_types(T)]
pub struct ExSender<T>(std::sync::mpsc::Sender<T>);

/// Relies on `std::sync::mpsc::Sender::send`: a fire-and-forget stop signal
/// for the alarm playback task; a send error (receiver already gone) is
/// deliberately ignored.
#[verifier::external_body]
pub(crate) fn send_stop(tx: &std::sync::mpsc::Sender<()>) {
    let _result = tx.send(());
}

/// Relies on `chrono::Local::now` and `DateTime::timestamp_millis`: the
/// wall clock as milliseconds since the Unix epoch. Nothing is promised of
/// the value; callers work for every reading.
#[verifier::external_body]
pub(crate) fn now_millis() -> i64 {
    chrono::Local::now().timestamp_millis()
}

/// Relies on `rand::Rng::gen_range` over `0..15`: a uniformly random value
/// of the non-empty range, so strictly below 15.
#[verifier::external_body]
pub(crate) fn random_index() -> (r: u8)
    ensures
        r < 15,
{
    let mut rng = rand::thread_rng();
    rand::Rng::gen_range(&mut rng, 0..15)
}

} // verus!
