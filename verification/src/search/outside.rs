//! What a search needs from its surroundings: the time, the commands the
//! interface sends while it runs, and a way to send it lines of output.
use vstd::prelude::*;

use std::sync::mpsc::{Receiver, Sender};
use std::time::{Duration, Instant};

verus! {

#[verifier::external_type_specification]
#[verifier::external_body]
pub struct ExInstant(std::time::Instant);

#[verifier::external_type_specification]
#[verifier::external_body]
#[verifier::reject_recursive_types(T)]
pub struct ExReceiver<T>(std::sync::mpsc::Receiver<T>);

#[verifier::external_type_specification]
#[verifier::external_body]
#[verifier::reject_recursive_types(T)]
pub struct ExSender<T>(std::sync::mpsc::Sender<T>);

/// `Instant::now`: the current time. Nothing is promised of it.
#[verifier::external_body]
pub fn instant_now() -> (now: Instant) {
    Instant::now()
}

/// `Instant::elapsed`: the time since `start`. Nothing is promised of it.
#[verifier::external_body]
pub fn instant_elapsed(start: &Instant) -> (elapsed: Duration) {
    start.elapsed()
}

/// `Duration::as_millis`: the whole milliseconds of a duration. Nothing is
/// promised of the duration, so nothing is of the result.
#[verifier::external_body]
pub fn duration_millis(duration: &Duration) -> (millis: u128) {
    duration.as_millis()
}

/// `Duration::as_micros`: the whole microseconds of a duration. Nothing is
/// promised of the duration, so nothing is of the result.
#[verifier::external_body]
pub fn duration_micros(duration: &Duration) -> (micros: u128) {
    duration.as_micros()
}

/// `Receiver::try_recv`: a line the interface sent, if one is waiting, as
/// bytes; `None` if none is, or if the interface hung up. Which line comes,
/// if any, depends on the interface, so nothing is promised of it.
#[verifier::external_body]
pub fn try_receive(commands: &Receiver<String>) -> (line: Option<Vec<u8>>) {
    match commands.try_recv() {
        Ok(line) => Some(line.into_bytes()),
        Err(_) => None,
    }
}

/// `Sender::send`: hands a line of output to the interface. A hung-up
/// interface loses it.
#[verifier::external_body]
pub fn send_line(output: &Sender<Vec<u8>>, line: Vec<u8>) {
    let _ = output.send(line);
}

} // verus!
