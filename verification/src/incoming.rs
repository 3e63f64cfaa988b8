//! Incoming connections.

use vstd::prelude::*;

verus! {

/// What a listener does after an attempt to accept a connection.
pub enum AcceptStep<S> {
    /// Hand the connection out.
    Yield(S),
    /// Try again.
    Retry,
}

/// What a listener does after an attempt to accept a connection: a failure is passed over in
/// silence.
pub open spec fn accept_step<S>(attempt: Result<S, std::io::Error>) -> AcceptStep<S> {
    match attempt {
        Ok(connection) => AcceptStep::Yield(connection),
        Err(_) => AcceptStep::Retry,
    }
}

/// What a listener does after an attempt to accept a connection: a failure is passed over in
/// silence, so a listener never reports an error and never ends.
pub fn accepted<S>(attempt: Result<S, std::io::Error>) -> (step: AcceptStep<S>)
    ensures
        step == accept_step(attempt),
{
    match attempt {
        Ok(connection) => AcceptStep::Yield(connection),
        Err(_) => AcceptStep::Retry,
    }
}

/// What a listener hands out over a history of attempts. After each of them it goes on.
pub open spec fn handed_out<S>(attempts: Seq<Result<S, std::io::Error>>) -> Seq<S>
    decreases attempts.len(),
{
    if attempts.len() == 0 {
        Seq::empty()
    } else {
        let earlier = handed_out(attempts.drop_last());
        match accept_step(attempts.last()) {
            AcceptStep::Yield(connection) => earlier.push(connection),
            AcceptStep::Retry => earlier,
        }
    }
}

/// What a listener hands out is what its successful attempts gave, all of it and in order, and
/// what comes later takes nothing of it back.
pub proof fn law_listener_hands_out_successes<S>(
    attempts: Seq<Result<S, std::io::Error>>,
    later: Seq<Result<S, std::io::Error>>,
)
    ensures
        handed_out(attempts) == attempts.filter(
            |attempt: Result<S, std::io::Error>| attempt is Ok,
        ).map_values(|attempt: Result<S, std::io::Error>| attempt->Ok_0),
        handed_out(attempts + later) == handed_out(attempts) + handed_out(later),
    decreases attempts.len() + later.len(),
{
    let succeeded = |attempt: Result<S, std::io::Error>| attempt is Ok;
    let connection = |attempt: Result<S, std::io::Error>| attempt->Ok_0;
    reveal(Seq::filter);
    if later.len() > 0 {
        law_listener_hands_out_successes(attempts, later.drop_last());
        assert((attempts + later).drop_last() == attempts + later.drop_last());
        assert(handed_out(attempts + later) == handed_out(attempts) + handed_out(later));
    } else {
        assert(attempts + later == attempts);
        assert(handed_out(attempts) + handed_out(later) == handed_out(attempts));
        if attempts.len() > 0 {
            law_listener_hands_out_successes(attempts.drop_last(), later);
        }
        assert(handed_out(attempts) == attempts.filter(succeeded).map_values(connection));
    }
}

} // verus!
