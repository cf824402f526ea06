//! Wake signals: how a queued caller learns that it may try again.
use std::collections::VecDeque;
use tokio::sync::oneshot;
use vstd::prelude::*;

verus! {

/// The sending half of tokio's oneshot channel, carried through the wait
/// queues as an opaque value.
#[verifier::external_type_specification]
#[verifier::external_body]
#[verifier::reject_recursive_types(T)]
pub struct ExSender<T>(oneshot::Sender<T>);

/// Calls `oneshot::Sender::send` with a bare `()`.
///
/// The result tells whether the receiver was still there. That rests on what
/// the waiting task does meanwhile, so nothing is claimed of it; the call
/// never blocks and never panics.
#[verifier::external_body]
fn send_wake(waiter: oneshot::Sender<()>) -> (heard: bool) {
    waiter.send(()).is_ok()
}

/// The waiter was sent its wake signal, and `heard` is what came of it.
pub closed spec fn was_signalled(waiter: oneshot::Sender<()>, heard: bool) -> bool {
    call_ensures(send_wake, (waiter,), heard)
}

/// Moves the whole queue, front first, to the end of `out`.
pub(crate) fn drain_into(
    queue: &mut VecDeque<oneshot::Sender<()>>,
    out: &mut Vec<oneshot::Sender<()>>,
)
    ensures
        final(queue)@ == Seq::<oneshot::Sender<()>>::empty(),
        final(out)@ == old(out)@ + old(queue)@,
{
    loop
        invariant
            out@ + queue@ =~= old(out)@ + old(queue)@,
        ensures
            queue@.len() == 0,
            out@ =~= old(out)@ + old(queue)@,
        decreases queue@.len(),
    {
        match queue.pop_front() {
            Some(waiter) => out.push(waiter),
            None => {
                break;
            },
        }
    }
}

/// Sends every waiter its wake signal, in the given order, whether or not an
/// earlier one was still listening, and reports for each whether it was.
pub fn wake_all(waiters: Vec<oneshot::Sender<()>>) -> (heard: Vec<bool>)
    ensures
        heard@.len() == waiters@.len(),
        forall|i: int|
            0 <= i < waiters@.len() ==> was_signalled(waiters@[i], #[trigger] heard@[i]),
{
    let mut heard: Vec<bool> = Vec::new();
    for waiter in it: waiters
        invariant
            heard@.len() == it.index(),
            it.seq() == waiters@,
            forall|i: int|
                0 <= i < it.index() ==> was_signalled(waiters@[i], #[trigger] heard@[i]),
    {
        heard.push(send_wake(waiter));
    }
    heard
}

/// A waiter counts as signalled only with what sending the signal came to.
proof fn law_only_a_sent_signal_counts(waiter: oneshot::Sender<()>, heard: bool)
    ensures
        was_signalled(waiter, heard) ==> call_ensures(send_wake, (waiter,), heard),
{
}

} // verus!
