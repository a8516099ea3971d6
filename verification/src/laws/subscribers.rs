//! The list of subscribers and their descriptors.

use crate::connections::lemma_without;
use crate::publisher::{failed_send_drops_one, lemma_without_absent, ThermalSignalPublisher};
use crate::socket::{drain_pending_clients, AcceptAttempt, DrainStep};
use vstd::prelude::*;

verus! {

/// A publisher starts without subscribers and without sends.
pub proof fn publisher_starts_empty(
    p: ThermalSignalPublisher,
    q: ThermalSignalPublisher,
    n: usize,
)
    requires
        call_ensures(ThermalSignalPublisher::new, (), p),
        call_ensures(ThermalSignalPublisher::default, (), q),
        call_ensures(ThermalSignalPublisher::client_count, (&p,), n),
    ensures
        p@.len() == 0 && q@.len() == 0 && n == 0,
        forall|c: i32| #[trigger] p.in_flight().count(c) == 0,
        forall|c: i32| #[trigger] q.in_flight().count(c) == 0,
{
}

/// A new subscriber comes last, and the count is that of the subscribers.
pub proof fn subscribers_are_added_at_the_end(
    p: &mut ThermalSignalPublisher,
    client: i32,
    before: usize,
    after: usize,
)
    requires
        call_ensures(ThermalSignalPublisher::client_count, (&*old(p),), before),
        call_ensures(ThermalSignalPublisher::add_client, (p, client), ()),
        call_ensures(ThermalSignalPublisher::client_count, (&*final(p),), after),
    ensures
        after == before + 1,
        final(p)@.last() == client,
        final(p)@.drop_last() == old(p)@,
        final(p).in_flight() == old(p).in_flight(),
{
    assert(final(p)@.drop_last() =~= old(p)@);
}

/// A send that begins is in flight, and nothing else changes.
pub proof fn begun_send_is_in_flight(p: &mut ThermalSignalPublisher, client: i32, other: i32)
    requires
        call_ensures(ThermalSignalPublisher::begin_send, (p, client), ()),
    ensures
        final(p)@ == old(p)@,
        final(p).in_flight().count(client) == old(p).in_flight().count(client) + 1,
        other != client ==> final(p).in_flight().count(other) == old(p).in_flight().count(other),
{
}

/// A send that ends is no longer in flight. A failed one drops its subscriber,
/// and leaves the others in their order; another one drops nobody. Its
/// descriptor may be closed exactly where it is neither on the list nor used by
/// another send.
pub proof fn ended_send_drops_only_its_own(
    p: &mut ThermalSignalPublisher,
    client: i32,
    failed: bool,
    other: i32,
    i: int,
    may_close: bool,
)
    requires
        call_ensures(ThermalSignalPublisher::complete_send, (p, client, failed), may_close),
    ensures
        !failed ==> final(p)@ == old(p)@,
        failed ==> !final(p)@.contains(client),
        other != client ==> (final(p)@.contains(other) <==> old(p)@.contains(other)),
        failed && old(p)@.no_duplicates() && 0 <= i < old(p)@.len() && old(p)@[i] == client
            ==> final(p)@ == old(p)@.remove(i),
        !old(p)@.contains(client) ==> final(p)@ == old(p)@,
        old(p).in_flight().count(client) > 0 ==> final(p).in_flight().count(client) == old(
            p,
        ).in_flight().count(client) - 1,
        old(p).in_flight().count(client) == 0 ==> final(p).in_flight().count(client) == 0,
        other != client ==> final(p).in_flight().count(other) == old(p).in_flight().count(other),
        may_close <==> !final(p)@.contains(client) && final(p).in_flight().count(client) == 0,
{
    lemma_without(old(p)@, client);
    if old(p)@.no_duplicates() && 0 <= i < old(p)@.len() && old(p)@[i] == client {
        failed_send_drops_one(old(p)@, i);
    }
    if !old(p)@.contains(client) {
        lemma_without_absent(old(p)@, client);
    }
}

/// A descriptor may be closed exactly where nobody needs it.
pub proof fn unneeded_descriptor_may_be_closed(
    p: &ThermalSignalPublisher,
    client: i32,
    may_close: bool,
)
    requires
        call_ensures(ThermalSignalPublisher::may_close, (p, client), may_close),
    ensures
        may_close <==> !p@.contains(client) && p.in_flight().count(client) == 0,
{
}

/// Draining takes in whoever was accepted, goes on after a success or an
/// interruption, ends where nothing is pending, and reports a failure.
pub proof fn draining_takes_in_the_accepted(
    p: &mut ThermalSignalPublisher,
    attempt: AcceptAttempt,
    step: DrainStep,
)
    requires
        call_ensures(drain_pending_clients, (p, attempt), step),
    ensures
        attempt matches AcceptAttempt::Accepted(client) ==> final(p)@ == old(p)@.push(client),
        !(attempt is Accepted) ==> final(p)@ == old(p)@,
        final(p).in_flight() == old(p).in_flight(),
        step == DrainStep::TryAgain <==> attempt is Accepted || attempt is Interrupted,
        step == DrainStep::Done <==> attempt is WouldBlock,
        step == DrainStep::ReportAndStop <==> attempt is Failed,
{
}

} // verus!
