//! How long the descriptors of the subscribers stay open.

use crate::publisher::{after_send, needed, without};
use vstd::multiset::Multiset;
use vstd::prelude::*;
use vstd::seq_lib::group_to_multiset_ensures;

verus! {

/// What happens to the subscribers.
pub ghost enum Exchange {
    /// A connection was accepted and became a subscriber.
    Admitted(i32),
    /// A send was submitted.
    Begun(i32),
    /// A message went out to every subscriber.
    Emitted,
    /// A send ended, and whether it failed.
    Completed(i32, bool),
}

/// The subscribers, the sends in flight, and the descriptors that are open.
pub ghost struct Connections {
    pub clients: Seq<i32>,
    pub in_flight: Multiset<i32>,
    pub open: Set<i32>,
}

/// Nobody has connected yet.
pub open spec fn no_connections() -> Connections {
    Connections { clients: seq![], in_flight: Multiset::empty(), open: Set::empty() }
}

/// The system gives an accepted connection no number that is in use, a send goes
/// to a descriptor that is open, and only sends in flight end.
pub open spec fn possible(c: Connections, e: Exchange) -> bool {
    match e {
        Exchange::Admitted(client) => !c.open.contains(client),
        Exchange::Begun(client) => c.open.contains(client),
        Exchange::Emitted => true,
        Exchange::Completed(client, _) => c.in_flight.count(client) > 0,
    }
}

/// The connections after an exchange: as `add_client`, `begin_send`, `emit_via`
/// and `complete_send` leave the subscribers and the sends in flight, and with
/// the descriptor closed where `complete_send` says that it may be.
pub open spec fn after_exchange(c: Connections, e: Exchange) -> Connections {
    match e {
        Exchange::Admitted(client) => Connections {
            clients: c.clients.push(client),
            open: c.open.insert(client),
            ..c
        },
        Exchange::Begun(client) => Connections { in_flight: c.in_flight.insert(client), ..c },
        Exchange::Emitted => Connections {
            in_flight: c.in_flight.add(c.clients.to_multiset()),
            ..c
        },
        Exchange::Completed(client, failed) => {
            let clients = after_send(c.clients, client, failed);
            let in_flight = c.in_flight.remove(client);
            Connections {
                clients,
                in_flight,
                open: if needed(clients, in_flight, client) {
                    c.open
                } else {
                    c.open.remove(client)
                },
            }
        },
    }
}

/// The connections after a series of exchanges.
pub open spec fn after_exchanges(c: Connections, events: Seq<Exchange>) -> Connections
    decreases events.len(),
{
    if events.len() == 0 {
        c
    } else {
        after_exchange(after_exchanges(c, events.drop_last()), events.last())
    }
}

/// Each exchange of the series is possible when it comes.
pub open spec fn possible_exchanges(c: Connections, events: Seq<Exchange>) -> bool
    decreases events.len(),
{
    events.len() > 0 ==> possible_exchanges(c, events.drop_last()) && possible(
        after_exchanges(c, events.drop_last()),
        events.last(),
    )
}

/// How many of the sends that a series submitted on a descriptor have not ended.
pub open spec fn outstanding(events: Seq<Exchange>, client: i32) -> int
    decreases events.len(),
{
    if events.len() == 0 {
        0
    } else {
        outstanding(events.drop_last(), client) + match events.last() {
            Exchange::Admitted(_) => 0int,
            Exchange::Begun(begun) => if begun == client {
                1
            } else {
                0
            },
            Exchange::Emitted => after_exchanges(
                no_connections(),
                events.drop_last(),
            ).clients.to_multiset().count(client) as int,
            Exchange::Completed(ended, _) => if ended == client {
                -1
            } else {
                0
            },
        }
    }
}

/// The descriptors that are open are those that are needed, and no subscriber
/// is on the list twice.
pub open spec fn settled(c: Connections) -> bool {
    &&& forall|client: i32| #[trigger]
        c.open.contains(client) <==> needed(c.clients, c.in_flight, client)
    &&& c.clients.no_duplicates()
}

/// Dropping one subscriber leaves exactly the others.
pub(crate) proof fn lemma_without(clients: Seq<i32>, client: i32)
    ensures
        forall|other: i32| #[trigger]
            without(clients, client).contains(other) <==> clients.contains(other) && other
                != client,
        clients.no_duplicates() ==> without(clients, client).no_duplicates(),
    decreases clients.len(),
{
    reveal(Seq::filter);
    if clients.len() > 0 {
        let rest = clients.drop_last();
        let last = clients.last();
        lemma_without(rest, client);
        let kept = without(rest, client);
        assert forall|other: i32| clients.contains(other) <==> rest.contains(other) || other
            == last by {
            assert(clients[clients.len() - 1] == last);
            if clients.contains(other) {
                let k = choose|k: int| 0 <= k < clients.len() && clients[k] == other;
                assert(k < rest.len() ==> rest[k] == other);
            }
            if rest.contains(other) {
                let k = choose|k: int| 0 <= k < rest.len() && rest[k] == other;
                assert(clients[k] == other);
            }
        }
        if last != client {
            let all = kept.push(last);
            assert(without(clients, client) == all);
            assert forall|other: i32| all.contains(other) <==> kept.contains(other) || other
                == last by {
                assert(all[kept.len() as int] == last);
                if kept.contains(other) {
                    let k = choose|k: int| 0 <= k < kept.len() && kept[k] == other;
                    assert(all[k] == other);
                }
            }
            if clients.no_duplicates() {
                assert(!rest.contains(last));
                assert(!kept.contains(last));
            }
        } else {
            assert(without(clients, client) == kept);
        }
    } else {
        assert(without(clients, client) =~= clients);
    }
}

/// An exchange keeps the connections settled.
pub proof fn exchange_keeps_settled(c: Connections, e: Exchange)
    requires
        settled(c),
        possible(c, e),
    ensures
        settled(after_exchange(c, e)),
{
    broadcast use group_to_multiset_ensures;

    let after = after_exchange(c, e);
    match e {
        Exchange::Admitted(client) => {
            assert(!needed(c.clients, c.in_flight, client));
            assert forall|other: i32| #[trigger]
                after.clients.contains(other) <==> c.clients.contains(other) || other == client by {
                assert(after.clients[c.clients.len() as int] == client);
                if c.clients.contains(other) {
                    let k = choose|k: int| 0 <= k < c.clients.len() && c.clients[k] == other;
                    assert(after.clients[k] == other);
                }
            }
        },
        Exchange::Begun(_) => {},
        Exchange::Emitted => {},
        Exchange::Completed(client, failed) => {
            lemma_without(c.clients, client);
        },
    }
}

proof fn lemma_settled(events: Seq<Exchange>)
    requires
        possible_exchanges(no_connections(), events),
    ensures
        settled(after_exchanges(no_connections(), events)),
    decreases events.len(),
{
    if events.len() > 0 {
        lemma_settled(events.drop_last());
        exchange_keeps_settled(
            after_exchanges(no_connections(), events.drop_last()),
            events.last(),
        );
    }
}

proof fn lemma_outstanding(events: Seq<Exchange>, client: i32)
    requires
        possible_exchanges(no_connections(), events),
    ensures
        outstanding(events, client) == after_exchanges(no_connections(), events).in_flight.count(
            client,
        ),
    decreases events.len(),
{
    if events.len() > 0 {
        lemma_outstanding(events.drop_last(), client);
    }
}

/// A descriptor stays open until every send that was submitted on it has ended,
/// whether or not one of them failed and dropped its subscriber; so its number
/// is not given to another connection meanwhile. It is closed once its
/// subscriber is off the list and no send on it is in flight.
pub proof fn descriptor_outlives_its_sends(events: Seq<Exchange>, client: i32)
    requires
        possible_exchanges(no_connections(), events),
    ensures
        ({
            let now = after_exchanges(no_connections(), events);
            &&& outstanding(events, client) >= 0
            &&& now.open.contains(client) <==> now.clients.contains(client) || outstanding(
                events,
                client,
            ) > 0
            &&& outstanding(events, client) > 0 ==> !possible(now, Exchange::Admitted(client))
        }),
{
    lemma_settled(events);
    lemma_outstanding(events, client);
}

/// Only the end of the last send on a descriptor closes it, and only where its
/// subscriber is off the list, or goes off it because that send failed.
pub proof fn only_the_last_send_closes(c: Connections, e: Exchange, client: i32)
    requires
        settled(c),
        possible(c, e),
        c.open.contains(client),
        !after_exchange(c, e).open.contains(client),
    ensures
        e matches Exchange::Completed(ended, failed) && ended == client && c.in_flight.count(client)
            == 1 && (failed || !c.clients.contains(client)),
{
}

/// No subscriber is on the list twice, so each gets a message once, and a failed
/// send drops one.
pub proof fn subscribers_are_distinct(events: Seq<Exchange>)
    requires
        possible_exchanges(no_connections(), events),
    ensures
        after_exchanges(no_connections(), events).clients.no_duplicates(),
{
    lemma_settled(events);
}

} // verus!
