//! The subscribers of thermal status messages.
//!
//! A subscriber is known here by its socket descriptor. Which bytes go to whom,
//! who is dropped, and when a descriptor may be closed is decided here; the
//! sends are the caller's.

use crate::decimal::{decimal, digit, tenths_text};
use crate::single::Single;
use crate::thermal::{
    clock_gave, payload_text, recommendation, seconds_of, state_name, temperature_json,
    thermal_payload,
};
use vstd::multiset::Multiset;
use vstd::prelude::*;
use vstd::seq_lib::group_to_multiset_ensures;
use vstd::string::*;
use vstd::utf8::{
    encode_scalar, encode_utf8, encode_utf8_decode_utf8, has_width_1_encoding, last_continuation_byte,
    leading_byte_width_1, leading_byte_width_2, leading_byte_width_3, leading_byte_width_4,
    second_last_continuation_byte, third_last_continuation_byte,
};

verus! {

/// The byte that ends a message.
pub const NEWLINE: u8 = 10;

/// The connected subscribers, in the order in which they came, and the sends in
/// flight, one entry for each. A send is still using its descriptor when its
/// subscriber is dropped, so a descriptor is closed only when it is needed for
/// neither: closed earlier, its number could be given to something else.
pub struct ThermalSignalPublisher {
    clients: Vec<i32>,
    sends: Vec<i32>,
}

/// A line, and the subscribers that it goes to.
pub struct Emission {
    pub line: Vec<u8>,
    pub targets: Vec<i32>,
}

impl View for ThermalSignalPublisher {
    type V = Seq<i32>;

    closed spec fn view(&self) -> Seq<i32> {
        self.clients@
    }
}

impl ThermalSignalPublisher {
    /// How many sends are in flight on each descriptor.
    pub closed spec fn in_flight(&self) -> Multiset<i32> {
        self.sends@.to_multiset()
    }
}

/// The subscribers after a send ended: a failed one drops its subscriber.
pub open spec fn after_send(clients: Seq<i32>, client: i32, failed: bool) -> Seq<i32> {
    if failed {
        without(clients, client)
    } else {
        clients
    }
}

/// Whether a descriptor has to stay open: it is that of a subscriber, or a send
/// is in flight on it.
pub open spec fn needed(clients: Seq<i32>, in_flight: Multiset<i32>, client: i32) -> bool {
    clients.contains(client) || in_flight.count(client) > 0
}

/// The bytes of a newline-delimited message.
pub open spec fn line_bytes(payload: Seq<char>) -> Seq<u8> {
    encode_utf8(payload).push(NEWLINE)
}

/// Everyone but `client`, in the same order.
pub open spec fn without(clients: Seq<i32>, client: i32) -> Seq<i32> {
    clients.filter(|c: i32| c != client)
}

fn copy_clients(clients: &Vec<i32>) -> (r: Vec<i32>)
    ensures
        r@ == clients@,
{
    let mut r: Vec<i32> = Vec::with_capacity(clients.len());
    let mut i: usize = 0;
    while i < clients.len()
        invariant
            i <= clients@.len(),
            r@ == clients@.take(i as int),
        decreases clients.len() - i,
    {
        r.push(clients[i]);
        i = i + 1;
        assert(clients@.take(i as int) =~= clients@.take(i - 1).push(clients@[i - 1]));
    }
    assert(clients@.take(i as int) =~= clients@);
    r
}

fn contains_client(clients: &Vec<i32>, client: i32) -> (r: bool)
    ensures
        r == clients@.contains(client),
{
    let mut i: usize = 0;
    while i < clients.len()
        invariant
            i <= clients@.len(),
            forall|k: int| 0 <= k < i ==> #[trigger] clients@[k] != client,
        decreases clients.len() - i,
    {
        if clients[i] == client {
            assert(clients@[i as int] == client);
            return true;
        }
        i = i + 1;
    }
    false
}

impl Default for ThermalSignalPublisher {
    /// No subscribers yet.
    fn default() -> (p: Self)
        ensures
            p@ == Seq::<i32>::empty(),
            p.in_flight() == Multiset::<i32>::empty(),
    {
        let p = ThermalSignalPublisher { clients: Vec::new(), sends: Vec::new() };
        proof {
            broadcast use group_to_multiset_ensures;

            assert(p.in_flight() =~= Multiset::<i32>::empty());
        }
        p
    }
}

impl ThermalSignalPublisher {
    /// No subscribers yet.
    pub fn new() -> (p: Self)
        ensures
            p@ == Seq::<i32>::empty(),
            p.in_flight() == Multiset::<i32>::empty(),
    {
        Self::default()
    }

    /// Adds a freshly accepted subscriber.
    pub fn add_client(&mut self, client: i32)
        ensures
            final(self)@ == old(self)@.push(client),
            final(self).in_flight() == old(self).in_flight(),
    {
        self.clients.push(client);
    }

    /// Whether a descriptor may be closed.
    pub fn may_close(&self, client: i32) -> (r: bool)
        ensures
            r == !needed(self@, self.in_flight(), client),
    {
        proof {
            broadcast use group_to_multiset_ensures;

        }
        !contains_client(&self.clients, client) && !contains_client(&self.sends, client)
    }

    /// Takes note of a send that is about to be submitted.
    pub fn begin_send(&mut self, client: i32)
        ensures
            final(self)@ == old(self)@,
            final(self).in_flight() == old(self).in_flight().insert(client),
    {
        proof {
            broadcast use group_to_multiset_ensures;

        }
        self.sends.push(client);
    }

    pub fn client_count(&self) -> (n: usize)
        ensures
            n == self@.len(),
    {
        self.clients.len()
    }

    /// What publishing one message sends: the message as a line, once to every
    /// subscriber. From here on these sends are in flight.
    pub fn emit_via(&mut self, payload: &str) -> (e: Emission)
        ensures
            e.line@ == line_bytes(payload@),
            e.targets@ == old(self)@,
            final(self)@ == old(self)@,
            final(self).in_flight() == old(self).in_flight().add(old(self)@.to_multiset()),
    {
        let ghost before = *self;
        let mut line = payload.as_bytes_vec();
        line.push(NEWLINE);
        let targets = copy_clients(&self.clients);
        let mut i: usize = 0;
        proof {
            broadcast use group_to_multiset_ensures;

            assert(self.in_flight() =~= before.in_flight().add(targets@.take(0).to_multiset()));
        }
        while i < targets.len()
            invariant
                i <= targets@.len(),
                targets@ == before@,
                self@ == before@,
                self.in_flight() == before.in_flight().add(targets@.take(i as int).to_multiset()),
            decreases targets.len() - i,
        {
            self.begin_send(targets[i]);
            i = i + 1;
            proof {
                broadcast use group_to_multiset_ensures;

                let sent = targets@.take(i - 1);
                assert(targets@.take(i as int) =~= sent.push(targets@[i - 1]));
                assert(self.in_flight() =~= before.in_flight().add(
                    sent.push(targets@[i - 1]).to_multiset(),
                ));
            }
        }
        assert(targets@.take(i as int) =~= targets@);
        Emission { line, targets }
    }

    /// Takes note of how a send ended, and says whether its descriptor may now be
    /// closed. A failed send drops its subscriber; one that was refused when it
    /// was submitted ended without a failure of its subscriber.
    pub fn complete_send(&mut self, client: i32, failed: bool) -> (may_close: bool)
        ensures
            final(self)@ == after_send(old(self)@, client, failed),
            final(self).in_flight() == old(self).in_flight().remove(client),
            may_close == !needed(final(self)@, final(self).in_flight(), client),
    {
        if failed {
            self.drop_client(client);
        }
        self.end_send(client);
        self.may_close(client)
    }

    /// Takes one send out of those in flight on its descriptor.
    fn end_send(&mut self, client: i32)
        ensures
            final(self)@ == old(self)@,
            final(self).in_flight() == old(self).in_flight().remove(client),
    {
        let ghost before = *self;
        let mut i: usize = 0;
        while i < self.sends.len()
            invariant
                i <= self.sends@.len(),
                *self == before,
                before == *old(self),
                forall|k: int| 0 <= k < i ==> #[trigger] self.sends@[k] != client,
            decreases self.sends.len() - i,
        {
            if self.sends[i] == client {
                self.sends.remove(i);
                proof {
                    broadcast use group_to_multiset_ensures;

                    assert(before.sends@.remove(i as int).to_multiset()
                        =~= before.in_flight().remove(client));
                }
                return;
            }
            i = i + 1;
        }
        proof {
            broadcast use group_to_multiset_ensures;

            assert(!self.sends@.contains(client));
            assert(self.in_flight().count(client) == 0);
            assert(self.in_flight() =~= self.in_flight().remove(client));
        }
    }

    /// Takes a subscriber off the list.
    fn drop_client(&mut self, client: i32)
        ensures
            final(self)@ == without(old(self)@, client),
            final(self).in_flight() == old(self).in_flight(),
    {
        let ghost before = self.clients@;
        let mut kept: Vec<i32> = Vec::with_capacity(self.clients.len());
        let mut i: usize = 0;
        proof {
            reveal(Seq::filter);
            assert(before.take(0) =~= Seq::<i32>::empty());
        }
        while i < self.clients.len()
            invariant
                i <= self.clients@.len(),
                self.clients@ == before,
                *self == *old(self),
                kept@ == without(before.take(i as int), client),
            decreases self.clients.len() - i,
        {
            proof {
                reveal(Seq::filter);
                assert(before.take(i + 1).drop_last() =~= before.take(i as int));
                assert(before.take(i + 1).last() == before[i as int]);
            }
            if self.clients[i] != client {
                kept.push(self.clients[i]);
            }
            i = i + 1;
        }
        assert(before.take(i as int) =~= before);
        self.clients = kept;
    }
}

/// What publishing the present thermal status sends. From here on these sends
/// are in flight.
pub fn emit_thermal_signal(
    publisher: &mut ThermalSignalPublisher,
    state: u8,
    temperature_c: Option<Single>,
    warn_temp_c: Single,
    critical_temp_c: Single,
) -> (e: Emission)
    ensures
        exists|reading: Option<u64>| #[trigger]
            clock_gave(reading) && e.line@ == line_bytes(
                payload_text(
                    state,
                    temperature_c,
                    warn_temp_c,
                    critical_temp_c,
                    seconds_of(reading),
                ),
            ),
        e.targets@ == old(publisher)@,
        final(publisher)@ == old(publisher)@,
        final(publisher).in_flight() == old(publisher).in_flight().add(
            old(publisher)@.to_multiset(),
        ),
{
    let payload = thermal_payload(state, temperature_c, warn_temp_c, critical_temp_c);
    publisher.emit_via(payload.as_str())
}

/// Filtering out someone who is not there changes nothing.
pub(crate) proof fn lemma_without_absent(clients: Seq<i32>, client: i32)
    requires
        !clients.contains(client),
    ensures
        without(clients, client) == clients,
    decreases clients.len(),
{
    reveal(Seq::filter);
    if clients.len() > 0 {
        let rest = clients.drop_last();
        assert(clients[clients.len() - 1] != client);
        assert(!rest.contains(client)) by {
            if rest.contains(client) {
                let i = choose|i: int| 0 <= i < rest.len() && rest[i] == client;
                assert(clients[i] == client);
            }
        }
        lemma_without_absent(rest, client);
        assert(rest.push(clients.last()) =~= clients);
    }
}

/// A failed send drops just its own subscriber: the others stay, in order.
pub proof fn failed_send_drops_one(clients: Seq<i32>, i: int)
    requires
        0 <= i < clients.len(),
        clients.no_duplicates(),
    ensures
        without(clients, clients[i]) == clients.remove(i),
    decreases clients.len(),
{
    reveal(Seq::filter);
    let client = clients[i];
    let rest = clients.drop_last();
    if i == clients.len() - 1 {
        assert(!rest.contains(client)) by {
            if rest.contains(client) {
                let k = choose|k: int| 0 <= k < rest.len() && rest[k] == client;
                assert(clients[k] == client);
            }
        }
        lemma_without_absent(rest, client);
        assert(clients.remove(i) =~= rest);
    } else {
        failed_send_drops_one(rest, i);
        assert(clients[clients.len() - 1] != client);
        assert(rest.remove(i).push(clients.last()) =~= clients.remove(i));
    }
}

/// A text without a line break.
pub open spec fn one_line(s: Seq<char>) -> bool {
    forall|i: int| 0 <= i < s.len() ==> #[trigger] s[i] != '\n'
}

proof fn lemma_decimal_one_line(n: nat)
    ensures
        one_line(decimal(n)),
    decreases n,
{
    if n >= 10 {
        lemma_decimal_one_line(n / 10);
        assert(digit(n % 10) as u32 >= 48);
    } else {
        assert(digit(n) as u32 >= 48);
    }
}

proof fn lemma_tenths_one_line(s: Single)
    ensures
        one_line(tenths_text(s)),
{
    reveal_strlit("NaN");
    reveal_strlit("-");
    reveal_strlit("");
    reveal_strlit("inf");
    reveal_strlit(".");
    let t = crate::decimal::tenths(s);
    lemma_decimal_one_line(t / 10);
    assert(digit(t % 10) as u32 >= 48);
}

/// A status message is one line: no line break stands in it.
pub proof fn payload_is_one_line(
    state: u8,
    temperature_c: Option<Single>,
    warn_temp_c: Single,
    critical_temp_c: Single,
    ts: u64,
)
    ensures
        one_line(payload_text(state, temperature_c, warn_temp_c, critical_temp_c, ts)),
{
    lemma_tenths_one_line(warn_temp_c);
    lemma_tenths_one_line(critical_temp_c);
    lemma_decimal_one_line(ts as nat);
    if let Some(temp) = temperature_c {
        lemma_tenths_one_line(temp);
    }
    reveal_strlit("null");
    reveal_strlit("warning");
    reveal_strlit("critical");
    reveal_strlit("normal");
    reveal_strlit("throttle");
    reveal_strlit("pause");
    reveal_strlit("{\"state\":\"");
    reveal_strlit("\",\"temp_c\":");
    reveal_strlit(",\"warn_c\":");
    reveal_strlit(",\"crit_c\":");
    reveal_strlit(",\"ts\":");
    reveal_strlit(",\"recommendation\":\"");
    reveal_strlit("\"}");
    assert(one_line(state_name(state)));
    assert(one_line(recommendation(state)));
    assert(one_line(temperature_json(temperature_c)));
}

proof fn lemma_wide_bytes(c: u32)
    by (bit_vector)
    ensures
        has_width_1_encoding(c) ==> leading_byte_width_1(c) == c,
        leading_byte_width_2(c) >= 0x80,
        leading_byte_width_3(c) >= 0x80,
        leading_byte_width_4(c) >= 0x80,
        last_continuation_byte(c) >= 0x80,
        second_last_continuation_byte(c) >= 0x80,
        third_last_continuation_byte(c) >= 0x80,
{
}

/// The line of a message without a line break ends in a newline and holds no
/// other, so a reader that splits the stream at newlines gets the messages back.
pub proof fn line_has_one_newline(payload: Seq<char>)
    requires
        one_line(payload),
    ensures
        line_bytes(payload).last() == NEWLINE,
        forall|i: int|
            0 <= i < line_bytes(payload).len() - 1 ==> #[trigger] line_bytes(payload)[i] != NEWLINE,
{
    lemma_encoding_has_no_newline(payload);
}

proof fn lemma_scalar_has_no_newline(c: char)
    requires
        c != '\n',
    ensures
        forall|i: int|
            0 <= i < encode_scalar(c as u32).len() ==> #[trigger] encode_scalar(c as u32)[i]
                != NEWLINE,
{
    let u = c as u32;
    lemma_wide_bytes(u);
    assert(u != NEWLINE);
}

proof fn lemma_encoding_has_no_newline(s: Seq<char>)
    requires
        one_line(s),
    ensures
        forall|i: int| 0 <= i < encode_utf8(s).len() ==> #[trigger] encode_utf8(s)[i] != NEWLINE,
    decreases s.len(),
{
    if s.len() > 0 {
        lemma_scalar_has_no_newline(s[0]);
        assert(one_line(s.drop_first()));
        lemma_encoding_has_no_newline(s.drop_first());
        let head = encode_scalar(s[0] as u32);
        let tail = encode_utf8(s.drop_first());
        assert(encode_utf8(s) == head + tail);
        assert forall|i: int| 0 <= i < encode_utf8(s).len() implies #[trigger] encode_utf8(s)[i]
            != NEWLINE by {
            if i < head.len() {
                assert(encode_utf8(s)[i] == head[i]);
            } else {
                assert(encode_utf8(s)[i] == tail[i - head.len()]);
            }
        }
    }
}

/// What a subscriber receives for a series of messages.
pub open spec fn stream(messages: Seq<Seq<char>>) -> Seq<u8>
    decreases messages.len(),
{
    if messages.len() == 0 {
        seq![]
    } else {
        line_bytes(messages[0]) + stream(messages.drop_first())
    }
}

/// The stream gives the messages back: two series of one-line messages with the
/// same stream are the same.
pub proof fn stream_gives_back_messages(a: Seq<Seq<char>>, b: Seq<Seq<char>>)
    requires
        forall|i: int| 0 <= i < a.len() ==> one_line(#[trigger] a[i]),
        forall|i: int| 0 <= i < b.len() ==> one_line(#[trigger] b[i]),
        stream(a) == stream(b),
    ensures
        a == b,
    decreases a.len(),
{
    if a.len() == 0 && b.len() == 0 {
        assert(a =~= b);
    } else if a.len() == 0 {
        assert(stream(b).len() > 0 && stream(a).len() == 0);
    } else if b.len() == 0 {
        assert(stream(a).len() > 0 && stream(b).len() == 0);
    } else {
        let x = encode_utf8(a[0]);
        let y = encode_utf8(b[0]);
        lemma_encoding_has_no_newline(a[0]);
        lemma_encoding_has_no_newline(b[0]);
        assert(stream(a)[x.len() as int] == NEWLINE);
        assert(stream(b)[y.len() as int] == NEWLINE);
        if x.len() < y.len() {
            assert(stream(b)[x.len() as int] == y[x.len() as int]);
        }
        if y.len() < x.len() {
            assert(stream(a)[y.len() as int] == x[y.len() as int]);
        }
        assert(x =~= stream(a).take(x.len() as int));
        assert(y =~= stream(b).take(y.len() as int));
        encode_utf8_decode_utf8(a[0]);
        encode_utf8_decode_utf8(b[0]);
        let n = x.len() as int + 1;
        assert(stream(a.drop_first()) =~= stream(a).skip(n));
        assert(stream(b.drop_first()) =~= stream(b).skip(n));
        assert forall|i: int| 0 <= i < a.drop_first().len() implies one_line(
            #[trigger] a.drop_first()[i],
        ) by {
            assert(one_line(a[i + 1]));
        }
        assert forall|i: int| 0 <= i < b.drop_first().len() implies one_line(
            #[trigger] b.drop_first()[i],
        ) by {
            assert(one_line(b[i + 1]));
        }
        stream_gives_back_messages(a.drop_first(), b.drop_first());
        assert(a =~= seq![a[0]] + a.drop_first());
        assert(b =~= seq![b[0]] + b.drop_first());
    }
}

} // verus!
