//! The fan-out hub: the subscribers that are connected, the messages that
//! go to them, and who is dropped when a message cannot be handed over.

use vstd::prelude::*;
use vstd::string::StringExecFns;
use tokio::sync::mpsc::UnboundedSender;
use crate::outside::{json_string, json_string_text, send_notification, string_from_utf8};
use crate::text::{contains_ignore_case, contains_ignoring_case, decimal, decimal_string};

verus! {

/// The word that makes a message one of the error class.
pub const ERROR_WORD: &'static str = "error";

/// A message to a subscriber.
#[derive(Debug, Clone, PartialEq)]
pub enum Notification {
    /// A message of the error class.
    Error(String),
    /// Any other message.
    Message(String),
}

/// The body of a publish request is no UTF-8 text.
#[derive(Debug, Clone, Copy, PartialEq, Eq, Structural)]
pub struct NotUtf8;

/// The message that greets the subscriber `id`.
pub open spec fn welcome_text(id: usize) -> Seq<char> {
    "User ID: "@ + decimal(id as nat)
}

/// The message that greets the subscriber `id`: it carries the identifier.
pub fn welcome_message(id: usize) -> (message: Notification)
    ensures
        message matches Notification::Message(text) && text@ == welcome_text(id),
{
    let number = decimal_string(id);
    Notification::Message("User ID: ".to_owned().concat(number.as_str()))
}

/// A published text is of the error class: it holds the word "error", in
/// whatever letter case.
pub open spec fn is_error_class(text: Seq<char>) -> bool {
    contains_ignoring_case(text, ERROR_WORD@)
}

/// Whether a published text is of the error class.
pub fn classify(text: &str) -> (error_class: bool)
    ensures
        error_class == is_error_class(text@),
{
    contains_ignore_case(text, ERROR_WORD)
}

/// The message that goes out for the published text `text`, whose
/// encoded form is `payload`.
pub fn notification_of(text: &str, payload: String) -> (message: Notification)
    ensures
        is_error_class(text@) ==> message == Notification::Error(payload),
        !is_error_class(text@) ==> message == Notification::Message(payload),
{
    if classify(text) {
        Notification::Error(payload)
    } else {
        Notification::Message(payload)
    }
}

/// The message that goes out for the published text `text`: the text as a
/// JSON string, tagged with its class. There is none where the text cannot
/// be encoded.
pub fn build_notification(text: &str) -> (message: Option<Notification>)
    ensures
        match json_string_text(text@) {
            Some(payload) => message matches Some(m) && if is_error_class(text@) {
                m matches Notification::Error(p) && p@ == payload
            } else {
                m matches Notification::Message(p) && p@ == payload
            },
            None => message.is_none(),
        },
{
    match json_string(text) {
        Some(payload) => Some(notification_of(text, payload)),
        None => None,
    }
}

/// The name of the event under which a message is pushed to a subscriber.
pub open spec fn event_name(message: Notification) -> Seq<char> {
    match message {
        Notification::Error(_) => "ERROR"@,
        Notification::Message(_) => "INFO"@,
    }
}

/// The data of the event under which a message is pushed to a subscriber.
pub open spec fn event_data(message: Notification) -> Seq<char> {
    match message {
        Notification::Error(text) => text@,
        Notification::Message(text) => text@,
    }
}

/// The event that pushes `message` to a subscriber: its name and its data.
pub fn event_of(message: Notification) -> (event: (String, String))
    ensures
        event.0@ == event_name(message),
        event.1@ == event_data(message),
{
    match message {
        Notification::Error(text) => ("ERROR".to_owned(), text),
        Notification::Message(text) => ("INFO".to_owned(), text),
    }
}

/// The text of the body of a publish request.
pub fn message_text(body: Vec<u8>) -> (text: Result<String, NotUtf8>)
    ensures
        text.is_ok() == vstd::utf8::valid_utf8(body@),
        text matches Ok(s) ==> vstd::utf8::encode_utf8(s@) == body@,
{
    match string_from_utf8(body) {
        Some(s) => Ok(s),
        None => Err(NotUtf8),
    }
}

/// A copy of a message.
pub fn copy_notification(message: &Notification) -> (out: Notification)
    ensures
        out == *message,
{
    match message {
        Notification::Error(text) => Notification::Error(text.clone()),
        Notification::Message(text) => Notification::Message(text.clone()),
    }
}

/// A connected subscriber: its identifier and the channel to it.
pub struct Subscriber {
    pub id: usize,
    pub channel: UnboundedSender<Notification>,
}

/// What the hub knows: the identifier that the next subscriber gets, and
/// the identifiers of the connected subscribers in the order in which they
/// connected.
pub struct HubState {
    pub next_id: usize,
    pub ids: Seq<usize>,
}

/// The identifiers are in rising order and below `next_id`: none was
/// given out twice, and none that is still to come is in use.
pub open spec fn ids_in_order(state: HubState) -> bool {
    &&& state.next_id >= 1
    &&& forall|i: int| 0 <= i < state.ids.len() ==> 1 <= #[trigger] state.ids[i] < state.next_id
    &&& forall|i: int, j: int| 0 <= i < j < state.ids.len() ==> state.ids[i] < state.ids[j]
}

/// The identifiers, of `ids`, of the subscribers that took the message.
pub open spec fn retained(ids: Seq<usize>, delivered: Seq<bool>) -> Seq<usize>
    decreases ids.len(),
{
    if ids.len() == 0 || delivered.len() < ids.len() {
        ids
    } else {
        let rest = retained(ids.drop_last(), delivered.subrange(0, ids.len() - 1));
        if delivered[ids.len() - 1] {
            rest.push(ids.last())
        } else {
            rest
        }
    }
}

/// The registry of connected subscribers.
pub struct Subscribers {
    next_id: usize,
    entries: Vec<Subscriber>,
}

impl View for Subscribers {
    type V = HubState;

    closed spec fn view(&self) -> HubState {
        HubState { next_id: self.next_id, ids: self.entries@.map_values(|s: Subscriber| s.id) }
    }
}

impl Subscribers {
    #[verifier::type_invariant]
    spec fn well_formed(&self) -> bool {
        ids_in_order(self@)
    }

    /// A registry without subscribers. The first identifier is 1.
    pub fn new() -> (hub: Subscribers)
        ensures
            hub@.next_id == 1,
            hub@.ids == Seq::<usize>::empty(),
    {
        let hub = Subscribers { next_id: 1, entries: Vec::new() };
        assert(hub@.ids =~= Seq::<usize>::empty());
        hub
    }

    /// The number of connected subscribers. Their identifiers are in
    /// rising order, and below the next one to be given out.
    pub fn len(&self) -> (n: usize)
        ensures
            n == self@.ids.len(),
            ids_in_order(self@),
    {
        proof {
            use_type_invariant(self);
        }
        self.entries.len()
    }

    /// The identifier that the next subscriber gets.
    pub fn next_id(&self) -> (id: usize)
        ensures
            id == self@.next_id,
    {
        self.next_id
    }

    /// The identifier of the subscriber at `i`.
    pub fn id_at(&self, i: usize) -> (id: usize)
        requires
            i < self@.ids.len(),
        ensures
            id == self@.ids[i as int],
    {
        self.entries[i].id
    }

    /// Whether the subscriber `id` is connected.
    pub fn is_connected(&self, id: usize) -> (connected: bool)
        ensures
            connected == self@.ids.contains(id),
    {
        let mut i: usize = 0;
        while i < self.entries.len()
            invariant
                i <= self.entries.len(),
                self@.ids.len() == self.entries.len(),
                forall|j: int| 0 <= j < i ==> self@.ids[j] != id,
            decreases self.entries.len() - i,
        {
            if self.entries[i].id == id {
                assert(self@.ids[i as int] == id);
                return true;
            }
            i = i + 1;
        }
        false
    }

    /// Drops the subscribers that did not take a message. `delivered`
    /// says, for each subscriber in order, whether it took it; flags beyond
    /// the last subscriber count for nothing, and with fewer flags than
    /// subscribers nobody is dropped.
    pub fn retain_delivered(&mut self, delivered: &Vec<bool>)
        ensures
            final(self)@.next_id == old(self)@.next_id,
            final(self)@.ids == retained(old(self)@.ids, delivered@),
    {
        proof {
            use_type_invariant(&*self);
        }
        let ghost before = self@;
        if delivered.len() < self.entries.len() {
            return ;
        }
        let mut entries: Vec<Subscriber> = Vec::new();
        std::mem::swap(&mut entries, &mut self.entries);
        let ghost all = entries@;
        let ghost ids = all.map_values(|s: Subscriber| s.id);
        assert(ids == before.ids);
        let ghost flags = delivered@.subrange(0, ids.len() as int);
        let mut kept: Vec<Subscriber> = Vec::new();
        assert(ids.subrange(0, 0) =~= Seq::<usize>::empty());
        assert(kept@.map_values(|s: Subscriber| s.id) =~= Seq::<usize>::empty());
        let mut pos: usize = 0;
        for entry in it: entries.into_iter()
            invariant
                it.seq() == all,
                pos == it.index(),
                ids == all.map_values(|s: Subscriber| s.id),
                delivered@.len() >= all.len(),
                flags == delivered@.subrange(0, ids.len() as int),
                kept@.map_values(|s: Subscriber| s.id) == retained(
                    ids.subrange(0, it.index() as int),
                    flags.subrange(0, it.index() as int),
                ),
        {
            let ghost k = it.index() as int;
            let ghost done = kept@.map_values(|s: Subscriber| s.id);
            proof {
                assert(ids.subrange(0, k + 1).drop_last() =~= ids.subrange(0, k));
                assert(flags.subrange(0, k + 1).subrange(0, k) =~= flags.subrange(0, k));
                assert(ids.subrange(0, k + 1).last() == entry.id);
            }
            let took = delivered[pos];
            assert(pos < delivered.len());
            if took {
                kept.push(entry);
                assert(kept@.map_values(|s: Subscriber| s.id) =~= done.push(entry.id));
            }
            pos = pos + 1;
        }
        proof {
            assert(ids.subrange(0, ids.len() as int) =~= ids);
            assert(flags.subrange(0, ids.len() as int) =~= flags);
            lemma_retained_flags(before.ids, delivered@);
            lemma_retained(before.ids, flags);
            let out = retained(before.ids, delivered@);
            assert forall|i: int| 0 <= i < out.len() implies 1 <= #[trigger] out[i]
                < before.next_id by {
                let j = choose|j: int| 0 <= j < before.ids.len() && before.ids[j] == out[i];
            }
        }
        self.entries = kept;
    }

    /// Hands a copy of `message` to every subscriber, and drops those that
    /// did not take it. The report says, for each subscriber that was
    /// connected, in order, whether it took the message.
    pub fn broadcast(&mut self, message: &Notification) -> (report: Vec<bool>)
        ensures
            report@.len() == old(self)@.ids.len(),
            final(self)@.next_id == old(self)@.next_id,
            final(self)@.ids == retained(old(self)@.ids, report@),
    {
        let mut report: Vec<bool> = Vec::new();
        let n = self.entries.len();
        let mut i: usize = 0;
        while i < n
            invariant
                i <= n,
                n == self.entries.len(),
                report@.len() == i,
            decreases n - i,
        {
            let delivered = send_notification(&self.entries[i].channel, copy_notification(message));
            report.push(delivered);
            i = i + 1;
        }
        self.retain_delivered(&report);
        report
    }

    /// Hands a copy of `message` to every subscriber but `sender`, and
    /// drops those that did not take it. In the report, `sender` counts
    /// as one that took it.
    pub fn broadcast_from(&mut self, sender: usize, message: &Notification) -> (report: Vec<bool>)
        ensures
            report@.len() == old(self)@.ids.len(),
            final(self)@.next_id == old(self)@.next_id,
            final(self)@.ids == retained(old(self)@.ids, report@),
            forall|i: int|
                0 <= i < report@.len() && old(self)@.ids[i] == sender ==> #[trigger] report@[i],
    {
        let mut report: Vec<bool> = Vec::new();
        let n = self.entries.len();
        let mut i: usize = 0;
        while i < n
            invariant
                i <= n,
                n == self.entries.len(),
                report@.len() == i,
                forall|k: int| 0 <= k < i && self@.ids[k] == sender ==> #[trigger] report@[k],
            decreases n - i,
        {
            let delivered = if self.entries[i].id == sender {
                true
            } else {
                send_notification(&self.entries[i].channel, copy_notification(message))
            };
            report.push(delivered);
            i = i + 1;
        }
        self.retain_delivered(&report);
        report
    }

    /// Registers a subscriber: gives it the next identifier, greets it
    /// over its channel with a message that carries the identifier, and
    /// keeps the channel. There is no identifier left once the counter
    /// has reached the largest number; nothing changes then.
    pub fn connect(&mut self, channel: UnboundedSender<Notification>) -> (id: Option<usize>)
        ensures
            match id {
                Some(new_id) => {
                    &&& new_id == old(self)@.next_id
                    &&& final(self)@.next_id == new_id + 1
                    &&& final(self)@.ids == old(self)@.ids.push(new_id)
                },
                None => old(self)@.next_id == usize::MAX && final(self)@ == old(self)@,
            },
    {
        proof {
            use_type_invariant(&*self);
        }
        let ghost before = self@;
        if self.next_id == usize::MAX {
            return None;
        }
        let id = self.next_id;
        let _ = send_notification(&channel, welcome_message(id));
        let mut entries: Vec<Subscriber> = Vec::new();
        std::mem::swap(&mut entries, &mut self.entries);
        assert(self@.ids =~= Seq::<usize>::empty());
        self.next_id = id + 1;
        assert(self@.ids =~= Seq::<usize>::empty());
        let ghost ids = entries@.map_values(|s: Subscriber| s.id);
        assert(ids == before.ids);
        entries.push(Subscriber { id, channel });
        let ghost after = entries@.map_values(|s: Subscriber| s.id);
        assert(after =~= ids.push(id));
        proof {
            assert forall|i: int| 0 <= i < after.len() implies 1 <= #[trigger] after[i] < id + 1 by {
                if i < ids.len() {
                    assert(after[i] == before.ids[i]);
                }
            }
            assert forall|i: int, j: int| 0 <= i < j < after.len() implies after[i] < after[j] by {
                assert(after[i] == before.ids[i]);
                if j < ids.len() {
                    assert(after[j] == before.ids[j]);
                }
            }
        }
        self.entries = entries;
        Some(id)
    }
}

/// A new subscriber has connected over `channel`: it is registered under
/// the next identifier and greeted with it.
pub fn subscriber_connected(subscribers: &mut Subscribers, channel: UnboundedSender<Notification>) -> (id: Option<usize>)
    ensures
        match id {
            Some(new_id) => {
                &&& new_id == old(subscribers)@.next_id
                &&& final(subscribers)@.next_id == new_id + 1
                &&& final(subscribers)@.ids == old(subscribers)@.ids.push(new_id)
            },
            None => old(subscribers)@.next_id == usize::MAX && final(subscribers)@ == old(
                subscribers,
            )@,
        },
{
    subscribers.connect(channel)
}

/// The text that the subscriber `id` says to the others.
pub open spec fn relayed_text(id: usize, msg: Seq<char>) -> Seq<char> {
    "<Subscriber#"@ + decimal(id as nat) + ">: "@ + msg
}

/// The message with which the subscriber `id` says `msg` to the others.
pub fn relayed_message(id: usize, msg: &str) -> (message: Notification)
    ensures
        message matches Notification::Message(text) && text@ == relayed_text(id, msg@),
{
    let number = decimal_string(id);
    let text = "<Subscriber#".to_owned().concat(number.as_str()).concat(">: ").concat(msg);
    Notification::Message(text)
}

/// Sends what the subscriber `id` says to every other subscriber, and
/// drops those that did not take it. The report says, for each
/// subscriber that was connected, in order, whether it stays.
pub fn _build_notification(id: usize, msg: String, users: &mut Subscribers) -> (report: Vec<bool>)
    ensures
        report@.len() == old(users)@.ids.len(),
        final(users)@.next_id == old(users)@.next_id,
        final(users)@.ids == retained(old(users)@.ids, report@),
        forall|i: int| 0 <= i < report@.len() && old(users)@.ids[i] == id ==> #[trigger] report@[i],
{
    let message = relayed_message(id, msg.as_str());
    users.broadcast_from(id, &message)
}

/// A report that says of `n` subscribers that each took the message.
fn all_delivered(n: usize) -> (report: Vec<bool>)
    ensures
        report@.len() == n,
        forall|i: int| 0 <= i < n ==> report@[i],
{
    let mut report: Vec<bool> = Vec::new();
    let mut i: usize = 0;
    while i < n
        invariant
            i <= n,
            report@.len() == i,
            forall|k: int| 0 <= k < i ==> report@[k],
        decreases n - i,
    {
        report.push(true);
        i = i + 1;
    }
    report
}

/// Publishes `msg`: hands it, as a JSON string tagged with its class, to
/// every subscriber, and drops those that did not take it. The report
/// says, for each subscriber that was connected, in order, whether it
/// stays. Nothing is raised to the publisher. A text that cannot be
/// encoded goes to nobody, and everybody stays.
pub fn build_fan_notifications(msg: String, users: &mut Subscribers) -> (report: Vec<bool>)
    ensures
        report@.len() == old(users)@.ids.len(),
        final(users)@.next_id == old(users)@.next_id,
        final(users)@.ids == retained(old(users)@.ids, report@),
        json_string_text(msg@).is_none() ==> final(users)@.ids == old(users)@.ids,
{
    match build_notification(msg.as_str()) {
        Some(message) => users.broadcast(&message),
        None => {
            let n = users.len();
            let report = all_delivered(n);
            proof {
                lemma_all_retained(users@.ids, report@);
            }
            report
        },
    }
}

/// Where every subscriber took the message, everybody stays.
pub proof fn lemma_all_retained(ids: Seq<usize>, delivered: Seq<bool>)
    requires
        delivered.len() == ids.len(),
        forall|i: int| 0 <= i < delivered.len() ==> delivered[i],
    ensures
        retained(ids, delivered) == ids,
    decreases ids.len(),
{
    if ids.len() > 0 {
        let n = ids.len() - 1;
        lemma_all_retained(ids.drop_last(), delivered.subrange(0, n));
        assert(ids.drop_last().push(ids.last()) =~= ids);
    }
}

/// A subscriber whose channel did not take a message is gone after the
/// broadcast, and one whose channel took it is still there. No
/// identifier is ever given to a second subscriber.
pub proof fn lemma_failed_subscriber_is_evicted(state: HubState, delivered: Seq<bool>, i: int)
    requires
        ids_in_order(state),
        delivered.len() == state.ids.len(),
        0 <= i < state.ids.len(),
    ensures
        retained(state.ids, delivered).contains(state.ids[i]) == delivered[i],
        ids_in_order(HubState { next_id: state.next_id, ids: retained(state.ids, delivered) }),
    decreases state.ids.len(),
{
    let ids = state.ids;
    let n = ids.len() - 1;
    let rest_ids = ids.drop_last();
    let rest_flags = delivered.subrange(0, n);
    let rest = retained(rest_ids, rest_flags);
    let out = retained(ids, delivered);
    lemma_retained(ids, delivered);
    lemma_retained(rest_ids, rest_flags);
    assert forall|k: int| 0 <= k < out.len() implies 1 <= #[trigger] out[k] < state.next_id by {
        let j = choose|j: int| k <= j < ids.len() && ids[j] == out[k];
    }
    if i == n {
        if delivered[n] {
            assert(out[out.len() - 1] == ids[n]);
        } else {
            if out.contains(ids[n]) {
                let k = choose|k: int| 0 <= k < rest.len() && rest[k] == ids[n];
                let j = choose|j: int| k <= j < rest_ids.len() && rest_ids[j] == rest[k];
                assert(ids[j] < ids[n]);
            }
        }
    } else {
        let rest_state = HubState { next_id: state.next_id, ids: rest_ids };
        assert(ids_in_order(rest_state)) by {
            assert forall|a: int| 0 <= a < rest_ids.len() implies 1 <= #[trigger] rest_ids[a]
                < state.next_id by {
                assert(rest_ids[a] == ids[a]);
            }
            assert forall|a: int, b: int| 0 <= a < b < rest_ids.len() implies rest_ids[a]
                < rest_ids[b] by {
                assert(rest_ids[a] == ids[a] && rest_ids[b] == ids[b]);
            }
        }
        lemma_failed_subscriber_is_evicted(rest_state, rest_flags, i);
        assert(rest_ids[i] == ids[i]);
        assert(rest_flags[i] == delivered[i]);
        if rest.contains(ids[i]) {
            let k = choose|k: int| 0 <= k < rest.len() && rest[k] == ids[i];
            assert(out[k] == ids[i]);
        }
        if out.contains(ids[i]) {
            let k = choose|k: int| 0 <= k < out.len() && out[k] == ids[i];
            if k < rest.len() {
                assert(rest[k] == ids[i]);
            } else {
                assert(out[k] == ids[n]);
                assert(ids[i] < ids[n]);
            }
        }
    }
}

/// Flags beyond the last subscriber count for nothing.
pub proof fn lemma_retained_flags(ids: Seq<usize>, delivered: Seq<bool>)
    requires
        delivered.len() >= ids.len(),
    ensures
        retained(ids, delivered) == retained(ids, delivered.subrange(0, ids.len() as int)),
{
    if ids.len() > 0 {
        let n = ids.len() as int;
        assert(delivered.subrange(0, n).subrange(0, n - 1) =~= delivered.subrange(0, n - 1));
    }
}

/// What is retained is a part of what there was, in the same order: every
/// identifier that is retained was there, and a rising order stays one.
pub proof fn lemma_retained(ids: Seq<usize>, delivered: Seq<bool>)
    requires
        delivered.len() == ids.len(),
    ensures
        retained(ids, delivered).len() <= ids.len(),
        forall|i: int|
            0 <= i < retained(ids, delivered).len() ==> exists|j: int|
                i <= j < ids.len() && ids[j] == #[trigger] retained(ids, delivered)[i],
        (forall|i: int, j: int| 0 <= i < j < ids.len() ==> ids[i] < ids[j]) ==> (forall|
            i: int,
            j: int,
        |
            0 <= i < j < retained(ids, delivered).len() ==> retained(ids, delivered)[i] < retained(
                ids,
                delivered,
            )[j]),
    decreases ids.len(),
{
    if ids.len() > 0 {
        let n = ids.len() - 1;
        let rest_ids = ids.drop_last();
        let rest_flags = delivered.subrange(0, n);
        lemma_retained(rest_ids, rest_flags);
        let rest = retained(rest_ids, rest_flags);
        let out = retained(ids, delivered);
        assert forall|i: int| 0 <= i < out.len() implies exists|j: int|
            i <= j < ids.len() && ids[j] == #[trigger] out[i] by {
            if i < rest.len() {
                let j = choose|j: int| i <= j < rest_ids.len() && rest_ids[j] == rest[i];
                assert(ids[j] == out[i]);
            } else {
                assert(ids[n] == out[i]);
            }
        }
        if forall|i: int, j: int| 0 <= i < j < ids.len() ==> ids[i] < ids[j] {
            assert forall|i: int, j: int| 0 <= i < j < rest_ids.len() implies rest_ids[i]
                < rest_ids[j] by {
                assert(rest_ids[i] == ids[i] && rest_ids[j] == ids[j]);
            }
            assert forall|i: int, j: int| 0 <= i < j < out.len() implies out[i] < out[j] by {
                if j < rest.len() {
                    assert(out[i] == rest[i] && out[j] == rest[j]);
                } else {
                    let k = choose|k: int| i <= k < rest_ids.len() && rest_ids[k] == rest[i];
                    assert(ids[k] == out[i]);
                    assert(out[j] == ids[n]);
                }
            }
        }
    }
}

} // verus!
