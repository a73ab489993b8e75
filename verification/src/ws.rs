//! Event subscriptions of a WebSocket connection.
use vstd::prelude::*;
use vstd::string::StringExecFns;

verus! {

/// A subscription request: a channel and an id within it.
#[derive(Debug)]
pub struct EventSubscription {
    pub channel: String,
    pub id: u16,
}

/// The channel whose events a connection can subscribe to.
pub const BOOKABLES_CHANNEL: &'static str = "bookables";

/// The subscriptions of one connection.
#[derive(Debug)]
pub struct Subscriptions {
    entries: Vec<(String, i32)>,
}

pub open spec fn sub_views(v: Seq<(String, i32)>) -> Seq<(Seq<char>, i32)> {
    v.map_values(|e: (String, i32)| (e.0@, e.1))
}

impl View for Subscriptions {
    type V = Set<(Seq<char>, i32)>;

    closed spec fn view(&self) -> Set<(Seq<char>, i32)> {
        sub_views(self.entries@).to_set()
    }
}

impl Subscriptions {
    /// No subscriptions.
    pub fn new() -> (s: Subscriptions)
        ensures
            s@ == Set::<(Seq<char>, i32)>::empty(),
    {
        let s = Subscriptions { entries: Vec::new() };
        assert(s@ =~= Set::<(Seq<char>, i32)>::empty());
        s
    }

    /// Records a subscription. A new subscription to the bookables channel
    /// is to be forwarded to it (`Some` with the id); repeated ones and
    /// other channels are not.
    pub fn subscribe(&mut self, sub: &EventSubscription) -> (forward: Option<i32>)
        ensures
            final(self)@ == subscribed_after(old(self)@, sub.channel@, sub.id as i32),
            forward is Some <==> forwards(old(self)@, sub.channel@, sub.id as i32),
            forward matches Some(id) ==> id == sub.id as i32,
    {
        let id: i32 = sub.id as i32;
        let ghost key = (sub.channel@, id);
        let mut i: usize = 0;
        while i < self.entries.len()
            invariant
                0 <= i <= self.entries@.len(),
                key == (sub.channel@, sub.id as i32),
                id == sub.id as i32,
                self.entries@ == old(self).entries@,
                forall|k: int| 0 <= k < i ==> #[trigger] sub_views(self.entries@)[k] != key,
            decreases self.entries@.len() - i,
        {
            if self.entries[i].1 == id && self.entries[i].0 == sub.channel {
                proof {
                    assert(sub_views(self.entries@)[i as int] == key);
                    assert(self@.contains(key));
                    assert(self@.insert(key) =~= self@);
                }
                return None;
            }
            assert(sub_views(self.entries@)[i as int] != key);
            i = i + 1;
        }
        proof {
            assert(!sub_views(self.entries@).contains(key));
        }
        let ghost before = self.entries@;
        self.entries.push((sub.channel.clone(), id));
        proof {
            broadcast use vstd::seq_lib::group_seq_properties;

            assert(sub_views(self.entries@) =~= sub_views(before).push(key));
            assert(sub_views(self.entries@).to_set() =~= sub_views(before).to_set().insert(key));
        }
        let bookables = String::from_str(BOOKABLES_CHANNEL);
        if sub.channel == bookables {
            Some(id)
        } else {
            None
        }
    }
}

/// The subscriptions after `(channel, id)` is asked for.
pub open spec fn subscribed_after(subs: Set<(Seq<char>, i32)>, channel: Seq<char>, id: i32) -> Set<
    (Seq<char>, i32),
> {
    subs.insert((channel, id))
}

/// Whether asking for `(channel, id)` is passed on to the bookables channel:
/// only a first request on that channel is.
pub open spec fn forwards(subs: Set<(Seq<char>, i32)>, channel: Seq<char>, id: i32) -> bool {
    !subs.contains((channel, id)) && channel == BOOKABLES_CHANNEL@
}

/// A subscription is forwarded to the bookables channel at most once per
/// connection: asking again for what was asked before changes nothing and
/// is not forwarded, however many requests came in between.
pub proof fn law_subscription_forwarded_once(
    subs: Set<(Seq<char>, i32)>,
    channel: Seq<char>,
    id: i32,
    later: Seq<(Seq<char>, i32)>,
)
    ensures
        !forwards(subscribed_after(subs, channel, id), channel, id),
        subscribed_after(subscribed_after(subs, channel, id), channel, id) == subscribed_after(
            subs,
            channel,
            id,
        ),
        !forwards(replay(subscribed_after(subs, channel, id), later), channel, id),
{
    assert(subscribed_after(subscribed_after(subs, channel, id), channel, id) =~= subscribed_after(
        subs,
        channel,
        id,
    ));
    lemma_replay_keeps(subscribed_after(subs, channel, id), later, (channel, id));
}

/// The subscriptions after a run of requests, in order.
pub open spec fn replay(subs: Set<(Seq<char>, i32)>, reqs: Seq<(Seq<char>, i32)>) -> Set<
    (Seq<char>, i32),
>
    decreases reqs.len(),
{
    if reqs.len() == 0 {
        subs
    } else {
        replay(subscribed_after(subs, reqs[0].0, reqs[0].1), reqs.drop_first())
    }
}

proof fn lemma_replay_keeps(subs: Set<(Seq<char>, i32)>, reqs: Seq<(Seq<char>, i32)>, key: (Seq<char>, i32))
    requires
        subs.contains(key),
    ensures
        replay(subs, reqs).contains(key),
    decreases reqs.len(),
{
    if reqs.len() > 0 {
        lemma_replay_keeps(subscribed_after(subs, reqs[0].0, reqs[0].1), reqs.drop_first(), key);
    }
}

} // verus!
