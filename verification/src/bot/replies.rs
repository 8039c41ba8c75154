//! Correlates asynchronous game chat replies with HTTP control requests.
//!
//! A request waits for the reply with its tag and is known by a ticket. Replies
//! are collected for the caller, who hands each to the request with its ticket, and
//! who says when a request does not listen any more.

use vstd::prelude::*;

verus! {

/// Who waits for a reply, and whether somebody still listens for it.
#[derive(Clone, Copy, Debug, PartialEq, Eq, Structural)]
pub struct Waiter {
    pub ticket: u64,
    pub listening: bool,
}

/// A request that waits for a reply.
pub struct Waiting {
    tag: String,
    waiter: Waiter,
}

/// A reply for the request with the given ticket.
pub struct Delivery {
    pub ticket: u64,
    pub payload: String,
}

/// The requests that wait for replies, one per tag.
pub struct PendingReplies {
    waiting: Vec<Waiting>,
    next_ticket: u64,
    delivered: Vec<Delivery>,
}

/// The value of a [`PendingReplies`].
pub ghost struct RepliesView {
    /// Who waits for each tag.
    pub waiting: Map<Seq<char>, Waiter>,
    pub next_ticket: u64,
    /// Tickets with their replies, in the order of arrival.
    pub delivered: Seq<(u64, Seq<char>)>,
}

spec fn has_tag(waiting: Seq<Waiting>, tag: Seq<char>) -> bool {
    exists|i: int| 0 <= i < waiting.len() && (#[trigger] waiting[i]).tag@ == tag
}

spec fn tag_at(waiting: Seq<Waiting>, tag: Seq<char>) -> int {
    choose|i: int| 0 <= i < waiting.len() && (#[trigger] waiting[i]).tag@ == tag
}

spec fn waiting_map(waiting: Seq<Waiting>) -> Map<Seq<char>, Waiter> {
    Map::new(|t: Seq<char>| has_tag(waiting, t), |t: Seq<char>| waiting[tag_at(waiting, t)].waiter)
}

spec fn tags_differ(waiting: Seq<Waiting>) -> bool {
    forall|i: int, j: int|
        0 <= i < j < waiting.len() ==> (#[trigger] waiting[i]).tag@ != (#[trigger] waiting[j]).tag@
}

pub open spec fn registered(r: RepliesView, tag: Seq<char>) -> RepliesView {
    RepliesView {
        waiting: r.waiting.insert(tag, Waiter { ticket: r.next_ticket, listening: true }),
        next_ticket: if r.next_ticket == u64::MAX {
            0
        } else {
            (r.next_ticket + 1) as u64
        },
        ..r
    }
}

/// Somebody listens for the reply with the given tag.
pub open spec fn listened_for(r: RepliesView, tag: Seq<char>) -> bool {
    r.waiting.dom().contains(tag) && r.waiting[tag].listening
}

/// A reply reaches the request that waits for its tag, if that still listens. The
/// request then waits no more.
pub open spec fn resolved(r: RepliesView, tag: Seq<char>, payload: Seq<char>) -> RepliesView {
    if r.waiting.dom().contains(tag) {
        RepliesView {
            waiting: r.waiting.remove(tag),
            delivered: if listened_for(r, tag) {
                r.delivered.push((r.waiting[tag].ticket, payload))
            } else {
                r.delivered
            },
            ..r
        }
    } else {
        r
    }
}

/// The waiter, not listening any more if it has the given ticket.
pub open spec fn hung_up_waiter(w: Waiter, ticket: u64) -> Waiter {
    Waiter { listening: w.listening && w.ticket != ticket, ..w }
}

/// The request with the given ticket does not listen any more; its tag stays taken.
pub open spec fn hung_up(r: RepliesView, ticket: u64) -> RepliesView {
    RepliesView { waiting: r.waiting.map_values(|w: Waiter| hung_up_waiter(w, ticket)), ..r }
}

pub open spec fn cancelled(r: RepliesView, tag: Seq<char>) -> RepliesView {
    RepliesView { waiting: r.waiting.remove(tag), ..r }
}

proof fn waiting_map_at(waiting: Seq<Waiting>, i: int)
    requires
        tags_differ(waiting),
        0 <= i < waiting.len(),
    ensures
        waiting_map(waiting).dom().contains(waiting[i].tag@),
        waiting_map(waiting)[waiting[i].tag@] == waiting[i].waiter,
{
    let tag = waiting[i].tag@;
    assert(has_tag(waiting, tag));
    let j = tag_at(waiting, tag);
    assert(0 <= j < waiting.len() && waiting[j].tag@ == tag);
    if i < j {
        assert(waiting[i].tag@ != waiting[j].tag@);
    } else if j < i {
        assert(waiting[j].tag@ != waiting[i].tag@);
    }
}

proof fn waiting_map_push(waiting: Seq<Waiting>, entry: Waiting)
    requires
        tags_differ(waiting),
        !has_tag(waiting, entry.tag@),
    ensures
        tags_differ(waiting.push(entry)),
        waiting_map(waiting.push(entry)) == waiting_map(waiting).insert(entry.tag@, entry.waiter),
{
    let after = waiting.push(entry);
    assert forall|i: int, j: int| 0 <= i < j < after.len() implies (#[trigger] after[i]).tag@ != (
    #[trigger] after[j]).tag@ by {
        assert(waiting[i].tag@ != entry.tag@);
    }
    let left = waiting_map(after);
    let right = waiting_map(waiting).insert(entry.tag@, entry.waiter);
    assert forall|t: Seq<char>| left.dom().contains(t) implies #[trigger] right.dom().contains(t)
        && left[t] == right[t] by {
        let i = tag_at(after, t);
        assert(after[i].tag@ == t);
        waiting_map_at(after, i);
        if i < waiting.len() {
            waiting_map_at(waiting, i);
            assert(waiting[i].tag@ != entry.tag@);
        }
    }
    assert forall|t: Seq<char>| right.dom().contains(t) implies #[trigger] left.dom().contains(t) by {
        if t == entry.tag@ {
            assert(after[waiting.len() as int].tag@ == t);
        } else {
            let i = tag_at(waiting, t);
            assert(after[i].tag@ == t);
        }
    }
    assert(left =~= right);
}

proof fn waiting_map_remove(waiting: Seq<Waiting>, i: int)
    requires
        tags_differ(waiting),
        0 <= i < waiting.len(),
    ensures
        tags_differ(waiting.remove(i)),
        waiting_map(waiting.remove(i)) == waiting_map(waiting).remove(waiting[i].tag@),
{
    let rest = waiting.remove(i);
    assert forall|m: int, n: int| 0 <= m < n < rest.len() implies (#[trigger] rest[m]).tag@ != (
    #[trigger] rest[n]).tag@ by {
        let x = if m < i { m } else { m + 1 };
        let y = if n < i { n } else { n + 1 };
        assert(waiting[x].tag@ != waiting[y].tag@);
    }
    let left = waiting_map(rest);
    let right = waiting_map(waiting).remove(waiting[i].tag@);
    assert forall|t: Seq<char>| left.dom().contains(t) implies #[trigger] right.dom().contains(t)
        && left[t] == right[t] by {
        let m = tag_at(rest, t);
        assert(rest[m].tag@ == t);
        waiting_map_at(rest, m);
        let x = if m < i { m } else { m + 1 };
        waiting_map_at(waiting, x);
        if x < i {
            assert(waiting[x].tag@ != waiting[i].tag@);
        } else {
            assert(waiting[i].tag@ != waiting[x].tag@);
        }
    }
    assert forall|t: Seq<char>| right.dom().contains(t) implies #[trigger] left.dom().contains(t) by {
        let x = tag_at(waiting, t);
        assert(waiting[x].tag@ == t);
        let m = if x < i { x } else { x - 1 };
        assert(rest[m].tag@ == t);
    }
    assert(left =~= right);
}

proof fn waiting_map_hung_up(before: Seq<Waiting>, after: Seq<Waiting>, ticket: u64)
    requires
        tags_differ(before),
        after.len() == before.len(),
        forall|k: int| 0 <= k < before.len() ==> (#[trigger] after[k]).tag@ == before[k].tag@,
        forall|k: int|
            0 <= k < before.len() ==> (#[trigger] after[k]).waiter == hung_up_waiter(
                before[k].waiter,
                ticket,
            ),
    ensures
        tags_differ(after),
        waiting_map(after) == waiting_map(before).map_values(
            |w: Waiter| hung_up_waiter(w, ticket),
        ),
{
    assert forall|i: int, j: int| 0 <= i < j < after.len() implies (#[trigger] after[i]).tag@ != (
    #[trigger] after[j]).tag@ by {
        assert(before[i].tag@ != before[j].tag@);
    }
    let left = waiting_map(after);
    let right = waiting_map(before).map_values(|w: Waiter| hung_up_waiter(w, ticket));
    assert forall|t: Seq<char>| left.dom().contains(t) implies #[trigger] right.dom().contains(t)
        && left[t] == right[t] by {
        let i = tag_at(after, t);
        assert(after[i].tag@ == t);
        waiting_map_at(after, i);
        waiting_map_at(before, i);
    }
    assert forall|t: Seq<char>| right.dom().contains(t) implies #[trigger] left.dom().contains(t) by {
        let i = tag_at(before, t);
        assert(before[i].tag@ == t);
        assert(after[i].tag@ == t);
    }
    assert(left =~= right);
}

impl View for PendingReplies {
    type V = RepliesView;

    closed spec fn view(&self) -> RepliesView {
        RepliesView {
            waiting: waiting_map(self.waiting@),
            next_ticket: self.next_ticket,
            delivered: self.delivered@.map_values(|d: Delivery| (d.ticket, d.payload@)),
        }
    }
}

impl PendingReplies {
    /// At most one request waits for each tag.
    pub closed spec fn wf(&self) -> bool {
        tags_differ(self.waiting@)
    }

    fn find(&self, tag: &str) -> (at: Option<usize>)
        ensures
            match at {
                Some(i) => i < self.waiting@.len() && self.waiting@[i as int].tag@ == tag@,
                None => !has_tag(self.waiting@, tag@),
            },
    {
        let wanted = tag.to_owned();
        let mut i: usize = 0;
        while i < self.waiting.len()
            invariant
                i <= self.waiting.len(),
                wanted@ == tag@,
                forall|k: int| 0 <= k < i ==> (#[trigger] self.waiting@[k]).tag@ != tag@,
            decreases self.waiting.len() - i,
        {
            if self.waiting[i].tag == wanted {
                return Some(i);
            }
            i = i + 1;
        }
        None
    }

    /// Waits for the next reply with the given tag; `None` where a request waits
    /// for it already.
    pub fn register(&mut self, tag: &str) -> (ticket: Option<u64>)
        requires
            old(self).wf(),
        ensures
            final(self).wf(),
            match ticket {
                Some(t) => !old(self)@.waiting.dom().contains(tag@) && t == old(self)@.next_ticket
                    && final(self)@ == registered(old(self)@, tag@),
                None => old(self)@.waiting.dom().contains(tag@) && final(self)@ == old(self)@,
            },
    {
        if self.find(tag).is_some() {
            return None;
        }
        let ticket: u64 = self.next_ticket;
        self.next_ticket = self.next_ticket.wrapping_add(1);
        let entry = Waiting { tag: tag.to_owned(), waiter: Waiter { ticket, listening: true } };
        proof {
            waiting_map_push(self.waiting@, entry);
        }
        self.waiting.push(entry);
        Some(ticket)
    }

    /// Delivers a reply; false where nobody listens for it.
    pub fn resolve(&mut self, tag: &str, payload: String) -> (found: bool)
        requires
            old(self).wf(),
        ensures
            final(self).wf(),
            found == listened_for(old(self)@, tag@),
            final(self)@ == resolved(old(self)@, tag@, payload@),
    {
        match self.find(tag) {
            Some(i) => {
                proof {
                    waiting_map_at(self.waiting@, i as int);
                    waiting_map_remove(self.waiting@, i as int);
                }
                let waiter: Waiter = self.waiting.remove(i).waiter;
                if waiter.listening {
                    self.delivered.push(Delivery { ticket: waiter.ticket, payload });
                    assert(self@.delivered =~= old(self)@.delivered.push(
                        (waiter.ticket, payload@),
                    ));
                }
                waiter.listening
            },
            None => false,
        }
    }

    /// Notes that the request with the given ticket does not listen any more.
    pub fn hang_up(&mut self, ticket: u64)
        requires
            old(self).wf(),
        ensures
            final(self).wf(),
            final(self)@ == hung_up(old(self)@, ticket),
    {
        let ghost before = self.waiting@;
        let mut i: usize = 0;
        while i < self.waiting.len()
            invariant
                i <= self.waiting@.len() == before.len(),
                before == old(self).waiting@,
                self.next_ticket == old(self).next_ticket,
                self.delivered == old(self).delivered,
                forall|k: int|
                    0 <= k < before.len() ==> (#[trigger] self.waiting@[k]).tag@ == before[k].tag@,
                forall|k: int|
                    0 <= k < i ==> (#[trigger] self.waiting@[k]).waiter == hung_up_waiter(
                        before[k].waiter,
                        ticket,
                    ),
                forall|k: int|
                    i <= k < before.len() ==> (#[trigger] self.waiting@[k]).waiter
                        == before[k].waiter,
            decreases self.waiting.len() - i,
        {
            if self.waiting[i].waiter.ticket == ticket {
                let tag = self.waiting[i].tag.clone();
                self.waiting[i] = Waiting { tag, waiter: Waiter { ticket, listening: false } };
            }
            i = i + 1;
        }
        proof {
            waiting_map_hung_up(before, self.waiting@, ticket);
        }
    }

    /// Gives a request up.
    pub fn cancel(&mut self, tag: &str)
        requires
            old(self).wf(),
        ensures
            final(self).wf(),
            final(self)@ == cancelled(old(self)@, tag@),
    {
        match self.find(tag) {
            Some(i) => {
                proof {
                    waiting_map_remove(self.waiting@, i as int);
                }
                self.waiting.remove(i);
            },
            None => {
                assert(self@.waiting.remove(tag@) =~= self@.waiting);
            },
        }
    }

    /// Hands out the replies that have arrived.
    pub fn take_delivered(&mut self) -> (out: Vec<Delivery>)
        requires
            old(self).wf(),
        ensures
            final(self).wf(),
            out@.map_values(|d: Delivery| (d.ticket, d.payload@)) == old(self)@.delivered,
            final(self)@ == (RepliesView { delivered: seq![], ..old(self)@ }),
    {
        let mut out: Vec<Delivery> = Vec::new();
        out.append(&mut self.delivered);
        assert(out@ =~= old(self).delivered@);
        assert(self@.delivered =~= seq![]);
        out
    }
}

impl Default for PendingReplies {
    fn default() -> (r: Self)
        ensures
            r.wf(),
            r@ == (RepliesView { waiting: Map::empty(), next_ticket: 0, delivered: seq![] }),
    {
        let r = PendingReplies { waiting: Vec::new(), next_ticket: 0, delivered: Vec::new() };
        assert(r@.waiting =~= Map::empty());
        assert(r@.delivered =~= seq![]);
        r
    }
}

/// A reply goes to the one request that registered for its tag, and only the first
/// reply does: a later one with the same tag changes nothing.
pub proof fn reply_is_delivered_once(
    r: RepliesView,
    tag: Seq<char>,
    payload: Seq<char>,
    late: Seq<char>,
)
    ensures
        ({
            let after = resolved(registered(r, tag), tag, payload);
            &&& after.delivered == r.delivered.push((r.next_ticket, payload))
            &&& !after.waiting.dom().contains(tag)
            &&& resolved(after, tag, late) == after
        }),
{
}

/// A reply leaves the requests that wait for other tags alone.
pub proof fn reply_leaves_other_requests(
    r: RepliesView,
    tag: Seq<char>,
    payload: Seq<char>,
    other: Seq<char>,
)
    requires
        other != tag,
    ensures
        resolved(r, tag, payload).waiting.dom().contains(other) == r.waiting.dom().contains(other),
        r.waiting.dom().contains(other) ==> resolved(r, tag, payload).waiting[other]
            == r.waiting[other],
{
}

/// Once a request does not listen any more its reply reaches nobody, and its tag is
/// free again only after that reply or after it was given up.
pub proof fn reply_to_nobody_is_dropped(
    r: RepliesView,
    tag: Seq<char>,
    payload: Seq<char>,
)
    ensures
        ({
            let waiting = registered(r, tag);
            let left = hung_up(waiting, r.next_ticket);
            let after = resolved(left, tag, payload);
            &&& left.waiting.dom().contains(tag)
            &&& !listened_for(left, tag)
            &&& after.delivered == r.delivered
            &&& !after.waiting.dom().contains(tag)
            &&& !cancelled(left, tag).waiting.dom().contains(tag)
        }),
{
}

/// Every request gets a ticket of its own, the next one in order, and takes over its tag; other
/// tags are left alone, and nothing is delivered by asking.
pub proof fn requests_get_tickets_in_order(r: RepliesView, tag: Seq<char>, other: Seq<char>)
    requires
        r.next_ticket < u64::MAX,
        other != tag,
    ensures
        ({
            let after = registered(r, tag);
            &&& after.next_ticket == r.next_ticket + 1
            &&& after.waiting.dom().contains(tag)
            &&& after.waiting[tag].ticket == r.next_ticket
            &&& listened_for(after, tag)
            &&& after.delivered == r.delivered
            &&& after.waiting.dom().contains(other) == r.waiting.dom().contains(other)
            &&& r.waiting.dom().contains(other) ==> after.waiting[other] == r.waiting[other]
        }),
{
}

/// Whoever gives up, or stops listening, is the only one to miss a reply.
pub proof fn giving_up_concerns_nobody_else(
    r: RepliesView,
    tag: Seq<char>,
    other: Seq<char>,
    ticket: u64,
)
    requires
        other != tag,
        r.waiting.dom().contains(other),
    ensures
        cancelled(r, tag).waiting.dom().contains(other),
        cancelled(r, tag).waiting[other] == r.waiting[other],
        !cancelled(r, tag).waiting.dom().contains(tag),
        cancelled(r, tag).delivered == r.delivered,
        hung_up(r, ticket).waiting.dom() =~= r.waiting.dom(),
        hung_up(r, ticket).waiting[other].ticket == r.waiting[other].ticket,
        listened_for(hung_up(r, ticket), other) <==> listened_for(r, other)
            && r.waiting[other].ticket != ticket,
        hung_up(r, ticket).delivered == r.delivered,
{
}

} // verus!
