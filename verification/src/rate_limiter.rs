//! Per-sender sliding-window rate limiting.
//!
//! Each sender has at most one window, holding the time of the request that
//! opened the window and the number of requests counted inside it. A request
//! more than `TIME_WINDOW` seconds after the window opened starts a fresh
//! window; inside the window at most `REQUEST_LIMIT` requests are allowed,
//! and denied requests leave the state untouched.

use vstd::prelude::*;

verus! {

/// Most requests a sender may make inside one window.
pub const REQUEST_LIMIT: u64 = 5;

/// Length of the sliding window, in seconds.
pub const TIME_WINDOW: u64 = 60;

/// The state kept for one sender: when its current window opened and how
/// many requests have been counted in it.
#[derive(Clone, Copy, PartialEq, Eq, Structural, Debug)]
pub struct SenderWindow {
    pub last_request_time: u64,
    pub count: u64,
}

/// A window that opened at `last` is over at `now` once more than
/// `TIME_WINDOW` seconds have passed. A clock that moved backwards
/// (`now < last`) never ends a window.
pub open spec fn window_expired(last: u64, now: u64) -> bool {
    now > last && now - last > TIME_WINDOW
}

/// What the limiter knows of one sender: its window, if it has one.
pub open spec fn window_of(m: Map<Seq<char>, SenderWindow>, sender: Seq<char>) -> Option<
    SenderWindow,
> {
    if m.contains_key(sender) {
        Some(m[sender])
    } else {
        None
    }
}

/// Whether a request is allowed: always for an unknown sender or an expired
/// window, otherwise only while the window's count is below `REQUEST_LIMIT`.
pub open spec fn allow_decision(w: Option<SenderWindow>, now: u64) -> bool {
    match w {
        Option::None => true,
        Option::Some(w) => window_expired(w.last_request_time, now) || w.count < REQUEST_LIMIT,
    }
}

/// The limiter state after one request: an allowed request opens a fresh
/// window or increments the current one; a denied request changes nothing.
pub open spec fn allow_next(
    m: Map<Seq<char>, SenderWindow>,
    sender: Seq<char>,
    now: u64,
) -> Map<Seq<char>, SenderWindow> {
    match window_of(m, sender) {
        Option::None => m.insert(sender, SenderWindow { last_request_time: now, count: 1 }),
        Option::Some(w) => {
            if window_expired(w.last_request_time, now) {
                m.insert(sender, SenderWindow { last_request_time: now, count: 1 })
            } else if w.count < REQUEST_LIMIT {
                m.insert(
                    sender,
                    SenderWindow {
                        last_request_time: w.last_request_time,
                        count: (w.count + 1) as u64,
                    },
                )
            } else {
                m
            }
        },
    }
}

/// A sender unknown to the limiter may make `REQUEST_LIMIT` requests whose
/// times all lie within `TIME_WINDOW` seconds of the first; one more
/// request inside the same span is denied.
pub proof fn lemma_first_window_exhausted(
    m: Map<Seq<char>, SenderWindow>,
    s: Seq<char>,
    t1: u64,
    t2: u64,
    t3: u64,
    t4: u64,
    t5: u64,
    t6: u64,
)
    requires
        !m.contains_key(s),
        t2 <= t1 + TIME_WINDOW,
        t3 <= t1 + TIME_WINDOW,
        t4 <= t1 + TIME_WINDOW,
        t5 <= t1 + TIME_WINDOW,
        t6 <= t1 + TIME_WINDOW,
    ensures
        ({
            let m1 = allow_next(m, s, t1);
            let m2 = allow_next(m1, s, t2);
            let m3 = allow_next(m2, s, t3);
            let m4 = allow_next(m3, s, t4);
            let m5 = allow_next(m4, s, t5);
            &&& allow_decision(window_of(m, s), t1)
            &&& allow_decision(window_of(m1, s), t2)
            &&& allow_decision(window_of(m2, s), t3)
            &&& allow_decision(window_of(m3, s), t4)
            &&& allow_decision(window_of(m4, s), t5)
            &&& !allow_decision(window_of(m5, s), t6)
        }),
{
}

/// Once more than `TIME_WINDOW` seconds have passed since a sender's
/// window opened, its next request is allowed and starts a fresh window
/// counting exactly that one request.
pub proof fn lemma_window_reset(m: Map<Seq<char>, SenderWindow>, s: Seq<char>, now: u64)
    requires
        m.contains_key(s),
        now > m[s].last_request_time + TIME_WINDOW,
    ensures
        allow_decision(window_of(m, s), now),
        window_of(allow_next(m, s, now), s) == Some(
            SenderWindow { last_request_time: now, count: 1 },
        ),
{
}

/// Sliding-window request counter keyed by sender identity. Entries are
/// created lazily on a sender's first request and never removed.
pub struct RateLimiter {
    entries: Vec<(String, SenderWindow)>,
}

/// The map described by an association list: each pair in order, later
/// pairs overriding earlier ones (the limiter keeps its keys distinct, so
/// no overriding ever happens).
pub open spec fn map_of(entries: Seq<(String, SenderWindow)>) -> Map<Seq<char>, SenderWindow>
    decreases entries.len(),
{
    if entries.len() == 0 {
        Map::empty()
    } else {
        map_of(entries.drop_last()).insert(entries.last().0@, entries.last().1)
    }
}

/// No two entries name the same sender.
pub open spec fn distinct_keys(entries: Seq<(String, SenderWindow)>) -> bool {
    forall|i: int, j: int|
        0 <= i < j < entries.len() ==> entries[i].0@ != entries[j].0@
}

proof fn lemma_map_of_dom(entries: Seq<(String, SenderWindow)>, k: Seq<char>)
    ensures
        map_of(entries).contains_key(k) <==> exists|i: int|
            0 <= i < entries.len() && entries[i].0@ == k,
    decreases entries.len(),
{
    if entries.len() > 0 {
        lemma_map_of_dom(entries.drop_last(), k);
        if map_of(entries).contains_key(k) && entries.last().0@ != k {
            let i = choose|i: int| 0 <= i < entries.len() - 1 && entries.drop_last()[i].0@ == k;
            assert(entries[i].0@ == k);
        }
        if exists|i: int| 0 <= i < entries.len() && entries[i].0@ == k {
            let i = choose|i: int| 0 <= i < entries.len() && entries[i].0@ == k;
            if i < entries.len() - 1 {
                assert(entries.drop_last()[i].0@ == k);
            }
        }
    }
}

proof fn lemma_map_of_at(entries: Seq<(String, SenderWindow)>, i: int)
    requires
        distinct_keys(entries),
        0 <= i < entries.len(),
    ensures
        map_of(entries).contains_key(entries[i].0@),
        map_of(entries)[entries[i].0@] == entries[i].1,
    decreases entries.len(),
{
    if i == entries.len() - 1 {
    } else {
        lemma_map_of_at(entries.drop_last(), i);
        assert(entries.drop_last()[i] == entries[i]);
    }
}

proof fn lemma_map_of_update(entries: Seq<(String, SenderWindow)>, i: int, p: (String, SenderWindow))
    requires
        distinct_keys(entries),
        0 <= i < entries.len(),
        p.0@ == entries[i].0@,
    ensures
        map_of(entries.update(i, p)) == map_of(entries).insert(p.0@, p.1),
    decreases entries.len(),
{
    let updated = entries.update(i, p);
    if i == entries.len() - 1 {
        assert(updated.drop_last() =~= entries.drop_last());
        lemma_map_of_dom(entries.drop_last(), p.0@);
        assert(map_of(updated) =~= map_of(entries).insert(p.0@, p.1));
    } else {
        lemma_map_of_update(entries.drop_last(), i, p);
        assert(updated.drop_last() =~= entries.drop_last().update(i, p));
        assert(updated.last() == entries.last());
        assert(map_of(updated) =~= map_of(entries).insert(p.0@, p.1));
    }
}

proof fn lemma_map_of_push(entries: Seq<(String, SenderWindow)>, p: (String, SenderWindow))
    ensures
        map_of(entries.push(p)) == map_of(entries).insert(p.0@, p.1),
{
    assert(entries.push(p).drop_last() =~= entries);
    assert(entries.push(p).last() == p);
}

impl RateLimiter {
    /// The abstract state: each known sender's window.
    pub closed spec fn view(&self) -> Map<Seq<char>, SenderWindow> {
        map_of(self.entries@)
    }

    /// Well-formed limiter state: one entry per sender, and every counted
    /// window holds between 1 and `REQUEST_LIMIT` requests.
    pub closed spec fn wf(&self) -> bool {
        &&& distinct_keys(self.entries@)
        &&& forall|i: int|
            0 <= i < self.entries@.len() ==> 1 <= (#[trigger] self.entries@[i]).1.count
                <= REQUEST_LIMIT
    }

    /// A fresh limiter knows no sender.
    pub fn new() -> (r: RateLimiter)
        ensures
            r.wf(),
            r@ == Map::<Seq<char>, SenderWindow>::empty(),
    {
        RateLimiter { entries: Vec::new() }
    }

    /// Decide one request from `sender` at time `now`, updating the
    /// sender's window exactly as the decision demands.
    pub fn allow(&mut self, sender: &String, now: u64) -> (r: bool)
        requires
            old(self).wf(),
        ensures
            final(self).wf(),
            r == allow_decision(window_of(old(self)@, sender@), now),
            final(self)@ == allow_next(old(self)@, sender@, now),
    {
        let n = self.entries.len();
        let mut i: usize = 0;
        while i < n
            invariant
                n == self.entries.len(),
                i <= n,
                *self == *old(self),
                old(self).wf(),
                forall|j: int| 0 <= j < i ==> self.entries@[j].0@ != sender@,
            decreases n - i,
        {
            if self.entries[i].0 == *sender {
                proof {
                    lemma_map_of_at(self.entries@, i as int);
                }
                let last = self.entries[i].1.last_request_time;
                let count = self.entries[i].1.count;
                if now > last && now - last > TIME_WINDOW {
                    let key = self.entries[i].0.clone();
                    let fresh = SenderWindow { last_request_time: now, count: 1 };
                    proof {
                        lemma_map_of_update(self.entries@, i as int, (key, fresh));
                    }
                    self.entries.set(i, (key, fresh));
                    return true;
                } else if count < REQUEST_LIMIT {
                    let key = self.entries[i].0.clone();
                    let bumped = SenderWindow { last_request_time: last, count: count + 1 };
                    proof {
                        lemma_map_of_update(self.entries@, i as int, (key, bumped));
                    }
                    self.entries.set(i, (key, bumped));
                    return true;
                } else {
                    return false;
                }
            }
            i += 1;
        }
        proof {
            lemma_map_of_dom(self.entries@, sender@);
            lemma_map_of_push(self.entries@, (*sender, SenderWindow { last_request_time: now, count: 1 }));
        }
        self.entries.push((sender.clone(), SenderWindow { last_request_time: now, count: 1 }));
        true
    }
}

} // verus!
