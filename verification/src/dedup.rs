//! Bounded recent-content cache that rejects repeated posts.
//!
//! The cache is a forgetful set, not an LRU: once `RECENT_MESSAGE_LIMIT`
//! distinct contents have been admitted, the next admission drops the whole
//! history at once and starts over with only the new content. A content may
//! therefore legitimately repeat right after such a clear.

use vstd::prelude::*;

verus! {

/// Longest content that may be admitted. The length is deliberately
/// measured in characters, not in encoded bytes: the limit is a bound on
/// the submitted text itself, whatever its encoding.
pub const MAX_MESSAGE_LENGTH: usize = 200;

/// Most distinct contents remembered before the cache forgets everything.
pub const RECENT_MESSAGE_LIMIT: usize = 100;

/// Whether a content is admitted against a given cache state: it must not
/// be longer than `MAX_MESSAGE_LENGTH` characters and must not be in the
/// cache.
pub open spec fn accept_decision(cache: Seq<Seq<char>>, content: Seq<char>) -> bool {
    content.len() <= MAX_MESSAGE_LENGTH && !cache.contains(content)
}

/// The cache after one acceptance attempt: a rejected content changes
/// nothing; an admitted one is remembered, alone if the cache was full.
pub open spec fn accept_next(cache: Seq<Seq<char>>, content: Seq<char>) -> Seq<Seq<char>> {
    if !accept_decision(cache, content) {
        cache
    } else if cache.len() >= RECENT_MESSAGE_LIMIT {
        seq![content]
    } else {
        cache.push(content)
    }
}

/// An accepted content is remembered, and a remembered content is turned
/// away: submitting the same content again right after it was accepted is
/// rejected, whoever submits it.
pub proof fn lemma_duplicate_rejected(cache: Seq<Seq<char>>, content: Seq<char>)
    requires
        accept_decision(cache, content),
    ensures
        accept_next(cache, content).contains(content),
        !accept_decision(accept_next(cache, content), content),
{
    let next = accept_next(cache, content);
    if cache.len() >= RECENT_MESSAGE_LIMIT {
        assert(next[0] == content);
    } else {
        assert(next[cache.len() as int] == content);
    }
}

/// Once the cache holds `RECENT_MESSAGE_LIMIT` contents, the next
/// acceptance drops the whole history: only the new content is remembered
/// afterwards, so a content admitted before the clear passes the duplicate
/// check again.
pub proof fn lemma_full_cache_clears(cache: Seq<Seq<char>>, fresh: Seq<char>, earlier: Seq<char>)
    requires
        cache.len() >= RECENT_MESSAGE_LIMIT,
        accept_decision(cache, fresh),
        cache.contains(earlier),
        earlier.len() <= MAX_MESSAGE_LENGTH,
    ensures
        accept_next(cache, fresh) == seq![fresh],
        accept_decision(accept_next(cache, fresh), earlier),
{
    assert(!seq![fresh].contains(earlier)) by {
        if seq![fresh].contains(earlier) {
            let i = choose|i: int| 0 <= i < seq![fresh].len() && seq![fresh][i] == earlier;
            assert(cache.contains(fresh));
        }
    }
}

/// Bounded recent-content cache preventing repeat posts.
pub struct ContentDeduplicator {
    items: Vec<String>,
}

impl ContentDeduplicator {
    /// The abstract state: the remembered contents, in admission order.
    pub closed spec fn view(&self) -> Seq<Seq<char>> {
        self.items@.map_values(|s: String| s@)
    }

    /// Well-formed cache: no content twice, never more than
    /// `RECENT_MESSAGE_LIMIT` of them.
    pub closed spec fn wf(&self) -> bool {
        &&& forall|i: int, j: int|
            0 <= i < j < self.items@.len() ==> self.items@[i]@ != self.items@[j]@
        &&& self.items@.len() <= RECENT_MESSAGE_LIMIT
    }

    /// A fresh cache remembers nothing.
    pub fn new() -> (r: ContentDeduplicator)
        ensures
            r.wf(),
            r@ == Seq::<Seq<char>>::empty(),
    {
        let r = ContentDeduplicator { items: Vec::new() };
        proof {
            assert(r@ =~= Seq::<Seq<char>>::empty());
        }
        r
    }

    /// Decide one content, remembering it exactly when it is admitted and
    /// clearing the whole cache first if it was full.
    pub fn accept(&mut self, content: &String) -> (r: bool)
        requires
            old(self).wf(),
        ensures
            final(self).wf(),
            r == accept_decision(old(self)@, content@),
            final(self)@ == accept_next(old(self)@, content@),
    {
        if content.as_str().unicode_len() > MAX_MESSAGE_LENGTH {
            return false;
        }
        let n = self.items.len();
        let mut i: usize = 0;
        while i < n
            invariant
                n == self.items.len(),
                i <= n,
                *self == *old(self),
                old(self).wf(),
                forall|j: int| 0 <= j < i ==> self.items@[j]@ != content@,
            decreases n - i,
        {
            if self.items[i] == *content {
                assert(old(self)@[i as int] == content@);
                return false;
            }
            i += 1;
        }
        assert(!old(self)@.contains(content@)) by {
            if old(self)@.contains(content@) {
                let j = choose|j: int| 0 <= j < old(self)@.len() && old(self)@[j] == content@;
                assert(old(self).items@[j]@ == content@);
            }
        }
        if self.items.len() >= RECENT_MESSAGE_LIMIT {
            self.items.clear();
        }
        self.items.push(content.clone());
        proof {
            assert(self@ =~= accept_next(old(self)@, content@));
        }
        true
    }
}

} // verus!
