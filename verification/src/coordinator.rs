//! The admission pipeline: rate check, content check, commit.
//!
//! The coordinator owns the rate limiter, the deduplication cache and the
//! message log, and is the only writer of all three. A submission is judged
//! as it was submitted: the rate check keys the submitted sender name and
//! the content check sees the submitted content; only the message that is
//! committed to the log is HTML-escaped, so stored and rendered values
//! match. The simulated processing delay between the checks and the commit
//! is the surrounding application's business; it must hold no lock while
//! waiting.

use vstd::prelude::*;

use crate::dedup::{accept_decision, accept_next, ContentDeduplicator};
use crate::escape::{html_escape_text, html_escaped};
use crate::message_log::{Message, MessageLog, MessageView};
use crate::rate_limiter::{allow_decision, allow_next, window_of, RateLimiter, SenderWindow};

verus! {

/// Why a submission was turned away: the sender exceeded its request quota
/// inside the window, or the content was too long or a recent duplicate
/// (the two causes are deliberately not told apart).
#[derive(Clone, Copy, PartialEq, Eq, Structural, Debug)]
pub enum AdmissionError {
    RateLimited,
    Rejected,
}

/// The outcome of one submission against the given limiter and cache
/// states: rate-limited senders are turned away first, then unacceptable
/// contents; everything else is accepted. Both checks judge the texts as
/// they were submitted, before any escaping.
pub open spec fn submit_result(
    limiter: Map<Seq<char>, SenderWindow>,
    cache: Seq<Seq<char>>,
    sender: Seq<char>,
    content: Seq<char>,
    now: u64,
) -> Result<(), AdmissionError> {
    if !allow_decision(window_of(limiter, sender), now) {
        Result::Err(AdmissionError::RateLimited)
    } else if !accept_decision(cache, content) {
        Result::Err(AdmissionError::Rejected)
    } else {
        Result::Ok(())
    }
}

/// The cache after one submission: consulted, and hence possibly changed,
/// only when the rate check passed.
pub open spec fn submit_cache_next(
    limiter: Map<Seq<char>, SenderWindow>,
    cache: Seq<Seq<char>>,
    sender: Seq<char>,
    content: Seq<char>,
    now: u64,
) -> Seq<Seq<char>> {
    if allow_decision(window_of(limiter, sender), now) {
        accept_next(cache, content)
    } else {
        cache
    }
}

/// The log after one submission: the escaped message at the end on
/// success, untouched otherwise.
pub open spec fn submit_log_next(
    limiter: Map<Seq<char>, SenderWindow>,
    cache: Seq<Seq<char>>,
    log: Seq<MessageView>,
    sender: Seq<char>,
    content: Seq<char>,
    now: u64,
) -> Seq<MessageView> {
    if submit_result(limiter, cache, sender, content, now) is Ok {
        log.push(MessageView { sender: html_escaped(sender), content: html_escaped(content) })
    } else {
        log
    }
}

/// A content longer than `MAX_MESSAGE_LENGTH` is never committed,
/// whatever the cache holds: as long as the sender passes the rate check,
/// the outcome is `Rejected`. (A sender that is already rate-limited is
/// turned away as `RateLimited` before the content is looked at.)
pub proof fn lemma_long_content_rejected(
    limiter: Map<Seq<char>, SenderWindow>,
    cache: Seq<Seq<char>>,
    sender: Seq<char>,
    content: Seq<char>,
    now: u64,
)
    requires
        content.len() > crate::dedup::MAX_MESSAGE_LENGTH,
        allow_decision(window_of(limiter, sender), now),
    ensures
        submit_result(limiter, cache, sender, content, now) == Result::<
            (),
            AdmissionError,
        >::Err(AdmissionError::Rejected),
{
}

/// Orchestrates the admission pipeline and owns the three stateful
/// resources; nothing else may mutate them.
pub struct ChatCoordinator {
    limiter: RateLimiter,
    cache: ContentDeduplicator,
    log: MessageLog,
}

impl ChatCoordinator {
    /// The rate limiter's abstract state.
    pub closed spec fn limiter_view(&self) -> Map<Seq<char>, SenderWindow> {
        self.limiter@
    }

    /// The deduplication cache's abstract state.
    pub closed spec fn cache_view(&self) -> Seq<Seq<char>> {
        self.cache@
    }

    /// The message log's abstract state.
    pub closed spec fn log_view(&self) -> Seq<MessageView> {
        self.log@
    }

    /// Well-formed coordinator: both owned checkers are well formed.
    pub closed spec fn wf(&self) -> bool {
        self.limiter.wf() && self.cache.wf()
    }

    /// A fresh coordinator: no sender known, nothing remembered, empty log.
    pub fn new() -> (r: ChatCoordinator)
        ensures
            r.wf(),
            r.limiter_view() == Map::<Seq<char>, SenderWindow>::empty(),
            r.cache_view() == Seq::<Seq<char>>::empty(),
            r.log_view() == Seq::<MessageView>::empty(),
    {
        ChatCoordinator {
            limiter: RateLimiter::new(),
            cache: ContentDeduplicator::new(),
            log: MessageLog::new(),
        }
    }

    /// Run one submission through the pipeline at time `now`: charge the
    /// sender's rate window, consult the cache, and on success escape both
    /// texts and commit the escaped message.
    pub fn submit(&mut self, sender: &String, content: &String, now: u64) -> (r: Result<
        (),
        AdmissionError,
    >)
        requires
            old(self).wf(),
        ensures
            final(self).wf(),
            r == submit_result(
                old(self).limiter_view(),
                old(self).cache_view(),
                sender@,
                content@,
                now,
            ),
            final(self).limiter_view() == allow_next(
                old(self).limiter_view(),
                sender@,
                now,
            ),
            final(self).cache_view() == submit_cache_next(
                old(self).limiter_view(),
                old(self).cache_view(),
                sender@,
                content@,
                now,
            ),
            final(self).log_view() == submit_log_next(
                old(self).limiter_view(),
                old(self).cache_view(),
                old(self).log_view(),
                sender@,
                content@,
                now,
            ),
    {
        if !self.limiter.allow(sender, now) {
            return Result::Err(AdmissionError::RateLimited);
        }
        if !self.cache.accept(content) {
            return Result::Err(AdmissionError::Rejected);
        }
        let escaped_sender = html_escape_text(sender.as_str());
        let escaped_content = html_escape_text(content.as_str());
        self.log.append(Message { sender: escaped_sender, content: escaped_content });
        Result::Ok(())
    }

    /// A consistent, point-in-time copy of the whole log, oldest first.
    pub fn snapshot(&self) -> (r: Vec<Message>)
        ensures
            r@.map_values(|m: Message| m@) == self.log_view(),
    {
        self.log.snapshot()
    }
}

} // verus!
