//! How often the creation of a session is tried.
use vstd::prelude::*;

use crate::text;

verus! {

/// How many failures are put up with.
pub const MAX_SESSION_CREATE_RETRIES: u32 = 30;

/// The pause between two tries, in seconds.
pub const SESSION_CREATE_RETRY_DELAY: u64 = 30;

/// The pause after a session conflict, in seconds.
pub const SESSION_CONFLICT_DELAY: u64 = 5;

/// What follows a failed try.
#[derive(Debug, Clone, Copy, PartialEq, Eq, Structural)]
pub enum SessionStep {
    /// Another runner holds the session: wait this many seconds and try again.
    Conflict(u64),
    /// Wait this many seconds and try again; the first number counts the failures.
    Retry(u32, u64),
    /// Give up.
    GiveUp,
}

/// The error is that another runner holds the session.
pub open spec fn is_conflict(error: Seq<char>) -> bool {
    text::occurs(error, "409"@) || text::occurs(error, "Conflict"@)
}

/// What follows the failure that is counted `n`th.
pub open spec fn counted_step(n: int) -> SessionStep {
    if n >= MAX_SESSION_CREATE_RETRIES {
        SessionStep::GiveUp
    } else {
        SessionStep::Retry(n as u32, SESSION_CREATE_RETRY_DELAY)
    }
}

/// The tries of one session.
#[derive(Debug)]
pub struct SessionRetry {
    detect_conflicts: bool,
    retry_count: u32,
}

impl SessionRetry {
    #[verifier::type_invariant]
    spec fn inv(self) -> bool {
        self.retry_count <= MAX_SESSION_CREATE_RETRIES
    }

    /// Whether conflicts are told from other failures.
    pub closed spec fn detects(self) -> bool {
        self.detect_conflicts
    }

    /// How many failures were counted.
    pub closed spec fn failures(self) -> int {
        self.retry_count as int
    }

    /// No try has failed yet.
    pub fn new(detect_conflicts: bool) -> (r: Self)
        ensures
            r.detects() == detect_conflicts,
            r.failures() == 0,
    {
        SessionRetry { detect_conflicts, retry_count: 0 }
    }

    /// Takes the text of the error that a try ended with. A conflict is waited out as often
    /// as it takes; other failures are counted, and the last of them is final.
    pub fn failed(&mut self, error: &str) -> (r: SessionStep)
        ensures
            final(self).detects() == old(self).detects(),
            if old(self).detects() && is_conflict(error@) {
                &&& r == SessionStep::Conflict(SESSION_CONFLICT_DELAY)
                &&& final(self).failures() == old(self).failures()
            } else {
                &&& r == counted_step(old(self).failures() + 1)
                &&& final(self).failures() == if old(self).failures()
                    < MAX_SESSION_CREATE_RETRIES {
                    old(self).failures() + 1
                } else {
                    old(self).failures()
                }
            },
    {
        proof {
            use_type_invariant(&*self);
        }
        if self.detect_conflicts && (text::contains(error, "409") || text::contains(
            error,
            "Conflict",
        )) {
            return SessionStep::Conflict(SESSION_CONFLICT_DELAY);
        }
        if self.retry_count < MAX_SESSION_CREATE_RETRIES {
            self.retry_count = self.retry_count + 1;
        }
        if self.retry_count >= MAX_SESSION_CREATE_RETRIES {
            SessionStep::GiveUp
        } else {
            SessionStep::Retry(self.retry_count, SESSION_CREATE_RETRY_DELAY)
        }
    }
}

/// How many of the errors are counted.
pub open spec fn counted(errors: Seq<Seq<char>>, detect: bool) -> int
    decreases errors.len(),
{
    if errors.len() == 0 {
        0
    } else {
        counted(errors.drop_last(), detect) + if detect && is_conflict(errors.last()) {
            0int
        } else {
            1
        }
    }
}

/// Conflicts alone never exhaust the tries, however many they are.
pub proof fn law_conflicts_do_not_count(errors: Seq<Seq<char>>)
    requires
        forall|i: int| 0 <= i < errors.len() ==> is_conflict(#[trigger] errors[i]),
    ensures
        counted(errors, true) == 0,
    decreases errors.len(),
{
    if errors.len() > 0 {
        let front = errors.drop_last();
        assert forall|i: int| 0 <= i < front.len() implies is_conflict(#[trigger] front[i]) by {
            assert(front[i] == errors[i]);
        }
        law_conflicts_do_not_count(front);
        assert(is_conflict(errors[errors.len() - 1]));
    }
}

/// Where conflicts are not told apart, every failure counts, and the thirtieth is the last.
pub proof fn law_every_failure_counts(errors: Seq<Seq<char>>)
    ensures
        counted(errors, false) == errors.len(),
        counted_step(counted(errors, false)) == SessionStep::GiveUp <==> errors.len()
            >= MAX_SESSION_CREATE_RETRIES,
    decreases errors.len(),
{
    if errors.len() > 0 {
        law_every_failure_counts(errors.drop_last());
    }
}

/// Every counted failure before the thirtieth is followed by another try after half a
/// minute, and says how many there were; from the thirtieth on the runner gives up.
pub proof fn law_tries_again_until_the_limit(n: int)
    requires
        0 < n <= u32::MAX,
    ensures
        n < 30 ==> counted_step(n) == SessionStep::Retry(n as u32, 30),
        n >= 30 ==> counted_step(n) == SessionStep::GiveUp,
{
}

/// An error is a conflict wherever in its text the status or its name stands, and not
/// otherwise.
pub proof fn law_conflict_by_text(before: Seq<char>, after: Seq<char>, error: Seq<char>)
    ensures
        is_conflict(before + "409"@ + after),
        is_conflict(before + "Conflict"@ + after),
        !text::occurs(error, "409"@) && !text::occurs(error, "Conflict"@) ==> !is_conflict(error),
{
    let n = before.len() as int;
    let a = before + "409"@ + after;
    assert(a.subrange(n, n + "409"@.len()) == "409"@);
    assert(text::occurs_at(a, "409"@, n));
    let b = before + "Conflict"@ + after;
    assert(b.subrange(n, n + "Conflict"@.len()) == "Conflict"@);
    assert(text::occurs_at(b, "Conflict"@, n));
}

} // verus!
