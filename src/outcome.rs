//! Classifying what a state-changing submission did, from the events that its
//! confirmed transaction emitted.

use vstd::prelude::*;
use crate::error::Error;
use crate::word::Word;

verus! {

/// An event log emitted by a confirmed transaction, as far as classification cares.
#[derive(Debug, Clone, PartialEq, Eq)]
pub enum LogEvent {
    /// Resources were allocated at once: these application ids on these ports.
    Deployed { ids: Vec<u64>, ports: Vec<u16> },
    /// The request waits in the contract's queue for free capacity.
    Enqueued,
    /// The entity already exists; nothing was changed.
    AlreadyRegistered,
    /// A log of any other event.
    Other,
}

/// What a submission came to.
#[derive(Debug, Clone, PartialEq, Eq)]
pub enum Outcome {
    /// Broadcast, with no confirmation asked for.
    Sent(Word),
    /// Confirmed, with resources allocated at once.
    Deployed { ids: Vec<u64>, ports: Vec<u16>, tx: Word },
    /// Confirmed, and queued by the contract for later allocation.
    Enqueued(Word),
    /// The entity already existed.
    AlreadyRegistered,
}

/// The next thing to do for a submission after it was broadcast.
#[derive(Debug, Clone, PartialEq, Eq)]
pub enum Step {
    /// Nothing more: this is the outcome.
    Finished(Outcome),
    /// Wait until the transaction with this hash is included, then classify its logs.
    AwaitInclusion(Word),
}

pub open spec fn is_recognized(e: LogEvent) -> bool {
    !(e is Other)
}

/// Number of recognized events in `s`.
pub open spec fn recognized_count(s: Seq<LogEvent>) -> nat
    decreases s.len(),
{
    if s.len() == 0 {
        0
    } else {
        recognized_count(s.drop_last()) + if is_recognized(s.last()) {
            1nat
        } else {
            0nat
        }
    }
}

/// The outcome a single recognized event of transaction `tx` stands for.
pub open spec fn outcome_of(e: LogEvent, tx: Word) -> Outcome {
    match e {
        LogEvent::Deployed { ids, ports } => Outcome::Deployed { ids, ports, tx },
        LogEvent::Enqueued => Outcome::Enqueued(tx),
        _ => Outcome::AlreadyRegistered,
    }
}

/// Classification of the events of confirmed transaction `tx`: the outcome of
/// its one recognized event; an error when there is none, or more than one.
pub open spec fn classification(tx: Word, s: Seq<LogEvent>) -> Result<Outcome, Error> {
    if recognized_count(s) == 0 {
        Err(Error::Classification { tx })
    } else if recognized_count(s) > 1 {
        Err(Error::ConflictingEvents { tx })
    } else {
        Ok(outcome_of(s[choose|k: int| 0 <= k < s.len() && is_recognized(#[trigger] s[k])], tx))
    }
}

proof fn lemma_count_step(s: Seq<LogEvent>, i: int)
    requires
        0 <= i < s.len(),
    ensures
        recognized_count(s.subrange(0, i + 1)) == recognized_count(s.subrange(0, i)) + if is_recognized(s[i]) {
            1nat
        } else {
            0nat
        },
{
    assert(s.subrange(0, i + 1).drop_last() =~= s.subrange(0, i));
}

proof fn lemma_count_mono(s: Seq<LogEvent>, i: int, j: int)
    requires
        0 <= i <= j <= s.len(),
    ensures
        recognized_count(s.subrange(0, i)) <= recognized_count(s.subrange(0, j)),
    decreases j - i,
{
    if i < j {
        lemma_count_mono(s, i, j - 1);
        lemma_count_step(s, j - 1);
    }
}

proof fn lemma_two_recognized(s: Seq<LogEvent>, j: int, k: int)
    requires
        0 <= j < k < s.len(),
        is_recognized(s[j]),
        is_recognized(s[k]),
    ensures
        recognized_count(s) >= 2,
{
    lemma_count_step(s, j);
    lemma_count_mono(s, j + 1, k);
    lemma_count_step(s, k);
    lemma_count_mono(s, k + 1, s.len() as int);
    assert(s.subrange(0, s.len() as int) =~= s);
}

proof fn lemma_only_recognized(s: Seq<LogEvent>, k: int)
    requires
        0 <= k < s.len(),
        is_recognized(s[k]),
        recognized_count(s) <= 1,
    ensures
        forall|j: int| 0 <= j < s.len() && j != k ==> !is_recognized(#[trigger] s[j]),
        (choose|i: int| 0 <= i < s.len() && is_recognized(#[trigger] s[i])) == k,
{
    assert forall|j: int| 0 <= j < s.len() && j != k implies !is_recognized(#[trigger] s[j]) by {
        if is_recognized(s[j]) {
            if j < k {
                lemma_two_recognized(s, j, k);
            } else {
                lemma_two_recognized(s, k, j);
            }
        }
    }
}

proof fn lemma_count_none(s: Seq<LogEvent>)
    requires
        forall|j: int| 0 <= j < s.len() ==> !is_recognized(#[trigger] s[j]),
    ensures
        recognized_count(s) == 0,
    decreases s.len(),
{
    if s.len() > 0 {
        let t = s.drop_last();
        assert forall|j: int| 0 <= j < t.len() implies !is_recognized(#[trigger] t[j]) by {
            assert(t[j] == s[j]);
        }
        lemma_count_none(t);
    }
}

proof fn lemma_count_one(s: Seq<LogEvent>, k: int)
    requires
        0 <= k < s.len(),
        is_recognized(s[k]),
        forall|j: int| 0 <= j < s.len() && j != k ==> !is_recognized(#[trigger] s[j]),
    ensures
        recognized_count(s) == 1,
    decreases s.len(),
{
    let t = s.drop_last();
    if k == s.len() - 1 {
        assert forall|j: int| 0 <= j < t.len() implies !is_recognized(#[trigger] t[j]) by {
            assert(t[j] == s[j]);
        }
        lemma_count_none(t);
    } else {
        assert forall|j: int| 0 <= j < t.len() && j != k implies !is_recognized(#[trigger] t[j]) by {
            assert(t[j] == s[j]);
        }
        assert(t[k] == s[k]);
        lemma_count_one(t, k);
    }
}

/// A confirmed transaction whose logs hold exactly one recognized event is
/// classified by that event: a deployment with the event's ids and ports, an
/// enqueueing, or an already-registered signal that is no error.
pub proof fn law_single_event(tx: Word, s: Seq<LogEvent>, k: int)
    requires
        0 <= k < s.len(),
        is_recognized(s[k]),
        forall|j: int| 0 <= j < s.len() && j != k ==> !is_recognized(#[trigger] s[j]),
    ensures
        classification(tx, s) == Ok::<Outcome, Error>(outcome_of(s[k], tx)),
        s[k] matches LogEvent::Deployed { ids, ports } ==> classification(tx, s) == Ok::<
            Outcome,
            Error,
        >(Outcome::Deployed { ids, ports, tx }),
        s[k] is Enqueued ==> classification(tx, s) == Ok::<Outcome, Error>(Outcome::Enqueued(tx)),
        s[k] is AlreadyRegistered ==> classification(tx, s) == Ok::<Outcome, Error>(
            Outcome::AlreadyRegistered,
        ),
{
    lemma_count_one(s, k);
    lemma_only_recognized(s, k);
}

/// A confirmed transaction whose logs hold no recognized event is an error,
/// never a plain `Sent`.
pub proof fn law_no_event(tx: Word, s: Seq<LogEvent>)
    requires
        forall|j: int| 0 <= j < s.len() ==> !is_recognized(#[trigger] s[j]),
    ensures
        classification(tx, s) == Err::<Outcome, Error>(Error::Classification { tx }),
{
    lemma_count_none(s);
}

/// Decides what follows the broadcast of transaction `tx`.
pub fn after_broadcast(tx: Word, wait_tx_include: bool) -> (r: Step)
    ensures
        wait_tx_include ==> r == Step::AwaitInclusion(tx),
        !wait_tx_include ==> r == Step::Finished(Outcome::Sent(tx)),
{
    if wait_tx_include {
        Step::AwaitInclusion(tx)
    } else {
        Step::Finished(Outcome::Sent(tx))
    }
}

/// Classifies confirmed transaction `tx` by the event logs it emitted.
pub fn classify_logs(tx: Word, events: Vec<LogEvent>) -> (r: Result<Outcome, Error>)
    ensures
        r == classification(tx, events@),
{
    let ghost s = events@;
    let mut rest = events;
    let mut found: Option<usize> = None;
    let mut i: usize = 0;
    while i < rest.len()
        invariant
            rest@ == s,
            s == events@,
            0 <= i <= s.len(),
            recognized_count(s.subrange(0, i as int)) <= 1,
            match found {
                Some(k) => k < i && is_recognized(s[k as int]) && recognized_count(
                    s.subrange(0, i as int),
                ) == 1,
                None => recognized_count(s.subrange(0, i as int)) == 0,
            },
        decreases s.len() - i,
    {
        proof {
            lemma_count_step(s, i as int);
        }
        let recognized = match &rest[i] {
            LogEvent::Other => false,
            _ => true,
        };
        if recognized {
            if found.is_some() {
                proof {
                    lemma_count_mono(s, i + 1, s.len() as int);
                    assert(s.subrange(0, s.len() as int) =~= s);
                }
                return Err(Error::ConflictingEvents { tx });
            }
            found = Some(i);
        }
        i = i + 1;
    }
    proof {
        assert(s.subrange(0, s.len() as int) =~= s);
    }
    match found {
        None => Err(Error::Classification { tx }),
        Some(k) => {
            proof {
                lemma_only_recognized(s, k as int);
            }
            let e = rest.remove(k);
            match e {
                LogEvent::Deployed { ids, ports } => Ok(Outcome::Deployed { ids, ports, tx }),
                LogEvent::Enqueued => Ok(Outcome::Enqueued(tx)),
                _ => Ok(Outcome::AlreadyRegistered),
            }
        },
    }
}

} // verus!
