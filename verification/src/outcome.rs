//! Test specifications and outcomes. A finished outcome keeps one optional
//! round-trip duration per message, in order; the indices of the dropped
//! messages; and the sum of the successful durations. All durations are in
//! nanoseconds.

use vstd::prelude::*;

verus! {

/// The specification of one benchmark run: how many messages to send and how
/// long each payload is.
#[derive(Clone, Copy, PartialEq, Eq, Structural, Hash, Debug)]
pub struct TestSpec {
    /// The number of messages that should be sent.
    pub num_messages: u32,
    /// The length of each message's payload, in bytes.
    pub message_len: usize,
}

/// One benchmark to run, over either a UDP or a TCP transport session.
#[derive(Clone, Copy, PartialEq, Eq, Structural, Hash, Debug)]
pub enum Test {
    UdpTest(TestSpec),
    TcpTest(TestSpec),
}

impl Test {
    /// The specification inside, whichever transport carries it.
    pub open spec fn spec_of(self) -> TestSpec {
        match self {
            Test::UdpTest(s) => s,
            Test::TcpTest(s) => s,
        }
    }
}

/// Sum of the durations of the successful entries, in nanoseconds.
pub open spec fn total_of(s: Seq<Option<u64>>) -> int
    decreases s.len(),
{
    if s.len() == 0 {
        0
    } else {
        total_of(s.drop_last()) + match s.last() {
            Some(d) => d as int,
            None => 0,
        }
    }
}

/// Number of successful entries.
pub open spec fn count_some(s: Seq<Option<u64>>) -> nat
    decreases s.len(),
{
    if s.len() == 0 {
        0
    } else {
        count_some(s.drop_last()) + if s.last() is Some {
            1nat
        } else {
            0nat
        }
    }
}

/// The indices of the dropped entries, in ascending order.
pub open spec fn dropped_of(s: Seq<Option<u64>>) -> Seq<u32>
    decreases s.len(),
{
    if s.len() == 0 {
        Seq::empty()
    } else {
        dropped_of(s.drop_last()) + if s.last() is None {
            seq![(s.len() - 1) as u32]
        } else {
            Seq::empty()
        }
    }
}

/// Data about one test that ran.
#[derive(PartialEq, Eq, Hash, Debug)]
pub struct TestData {
    /// The sum of the round-trip times of the messages that came back, in
    /// nanoseconds.
    pub total_duration: u128,
    /// The round-trip time of each message in send order, in nanoseconds;
    /// `None` marks a message that was never verified before its deadline.
    pub individual_durations: Vec<Option<u64>>,
    /// The test this outcome belongs to.
    pub test: Test,
    /// The message numbers that were dropped, in ascending order.
    pub dropped_messages: Vec<u32>,
}

/// Shape invariant of a finished outcome: one entry per message, the dropped
/// indices are exactly the `None` entries, and the total is the sum of the
/// successful durations.
pub open spec fn wf_test_data(d: TestData) -> bool {
    &&& d.individual_durations@.len() == d.test.spec_of().num_messages
    &&& d.dropped_messages@ == dropped_of(d.individual_durations@)
    &&& d.total_duration == total_of(d.individual_durations@)
}

/// Every entry of `dropped_of(s)` is an index into `s`, the entries are
/// strictly ascending, and an index appears iff its entry is `None`: the
/// dropped indices are exactly the set of unanswered messages.
pub proof fn lemma_dropped_of_characterization(s: Seq<Option<u64>>)
    requires
        s.len() <= u32::MAX,
    ensures
        forall|j: int| 0 <= j < dropped_of(s).len() ==> (dropped_of(s)[j] as int) < s.len(),
        forall|j1: int, j2: int|
            0 <= j1 < j2 < dropped_of(s).len() ==> dropped_of(s)[j1] < dropped_of(s)[j2],
        forall|i: int| 0 <= i < s.len() ==> (dropped_of(s).contains(i as u32) <==> s[i] is None),
    decreases s.len(),
{
    if s.len() > 0 {
        let pre = s.drop_last();
        lemma_dropped_of_characterization(pre);
        let d = dropped_of(s);
        let dp = dropped_of(pre);
        assert forall|i: int| 0 <= i < s.len() implies (d.contains(i as u32) <==> s[i] is None) by {
            if i < s.len() - 1 {
                assert(pre[i] == s[i]);
                if dp.contains(i as u32) {
                    let j = choose|j: int| 0 <= j < dp.len() && dp[j] == i as u32;
                    assert(d[j] == i as u32);
                }
                if d.contains(i as u32) {
                    let j = choose|j: int| 0 <= j < d.len() && d[j] == i as u32;
                    if j < dp.len() {
                        assert(dp[j] == i as u32);
                    } else {
                        assert(s.last() is None && d[j] == (s.len() - 1) as u32);
                    }
                }
            } else {
                if s[i] is None {
                    assert(d[d.len() - 1] == (s.len() - 1) as u32);
                } else {
                    if d.contains(i as u32) {
                        let j = choose|j: int| 0 <= j < d.len() && d[j] == i as u32;
                        assert(dp[j] == i as u32);
                    }
                }
            }
        }
    }
}

/// The total never exceeds the number of successful entries times the
/// largest single duration.
pub proof fn lemma_total_of_bound(s: Seq<Option<u64>>)
    ensures
        0 <= total_of(s) <= count_some(s) * (u64::MAX as int),
    decreases s.len(),
{
    if s.len() > 0 {
        lemma_total_of_bound(s.drop_last());
        if s.last() is Some {
            assert(count_some(s) * (u64::MAX as int) == count_some(s.drop_last()) * (
            u64::MAX as int) + u64::MAX) by (nonlinear_arith)
                requires
                    count_some(s) == count_some(s.drop_last()) + 1,
            ;
        }
    }
}

/// There are no more successful entries than entries.
pub proof fn lemma_count_some_le_len(s: Seq<Option<u64>>)
    ensures
        count_some(s) <= s.len(),
    decreases s.len(),
{
    if s.len() > 0 {
        lemma_count_some_le_len(s.drop_last());
    }
}

/// Shape invariant, spelled out: a well-formed outcome has one entry per
/// message, its dropped indices are exactly the indices whose entry is
/// `None`, and its total is the sum of the successful durations.
pub proof fn lemma_outcome_shape(d: TestData)
    requires
        wf_test_data(d),
    ensures
        d.individual_durations@.len() == d.test.spec_of().num_messages,
        forall|i: int|
            0 <= i < d.individual_durations@.len() ==> (d.dropped_messages@.contains(i as u32)
                <==> d.individual_durations@[i] is None),
        d.total_duration == total_of(d.individual_durations@),
{
    lemma_dropped_of_characterization(d.individual_durations@);
}

impl TestData {
    /// Mean round-trip time of the messages that came back, in nanoseconds.
    /// When every message was dropped there is no data to average, and the
    /// result is `None` rather than a division by zero.
    pub fn average_duration(&self) -> (r: Option<u128>)
        ensures
            r is Some <==> count_some(self.individual_durations@) > 0,
            r is Some ==> r->0 == total_of(self.individual_durations@) / (count_some(
                self.individual_durations@,
            ) as int),
    {
        let s = &self.individual_durations;
        let ghost sq = self.individual_durations@;
        let mut total: u128 = 0;
        let mut num_messages: usize = 0;
        let mut i: usize = 0;
        while i < s.len()
            invariant
                i <= sq.len(),
                s@ == sq,
                num_messages == count_some(sq.take(i as int)),
                total == total_of(sq.take(i as int)),
            decreases sq.len() - i,
        {
            proof {
                assert(sq.take(i + 1).drop_last() =~= sq.take(i as int));
                assert(sq.take(i + 1).last() == sq[i as int]);
                lemma_total_of_bound(sq.take(i + 1));
                lemma_count_some_le_len(sq.take(i + 1));
                assert(count_some(sq.take(i + 1)) * (u64::MAX as int) <= (i + 1) * (
                u64::MAX as int)) by (nonlinear_arith)
                    requires
                        count_some(sq.take(i + 1)) <= i + 1,
                ;
                assert((i + 1) * (u64::MAX as int) < u128::MAX) by (nonlinear_arith)
                    requires
                        i + 1 <= usize::MAX,
                ;
            }
            match s[i] {
                Some(d) => {
                    num_messages = num_messages + 1;
                    total = total + d as u128;
                },
                None => {},
            }
            i = i + 1;
        }
        proof {
            assert(sq.take(sq.len() as int) =~= sq);
        }
        if num_messages == 0 {
            None
        } else {
            Some(total / num_messages as u128)
        }
    }
}

} // verus!
