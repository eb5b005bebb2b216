//! The test runner. A `Server` keeps the state of one benchmarking session:
//! the configured peer, the per-message deadline, the handshake token and
//! whether the handshake has completed. The caller owns the sockets; it
//! performs the handshake exchange and the per-message sends and receives,
//! judging each reply with the session functions, and hands the runner the
//! per-message results. The runner folds them into ordered, well-formed
//! outcomes: zero outcomes when the handshake failed, and exactly one
//! outcome per test, in input order, when it succeeded.

use vstd::prelude::*;

use crate::addr::NetAddress;
use crate::outcome::Test;
use crate::outcome::TestData;
use crate::outcome::TestSpec;
use crate::outcome::count_some;
use crate::outcome::dropped_of;
use crate::outcome::lemma_count_some_le_len;
use crate::outcome::lemma_total_of_bound;
use crate::outcome::total_of;
use crate::outcome::wf_test_data;

verus! {

/// An error that stops the whole run before any test executes.
#[derive(Clone, Copy, PartialEq, Eq, Structural, Debug)]
pub enum FatalError {
    /// The transport could not be set up at session construction.
    Connect,
    /// The handshake token was not echoed back correctly in time.
    Handshake,
}

/// The default per-message deadline: ten seconds, in nanoseconds.
pub const DEFAULT_TIMEOUT_NANOS: u64 = 10_000_000_000;

/// True iff the peer's reply completes the handshake: exactly the whole
/// token was read back, byte for byte.
pub open spec fn handshake_ok(token: Seq<u8>, reply: Seq<u8>, n_read: int) -> bool {
    n_read == token.len() && reply == token
}

/// The state of one benchmarking session.
pub struct Server {
    /// The configured peer: the only source a UDP reply is accepted from.
    pub peer: NetAddress,
    /// The per-message deadline, in nanoseconds.
    pub timeout_nanos: u64,
    /// The handshake token the peer must echo back before any test runs.
    pub token: Vec<u8>,
    /// Whether the handshake has completed.
    pub handshaken: bool,
}

fn bytes_equal(a: &Vec<u8>, b: &Vec<u8>) -> (r: bool)
    ensures
        r == (a@ == b@),
{
    if a.len() != b.len() {
        return false;
    }
    let mut i: usize = 0;
    while i < a.len()
        invariant
            i <= a@.len(),
            a@.len() == b@.len(),
            forall|j: int| 0 <= j < i ==> a@[j] == b@[j],
        decreases a@.len() - i,
    {
        if a[i] != b[i] {
            return false;
        }
        i = i + 1;
    }
    proof {
        assert(a@ =~= b@);
    }
    true
}

fn copy_durations(v: &Vec<Option<u64>>) -> (r: Vec<Option<u64>>)
    ensures
        r@ == v@,
{
    let mut r: Vec<Option<u64>> = Vec::new();
    let mut i: usize = 0;
    while i < v.len()
        invariant
            i <= v@.len(),
            r@ == v@.take(i as int),
        decreases v@.len() - i,
    {
        r.push(v[i]);
        proof {
            assert(v@.take(i as int) + seq![v@[i as int]] =~= v@.take(i + 1));
        }
        i = i + 1;
    }
    proof {
        assert(v@.take(v@.len() as int) =~= v@);
    }
    r
}

impl Server {
    /// Creates a fresh, not yet handshaken session state for one run. The
    /// peer address, deadline and handshake token are deployment
    /// configuration, injected here rather than fixed at compile time.
    pub fn new(peer: NetAddress, timeout_nanos: u64, token: Vec<u8>) -> (r: Server)
        ensures
            r.peer == peer,
            r.timeout_nanos == timeout_nanos,
            r.token@ == token@,
            !r.handshaken,
    {
        Server { peer, timeout_nanos, token, handshaken: false }
    }

    /// Judges the peer's reply to the handshake token. The session counts as
    /// handshaken exactly when the whole token was read back unchanged;
    /// anything else is fatal and leaves the session unusable for tests.
    pub fn handshake(&mut self, reply: &Vec<u8>, n_read: usize) -> (r: Result<(), FatalError>)
        ensures
            (r is Ok) == handshake_ok(old(self).token@, reply@, n_read as int),
            final(self).handshaken == (r is Ok),
            final(self).peer == old(self).peer,
            final(self).timeout_nanos == old(self).timeout_nanos,
            final(self).token@ == old(self).token@,
    {
        let len_ok = n_read == self.token.len();
        let content_ok = bytes_equal(reply, &self.token);
        if len_ok && content_ok {
            self.handshaken = true;
            Ok(())
        } else {
            self.handshaken = false;
            Err(FatalError::Handshake)
        }
    }

    /// Folds one test's per-message results into its outcome.
    fn fold_outcome(&self, test: Test, results: Vec<Option<u64>>) -> (r: TestData)
        requires
            results@.len() == test.spec_of().num_messages,
        ensures
            wf_test_data(r),
            r.test == test,
            r.individual_durations@ == results@,
    {
        let ghost rq = results@;
        let mut dropped_messages: Vec<u32> = Vec::new();
        let mut total: u128 = 0;
        let mut i: usize = 0;
        while i < results.len()
            invariant
                i <= rq.len(),
                rq.len() <= u32::MAX,
                results@ == rq,
                dropped_messages@ == dropped_of(rq.take(i as int)),
                total == total_of(rq.take(i as int)),
            decreases rq.len() - i,
        {
            proof {
                assert(rq.take(i + 1).drop_last() =~= rq.take(i as int));
                assert(rq.take(i + 1).last() == rq[i as int]);
                lemma_total_of_bound(rq.take(i + 1));
                lemma_count_some_le_len(rq.take(i + 1));
                assert(count_some(rq.take(i + 1)) * (u64::MAX as int) <= (i + 1) * (
                u64::MAX as int)) by (nonlinear_arith)
                    requires
                        count_some(rq.take(i + 1)) <= i + 1,
                ;
                assert((i + 1) * (u64::MAX as int) < u128::MAX) by (nonlinear_arith)
                    requires
                        i + 1 <= usize::MAX,
                ;
            }
            match results[i] {
                Some(d) => {
                    total = total + d as u128;
                    proof {
                        assert(dropped_of(rq.take(i + 1)) =~= dropped_of(rq.take(i as int)));
                    }
                },
                None => {
                    dropped_messages.push(i as u32);
                    proof {
                        assert(dropped_of(rq.take(i + 1)) =~= dropped_of(rq.take(i as int))
                            + seq![i as u32]);
                    }
                },
            }
            i = i + 1;
        }
        proof {
            assert(rq.take(rq.len() as int) =~= rq);
        }
        TestData { total_duration: total, individual_durations: results, test, dropped_messages }
    }

    /// Produces the outcome of one test from its per-message results: the
    /// entries are kept in send order and the drop accounting and total
    /// follow the shape invariant.
    pub fn run_test(&self, test: Test, results: Vec<Option<u64>>) -> (r: TestData)
        requires
            self.handshaken,
            results@.len() == test.spec_of().num_messages,
        ensures
            wf_test_data(r),
            r.test == test,
            r.individual_durations@ == results@,
    {
        match test {
            Test::UdpTest(spec) => self.run_udp_test(spec, results),
            Test::TcpTest(spec) => self.run_tcp_test(spec, results),
        }
    }

    /// The UDP per-test executor's accounting half.
    pub fn run_udp_test(&self, test_spec: TestSpec, results: Vec<Option<u64>>) -> (r: TestData)
        requires
            self.handshaken,
            results@.len() == test_spec.num_messages,
        ensures
            wf_test_data(r),
            r.test == Test::UdpTest(test_spec),
            r.individual_durations@ == results@,
    {
        self.fold_outcome(Test::UdpTest(test_spec), results)
    }

    /// The TCP per-test executor's accounting half; the algorithm is the
    /// same as over UDP, only the session underneath differs.
    pub fn run_tcp_test(&self, test_spec: TestSpec, results: Vec<Option<u64>>) -> (r: TestData)
        requires
            self.handshaken,
            results@.len() == test_spec.num_messages,
        ensures
            wf_test_data(r),
            r.test == Test::TcpTest(test_spec),
            r.individual_durations@ == results@,
    {
        self.fold_outcome(Test::TcpTest(test_spec), results)
    }

    /// Runs a whole benchmark matrix over the per-message results the caller
    /// collected. Without a completed handshake no outcomes are produced and
    /// the run fails; with one, the input tests yield exactly one well-formed
    /// outcome each, in input order.
    pub fn run_tests(&self, tests: Vec<Test>, transcript: Vec<Vec<Option<u64>>>) -> (r: Result<
        Vec<TestData>,
        FatalError,
    >)
        requires
            self.handshaken ==> {
                &&& transcript@.len() == tests@.len()
                &&& forall|i: int|
                    0 <= i < tests@.len() ==> transcript@[i]@.len()
                        == tests@[i].spec_of().num_messages
            },
        ensures
            (r is Ok) == self.handshaken,
            r is Err ==> r->Err_0 == FatalError::Handshake,
            r is Ok ==> {
                &&& r->Ok_0@.len() == tests@.len()
                &&& forall|i: int|
                    0 <= i < tests@.len() ==> {
                        &&& wf_test_data(#[trigger] r->Ok_0@[i])
                        &&& r->Ok_0@[i].test == tests@[i]
                        &&& r->Ok_0@[i].individual_durations@ == transcript@[i]@
                    }
            },
    {
        if !self.handshaken {
            return Err(FatalError::Handshake);
        }
        let mut out: Vec<TestData> = Vec::new();
        let mut i: usize = 0;
        while i < tests.len()
            invariant
                self.handshaken,
                i <= tests@.len(),
                transcript@.len() == tests@.len(),
                forall|j: int|
                    0 <= j < tests@.len() ==> transcript@[j]@.len()
                        == tests@[j].spec_of().num_messages,
                out@.len() == i,
                forall|j: int|
                    0 <= j < i ==> {
                        &&& wf_test_data(#[trigger] out@[j])
                        &&& out@[j].test == tests@[j]
                        &&& out@[j].individual_durations@ == transcript@[j]@
                    },
            decreases tests@.len() - i,
        {
            let t = tests[i];
            let results = copy_durations(&transcript[i]);
            let data = self.run_test(t, results);
            out.push(data);
            i = i + 1;
        }
        Ok(out)
    }
}

} // verus!
