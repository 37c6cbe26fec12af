//! An egress that remembers how its last connections went.

use vstd::prelude::*;
use std::collections::VecDeque;

verus! {

/// How one connection went.
#[derive(Debug, Clone, Copy, PartialEq, Eq, Structural)]
pub struct Stat {
    /// How long it took, in milliseconds.
    pub delay_ms: u64,
    /// Whether it failed.
    pub error: bool,
}

/// What the last connections tell.
#[derive(Debug, Clone, Copy, PartialEq, Eq, Structural)]
pub struct Report {
    /// The mean delay, in milliseconds, rounded down.
    pub avg_delay_ms: u64,
    /// How many of a hundred failed, rounded down.
    pub error_rate_percent: usize,
}

/// How many connections are remembered.
pub const MAX_STATS: usize = 100;

/// The sum of the delays.
pub open spec fn total_delay(stats: Seq<Stat>) -> nat
    decreases stats.len(),
{
    if stats.len() == 0 {
        0
    } else {
        total_delay(stats.drop_last()) + stats.last().delay_ms as nat
    }
}

/// The number of failures.
pub open spec fn error_count(stats: Seq<Stat>) -> nat
    decreases stats.len(),
{
    if stats.len() == 0 {
        0
    } else {
        error_count(stats.drop_last()) + if stats.last().error { 1nat } else { 0nat }
    }
}

/// What `stats` tell, if they tell anything.
pub open spec fn spec_report(stats: Seq<Stat>) -> Option<Report> {
    if stats.len() == 0 {
        None
    } else {
        Some(
            Report {
                avg_delay_ms: (total_delay(stats) / stats.len()) as u64,
                error_rate_percent: (error_count(stats) * 100 / stats.len()) as usize,
            },
        )
    }
}

/// The stats after one more connection: the newest last, the oldest
/// dropped beyond `MAX_STATS`.
pub open spec fn spec_record(stats: Seq<Stat>, stat: Stat) -> Seq<Stat> {
    let all = stats.push(stat);
    if all.len() > MAX_STATS {
        all.skip(all.len() - MAX_STATS)
    } else {
        all
    }
}

proof fn lemma_totals_bounded(stats: Seq<Stat>)
    ensures
        total_delay(stats) <= stats.len() * u64::MAX,
        error_count(stats) <= stats.len(),
    decreases stats.len(),
{
    if stats.len() > 0 {
        lemma_totals_bounded(stats.drop_last());
        assert(total_delay(stats) <= (stats.len() - 1) * u64::MAX + u64::MAX);
        assert((stats.len() - 1) * u64::MAX + u64::MAX == stats.len() * u64::MAX) by (nonlinear_arith);
    }
}

/// The egress `O` with the record of its last connections.
pub struct StatsOutbound<O> {
    outbound: O,
    last_stats: VecDeque<Stat>,
}

impl<O> StatsOutbound<O> {
    pub closed spec fn outbound(&self) -> O {
        self.outbound
    }

    /// The remembered connections, oldest first.
    pub closed spec fn stats(&self) -> Seq<Stat> {
        self.last_stats@
    }

    /// Wraps `outbound`, with nothing remembered.
    pub fn new(outbound: O) -> (s: Self)
        ensures
            s.outbound() == outbound,
            s.stats() == Seq::<Stat>::empty(),
    {
        StatsOutbound { outbound, last_stats: VecDeque::new() }
    }

    /// The wrapped egress.
    pub fn get_ref(&self) -> (outbound: &O)
        ensures
            *outbound == self.outbound(),
    {
        &self.outbound
    }

    /// Remembers how a connection went.
    pub fn record(&mut self, delay_ms: u64, error: bool)
        ensures
            final(self).outbound() == old(self).outbound(),
            final(self).stats() == spec_record(old(self).stats(), Stat { delay_ms, error }),
    {
        let ghost all = self.last_stats@.push(Stat { delay_ms, error });
        self.last_stats.push_back(Stat { delay_ms, error });
        assert(all.skip(0) =~= all);
        while self.last_stats.len() > MAX_STATS
            invariant
                self.outbound == old(self).outbound,
                self.last_stats@.len() <= all.len(),
                self.last_stats@.len() >= MAX_STATS || self.last_stats@.len() == all.len(),
                self.last_stats@ == all.skip(all.len() - self.last_stats@.len()),
            decreases self.last_stats@.len(),
        {
            let ghost before = self.last_stats@;
            self.last_stats.pop_front();
            assert(self.last_stats@ =~= all.skip(all.len() - self.last_stats@.len()));
        }
    }

    /// The mean delay and the share of failures of the remembered
    /// connections; nothing where none is remembered.
    pub fn report(&self) -> (report: Option<Report>)
        ensures
            report == spec_report(self.stats()),
    {
        let n = self.last_stats.len();
        if n == 0 {
            return None;
        }
        let mut total: u128 = 0;
        let mut errors: usize = 0;
        let mut i: usize = 0;
        assert(self.last_stats@.take(0) =~= Seq::<Stat>::empty());
        while i < n
            invariant
                0 <= i <= n,
                n == self.last_stats@.len(),
                total == total_delay(self.last_stats@.take(i as int)),
                errors == error_count(self.last_stats@.take(i as int)),
            decreases n - i,
        {
            proof {
                let next = self.last_stats@.take(i + 1);
                assert(next.drop_last() =~= self.last_stats@.take(i as int));
                lemma_totals_bounded(next);
                assert(next.len() * u64::MAX <= usize::MAX * u64::MAX) by (nonlinear_arith)
                    requires
                        next.len() <= usize::MAX,
                ;
            }
            let stat = self.last_stats[i];
            total = total + stat.delay_ms as u128;
            if stat.error {
                errors = errors + 1;
            }
            i += 1;
        }
        proof {
            assert(self.last_stats@.take(n as int) =~= self.last_stats@);
            lemma_totals_bounded(self.last_stats@);
            assert(total / (n as u128) <= u64::MAX) by (nonlinear_arith)
                requires
                    total <= n * u64::MAX,
                    n > 0,
            ;
            assert(errors * 100 / (n as int) <= 100) by (nonlinear_arith)
                requires
                    errors <= n,
                    n > 0,
            ;
        }
        let percent: usize = ((errors as u128) * 100 / (n as u128)) as usize;
        Some(Report { avg_delay_ms: (total / (n as u128)) as u64, error_rate_percent: percent })
    }
}

} // verus!
