//! The rolling summary. Samples are put into a window of fixed size; when
//! the window is full it is folded into averages over its successful
//! samples and emptied. A window without a single success gives no summary.

use crate::stats::MinecraftStats;
use vstd::arithmetic::div_mod::lemma_fundamental_div_mod_converse;
use vstd::prelude::*;

verus! {

/// The number of samples that fill the window of the status monitor.
pub const POLL_PERIOD_SIZE: usize = 100;

/// One poll's outcome: the figures, or nothing where the poll failed.
pub type Sample = Option<MinecraftStats>;

/// The averages of one full window.
#[derive(Debug, Clone, Copy, PartialEq, Eq, Structural)]
pub struct Summary {
    pub avg_players: usize,
    pub avg_servers: usize,
    pub avg_latency: u128,
    /// The number of samples that hold figures.
    pub successful_count: usize,
    /// The number of samples in the window.
    pub total_count: usize,
}

/// What putting a sample into the window leads to.
#[derive(Debug, Clone, Copy, PartialEq, Eq, Structural)]
pub enum Emission {
    /// The window is not full yet.
    Pending,
    /// The window was full and held no success: there is no summary, and
    /// the one before stays the one to compare with.
    AggregationSkipped,
    /// The window was full: its summary, and the one before it if there is
    /// one.
    Summary { current: Summary, previous: Option<Summary> },
}

/// The number of samples that hold figures.
pub open spec fn successes(w: Seq<Sample>) -> nat
    decreases w.len(),
{
    if w.len() == 0 {
        0
    } else {
        successes(w.drop_last()) + if w.last() is Some {
            1nat
        } else {
            0nat
        }
    }
}

/// The players of all samples that hold figures.
pub open spec fn sum_players(w: Seq<Sample>) -> nat
    decreases w.len(),
{
    if w.len() == 0 {
        0
    } else {
        sum_players(w.drop_last()) + match w.last() {
            Some(stats) => stats.players as nat,
            None => 0nat,
        }
    }
}

/// The servers of all samples that hold figures.
pub open spec fn sum_servers(w: Seq<Sample>) -> nat
    decreases w.len(),
{
    if w.len() == 0 {
        0
    } else {
        sum_servers(w.drop_last()) + match w.last() {
            Some(stats) => stats.servers as nat,
            None => 0nat,
        }
    }
}

/// The latencies of all samples that hold figures.
pub open spec fn sum_latency(w: Seq<Sample>) -> nat
    decreases w.len(),
{
    if w.len() == 0 {
        0
    } else {
        sum_latency(w.drop_last()) + match w.last() {
            Some(stats) => stats.latency as nat,
            None => 0nat,
        }
    }
}

/// Whether `s` is the summary of `w`: each average is the sum over the
/// successful samples divided by their number, rounded down.
pub open spec fn summarizes(s: Summary, w: Seq<Sample>) -> bool {
    &&& successes(w) > 0
    &&& s.successful_count == successes(w)
    &&& s.total_count == w.len()
    &&& s.avg_players == sum_players(w) / successes(w)
    &&& s.avg_servers == sum_servers(w) / successes(w)
    &&& s.avg_latency == sum_latency(w) / successes(w)
}

/// The summary of a window: none without a success.
pub open spec fn summary_of(w: Seq<Sample>) -> Option<Summary> {
    if successes(w) == 0 {
        None
    } else {
        Some(
            Summary {
                avg_players: (sum_players(w) / successes(w)) as usize,
                avg_servers: (sum_servers(w) / successes(w)) as usize,
                avg_latency: (sum_latency(w) / successes(w)) as u128,
                successful_count: successes(w) as usize,
                total_count: w.len() as usize,
            },
        )
    }
}

/// The sums of a window are bounded by its successes: no sample holds more
/// than its type can.
pub proof fn lemma_sums_bounded(w: Seq<Sample>)
    ensures
        successes(w) <= w.len(),
        sum_players(w) <= successes(w) * usize::MAX,
        sum_servers(w) <= successes(w) * usize::MAX,
        sum_latency(w) <= successes(w) * u128::MAX,
    decreases w.len(),
{
    if w.len() > 0 {
        lemma_sums_bounded(w.drop_last());
        let k = successes(w.drop_last());
        assert((k + 1) * usize::MAX == k * usize::MAX + usize::MAX) by (nonlinear_arith);
        assert((k + 1) * u128::MAX == k * u128::MAX + u128::MAX) by (nonlinear_arith);
    }
}

/// The beginning of a window holds no more successes than the window.
pub proof fn lemma_successes_prefix(w: Seq<Sample>, i: int)
    requires
        0 <= i <= w.len(),
    ensures
        successes(w.subrange(0, i)) <= successes(w),
        i < w.len() && w[i] is Some ==> successes(w.subrange(0, i)) < successes(w),
    decreases w.len(),
{
    if i == w.len() {
        assert(w.subrange(0, i) =~= w);
    } else {
        let shorter = w.drop_last();
        assert(shorter.subrange(0, i) =~= w.subrange(0, i));
        lemma_successes_prefix(shorter, i);
        if i == w.len() - 1 {
            assert(shorter.subrange(0, i) =~= shorter);
        }
    }
}

/// An average is no more than the most a sample holds: the quotient of a
/// sum of `n` values, none above `most`, by `n`.
pub proof fn lemma_average_bounded(sum: nat, n: nat, most: nat)
    requires
        n > 0,
        sum <= n * most,
    ensures
        sum / n <= most,
{
    assert(sum / n <= most) by (nonlinear_arith)
        requires
            n > 0,
            sum <= n * most,
    ;
}

/// The averages of a window with a success are what its summary holds: each
/// is the sum over the successful samples divided by their number, not by
/// the size of the window.
pub proof fn lemma_summary_exact(w: Seq<Sample>)
    requires
        successes(w) > 0,
        w.len() <= usize::MAX,
    ensures
        summary_of(w) is Some,
        summarizes(summary_of(w)->Some_0, w),
{
    lemma_sums_bounded(w);
    lemma_average_bounded(sum_players(w), successes(w), usize::MAX as nat);
    lemma_average_bounded(sum_servers(w), successes(w), usize::MAX as nat);
    lemma_average_bounded(sum_latency(w), successes(w), u128::MAX as nat);
}

/// A window without a success has no summary, and one with a success has
/// one.
pub proof fn lemma_summary_needs_success(w: Seq<Sample>)
    ensures
        summary_of(w) is None <==> successes(w) == 0,
{
}

/// The number of samples that hold figures, with the sums of their players
/// and servers.
fn count_and_sum(window: &Vec<Sample>) -> (r: (usize, u128, u128))
    ensures
        r.0 == successes(window@),
        r.1 == sum_players(window@),
        r.2 == sum_servers(window@),
{
    let mut count: usize = 0;
    let mut players: u128 = 0;
    let mut servers: u128 = 0;
    let mut i: usize = 0;
    while i < window.len()
        invariant
            i <= window@.len(),
            count == successes(window@.subrange(0, i as int)),
            players == sum_players(window@.subrange(0, i as int)),
            servers == sum_servers(window@.subrange(0, i as int)),
        decreases window@.len() - i,
    {
        proof {
            let next = window@.subrange(0, i + 1);
            assert(next.drop_last() =~= window@.subrange(0, i as int));
            assert(next.last() == window@[i as int]);
            lemma_sums_bounded(next);
            assert(successes(next) * usize::MAX <= usize::MAX * usize::MAX) by (nonlinear_arith)
                requires
                    successes(next) <= usize::MAX,
            ;
        }
        match &window[i] {
            Some(stats) => {
                count = count + 1;
                players = players + stats.players as u128;
                servers = servers + stats.servers as u128;
            },
            None => {},
        }
        i += 1;
    }
    proof {
        assert(window@.subrange(0, i as int) =~= window@);
    }
    (count, players, servers)
}

/// The average latency of a window with `n` successes. The sum may not fit
/// where a latency fits, so quotients and remainders are summed apart.
fn mean_latency(window: &Vec<Sample>, n: usize) -> (mean: u128)
    requires
        n > 0,
        n == successes(window@),
    ensures
        mean == sum_latency(window@) / (n as nat),
{
    let d: u128 = n as u128;
    let mut quotients: u128 = 0;
    let mut remainders: u128 = 0;
    let mut i: usize = 0;
    let ghost mut k: nat = 0;
    while i < window.len()
        invariant
            i <= window@.len(),
            d == n,
            n > 0,
            n == successes(window@),
            k == successes(window@.subrange(0, i as int)),
            k <= n,
            quotients * d + remainders == sum_latency(window@.subrange(0, i as int)),
            remainders <= k * (d - 1),
        decreases window@.len() - i,
    {
        let ghost before = window@.subrange(0, i as int);
        let ghost next = window@.subrange(0, i + 1);
        proof {
            assert(next.drop_last() =~= before);
            assert(next.last() == window@[i as int]);
            lemma_sums_bounded(next);
            lemma_successes_prefix(window@, i as int);
            lemma_successes_prefix(window@, i + 1);
        }
        match &window[i] {
            Some(stats) => {
                let x: u128 = stats.latency;
                let q: u128 = x / d;
                let r: u128 = x % d;
                proof {
                    let total = sum_latency(next);
                    assert(x == q * d + r) by (nonlinear_arith)
                        requires
                            q == x / d,
                            r == x % d,
                            d > 0,
                    ;
                    assert(total == (quotients + q) * d + (remainders + r)) by (nonlinear_arith)
                        requires
                            total == quotients * d + remainders + x,
                            x == q * d + r,
                    ;
                    assert(quotients + q <= u128::MAX) by (nonlinear_arith)
                        requires
                            total == (quotients + q) * d + (remainders + r),
                            total <= (k + 1) * u128::MAX,
                            k + 1 <= d,
                            d > 0,
                            remainders >= 0,
                            r >= 0,
                    ;
                    assert(remainders + r <= (k + 1) * (d - 1)) by (nonlinear_arith)
                        requires
                            remainders <= k * (d - 1),
                            r <= d - 1,
                    ;
                    assert((k + 1) * (d - 1) <= u128::MAX) by (nonlinear_arith)
                        requires
                            k + 1 <= d,
                            1 <= d <= 0xffff_ffff_ffff_ffff,
                    ;
                    k = k + 1;
                }
                quotients = quotients + q;
                remainders = remainders + r;
            },
            None => {},
        }
        i += 1;
    }
    proof {
        assert(window@.subrange(0, i as int) =~= window@);
        lemma_sums_bounded(window@);
        let total = sum_latency(window@);
        let q = remainders / d;
        let r = remainders % d;
        assert(remainders == q * d + r && 0 <= r < d) by (nonlinear_arith)
            requires
                q == remainders / d,
                r == remainders % d,
                d > 0,
        ;
        assert(total == (quotients + q) * d + r) by (nonlinear_arith)
            requires
                total == quotients * d + remainders,
                remainders == q * d + r,
        ;
        lemma_fundamental_div_mod_converse(total as int, d as int, (quotients + q) as int, r as int);
        lemma_average_bounded(total, n as nat, u128::MAX as nat);
    }
    quotients + remainders / d
}

/// Folds a window into its summary. Each average is taken over the samples
/// that hold figures; a window without one gives no summary, and nothing is
/// divided.
pub fn summarize(window: &Vec<Sample>) -> (r: Option<Summary>)
    ensures
        r == summary_of(window@),
        successes(window@) == 0 <==> r is None,
        r matches Some(s) ==> summarizes(s, window@),
{
    let (count, players, servers) = count_and_sum(window);
    if count == 0 {
        return None;
    }
    let total_count = window.len();
    proof {
        lemma_summary_exact(window@);
    }
    let latency = mean_latency(window, count);
    Some(
        Summary {
            avg_players: (players / count as u128) as usize,
            avg_servers: (servers / count as u128) as usize,
            avg_latency: latency,
            successful_count: count,
            total_count,
        },
    )
}

/// The window, its size, and the summary before.
pub struct AggregatorView {
    /// The number of samples that fill the window.
    pub capacity: usize,
    /// The samples of the running cycle, oldest first.
    pub window: Seq<Sample>,
    /// The last summary that was made.
    pub previous: Option<Summary>,
}

impl AggregatorView {
    /// The aggregator after `sample` came in, and what that leads to. The
    /// sample goes to the end of the window. A window that has reached its
    /// size is folded and emptied: with a success its summary is handed
    /// out beside the one before and becomes the one before; without, the
    /// one before stays.
    pub open spec fn accept(self, sample: Sample) -> (AggregatorView, Emission) {
        let window = self.window.push(sample);
        if window.len() < self.capacity {
            (AggregatorView { window, ..self }, Emission::Pending)
        } else {
            match summary_of(window) {
                None => (
                    AggregatorView { window: Seq::empty(), ..self },
                    Emission::AggregationSkipped,
                ),
                Some(current) => (
                    AggregatorView { window: Seq::empty(), previous: Some(current), ..self },
                    Emission::Summary { current, previous: self.previous },
                ),
            }
        }
    }
}

/// The consumer of samples.
#[derive(Debug)]
pub struct Aggregator {
    capacity: usize,
    window: Vec<Sample>,
    previous: Option<Summary>,
}

impl View for Aggregator {
    type V = AggregatorView;

    closed spec fn view(&self) -> AggregatorView {
        AggregatorView { capacity: self.capacity, window: self.window@, previous: self.previous }
    }
}

impl Aggregator {
    /// An aggregator with an empty window that `capacity` samples fill. A
    /// capacity of none is served like a capacity of one: every sample
    /// fills the window.
    pub fn new(capacity: usize) -> (a: Self)
        ensures
            a@.capacity == capacity,
            a@.window == Seq::<Sample>::empty(),
            a@.previous is None,
    {
        Aggregator { capacity, window: Vec::new(), previous: None }
    }

    /// The number of samples in the window.
    pub fn len(&self) -> (n: usize)
        ensures
            n == self@.window.len(),
    {
        self.window.len()
    }

    /// The last summary that was made.
    pub fn previous(&self) -> (p: Option<Summary>)
        ensures
            p == self@.previous,
    {
        self.previous
    }

    /// Takes a sample in, in the order of arrival.
    pub fn accept(&mut self, sample: Sample) -> (emission: Emission)
        ensures
            final(self)@ == old(self)@.accept(sample).0,
            emission == old(self)@.accept(sample).1,
    {
        self.window.push(sample);
        if self.window.len() < self.capacity {
            return Emission::Pending;
        }
        let folded = summarize(&self.window);
        self.window.clear();
        match folded {
            None => Emission::AggregationSkipped,
            Some(current) => {
                let previous = self.previous;
                self.previous = Some(current);
                Emission::Summary { current, previous }
            },
        }
    }
}

/// A failed poll changes no sum and no count of successes: it lowers no
/// average the way a sample of zeros would.
pub proof fn lemma_failure_leaves_averages(w: Seq<Sample>)
    ensures
        successes(w.push(None)) == successes(w),
        sum_players(w.push(None)) == sum_players(w),
        sum_servers(w.push(None)) == sum_servers(w),
        sum_latency(w.push(None)) == sum_latency(w),
{
    assert(w.push(None).drop_last() =~= w);
}

/// A successful poll adds its figures to the sums and one to the count.
pub proof fn lemma_success_adds(w: Seq<Sample>, stats: MinecraftStats)
    ensures
        successes(w.push(Some(stats))) == successes(w) + 1,
        sum_players(w.push(Some(stats))) == sum_players(w) + stats.players,
        sum_servers(w.push(Some(stats))) == sum_servers(w) + stats.servers,
        sum_latency(w.push(Some(stats))) == sum_latency(w) + stats.latency,
{
    assert(w.push(Some(stats)).drop_last() =~= w);
}

/// The aggregator after the samples of `samples` came in one by one.
pub open spec fn after_all(a: AggregatorView, samples: Seq<Sample>) -> AggregatorView
    decreases samples.len(),
{
    if samples.len() == 0 {
        a
    } else {
        after_all(a, samples.drop_last()).accept(samples.last()).0
    }
}

/// While an empty window of size `capacity` takes in fewer samples than fill
/// it, it keeps them in the order of arrival and nothing is handed out; the
/// sample that fills it is answered by the summary of all of them, or by a
/// skip if none of them is a success, and leaves the window empty.
pub proof fn lemma_cadence(a: AggregatorView, samples: Seq<Sample>, last: Sample)
    requires
        a.window.len() == 0,
        samples.len() + 1 == a.capacity,
    ensures
        after_all(a, samples).window == samples,
        after_all(a, samples).previous == a.previous,
        after_all(a, samples).capacity == a.capacity,
        forall|i: int|
            0 <= i < samples.len() ==> after_all(a, #[trigger] samples.subrange(0, i)).accept(
                samples[i],
            ).1 == Emission::Pending,
        after_all(a, samples).accept(last).0.window.len() == 0,
        after_all(a, samples).accept(last).1 == match summary_of(samples.push(last)) {
            Some(current) => Emission::Summary { current, previous: a.previous },
            None => Emission::AggregationSkipped,
        },
{
    lemma_filling(a, samples);
    assert forall|i: int| 0 <= i < samples.len() implies after_all(
        a,
        #[trigger] samples.subrange(0, i),
    ).accept(samples[i]).1 == Emission::Pending by {
        lemma_filling(a, samples.subrange(0, i));
    }
}

/// An empty window that takes in fewer samples than fill it holds them in
/// the order of arrival.
pub proof fn lemma_filling(a: AggregatorView, samples: Seq<Sample>)
    requires
        a.window.len() == 0,
        samples.len() < a.capacity,
    ensures
        after_all(a, samples).window == samples,
        after_all(a, samples).previous == a.previous,
        after_all(a, samples).capacity == a.capacity,
    decreases samples.len(),
{
    if samples.len() == 0 {
        assert(a.window =~= samples);
    } else {
        lemma_filling(a, samples.drop_last());
        assert(samples.drop_last().push(samples.last()) =~= samples);
    }
}

} // verus!
