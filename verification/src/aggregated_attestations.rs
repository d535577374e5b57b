//! Portfolio-level aggregation of attestation snapshot metrics.
//!
//! A portfolio is a registered list of business addresses. Its metrics are
//! computed on demand from the snapshots that the snapshot contract holds
//! for each business; sums saturate instead of overflowing.
use vstd::prelude::*;
use crate::store::Store;
use crate::types::Address;

verus! {

/// The part of a snapshot record that aggregation reads.
#[derive(Clone, Copy, Debug, PartialEq, Eq, Structural)]
pub struct SnapshotSummary {
    pub trailing_revenue: i128,
    pub anomaly_count: u32,
}

/// Summary metrics for a portfolio.
#[derive(Clone, Copy, Debug, PartialEq, Eq, Structural)]
pub struct AggregatedMetrics {
    /// Sum of trailing revenue over all snapshots of all businesses.
    pub total_trailing_revenue: i128,
    /// Sum of anomaly counts over all snapshots of all businesses.
    pub total_anomaly_count: u32,
    /// Number of businesses in the portfolio.
    pub business_count: u32,
    /// Number of businesses with at least one snapshot.
    pub businesses_with_snapshots: u32,
    /// Total trailing revenue divided by `businesses_with_snapshots`, or 0.
    pub average_trailing_revenue: i128,
}

/// Why an aggregation-contract call was refused.
#[derive(Clone, Copy, Debug, PartialEq, Eq, Structural)]
pub enum AggregationError {
    AlreadyInitialized,
    NotInitialized,
    NotAdmin,
}

/// `x` clamped into the range of `i128`.
pub open spec fn clamp_i128(x: int) -> int {
    if x > i128::MAX {
        i128::MAX as int
    } else if x < i128::MIN {
        i128::MIN as int
    } else {
        x
    }
}

/// `x` clamped into the range of `u32`.
pub open spec fn clamp_u32(x: int) -> int {
    if x > u32::MAX {
        u32::MAX as int
    } else {
        x
    }
}

/// Quotient rounded toward zero.
pub open spec fn trunc_div(x: int, d: int) -> int {
    if x >= 0 {
        x / d
    } else {
        -((-x) / d)
    }
}

/// Saturating left fold of trailing revenues, starting from `acc`.
pub open spec fn revenue_fold(acc: int, l: Seq<SnapshotSummary>) -> int
    decreases l.len(),
{
    if l.len() == 0 {
        acc
    } else {
        clamp_i128(revenue_fold(acc, l.drop_last()) + l.last().trailing_revenue)
    }
}

/// Saturating left fold of anomaly counts, starting from `acc`.
pub open spec fn anomaly_fold(acc: int, l: Seq<SnapshotSummary>) -> int
    decreases l.len(),
{
    if l.len() == 0 {
        acc
    } else {
        clamp_u32(anomaly_fold(acc, l.drop_last()) + l.last().anomaly_count)
    }
}

/// Saturating total of trailing revenue, business by business in order.
pub open spec fn total_revenue(s: Seq<Seq<SnapshotSummary>>) -> int
    decreases s.len(),
{
    if s.len() == 0 {
        0
    } else {
        revenue_fold(total_revenue(s.drop_last()), s.last())
    }
}

/// Saturating total of anomaly counts, business by business in order.
pub open spec fn total_anomalies(s: Seq<Seq<SnapshotSummary>>) -> int
    decreases s.len(),
{
    if s.len() == 0 {
        0
    } else {
        anomaly_fold(total_anomalies(s.drop_last()), s.last())
    }
}

/// Number of businesses with at least one snapshot.
pub open spec fn with_snapshots(s: Seq<Seq<SnapshotSummary>>) -> int
    decreases s.len(),
{
    if s.len() == 0 {
        0
    } else {
        with_snapshots(s.drop_last()) + if s.last().len() > 0 {
            1int
        } else {
            0
        }
    }
}

/// The metrics of a portfolio whose businesses have these snapshot lists.
pub open spec fn metrics_of(s: Seq<Seq<SnapshotSummary>>) -> AggregatedMetrics {
    let total = total_revenue(s);
    let n = with_snapshots(s);
    AggregatedMetrics {
        total_trailing_revenue: total as i128,
        total_anomaly_count: total_anomalies(s) as u32,
        business_count: s.len() as u32,
        businesses_with_snapshots: n as u32,
        average_trailing_revenue: if n > 0 {
            trunc_div(total, n) as i128
        } else {
            0
        },
    }
}

proof fn lemma_with_snapshots_bound(s: Seq<Seq<SnapshotSummary>>)
    ensures
        0 <= with_snapshots(s) <= s.len(),
    decreases s.len(),
{
    if s.len() > 0 {
        lemma_with_snapshots_bound(s.drop_last());
    }
}

proof fn lemma_revenue_fold_range(acc: int, l: Seq<SnapshotSummary>)
    requires
        i128::MIN <= acc <= i128::MAX,
    ensures
        i128::MIN <= revenue_fold(acc, l) <= i128::MAX,
    decreases l.len(),
{
    if l.len() > 0 {
        lemma_revenue_fold_range(acc, l.drop_last());
    }
}

proof fn lemma_total_revenue_range(s: Seq<Seq<SnapshotSummary>>)
    ensures
        i128::MIN <= total_revenue(s) <= i128::MAX,
    decreases s.len(),
{
    if s.len() > 0 {
        lemma_total_revenue_range(s.drop_last());
        lemma_revenue_fold_range(total_revenue(s.drop_last()), s.last());
    }
}

/// `a + b`, saturating at the bounds of `i128`.
pub fn saturating_add_i128(a: i128, b: i128) -> (r: i128)
    ensures
        r == clamp_i128(a + b),
{
    match a.checked_add(b) {
        Some(v) => v,
        None => {
            if b > 0 {
                i128::MAX
            } else {
                i128::MIN
            }
        },
    }
}

/// Aggregate the snapshot lists of a portfolio's businesses, in order.
pub fn aggregate_metrics(snapshots: &Vec<Vec<SnapshotSummary>>) -> (r: AggregatedMetrics)
    requires
        snapshots@.len() <= u32::MAX,
    ensures
        r == metrics_of(snapshots@.map_values(|l: Vec<SnapshotSummary>| l@)),
{
    let ghost s = snapshots@.map_values(|l: Vec<SnapshotSummary>| l@);
    let business_count: u32 = snapshots.len() as u32;
    if business_count == 0 {
        assert(s.len() == 0);
        return AggregatedMetrics {
            total_trailing_revenue: 0,
            total_anomaly_count: 0,
            business_count: 0,
            businesses_with_snapshots: 0,
            average_trailing_revenue: 0,
        };
    }
    let mut total_revenue_acc: i128 = 0;
    let mut total_anomalies_acc: u32 = 0;
    let mut businesses_with: u32 = 0;
    let mut i: usize = 0;
    while i < snapshots.len()
        invariant
            i <= snapshots@.len(),
            snapshots@.len() <= u32::MAX,
            s == snapshots@.map_values(|l: Vec<SnapshotSummary>| l@),
            total_revenue_acc == total_revenue(s.subrange(0, i as int)),
            total_anomalies_acc == total_anomalies(s.subrange(0, i as int)),
            businesses_with == with_snapshots(s.subrange(0, i as int)),
        decreases snapshots@.len() - i,
    {
        let list = &snapshots[i];
        let ghost prefix = s.subrange(0, i as int);
        let ghost next = s.subrange(0, i + 1);
        assert(next.drop_last() =~= prefix);
        assert(next.last() == list@);
        proof {
            lemma_with_snapshots_bound(prefix);
        }
        if list.len() > 0 {
            businesses_with = businesses_with + 1;
        }
        let ghost rev_start = total_revenue_acc as int;
        let ghost anom_start = total_anomalies_acc as int;
        let mut j: usize = 0;
        while j < list.len()
            invariant
                j <= list@.len(),
                total_revenue_acc == revenue_fold(rev_start, list@.subrange(0, j as int)),
                total_anomalies_acc == anomaly_fold(anom_start, list@.subrange(0, j as int)),
            decreases list@.len() - j,
        {
            let snap = list[j];
            let ghost sub = list@.subrange(0, j as int);
            let ghost sub2 = list@.subrange(0, j + 1);
            assert(sub2.drop_last() =~= sub);
            total_revenue_acc = saturating_add_i128(total_revenue_acc, snap.trailing_revenue);
            total_anomalies_acc = total_anomalies_acc.saturating_add(snap.anomaly_count);
            j = j + 1;
        }
        assert(list@.subrange(0, list@.len() as int) =~= list@);
        i = i + 1;
    }
    assert(s.subrange(0, s.len() as int) =~= s);
    proof {
        lemma_total_revenue_range(s);
    }
    let average: i128 = if businesses_with > 0 {
        match total_revenue_acc.checked_div(businesses_with as i128) {
            Some(q) => q,
            None => 0,
        }
    } else {
        0
    };
    AggregatedMetrics {
        total_trailing_revenue: total_revenue_acc,
        total_anomaly_count: total_anomalies_acc,
        business_count,
        businesses_with_snapshots: businesses_with,
        average_trailing_revenue: average,
    }
}

/// Storage of the aggregation contract.
pub struct AggregatedAttestationsContract {
    admin: Option<Address>,
    portfolios: Store<String, Vec<Address>>,
}

impl AggregatedAttestationsContract {
    pub closed spec fn spec_admin(&self) -> Option<Address> {
        self.admin
    }

    pub closed spec fn spec_portfolios(&self) -> Map<Seq<char>, Vec<Address>> {
        self.portfolios@
    }

    /// Business list of a portfolio (empty when unregistered).
    pub open spec fn portfolio_members(&self, id: Seq<char>) -> Seq<Address> {
        if self.spec_portfolios().contains_key(id) {
            self.spec_portfolios()[id]@
        } else {
            Seq::empty()
        }
    }

    /// A contract with empty storage.
    pub fn new() -> (r: Self)
        ensures
            r.spec_admin() is None,
            r.spec_portfolios().is_empty(),
    {
        AggregatedAttestationsContract { admin: None, portfolios: Store::new() }
    }

    /// One-time setup of the admin.
    pub fn initialize(&mut self, admin: Address) -> (r: Result<(), AggregationError>)
        ensures
            old(self).spec_admin() is Some ==> r == Err::<(), _>(
                AggregationError::AlreadyInitialized,
            ) && *final(self) == *old(self),
            old(self).spec_admin() is None ==> r is Ok && final(self).spec_admin() == Some(admin)
                && final(self).spec_portfolios() == old(self).spec_portfolios(),
    {
        if self.admin.is_some() {
            return Err(AggregationError::AlreadyInitialized);
        }
        self.admin = Some(admin);
        Ok(())
    }

    /// Register or replace a portfolio. Admin only.
    pub fn register_portfolio(
        &mut self,
        caller: Address,
        portfolio_id: String,
        businesses: Vec<Address>,
    ) -> (r: Result<(), AggregationError>)
        ensures
            match old(self).spec_admin() {
                None => r == Err::<(), _>(AggregationError::NotInitialized) && *final(self)
                    == *old(self),
                Some(a) => if a != caller {
                    r == Err::<(), _>(AggregationError::NotAdmin) && *final(self) == *old(self)
                } else {
                    r is Ok && final(self).spec_admin() == old(self).spec_admin()
                        && final(self).spec_portfolios() == old(self).spec_portfolios().insert(
                        portfolio_id@,
                        businesses,
                    )
                },
            },
    {
        match self.admin {
            None => Err(AggregationError::NotInitialized),
            Some(a) => {
                if a != caller {
                    return Err(AggregationError::NotAdmin);
                }
                self.portfolios.set(portfolio_id, businesses);
                Ok(())
            },
        }
    }

    /// Metrics of a portfolio. `snapshots[i]` holds what the snapshot
    /// contract returns for the `i`-th business of the portfolio.
    pub fn get_aggregated_metrics(
        &self,
        portfolio_id: String,
        snapshots: &Vec<Vec<SnapshotSummary>>,
    ) -> (r: AggregatedMetrics)
        requires
            snapshots@.len() == self.portfolio_members(portfolio_id@).len(),
            snapshots@.len() <= u32::MAX,
        ensures
            r == metrics_of(snapshots@.map_values(|l: Vec<SnapshotSummary>| l@)),
    {
        aggregate_metrics(snapshots)
    }

    /// The admin address.
    pub fn get_admin(&self) -> (r: Result<Address, AggregationError>)
        ensures
            match self.spec_admin() {
                Some(a) => r == Ok::<Address, AggregationError>(a),
                None => r == Err::<Address, _>(AggregationError::NotInitialized),
            },
    {
        match self.admin {
            Some(a) => Ok(a),
            None => Err(AggregationError::NotInitialized),
        }
    }

    /// The business list of a portfolio, if registered.
    pub fn get_portfolio(&self, portfolio_id: String) -> (r: Option<Vec<Address>>)
        ensures
            match r {
                Some(v) => self.spec_portfolios().contains_key(portfolio_id@) && v@
                    == self.spec_portfolios()[portfolio_id@]@,
                None => !self.spec_portfolios().contains_key(portfolio_id@),
            },
    {
        match self.portfolios.get(&portfolio_id) {
            Some(v) => Some(crate::types::copy_vec(v)),
            None => None,
        }
    }
}

/// A business without snapshots contributes nothing: adding it to a
/// portfolio leaves the revenue and anomaly totals and the number of
/// businesses with snapshots unchanged.
pub proof fn law_empty_snapshots_contribute_nothing(s: Seq<Seq<SnapshotSummary>>)
    ensures
        total_revenue(s.push(Seq::empty())) == total_revenue(s),
        total_anomalies(s.push(Seq::empty())) == total_anomalies(s),
        with_snapshots(s.push(Seq::empty())) == with_snapshots(s),
{
    assert(s.push(Seq::empty()).drop_last() =~= s);
}

/// The businesses with snapshots are among the portfolio's businesses,
/// and the average is zero when none of them has a snapshot.
pub proof fn law_snapshot_count_within_portfolio(s: Seq<Seq<SnapshotSummary>>)
    requires
        s.len() <= u32::MAX,
    ensures
        metrics_of(s).businesses_with_snapshots <= metrics_of(s).business_count,
        metrics_of(s).businesses_with_snapshots == 0 ==> metrics_of(s).average_trailing_revenue == 0,
{
    lemma_with_snapshots_bound(s);
}

proof fn lemma_anomaly_fold_range(acc: int, l: Seq<SnapshotSummary>)
    requires
        0 <= acc <= u32::MAX,
    ensures
        0 <= anomaly_fold(acc, l) <= u32::MAX,
    decreases l.len(),
{
    if l.len() > 0 {
        lemma_anomaly_fold_range(acc, l.drop_last());
    }
}

proof fn lemma_total_anomalies_range(s: Seq<Seq<SnapshotSummary>>)
    ensures
        0 <= total_anomalies(s) <= u32::MAX,
    decreases s.len(),
{
    if s.len() > 0 {
        lemma_total_anomalies_range(s.drop_last());
        lemma_anomaly_fold_range(total_anomalies(s.drop_last()), s.last());
    }
}

/// Every snapshot counts: adding a snapshot to the last business of a
/// portfolio, or adding a business whose only snapshot it is, raises the
/// total trailing revenue by that snapshot's revenue and the total anomaly
/// count by its anomaly count, each saturating at the bounds of its type.
pub proof fn law_each_snapshot_counts(s: Seq<Seq<SnapshotSummary>>, x: SnapshotSummary)
    requires
        s.len() < u32::MAX,
    ensures
        ({
            let before = metrics_of(s);
            let rev = before.total_trailing_revenue + x.trailing_revenue;
            let anom = before.total_anomaly_count + x.anomaly_count;
            let new_rev: int = if rev > i128::MAX {
                i128::MAX as int
            } else if rev < i128::MIN {
                i128::MIN as int
            } else {
                rev
            };
            let new_anom: int = if anom > u32::MAX {
                u32::MAX as int
            } else {
                anom
            };
            &&& metrics_of(s.push(seq![x])).total_trailing_revenue == new_rev
            &&& metrics_of(s.push(seq![x])).total_anomaly_count == new_anom
            &&& metrics_of(s.push(seq![x])).business_count == before.business_count + 1
            &&& metrics_of(s.push(seq![x])).businesses_with_snapshots == before.businesses_with_snapshots
                + 1
            &&& s.len() > 0 ==> {
                let s2 = s.update(s.len() - 1, s.last().push(x));
                &&& metrics_of(s2).total_trailing_revenue == new_rev
                &&& metrics_of(s2).total_anomaly_count == new_anom
                &&& metrics_of(s2).business_count == before.business_count
            }
        }),
{
    lemma_total_revenue_range(s);
    lemma_total_anomalies_range(s);
    lemma_with_snapshots_bound(s);
    let e = Seq::<SnapshotSummary>::empty();
    let one = seq![x];
    assert(one.drop_last() =~= e);
    assert(one.last() == x);
    assert(s.push(one).drop_last() =~= s);
    assert(s.push(one).last() == one);
    assert(revenue_fold(total_revenue(s), e) == total_revenue(s));
    assert(anomaly_fold(total_anomalies(s), e) == total_anomalies(s));
    assert(revenue_fold(total_revenue(s), one) == clamp_i128(total_revenue(s) + x.trailing_revenue));
    assert(anomaly_fold(total_anomalies(s), one) == clamp_u32(total_anomalies(s) + x.anomaly_count));
    if s.len() > 0 {
        let s2 = s.update(s.len() - 1, s.last().push(x));
        assert(s2.drop_last() =~= s.drop_last());
        assert(s2.last() == s.last().push(x));
        assert(s.last().push(x).drop_last() =~= s.last());
        lemma_with_snapshots_bound(s2);
    }
}

} // verus!


