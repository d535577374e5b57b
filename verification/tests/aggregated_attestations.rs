use veritasor::aggregated_attestations::{
    aggregate_metrics, AggregatedAttestationsContract, AggregationError, SnapshotSummary,
};

const ADMIN: u64 = 100;

fn setup() -> AggregatedAttestationsContract {
    let mut c = AggregatedAttestationsContract::new();
    c.initialize(ADMIN).unwrap();
    c
}

#[test]
fn test_initialize() {
    let client = setup();
    assert_eq!(client.get_admin(), Ok(ADMIN));
}

#[test]
fn test_register_portfolio() {
    let mut client = setup();
    let id = String::from("portfolio-1");
    client.register_portfolio(ADMIN, id.clone(), vec![1, 2]).unwrap();
    let stored = client.get_portfolio(id).unwrap();
    assert_eq!(stored.len(), 2);
}

#[test]
fn test_get_aggregated_metrics_empty_portfolio() {
    let mut client = setup();
    let id = String::from("empty");
    client.register_portfolio(ADMIN, id.clone(), vec![]).unwrap();
    let m = client.get_aggregated_metrics(id, &vec![]);
    assert_eq!(m.business_count, 0);
    assert_eq!(m.total_trailing_revenue, 0);
    assert_eq!(m.total_anomaly_count, 0);
    assert_eq!(m.businesses_with_snapshots, 0);
    assert_eq!(m.average_trailing_revenue, 0);
}

#[test]
fn test_get_aggregated_metrics_no_snapshots() {
    let mut client = setup();
    let id = String::from("no-snap");
    client.register_portfolio(ADMIN, id.clone(), vec![7]).unwrap();
    let m = client.get_aggregated_metrics(id, &vec![vec![]]);
    assert_eq!(m.business_count, 1);
    assert_eq!(m.businesses_with_snapshots, 0);
    assert_eq!(m.total_trailing_revenue, 0);
}

#[test]
fn test_get_aggregated_metrics_with_snapshots() {
    let mut client = setup();
    let id = String::from("p1");
    client.register_portfolio(ADMIN, id.clone(), vec![1, 2]).unwrap();
    let snapshots = vec![
        vec![SnapshotSummary { trailing_revenue: 100_000, anomaly_count: 1 }],
        vec![SnapshotSummary { trailing_revenue: 200_000, anomaly_count: 2 }],
    ];
    let m = client.get_aggregated_metrics(id, &snapshots);
    assert_eq!(m.business_count, 2);
    assert_eq!(m.businesses_with_snapshots, 2);
    assert_eq!(m.total_trailing_revenue, 300_000i128);
    assert_eq!(m.total_anomaly_count, 3u32);
    assert_eq!(m.average_trailing_revenue, 150_000i128);
}

#[test]
fn test_get_aggregated_metrics_unregistered_portfolio() {
    let client = setup();
    let m = client.get_aggregated_metrics(String::from("nonexistent"), &vec![]);
    assert_eq!(m.business_count, 0);
    assert_eq!(m.total_trailing_revenue, 0);
}

#[test]
fn test_register_portfolio_unauthorized() {
    let mut client = setup();
    assert_eq!(
        client.register_portfolio(5, String::from("p1"), vec![]),
        Err(AggregationError::NotAdmin)
    );
}

#[test]
fn aggregate_sums_saturate() {
    let snapshots = vec![
        vec![SnapshotSummary { trailing_revenue: i128::MAX, anomaly_count: u32::MAX }],
        vec![
            SnapshotSummary { trailing_revenue: 5, anomaly_count: 5 },
            SnapshotSummary { trailing_revenue: 1, anomaly_count: 0 },
        ],
        vec![],
    ];
    let m = aggregate_metrics(&snapshots);
    assert_eq!(m.total_trailing_revenue, i128::MAX);
    assert_eq!(m.total_anomaly_count, u32::MAX);
    assert_eq!(m.business_count, 3);
    assert_eq!(m.businesses_with_snapshots, 2);
    assert_eq!(m.average_trailing_revenue, i128::MAX / 2);
}

#[test]
fn business_without_snapshots_adds_nothing() {
    let s = |r: i128, a: u32| SnapshotSummary { trailing_revenue: r, anomaly_count: a };
    let base = vec![vec![s(100, 1), s(50, 2)]];
    let mut with_empty = base.clone();
    with_empty.push(vec![]);
    let m1 = aggregate_metrics(&base);
    let m2 = aggregate_metrics(&with_empty);
    assert_eq!(m2.total_trailing_revenue, m1.total_trailing_revenue);
    assert_eq!(m2.total_anomaly_count, m1.total_anomaly_count);
    assert_eq!(m2.businesses_with_snapshots, m1.businesses_with_snapshots);
    assert_eq!(m2.business_count, 2);
    assert!(m2.businesses_with_snapshots <= m2.business_count);
    let none = aggregate_metrics(&vec![vec![], vec![]]);
    assert_eq!(none.businesses_with_snapshots, 0);
    assert_eq!(none.average_trailing_revenue, 0);
}
