use starked::analytics::AnalyticsContract;
use starked::errors::OpError;

#[test]
fn test_analytics_flow() {
    let mut analytics = AnalyticsContract::initialize("admin".to_string());

    let total_users = 100;
    let total_courses = 5;
    let total_completions = 20;
    let avg_progress = 7500;

    analytics
        .record_metrics(
            "admin",
            total_users,
            total_courses,
            total_completions,
            avg_progress,
        )
        .unwrap();

    let latest = analytics.get_latest().unwrap();
    assert_eq!(latest.total_users, total_users);
    assert_eq!(latest.avg_progress_bps, avg_progress);

    analytics.record_metrics("admin", 110, 6, 25, 7600).unwrap();

    let history = analytics.get_history();
    assert_eq!(history.len(), 2);
    assert!(history[1].timestamp > history[0].timestamp);
    assert_eq!(history[1].total_users, 110);
}

#[test]
fn test_record_metrics_requires_admin() {
    let mut analytics = AnalyticsContract::initialize("admin".to_string());

    let result = analytics.record_metrics("intruder", 1, 1, 1, 1);
    assert_eq!(result, Err(OpError::Unauthorized));
    assert!(analytics.get_latest().is_none());
    assert!(analytics.get_history().is_empty());
}
