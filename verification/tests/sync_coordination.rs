use starked::errors::OpError;
use starked::sync::{ConflictResolution, DeviceType, SyncCoordinationContract, SyncStatus};

fn coordinator() -> SyncCoordinationContract {
    SyncCoordinationContract::initialize("admin".to_string())
}

/// A coordinator with one device, one open session, and `n` conflicts
/// `conflict_1 ..= conflict_n` among entries `entry_1 ..= entry_{n+1}`.
fn coordinator_with_conflicts(n: u64) -> (SyncCoordinationContract, String) {
    let mut c = coordinator();
    let device_id = c
        .register_device(
            "user1".to_string(),
            DeviceType::Mobile,
            "Phone".to_string(),
            Vec::new(),
        )
        .unwrap();
    let session_id = c.start_sync_session("user1", &device_id).unwrap();
    for i in 0..=n {
        c.submit_sync_entry(
            &session_id,
            &device_id,
            "course_progress".to_string(),
            format!("hash{}", i),
            format!("payload{}", i),
        )
        .unwrap();
    }
    (c, session_id)
}

#[test]
#[allow(non_snake_case)]
fn syncCoordination_test_test_initialize() {
    let c = coordinator();
    assert_eq!(c.get_device_count(), 0);
    assert_eq!(c.get_entry_count(), 0);
    assert_eq!(c.get_conflict_count(), 0);
    assert_eq!(c.get_session_count(), 0);
}

#[test]
fn test_register_device() {
    let mut c = coordinator();
    let user = "user1".to_string();

    let device_id = c
        .register_device(
            user.clone(),
            DeviceType::Mobile,
            "iPhone 14".to_string(),
            vec!["read".to_string(), "write".to_string()],
        )
        .unwrap();

    let device = c.get_device(&device_id).unwrap();
    assert_eq!(device.id, device_id);
    assert_eq!(device.user_address, user);
    assert!(matches!(device.device_type, DeviceType::Mobile));
    assert_eq!(device.name, "iPhone 14".to_string());
    assert_eq!(device.is_active, true);
    assert_eq!(device.sync_version, 1);

    let user_devices = c.get_user_devices(&user);
    assert!(user_devices.contains(&device_id));

    assert_eq!(c.get_device_count(), 1);
}

#[test]
fn test_start_sync_session() {
    let mut c = coordinator();
    let user = "user1".to_string();

    let device_id = c
        .register_device(
            user.clone(),
            DeviceType::Desktop,
            "Work Laptop".to_string(),
            Vec::new(),
        )
        .unwrap();

    let session_id = c.start_sync_session(&user, &device_id).unwrap();

    let session = c.get_sync_session(&session_id).unwrap();
    assert_eq!(session.id, session_id);
    assert_eq!(session.user_address, user);
    assert_eq!(session.device_id, device_id);
    assert!(matches!(session.status, SyncStatus::InProgress));
    assert_eq!(session.entries_synced, 0);
    assert_eq!(session.conflicts_resolved, 0);

    let device = c.get_device(&device_id).unwrap();
    assert!(device.last_seen > 0);

    assert_eq!(c.get_session_count(), 1);
}

#[test]
fn test_submit_sync_entry() {
    let mut c = coordinator();
    let user = "user1".to_string();

    let device_id = c
        .register_device(
            user.clone(),
            DeviceType::Web,
            "Browser".to_string(),
            Vec::new(),
        )
        .unwrap();
    let session_id = c.start_sync_session(&user, &device_id).unwrap();

    let entry_id = c
        .submit_sync_entry(
            &session_id,
            &device_id,
            "course_progress".to_string(),
            "hash123".to_string(),
            "progress_data".to_string(),
        )
        .unwrap();

    let entry = c.get_sync_entry(&entry_id).unwrap();
    assert_eq!(entry.id, entry_id);
    assert_eq!(entry.user_address, user);
    assert_eq!(entry.device_id, device_id);
    assert_eq!(entry.data_type, "course_progress".to_string());
    assert_eq!(entry.data_hash, "hash123".to_string());
    assert!(matches!(entry.sync_status, SyncStatus::Completed));

    let session = c.get_sync_session(&session_id).unwrap();
    assert_eq!(session.entries_synced, 1);

    assert_eq!(c.get_entry_count(), 1);
}

#[test]
fn test_resolve_conflict_last_write_wins() {
    let (mut c, _session) = coordinator_with_conflicts(1);
    let conflict_id = "conflict_1";

    let result = c.resolve_conflict(
        conflict_id,
        ConflictResolution::LastWriteWins,
        "entry_1",
        "admin",
    );
    assert!(result.is_ok());

    let conflict = c.get_sync_conflict(conflict_id).unwrap();
    assert_eq!(conflict.resolution, Some(ConflictResolution::LastWriteWins));
    assert_eq!(conflict.resolved_by, Some("admin".to_string()));
    assert_eq!(conflict.winning_entry_id, Some("entry_1".to_string()));
}

#[test]
fn test_resolve_conflict_first_write_wins() {
    let (mut c, _session) = coordinator_with_conflicts(2);
    let conflict_id = "conflict_2";

    let result = c.resolve_conflict(
        conflict_id,
        ConflictResolution::FirstWriteWins,
        "entry_1",
        "admin",
    );
    assert!(result.is_ok());

    let conflict = c.get_sync_conflict(conflict_id).unwrap();
    assert_eq!(conflict.resolution, Some(ConflictResolution::FirstWriteWins));
}

#[test]
fn test_resolve_conflict_timestamp_wins() {
    let (mut c, _session) = coordinator_with_conflicts(3);
    let conflict_id = "conflict_3";

    let result = c.resolve_conflict(
        conflict_id,
        ConflictResolution::TimestampWins,
        "entry_1",
        "admin",
    );
    assert!(result.is_ok());

    let conflict = c.get_sync_conflict(conflict_id).unwrap();
    assert_eq!(conflict.resolution, Some(ConflictResolution::TimestampWins));
}

#[test]
fn test_resolve_conflict_manual_review() {
    let (mut c, _session) = coordinator_with_conflicts(4);
    let conflict_id = "conflict_4";

    let result = c.resolve_conflict(
        conflict_id,
        ConflictResolution::ManualReview,
        "entry_1",
        "admin",
    );
    assert!(result.is_ok());

    let conflict = c.get_sync_conflict(conflict_id).unwrap();
    assert_eq!(conflict.resolution, Some(ConflictResolution::ManualReview));

    let entry = c.get_sync_entry("entry_1").unwrap();
    assert!(matches!(entry.sync_status, SyncStatus::Pending));
}

#[test]
fn test_complete_sync_session() {
    let mut c = coordinator();
    let user = "user1".to_string();

    let device_id = c
        .register_device(
            user.clone(),
            DeviceType::Tablet,
            "iPad".to_string(),
            Vec::new(),
        )
        .unwrap();
    let session_id = c.start_sync_session(&user, &device_id).unwrap();

    let result = c.complete_sync_session(&session_id, true, None);
    assert!(result.is_ok());

    let session = c.get_sync_session(&session_id).unwrap();
    assert!(matches!(session.status, SyncStatus::Completed));
    assert!(session.completed_at.is_some());
    assert!(session.error_message.is_none());

    let device = c.get_device(&device_id).unwrap();
    assert!(device.last_sync > device.last_seen);
    assert_eq!(device.sync_version, 2);
}

#[test]
fn test_complete_sync_session_with_error() {
    let mut c = coordinator();
    let user = "user1".to_string();

    let device_id = c
        .register_device(
            user.clone(),
            DeviceType::Mobile,
            "Android Phone".to_string(),
            Vec::new(),
        )
        .unwrap();
    let session_id = c.start_sync_session(&user, &device_id).unwrap();

    let error_message = "Network timeout".to_string();
    let result = c.complete_sync_session(&session_id, false, Some(error_message.clone()));
    assert!(result.is_ok());

    let session = c.get_sync_session(&session_id).unwrap();
    assert!(matches!(session.status, SyncStatus::Failed));
    assert_eq!(session.error_message, Some(error_message));
}

#[test]
fn test_deactivate_device() {
    let mut c = coordinator();
    let user = "user1".to_string();

    let device_id = c
        .register_device(
            user.clone(),
            DeviceType::Desktop,
            "Work Computer".to_string(),
            Vec::new(),
        )
        .unwrap();

    let device = c.get_device(&device_id).unwrap();
    assert!(device.is_active);

    let result = c.deactivate_device(&user, &device_id);
    assert!(result.is_ok());

    let deactivated = c.get_device(&device_id).unwrap();
    assert!(!deactivated.is_active);
}

#[test]
fn test_update_device_capabilities() {
    let mut c = coordinator();
    let user = "user1".to_string();

    let device_id = c
        .register_device(
            user.clone(),
            DeviceType::Web,
            "Chrome Browser".to_string(),
            vec!["read".to_string()],
        )
        .unwrap();

    let new_capabilities = vec![
        "read".to_string(),
        "write".to_string(),
        "delete".to_string(),
    ];
    let result = c.update_device_capabilities(&user, &device_id, new_capabilities);
    assert!(result.is_ok());

    let updated = c.get_device(&device_id).unwrap();
    assert_eq!(updated.capabilities.len(), 3);
    assert!(updated.capabilities.contains(&"delete".to_string()));
}

#[test]
fn test_get_user_devices() {
    let mut c = coordinator();
    let user = "user1".to_string();

    let device1_id = c
        .register_device(
            user.clone(),
            DeviceType::Mobile,
            "iPhone".to_string(),
            Vec::new(),
        )
        .unwrap();
    let device2_id = c
        .register_device(
            user.clone(),
            DeviceType::Desktop,
            "Laptop".to_string(),
            Vec::new(),
        )
        .unwrap();
    let device3_id = c
        .register_device(
            user.clone(),
            DeviceType::Tablet,
            "iPad".to_string(),
            Vec::new(),
        )
        .unwrap();

    let user_devices = c.get_user_devices(&user);
    assert_eq!(user_devices.len(), 3);
    assert!(user_devices.contains(&device1_id));
    assert!(user_devices.contains(&device2_id));
    assert!(user_devices.contains(&device3_id));

    assert_eq!(c.get_device_count(), 3);
}

#[test]
fn test_get_user_sync_history() {
    let mut c = coordinator();
    let user = "user1".to_string();

    let device_id = c
        .register_device(
            user.clone(),
            DeviceType::Mobile,
            "Test Device".to_string(),
            Vec::new(),
        )
        .unwrap();

    let session1_id = c.start_sync_session(&user, &device_id).unwrap();
    c.complete_sync_session(&session1_id, true, None).unwrap();

    let session2_id = c.start_sync_session(&user, &device_id).unwrap();
    c.complete_sync_session(&session2_id, true, None).unwrap();

    let history = c.get_user_sync_history(&user, 10);
    assert!(history.is_empty());
}

#[test]
fn test_get_user_conflicts() {
    let c = coordinator();
    let conflicts = c.get_user_conflicts("user1");
    assert!(conflicts.is_empty());
}

#[test]
fn test_unauthorized_device_access() {
    let mut c = coordinator();

    let device_id = c
        .register_device(
            "user1".to_string(),
            DeviceType::Mobile,
            "Phone".to_string(),
            Vec::new(),
        )
        .unwrap();

    let result = c.deactivate_device("user2", &device_id);
    assert_eq!(result, Err(OpError::Unauthorized));
}

#[test]
fn test_sync_inactive_device() {
    let mut c = coordinator();
    let user = "user1".to_string();

    let device_id = c
        .register_device(
            user.clone(),
            DeviceType::Mobile,
            "Phone".to_string(),
            Vec::new(),
        )
        .unwrap();

    c.deactivate_device(&user, &device_id).unwrap();

    let result = c.start_sync_session(&user, &device_id);
    assert_eq!(result, Err(OpError::InvalidState));
}

#[test]
fn test_complete_completed_session() {
    let mut c = coordinator();
    let user = "user1".to_string();

    let device_id = c
        .register_device(
            user.clone(),
            DeviceType::Mobile,
            "Phone".to_string(),
            Vec::new(),
        )
        .unwrap();
    let session_id = c.start_sync_session(&user, &device_id).unwrap();

    c.complete_sync_session(&session_id, true, None).unwrap();

    let result = c.complete_sync_session(&session_id, true, None);
    assert_eq!(result, Err(OpError::InvalidState));
}

#[test]
fn test_registered_device_ids_are_unique() {
    let mut c = coordinator();
    let id1 = c
        .register_device(
            "user1".to_string(),
            DeviceType::Mobile,
            "Phone".to_string(),
            Vec::new(),
        )
        .unwrap();
    let id2 = c
        .register_device(
            "user1".to_string(),
            DeviceType::Mobile,
            "Phone".to_string(),
            Vec::new(),
        )
        .unwrap();
    let id3 = c
        .register_device(
            "user2".to_string(),
            DeviceType::Web,
            "Browser".to_string(),
            Vec::new(),
        )
        .unwrap();

    assert_ne!(id1, id2);
    assert_ne!(id1, id3);
    assert_ne!(id2, id3);

    let listing = c.get_user_devices("user1");
    assert_eq!(listing, vec![id1.clone(), id2.clone()]);
}

#[test]
fn test_register_device_empty_user() {
    let mut c = coordinator();
    let result = c.register_device(
        String::new(),
        DeviceType::Mobile,
        "Phone".to_string(),
        Vec::new(),
    );
    assert_eq!(result, Err(OpError::ValidationError));
    assert_eq!(c.get_device_count(), 0);
}

#[test]
fn test_start_session_unknown_device() {
    let mut c = coordinator();
    let result = c.start_sync_session("user1", "device_1");
    assert_eq!(result, Err(OpError::NotFound));
}

#[test]
fn test_start_session_wrong_owner() {
    let mut c = coordinator();
    let device_id = c
        .register_device(
            "user1".to_string(),
            DeviceType::Mobile,
            "Phone".to_string(),
            Vec::new(),
        )
        .unwrap();
    let result = c.start_sync_session("user2", &device_id);
    assert_eq!(result, Err(OpError::Unauthorized));
}

#[test]
fn test_submit_to_unknown_session() {
    let mut c = coordinator();
    let result = c.submit_sync_entry(
        "session_1",
        "device_1",
        "settings".to_string(),
        "h1".to_string(),
        "p1".to_string(),
    );
    assert_eq!(result, Err(OpError::NotFound));
}

#[test]
fn test_submit_to_completed_session() {
    let mut c = coordinator();
    let device_id = c
        .register_device(
            "user1".to_string(),
            DeviceType::Mobile,
            "Phone".to_string(),
            Vec::new(),
        )
        .unwrap();
    let session_id = c.start_sync_session("user1", &device_id).unwrap();
    c.complete_sync_session(&session_id, true, None).unwrap();

    let result = c.submit_sync_entry(
        &session_id,
        &device_id,
        "settings".to_string(),
        "h1".to_string(),
        "p1".to_string(),
    );
    assert_eq!(result, Err(OpError::InvalidState));
}

#[test]
fn test_complete_failed_needs_message() {
    let mut c = coordinator();
    let device_id = c
        .register_device(
            "user1".to_string(),
            DeviceType::Mobile,
            "Phone".to_string(),
            Vec::new(),
        )
        .unwrap();
    let session_id = c.start_sync_session("user1", &device_id).unwrap();

    let result = c.complete_sync_session(&session_id, false, None);
    assert_eq!(result, Err(OpError::ValidationError));

    let session = c.get_sync_session(&session_id).unwrap();
    assert!(matches!(session.status, SyncStatus::InProgress));
}

#[test]
fn test_session_counters_after_submissions() {
    let mut c = coordinator();
    let device_id = c
        .register_device(
            "user1".to_string(),
            DeviceType::Mobile,
            "Phone".to_string(),
            Vec::new(),
        )
        .unwrap();
    let session_id = c.start_sync_session("user1", &device_id).unwrap();

    c.submit_sync_entry(
        &session_id,
        &device_id,
        "progress".to_string(),
        "h1".to_string(),
        "p1".to_string(),
    )
    .unwrap();
    c.submit_sync_entry(
        &session_id,
        &device_id,
        "settings".to_string(),
        "h2".to_string(),
        "p2".to_string(),
    )
    .unwrap();
    c.submit_sync_entry(
        &session_id,
        &device_id,
        "bookmarks".to_string(),
        "h3".to_string(),
        "p3".to_string(),
    )
    .unwrap();

    let session = c.get_sync_session(&session_id).unwrap();
    assert_eq!(session.entries_synced, 3);
    assert_eq!(session.conflicts_resolved, 0);
}

#[test]
fn test_merge_data_resolution() {
    let (mut c, _session) = coordinator_with_conflicts(1);

    let result = c.resolve_conflict(
        "conflict_1",
        ConflictResolution::MergeData,
        "entry_2",
        "user1",
    );
    assert!(result.is_ok());

    let entry = c.get_sync_entry("entry_2").unwrap();
    assert_eq!(entry.payload, "payload1|payload0".to_string());
    assert_eq!(entry.merged_with, vec!["entry_1".to_string()]);
    assert!(matches!(entry.sync_status, SyncStatus::Completed));

    let losing = c.get_sync_entry("entry_1").unwrap();
    assert_eq!(losing.payload, "payload0".to_string());
}

#[test]
fn test_resolve_conflict_is_write_once() {
    let (mut c, _session) = coordinator_with_conflicts(1);

    c.resolve_conflict(
        "conflict_1",
        ConflictResolution::LastWriteWins,
        "entry_2",
        "admin",
    )
    .unwrap();
    let sealed = c.get_sync_conflict("conflict_1").unwrap();
    let resolved_at = sealed.resolved_at;
    let resolution = sealed.resolution;

    let second = c.resolve_conflict(
        "conflict_1",
        ConflictResolution::MergeData,
        "entry_1",
        "admin",
    );
    assert_eq!(second, Err(OpError::InvalidState));

    let after = c.get_sync_conflict("conflict_1").unwrap();
    assert_eq!(after.resolved_at, resolved_at);
    assert_eq!(after.resolution, resolution);
    assert_eq!(after.winning_entry_id, Some("entry_2".to_string()));
}

#[test]
fn test_resolve_conflict_unauthorized_resolver() {
    let (mut c, _session) = coordinator_with_conflicts(1);

    let result = c.resolve_conflict(
        "conflict_1",
        ConflictResolution::LastWriteWins,
        "entry_2",
        "someone_else",
    );
    assert_eq!(result, Err(OpError::Unauthorized));

    let conflict = c.get_sync_conflict("conflict_1").unwrap();
    assert!(conflict.resolution.is_none());
}

#[test]
fn test_resolve_unknown_conflict() {
    let mut c = coordinator();
    let result = c.resolve_conflict(
        "conflict_1",
        ConflictResolution::LastWriteWins,
        "entry_1",
        "admin",
    );
    assert_eq!(result, Err(OpError::NotFound));
}

#[test]
fn test_end_to_end_sync_flow() {
    let mut c = coordinator();
    let user = "user_u".to_string();

    let device_id = c
        .register_device(
            user.clone(),
            DeviceType::Mobile,
            "Phone".to_string(),
            Vec::new(),
        )
        .unwrap();
    assert_eq!(c.get_device(&device_id).unwrap().sync_version, 1);

    let session_id = c.start_sync_session(&user, &device_id).unwrap();

    let entry1 = c
        .submit_sync_entry(
            &session_id,
            &device_id,
            "progress".to_string(),
            "h1".to_string(),
            "v1".to_string(),
        )
        .unwrap();
    assert!(matches!(
        c.get_sync_entry(&entry1).unwrap().sync_status,
        SyncStatus::Completed
    ));
    assert_eq!(c.get_conflict_count(), 0);

    let entry2 = c
        .submit_sync_entry(
            &session_id,
            &device_id,
            "progress".to_string(),
            "h2".to_string(),
            "v2".to_string(),
        )
        .unwrap();
    assert!(matches!(
        c.get_sync_entry(&entry2).unwrap().sync_status,
        SyncStatus::Conflict
    ));
    assert_eq!(c.get_conflict_count(), 1);

    let conflict = c.get_sync_conflict("conflict_1").unwrap();
    assert_eq!(conflict.entry_id_1, entry1);
    assert_eq!(conflict.entry_id_2, entry2);
    assert_eq!(conflict.conflict_type, "data".to_string());
    assert!(conflict.resolution.is_none());

    c.resolve_conflict(
        "conflict_1",
        ConflictResolution::LastWriteWins,
        &entry2,
        &user,
    )
    .unwrap();
    let sealed = c.get_sync_conflict("conflict_1").unwrap();
    assert_eq!(sealed.resolution, Some(ConflictResolution::LastWriteWins));
    assert_eq!(sealed.winning_entry_id, Some(entry2.clone()));
    assert!(matches!(
        c.get_sync_entry(&entry2).unwrap().sync_status,
        SyncStatus::Completed
    ));

    c.complete_sync_session(&session_id, true, None).unwrap();
    assert_eq!(c.get_device(&device_id).unwrap().sync_version, 2);
}

#[test]
fn test_cleanup_old_data_removes_nothing() {
    let c = coordinator();
    assert_eq!(c.cleanup_old_data(1000), 0);
}

#[test]
fn test_identity_format() {
    let mut c = coordinator();
    let first = c
        .register_device(
            "user1".to_string(),
            DeviceType::Mobile,
            "Phone".to_string(),
            Vec::new(),
        )
        .unwrap();
    assert_eq!(first, "device_1".to_string());

    for _ in 0..11 {
        c.register_device(
            "user1".to_string(),
            DeviceType::Mobile,
            "Phone".to_string(),
            Vec::new(),
        )
        .unwrap();
    }
    let devices = c.get_user_devices("user1");
    assert_eq!(devices.len(), 12);
    assert_eq!(devices[11], "device_12".to_string());

    let session_id = c.start_sync_session("user1", "device_1").unwrap();
    assert_eq!(session_id, "session_1".to_string());

    let entry_id = c
        .submit_sync_entry(
            &session_id,
            "device_1",
            "progress".to_string(),
            "h1".to_string(),
            "p1".to_string(),
        )
        .unwrap();
    assert_eq!(entry_id, "entry_1".to_string());
}

#[test]
fn test_getters_on_unknown_identities() {
    let c = coordinator();
    assert!(matches!(c.get_device("device_1"), Err(OpError::NotFound)));
    assert!(matches!(c.get_sync_session("session_1"), Err(OpError::NotFound)));
    assert!(matches!(c.get_sync_entry("entry_1"), Err(OpError::NotFound)));
    assert!(matches!(c.get_sync_conflict("conflict_1"), Err(OpError::NotFound)));
}

#[test]
fn test_same_fingerprint_is_not_a_conflict() {
    let mut c = coordinator();
    let device_id = c
        .register_device(
            "user1".to_string(),
            DeviceType::Mobile,
            "Phone".to_string(),
            Vec::new(),
        )
        .unwrap();
    let session_id = c.start_sync_session("user1", &device_id).unwrap();

    c.submit_sync_entry(
        &session_id,
        &device_id,
        "progress".to_string(),
        "h1".to_string(),
        "p1".to_string(),
    )
    .unwrap();
    let second = c
        .submit_sync_entry(
            &session_id,
            &device_id,
            "progress".to_string(),
            "h1".to_string(),
            "p1b".to_string(),
        )
        .unwrap();

    assert!(matches!(
        c.get_sync_entry(&second).unwrap().sync_status,
        SyncStatus::Completed
    ));
    assert_eq!(c.get_conflict_count(), 0);
}
