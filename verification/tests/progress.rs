use starked::progress::CourseProgressContract;

#[test]
fn test_progress_tracking() {
    let mut tracker = CourseProgressContract::new();
    let user = "user1".to_string();
    let course = "course-101".to_string();

    tracker.record_progress(user.clone(), course.clone(), 4, 10);

    let progress = tracker.get_progress(&user, &course).unwrap();
    assert_eq!(progress.lessons_completed, 4);
    assert_eq!(progress.total_lessons, 10);
    assert!(!progress.is_completed);

    tracker.record_progress(user.clone(), course.clone(), 10, 10);

    let finished = tracker.get_progress(&user, &course).unwrap();
    assert_eq!(finished.lessons_completed, 10);
    assert!(finished.is_completed);

    assert!(tracker.get_progress(&user, "course-202").is_none());
}

#[test]
fn test_progress_upsert_keeps_one_record() {
    let mut tracker = CourseProgressContract::new();
    let user = "user1".to_string();
    let course = "course-101".to_string();

    tracker.record_progress(user.clone(), course.clone(), 1, 10);
    let first = tracker.get_progress(&user, &course).unwrap();
    let first_stamp = first.last_updated;

    tracker.record_progress(user.clone(), course.clone(), 2, 10);
    let second = tracker.get_progress(&user, &course).unwrap();
    assert_eq!(second.lessons_completed, 2);
    assert!(second.last_updated > first_stamp);

    tracker.record_progress("user2".to_string(), course.clone(), 7, 10);
    let other = tracker.get_progress("user2", &course).unwrap();
    assert_eq!(other.lessons_completed, 7);

    let unchanged = tracker.get_progress(&user, &course).unwrap();
    assert_eq!(unchanged.lessons_completed, 2);
}

#[test]
fn test_progress_completion_boundary() {
    let mut tracker = CourseProgressContract::new();
    let user = "user1".to_string();

    tracker.record_progress(user.clone(), "a".to_string(), 9, 10);
    assert!(!tracker.get_progress(&user, "a").unwrap().is_completed);

    tracker.record_progress(user.clone(), "b".to_string(), 10, 10);
    assert!(tracker.get_progress(&user, "b").unwrap().is_completed);

    tracker.record_progress(user.clone(), "c".to_string(), 11, 10);
    assert!(tracker.get_progress(&user, "c").unwrap().is_completed);

    tracker.record_progress(user.clone(), "d".to_string(), 0, 0);
    assert!(tracker.get_progress(&user, "d").unwrap().is_completed);
}
