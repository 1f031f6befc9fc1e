use starked::course_metadata::{CourseMetadataContract, CourseStatus};
use starked::errors::OpError;

fn create_basic_course(contract: &mut CourseMetadataContract, instructor: &str) -> String {
    contract.create_course(
        instructor.to_string(),
        "Test Course".to_string(),
        "Test description".to_string(),
        "Programming".to_string(),
        "beginner".to_string(),
        40,
        1000000,
        Vec::new(),
        Vec::new(),
        "QmHash123".to_string(),
        "https://example.com/thumbnail.jpg".to_string(),
        Vec::new(),
        "English".to_string(),
        true,
        100,
    )
}

#[test]
#[allow(non_snake_case)]
fn courseMetadata_test_test_initialize() {
    let contract = CourseMetadataContract::initialize("admin".to_string());
    assert_eq!(contract.get_course_count(), 0);
    assert_eq!(contract.get_completion_count(), 0);
}

#[test]
fn test_create_course() {
    let mut contract = CourseMetadataContract::initialize("admin".to_string());
    let instructor = "instructor1".to_string();

    let course_id = contract.create_course(
        instructor.clone(),
        "Introduction to Rust".to_string(),
        "Learn the basics of Rust programming".to_string(),
        "Programming".to_string(),
        "beginner".to_string(),
        40,
        1000000,
        vec!["Basic programming".to_string()],
        vec![
            "Understand Rust syntax".to_string(),
            "Write basic Rust programs".to_string(),
        ],
        "QmHash123".to_string(),
        "https://example.com/thumbnail.jpg".to_string(),
        vec!["rust".to_string(), "programming".to_string()],
        "English".to_string(),
        true,
        100,
    );

    let course = contract.get_course(&course_id).unwrap();
    assert_eq!(course.title, "Introduction to Rust".to_string());
    assert_eq!(course.instructor, instructor);
    assert_eq!(course.price, 1000000);
    assert_eq!(course.current_enrollments, 0);
    assert_eq!(course.rating, 0);
    assert_eq!(course.review_count, 0);
    assert!(matches!(course.status, CourseStatus::Active));

    let instructor_profile = contract.get_instructor_profile(&instructor).unwrap();
    assert_eq!(instructor_profile.address, instructor);
    assert_eq!(instructor_profile.course_count, 1);
    assert_eq!(instructor_profile.total_students, 0);
}

#[test]
fn test_update_course() {
    let mut contract = CourseMetadataContract::initialize("admin".to_string());
    let instructor = "instructor1".to_string();

    let course_id = contract.create_course(
        instructor.clone(),
        "Original Title".to_string(),
        "Original description".to_string(),
        "Programming".to_string(),
        "beginner".to_string(),
        40,
        1000000,
        Vec::new(),
        Vec::new(),
        "QmHash123".to_string(),
        "https://example.com/thumbnail.jpg".to_string(),
        Vec::new(),
        "English".to_string(),
        true,
        100,
    );

    let update_result = contract.update_course(
        &course_id,
        &instructor,
        Some("Updated Title".to_string()),
        Some("Updated description".to_string()),
        None,
        Some("intermediate".to_string()),
        Some(60),
        Some(2000000),
        None,
        None,
        None,
        None,
        None,
        None,
        None,
        None,
        Some(CourseStatus::Inactive),
    );
    assert!(update_result.is_ok());

    let updated_course = contract.get_course(&course_id).unwrap();
    assert_eq!(updated_course.title, "Updated Title".to_string());
    assert_eq!(updated_course.description, "Updated description".to_string());
    assert_eq!(updated_course.level, "intermediate".to_string());
    assert_eq!(updated_course.duration, 60);
    assert_eq!(updated_course.price, 2000000);
    assert!(matches!(updated_course.status, CourseStatus::Inactive));
    assert_eq!(updated_course.category, "Programming".to_string());
}

#[test]
fn test_verify_course() {
    let mut contract = CourseMetadataContract::initialize("admin".to_string());
    let instructor = "instructor1".to_string();

    let course_id = create_basic_course(&mut contract, &instructor);

    let is_valid = contract.verify_course(&course_id).unwrap();
    assert!(is_valid);

    let original_verification = contract.verify_course(&course_id).unwrap();
    assert!(original_verification);
}

#[test]
fn test_verify_course_after_update() {
    let mut contract = CourseMetadataContract::initialize("admin".to_string());
    let instructor = "instructor1".to_string();

    let course_id = create_basic_course(&mut contract, &instructor);
    contract
        .update_course(
            &course_id,
            &instructor,
            Some("New Title".to_string()),
            None,
            None,
            None,
            None,
            Some(2500000),
            None,
            None,
            None,
            None,
            None,
            None,
            None,
            None,
            None,
        )
        .unwrap();

    assert!(contract.verify_course(&course_id).unwrap());
}

#[test]
fn test_record_completion() {
    let mut contract = CourseMetadataContract::initialize("admin".to_string());
    let instructor = "instructor1".to_string();
    let student = "student1".to_string();

    let course_id = create_basic_course(&mut contract, &instructor);

    let completion_id = contract
        .record_completion(
            &course_id,
            student.clone(),
            85,
            "QmCertHash456".to_string(),
            vec!["Rust basics".to_string(), "Memory management".to_string()],
        )
        .unwrap();

    let completion = contract.get_completion(&completion_id).unwrap();
    assert_eq!(completion.course_id, course_id);
    assert_eq!(completion.student, student);
    assert_eq!(completion.final_grade, 85);
    assert_eq!(completion.certificate_hash, "QmCertHash456".to_string());
    assert!(!completion.is_verified);
    assert_eq!(completion.skills_acquired.len(), 2);

    let updated_course = contract.get_course(&course_id).unwrap();
    assert_eq!(updated_course.current_enrollments, 1);

    let updated_instructor = contract.get_instructor_profile(&instructor).unwrap();
    assert_eq!(updated_instructor.total_students, 1);
}

#[test]
fn test_verify_completion() {
    let mut contract = CourseMetadataContract::initialize("admin".to_string());
    let instructor = "instructor1".to_string();
    let student = "student1".to_string();

    let course_id = create_basic_course(&mut contract, &instructor);

    let completion_id = contract
        .record_completion(
            &course_id,
            student,
            85,
            "QmCertHash456".to_string(),
            vec!["Rust basics".to_string()],
        )
        .unwrap();

    let completion = contract.get_completion(&completion_id).unwrap();
    assert!(!completion.is_verified);

    let verify_result = contract.verify_completion(&completion_id);
    assert!(verify_result.is_ok());

    let verified_completion = contract.get_completion(&completion_id).unwrap();
    assert!(verified_completion.is_verified);
}

#[test]
fn test_rate_course() {
    let mut contract = CourseMetadataContract::initialize("admin".to_string());
    let instructor = "instructor1".to_string();

    let course_id = create_basic_course(&mut contract, &instructor);

    let rate_result = contract.rate_course(&course_id, "rater1", 80);
    assert!(rate_result.is_ok());

    let rated_course = contract.get_course(&course_id).unwrap();
    assert_eq!(rated_course.rating, 80);
    assert_eq!(rated_course.review_count, 1);

    let rate_result2 = contract.rate_course(&course_id, "rater1", 90);
    assert!(rate_result2.is_ok());

    let final_course = contract.get_course(&course_id).unwrap();
    assert_eq!(final_course.rating, 85);
    assert_eq!(final_course.review_count, 2);
}

#[test]
fn test_get_course_count() {
    let mut contract = CourseMetadataContract::initialize("admin".to_string());
    let instructor = "instructor1".to_string();

    assert_eq!(contract.get_course_count(), 0);

    contract.create_course(
        instructor.clone(),
        "Course 1".to_string(),
        "Description 1".to_string(),
        "Programming".to_string(),
        "beginner".to_string(),
        40,
        1000000,
        Vec::new(),
        Vec::new(),
        "QmHash123".to_string(),
        "https://example.com/thumbnail.jpg".to_string(),
        Vec::new(),
        "English".to_string(),
        true,
        100,
    );

    assert_eq!(contract.get_course_count(), 1);

    contract.create_course(
        instructor,
        "Course 2".to_string(),
        "Description 2".to_string(),
        "Design".to_string(),
        "intermediate".to_string(),
        60,
        2000000,
        Vec::new(),
        Vec::new(),
        "QmHash456".to_string(),
        "https://example.com/thumbnail2.jpg".to_string(),
        Vec::new(),
        "English".to_string(),
        true,
        50,
    );

    assert_eq!(contract.get_course_count(), 2);
}

#[test]
fn test_get_completion_count() {
    let mut contract = CourseMetadataContract::initialize("admin".to_string());
    let instructor = "instructor1".to_string();
    let student = "student1".to_string();

    assert_eq!(contract.get_completion_count(), 0);

    let course_id = create_basic_course(&mut contract, &instructor);

    contract
        .record_completion(
            &course_id,
            student.clone(),
            85,
            "QmCertHash456".to_string(),
            vec!["Rust basics".to_string()],
        )
        .unwrap();

    assert_eq!(contract.get_completion_count(), 1);

    contract
        .record_completion(
            &course_id,
            student,
            90,
            "QmCertHash789".to_string(),
            vec!["Advanced Rust".to_string()],
        )
        .unwrap();

    assert_eq!(contract.get_completion_count(), 2);
}

#[test]
fn test_invalid_rating() {
    let mut contract = CourseMetadataContract::initialize("admin".to_string());
    let instructor = "instructor1".to_string();

    let course_id = create_basic_course(&mut contract, &instructor);

    let result = contract.rate_course(&course_id, "rater1", 150);
    assert_eq!(result, Err(OpError::ValidationError));

    let course = contract.get_course(&course_id).unwrap();
    assert_eq!(course.review_count, 0);
}

#[test]
fn test_update_course_wrong_instructor() {
    let mut contract = CourseMetadataContract::initialize("admin".to_string());
    let course_id = create_basic_course(&mut contract, "instructor1");

    let result = contract.update_course(
        &course_id,
        "instructor2",
        Some("Hijacked".to_string()),
        None,
        None,
        None,
        None,
        None,
        None,
        None,
        None,
        None,
        None,
        None,
        None,
        None,
        None,
    );
    assert_eq!(result, Err(OpError::Unauthorized));
}

#[test]
fn test_rate_unknown_course() {
    let mut contract = CourseMetadataContract::initialize("admin".to_string());
    let result = contract.rate_course("course_1", "rater1", 50);
    assert_eq!(result, Err(OpError::NotFound));
}

#[test]
fn test_verification_hash_value() {
    let mut contract = CourseMetadataContract::initialize("admin".to_string());
    let course_id = create_basic_course(&mut contract, "instructor1");
    let course = contract.get_course(&course_id).unwrap();

    // The fingerprint text is title, description, instructor, price and the
    // creation time (the clock stood at 1), run together.
    let text = format!(
        "{}{}{}{}{}",
        "Test Course", "Test description", "instructor1", 1000000, course.created_at
    );
    let mut hash: u64 = 0;
    for byte in text.bytes() {
        hash = hash.wrapping_mul(31).wrapping_add(byte as u64);
    }
    let expected = format!("{:x}", hash);
    assert_eq!(course.created_at, 1);
    assert_eq!(course.verification_hash, expected);
}
