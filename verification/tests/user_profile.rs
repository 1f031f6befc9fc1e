use starked::errors::OpError;
use starked::user_profile::{PrivacyLevel, UserProfileContract};

#[test]
fn test_create_profile() {
    let mut contract = UserProfileContract::initialize();
    let user = "user1".to_string();

    let username = "testuser".to_string();
    let email = Some("test@example.com".to_string());
    let bio = Some("Test bio".to_string());
    let avatar_url = Some("https://example.com/avatar.jpg".to_string());
    let privacy_level = PrivacyLevel::Public;

    let profile = contract
        .create_or_update_profile(
            user.clone(),
            username.clone(),
            email.clone(),
            bio.clone(),
            avatar_url.clone(),
            privacy_level,
        )
        .unwrap();

    assert_eq!(profile.owner, user);
    assert_eq!(profile.username, username);
    assert_eq!(profile.email, email);
    assert_eq!(profile.bio, bio);
    assert_eq!(profile.avatar_url, avatar_url);
    assert_eq!(profile.privacy_level, privacy_level);
    assert_eq!(profile.achievements.len(), 0);
}

#[test]
fn test_get_profile() {
    let mut contract = UserProfileContract::initialize();
    let user = "user1".to_string();

    let username = "testuser".to_string();
    let email = Some("test@example.com".to_string());

    contract
        .create_or_update_profile(
            user.clone(),
            username.clone(),
            email.clone(),
            None,
            None,
            PrivacyLevel::Public,
        )
        .unwrap();

    let retrieved = contract.get_profile(&user);
    assert!(retrieved.is_some());

    let profile = retrieved.unwrap();
    assert_eq!(profile.username, username);
    assert_eq!(profile.email, email);
}

#[test]
fn test_get_profile_by_username() {
    let mut contract = UserProfileContract::initialize();
    let user = "user1".to_string();

    let username = "uniqueuser".to_string();

    contract
        .create_or_update_profile(
            user.clone(),
            username.clone(),
            None,
            None,
            None,
            PrivacyLevel::Public,
        )
        .unwrap();

    let retrieved = contract.get_profile_by_username(&username);
    assert!(retrieved.is_some());

    let profile = retrieved.unwrap();
    assert_eq!(profile.username, username);
    assert_eq!(profile.owner, user);
}

#[test]
fn test_add_achievement() {
    let mut contract = UserProfileContract::initialize();
    let user = "user1".to_string();

    contract
        .create_or_update_profile(
            user.clone(),
            "testuser".to_string(),
            None,
            None,
            None,
            PrivacyLevel::Public,
        )
        .unwrap();

    let achievement_title = "First Achievement".to_string();
    let achievement_description = "Completed first milestone".to_string();
    let badge_url = Some("https://example.com/badge.png".to_string());

    let achievement_id = contract
        .add_achievement(
            user.clone(),
            achievement_title.clone(),
            achievement_description.clone(),
            badge_url.clone(),
        )
        .unwrap();

    assert!(achievement_id > 0);

    let achievement = contract.get_achievement(achievement_id);
    assert!(achievement.is_some());

    let achievement = achievement.unwrap();
    assert_eq!(achievement.user, user);
    assert_eq!(achievement.title, achievement_title);
    assert_eq!(achievement.description, achievement_description);
    assert_eq!(achievement.badge_url, badge_url);
    assert_eq!(achievement.verified, false);
}

#[test]
fn test_get_user_achievements() {
    let mut contract = UserProfileContract::initialize();
    let user = "user1".to_string();

    contract
        .create_or_update_profile(
            user.clone(),
            "testuser".to_string(),
            None,
            None,
            None,
            PrivacyLevel::Public,
        )
        .unwrap();

    let id1 = contract
        .add_achievement(
            user.clone(),
            "First Achievement".to_string(),
            "First milestone".to_string(),
            None,
        )
        .unwrap();
    let id2 = contract
        .add_achievement(
            user.clone(),
            "Second Achievement".to_string(),
            "Second milestone".to_string(),
            None,
        )
        .unwrap();

    let achievements = contract.get_user_achievements(&user);
    assert_eq!(achievements.len(), 2);

    let mut found_first = false;
    let mut found_second = false;
    for achievement in achievements.iter() {
        if achievement.id == id1 {
            found_first = true;
        }
        if achievement.id == id2 {
            found_second = true;
        }
    }
    assert!(found_first);
    assert!(found_second);
}

#[test]
fn test_verify_achievement() {
    let mut contract = UserProfileContract::initialize();
    let user = "user1".to_string();
    let admin = "admin".to_string();

    contract
        .create_or_update_profile(
            user.clone(),
            "testuser".to_string(),
            None,
            None,
            None,
            PrivacyLevel::Public,
        )
        .unwrap();

    let achievement_id = contract
        .add_achievement(
            user.clone(),
            "Unverified Achievement".to_string(),
            "Needs verification".to_string(),
            None,
        )
        .unwrap();

    let achievement = contract.get_achievement(achievement_id).unwrap();
    assert_eq!(achievement.verified, false);

    let result = contract.verify_achievement(&admin, achievement_id);
    assert!(result.is_ok());

    let achievement = contract.get_achievement(achievement_id).unwrap();
    assert_eq!(achievement.verified, true);
}

#[test]
fn test_verify_profile_authenticity() {
    let mut contract = UserProfileContract::initialize();
    let user = "user1".to_string();

    contract
        .create_or_update_profile(
            user.clone(),
            "authenticuser".to_string(),
            None,
            None,
            None,
            PrivacyLevel::Public,
        )
        .unwrap();

    let is_authentic = contract.verify_profile_authenticity(&user);
    assert_eq!(is_authentic, true);

    let is_fake_authentic = contract.verify_profile_authenticity("nobody");
    assert_eq!(is_fake_authentic, false);
}

#[test]
fn test_update_privacy_level() {
    let mut contract = UserProfileContract::initialize();
    let user = "user1".to_string();

    contract
        .create_or_update_profile(
            user.clone(),
            "privacyuser".to_string(),
            None,
            None,
            None,
            PrivacyLevel::Public,
        )
        .unwrap();

    let result = contract.update_privacy_level(&user, PrivacyLevel::Private);
    assert!(result.is_ok());

    let profile = contract.get_profile(&user).unwrap();
    assert_eq!(profile.privacy_level, PrivacyLevel::Private);
}

#[test]
fn test_profile_with_privacy_check() {
    let mut contract = UserProfileContract::initialize();
    let user = "user1".to_string();
    let requester = "user2".to_string();

    contract
        .create_or_update_profile(
            user.clone(),
            "privateuser".to_string(),
            None,
            None,
            None,
            PrivacyLevel::Private,
        )
        .unwrap();

    let profile = contract.get_profile_with_privacy_check(&requester, &user);
    assert!(profile.is_none());

    let profile = contract.get_profile_with_privacy_check(&user, &user);
    assert!(profile.is_some());
}

#[test]
fn test_username_uniqueness() {
    let mut contract = UserProfileContract::initialize();
    let user1 = "user1".to_string();
    let user2 = "user2".to_string();

    let username = "uniqueusername".to_string();

    contract
        .create_or_update_profile(
            user1.clone(),
            username.clone(),
            None,
            None,
            None,
            PrivacyLevel::Public,
        )
        .unwrap();

    let result = contract.create_or_update_profile(
        user2.clone(),
        username.clone(),
        None,
        None,
        None,
        PrivacyLevel::Public,
    );
    assert!(matches!(result, Err(OpError::Unauthorized)));
}

#[test]
fn test_username_stays_reserved_after_rename() {
    let mut contract = UserProfileContract::initialize();
    let user1 = "user1".to_string();
    let user2 = "user2".to_string();

    contract
        .create_or_update_profile(
            user1.clone(),
            "firstname".to_string(),
            None,
            None,
            None,
            PrivacyLevel::Public,
        )
        .unwrap();
    contract
        .create_or_update_profile(
            user1.clone(),
            "secondname".to_string(),
            None,
            None,
            None,
            PrivacyLevel::Public,
        )
        .unwrap();

    let result = contract.create_or_update_profile(
        user2.clone(),
        "firstname".to_string(),
        None,
        None,
        None,
        PrivacyLevel::Public,
    );
    assert!(matches!(result, Err(OpError::Unauthorized)));

    let reached = contract.get_profile_by_username("firstname").unwrap();
    assert_eq!(reached.owner, user1);
    assert_eq!(reached.username, "secondname".to_string());
}

#[test]
fn test_add_achievement_without_profile() {
    let mut contract = UserProfileContract::initialize();
    let result = contract.add_achievement(
        "ghost".to_string(),
        "Title".to_string(),
        "Description".to_string(),
        None,
    );
    assert_eq!(result.unwrap_err(), OpError::NotFound);
}

#[test]
fn test_update_privacy_level_without_profile() {
    let mut contract = UserProfileContract::initialize();
    let result = contract.update_privacy_level("ghost", PrivacyLevel::Public);
    assert_eq!(result.unwrap_err(), OpError::NotFound);
}

#[test]
fn test_verify_unknown_achievement() {
    let mut contract = UserProfileContract::initialize();
    let result = contract.verify_achievement("admin", 1);
    assert_eq!(result.unwrap_err(), OpError::NotFound);
}
