use profile_store::codec::{json_to_profile, profile_to_json};
use profile_store::profile::{Activity, Profile};
use profile_store::store::{
    FetchPlan, default_profile, fetch_plan, log_activity_update, replace_file_text,
};

fn stored_profile() -> Profile {
    Profile {
        username: Some("Alice".to_string()),
        email: Some("alice@example.com".to_string()),
        join_date: Some("2024-01-02T03:04:05+00:00".to_string()),
        total_time: 42,
        avatar: Some("avatars/alice.png".to_string()),
        signature: Some("sig".to_string()),
        activities: vec![],
    }
}

#[test]
fn fresh_install_materializes_defaults() {
    match fetch_plan(None) {
        FetchPlan::FirstRun { profile, file } => {
            assert_eq!(profile.username.as_deref(), Some("Administrator"));
            assert_eq!(profile.email.as_deref(), Some("admin@tideoa.com"));
            assert_eq!(profile.total_time, 0);
            assert_eq!(profile.avatar, None);
            assert_eq!(profile.signature.as_deref(), Some("Per aspera ad astra."));
            assert!(profile.activities.is_empty());
            let join = profile.join_date.clone().expect("join date is set");
            assert!(!join.is_empty());
            // the file asked to be written holds exactly this profile
            assert_eq!(json_to_profile(&file), Some(profile));
        },
        _ => panic!("a fresh installation must be a first run"),
    }
}

#[test]
fn second_fetch_after_first_run_is_clean() {
    let file = match fetch_plan(None) {
        FetchPlan::FirstRun { file, .. } => file,
        _ => panic!("expected first run"),
    };
    let first = json_to_profile(&file).expect("written file parses");
    match fetch_plan(Some(&file)) {
        FetchPlan::Clean { profile } => assert_eq!(profile, first),
        _ => panic!("a fetch of the just-written file must be clean"),
    }
}

#[test]
fn replace_then_fetch_round_trips() {
    let p = stored_profile();
    let file = replace_file_text(&p);
    match fetch_plan(Some(&file)) {
        FetchPlan::Clean { profile } => assert_eq!(profile, p),
        _ => panic!("a stored profile with a join date needs no write"),
    }
}

#[test]
fn corrupt_file_falls_back_to_defaults() {
    for bad in ["", "garbage", "{\"answer\": 42}", "[]", "{\"username\": 7}"] {
        match fetch_plan(Some(bad)) {
            FetchPlan::Clean { profile } => {
                assert_eq!(profile.username.as_deref(), Some("Administrator"));
                assert_eq!(profile.email.as_deref(), Some("admin@tideoa.com"));
                assert_eq!(profile.total_time, 0);
                assert_eq!(profile.signature.as_deref(), Some("Per aspera ad astra."));
                assert!(profile.activities.is_empty());
                assert!(profile.join_date.is_some());
            },
            _ => panic!("corruption is recovered without a write"),
        }
    }
}

#[test]
fn null_join_date_is_repaired_and_persisted() {
    let mut p = stored_profile();
    p.join_date = None;
    let file = replace_file_text(&p);
    match fetch_plan(Some(&file)) {
        FetchPlan::Repaired { profile, file: repaired } => {
            let join = profile.join_date.clone().expect("repair sets the join date");
            assert!(!join.is_empty());
            assert_eq!(profile.username, p.username);
            assert_eq!(profile.email, p.email);
            assert_eq!(profile.total_time, p.total_time);
            assert_eq!(profile.avatar, p.avatar);
            assert_eq!(profile.signature, p.signature);
            assert_eq!(profile.activities, p.activities);
            // the repaired value is what gets persisted ...
            assert_eq!(json_to_profile(&repaired), Some(profile.clone()));
            // ... and a later fetch of it is clean
            match fetch_plan(Some(&repaired)) {
                FetchPlan::Clean { profile: again } => assert_eq!(again, profile),
                _ => panic!("the repaired file needs no further repair"),
            }
        },
        _ => panic!("a null join date must be repaired"),
    }
}

#[test]
fn first_run_file_is_valid_json() {
    let file = match fetch_plan(None) {
        FetchPlan::FirstRun { file, .. } => file,
        _ => panic!("expected first run"),
    };
    let v: serde_json::Value = serde_json::from_str(&file).expect("valid JSON on disk");
    assert_eq!(v["username"].as_str(), Some("Administrator"));
    assert_eq!(v["email"].as_str(), Some("admin@tideoa.com"));
    assert_eq!(v["totalTime"].as_i64(), Some(0));
    assert!(v["joinDate"].is_string());
    assert_eq!(v["activities"].as_array().map(|a| a.len()), Some(0));
}

#[test]
fn default_profile_uses_given_join_date() {
    let p = default_profile("2020-05-06T07:08:09+00:00".to_string());
    assert_eq!(p.join_date.as_deref(), Some("2020-05-06T07:08:09+00:00"));
    assert_eq!(p.username.as_deref(), Some("Administrator"));
}

#[test]
fn log_activity_prepends_newest_first() {
    let p = stored_profile();
    let p = log_activity_update(p, "opened".to_string(), "settings".to_string());
    let p = log_activity_update(p, "viewed".to_string(), "dashboard".to_string());
    assert_eq!(p.activities.len(), 2);
    assert_eq!(p.activities[0].action, "viewed");
    assert_eq!(p.activities[0].target, "dashboard");
    assert_eq!(p.activities[1].action, "opened");
    assert_eq!(p.activities[1].target, "settings");
}

#[test]
fn sixty_appends_keep_the_newest_fifty() {
    let mut p = stored_profile();
    for k in 0..60 {
        p = log_activity_update(p, format!("action-{}", k), format!("target-{}", k));
    }
    assert_eq!(p.activities.len(), 50);
    // newest first: action-59 down to action-10; the ten oldest are gone
    for (i, a) in p.activities.iter().enumerate() {
        assert_eq!(a.action, format!("action-{}", 59 - i));
        assert_eq!(a.target, format!("target-{}", 59 - i));
    }
}

#[test]
fn log_activity_passes_other_fields_through() {
    let p = stored_profile();
    let q = log_activity_update(p.clone(), "viewed".to_string(), "dashboard".to_string());
    assert_eq!(q.username.as_deref(), Some("Alice"));
    assert_eq!(q.email, p.email);
    assert_eq!(q.join_date, p.join_date);
    assert_eq!(q.total_time, p.total_time);
    assert_eq!(q.avatar, p.avatar);
    assert_eq!(q.signature, p.signature);
}

#[test]
fn logged_activity_persists_through_the_file() {
    let p = stored_profile();
    let q = log_activity_update(p, "viewed".to_string(), "dashboard".to_string());
    let file = replace_file_text(&q);
    let back = json_to_profile(&file).expect("written file parses");
    assert_eq!(back, q);
    assert_eq!(back.activities[0].action, "viewed");
    assert!(!back.activities[0].id.is_empty());
    assert!(!back.activities[0].timestamp.is_empty());
}

#[test]
fn activity_ids_are_decimal_timestamps() {
    let p = log_activity_update(
        stored_profile(),
        "viewed".to_string(),
        "dashboard".to_string(),
    );
    let id = &p.activities[0].id;
    assert!(!id.is_empty());
    let rest = id.strip_prefix('-').unwrap_or(id);
    assert!(rest.chars().all(|c| c.is_ascii_digit()));
}

#[test]
fn stored_activities_beyond_the_bound_are_trimmed_on_log() {
    let mut p = stored_profile();
    p.activities = (0..80)
        .map(|k| Activity {
            id: format!("{}", k),
            action: format!("a{}", k),
            target: format!("t{}", k),
            timestamp: "2024-01-01T00:00:00+00:00".to_string(),
        })
        .collect();
    // an overlong stored log round-trips through the codec untrimmed
    let file = profile_to_json(&p);
    assert_eq!(json_to_profile(&file), Some(p.clone()));
    // logging trims to the bound
    let q = log_activity_update(p, "new".to_string(), "thing".to_string());
    assert_eq!(q.activities.len(), 50);
    assert_eq!(q.activities[0].action, "new");
    assert_eq!(q.activities[1].action, "a0");
    assert_eq!(q.activities[49].action, "a48");
}
