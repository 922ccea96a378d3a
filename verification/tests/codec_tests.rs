use profile_store::codec::{i64_to_string, json_to_profile, profile_to_json};
use profile_store::profile::{Activity, Profile};

fn sample_profile() -> Profile {
    Profile {
        username: Some("Alice".to_string()),
        email: Some("alice@example.com".to_string()),
        join_date: Some("2024-01-02T03:04:05+00:00".to_string()),
        total_time: 1234,
        avatar: None,
        signature: Some("hello".to_string()),
        activities: vec![Activity {
            id: "1700000000000".to_string(),
            action: "viewed".to_string(),
            target: "dashboard".to_string(),
            timestamp: "2024-01-02T03:04:05+00:00".to_string(),
        }],
    }
}

#[test]
fn serializes_expected_document() {
    let p = Profile {
        username: Some("Administrator".to_string()),
        email: None,
        join_date: None,
        total_time: 0,
        avatar: None,
        signature: None,
        activities: vec![],
    };
    let text = profile_to_json(&p);
    let expected = "{\n  \"username\": \"Administrator\",\n  \"email\": null,\n  \"joinDate\": null,\n  \"totalTime\": 0,\n  \"avatar\": null,\n  \"signature\": null,\n  \"activities\": []\n}";
    assert_eq!(text, expected);
}

#[test]
fn round_trips_sample_profile() {
    let p = sample_profile();
    let text = profile_to_json(&p);
    let q = json_to_profile(&text).expect("own document must parse");
    assert_eq!(p, q);
}

#[test]
fn round_trips_awkward_strings() {
    let mut p = sample_profile();
    p.username = Some("quote \" backslash \\ newline \n tab \t".to_string());
    p.signature = Some("unicode \u{1F600} control \u{01} end".to_string());
    p.email = Some(String::new());
    let text = profile_to_json(&p);
    let q = json_to_profile(&text).expect("escaped document must parse");
    assert_eq!(p, q);
}

#[test]
fn round_trips_extreme_total_time() {
    for n in [i64::MIN, -1, 0, 1, i64::MAX] {
        let mut p = sample_profile();
        p.total_time = n;
        let q = json_to_profile(&profile_to_json(&p)).expect("must parse");
        assert_eq!(q.total_time, n);
    }
}

#[test]
fn formats_integers_exactly() {
    assert_eq!(i64_to_string(0), "0");
    assert_eq!(i64_to_string(7), "7");
    assert_eq!(i64_to_string(-1), "-1");
    assert_eq!(i64_to_string(1234567890123), "1234567890123");
    assert_eq!(i64_to_string(i64::MAX), "9223372036854775807");
    assert_eq!(i64_to_string(i64::MIN), "-9223372036854775808");
}

#[test]
fn serde_json_reads_our_document() {
    let p = sample_profile();
    let text = profile_to_json(&p);
    let v: serde_json::Value = serde_json::from_str(&text).expect("valid JSON");
    assert_eq!(v["username"].as_str(), Some("Alice"));
    assert_eq!(v["email"].as_str(), Some("alice@example.com"));
    assert_eq!(v["joinDate"].as_str(), Some("2024-01-02T03:04:05+00:00"));
    assert_eq!(v["totalTime"].as_i64(), Some(1234));
    assert!(v["avatar"].is_null());
    assert_eq!(v["signature"].as_str(), Some("hello"));
    let acts = v["activities"].as_array().expect("array");
    assert_eq!(acts.len(), 1);
    assert_eq!(acts[0]["id"].as_str(), Some("1700000000000"));
    assert_eq!(acts[0]["action"].as_str(), Some("viewed"));
    assert_eq!(acts[0]["target"].as_str(), Some("dashboard"));
    assert_eq!(acts[0]["timestamp"].as_str(), Some("2024-01-02T03:04:05+00:00"));
}

#[test]
fn serde_json_reads_escapes_identically() {
    let mut p = sample_profile();
    p.username = Some("a\"b\\c\nd\u{02}e".to_string());
    let text = profile_to_json(&p);
    let v: serde_json::Value = serde_json::from_str(&text).expect("valid JSON");
    assert_eq!(v["username"].as_str(), Some("a\"b\\c\nd\u{02}e"));
}

#[test]
fn parses_whitespace_variations() {
    let p = sample_profile();
    let minified = "{\"username\":\"Alice\",\"email\":\"alice@example.com\",\"joinDate\":\"2024-01-02T03:04:05+00:00\",\"totalTime\":1234,\"avatar\":null,\"signature\":\"hello\",\"activities\":[{\"id\":\"1700000000000\",\"action\":\"viewed\",\"target\":\"dashboard\",\"timestamp\":\"2024-01-02T03:04:05+00:00\"}]}";
    let q = json_to_profile(minified).expect("minified document must parse");
    assert_eq!(p, q);
    let sprawling = "  {\t\"username\" : \"Alice\" ,\r\n \"email\"\t:\t\"alice@example.com\" , \"joinDate\" : \"2024-01-02T03:04:05+00:00\" , \"totalTime\" :  1234 , \"avatar\" : null , \"signature\" : \"hello\" , \"activities\" : [ { \"id\" : \"1700000000000\" , \"action\" : \"viewed\" , \"target\" : \"dashboard\" , \"timestamp\" : \"2024-01-02T03:04:05+00:00\" } ] }  ";
    let r = json_to_profile(sprawling).expect("spread-out document must parse");
    assert_eq!(p, r);
}

#[test]
fn rejects_malformed_documents() {
    assert_eq!(json_to_profile(""), None);
    assert_eq!(json_to_profile("not json at all"), None);
    assert_eq!(json_to_profile("{}"), None);
    assert_eq!(json_to_profile("{\"username\": 5}"), None);
    assert_eq!(json_to_profile("[1, 2, 3]"), None);
    let p = sample_profile();
    let text = profile_to_json(&p);
    let truncated = &text[..text.len() - 1];
    assert_eq!(json_to_profile(truncated), None);
    let trailing = format!("{} extra", text);
    assert_eq!(json_to_profile(&trailing), None);
}

#[test]
fn rejects_type_mismatches() {
    let bad_total = "{\n  \"username\": null,\n  \"email\": null,\n  \"joinDate\": null,\n  \"totalTime\": \"zero\",\n  \"avatar\": null,\n  \"signature\": null,\n  \"activities\": []\n}";
    assert_eq!(json_to_profile(bad_total), None);
    let bad_acts = "{\n  \"username\": null,\n  \"email\": null,\n  \"joinDate\": null,\n  \"totalTime\": 0,\n  \"avatar\": null,\n  \"signature\": null,\n  \"activities\": {}\n}";
    assert_eq!(json_to_profile(bad_acts), None);
}

#[test]
fn accepts_null_join_date_document() {
    let mut p = sample_profile();
    p.join_date = None;
    let q = json_to_profile(&profile_to_json(&p)).expect("must parse");
    assert_eq!(q.join_date, None);
}
