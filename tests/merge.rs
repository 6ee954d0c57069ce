//! Merging compiled profiles into an existing target document.

use ankura::json::{Json, Member};
use ankura::merge::{document_to_write, is_profile_fragment, merge_configurations};

fn to_json(v: &serde_json::Value) -> Json {
    match v {
        serde_json::Value::Null => Json::Null,
        serde_json::Value::Bool(b) => Json::Bool(*b),
        serde_json::Value::Number(n) => Json::Number(n.to_string()),
        serde_json::Value::String(s) => Json::Str(s.clone()),
        serde_json::Value::Array(a) => Json::Array(a.iter().map(to_json).collect()),
        serde_json::Value::Object(m) => Json::Object(
            m.iter()
                .map(|(k, v)| Member { key: k.clone(), value: to_json(v) })
                .collect(),
        ),
    }
}

fn to_value(j: &Json) -> serde_json::Value {
    match j {
        Json::Null => serde_json::Value::Null,
        Json::Bool(b) => serde_json::Value::Bool(*b),
        Json::Number(n) => serde_json::from_str(n).unwrap(),
        Json::Str(s) => serde_json::Value::String(s.clone()),
        Json::Array(a) => serde_json::Value::Array(a.iter().map(to_value).collect()),
        Json::Object(ms) => {
            let mut m = serde_json::Map::new();
            for member in ms {
                m.insert(member.key.clone(), to_value(&member.value));
            }
            serde_json::Value::Object(m)
        }
    }
}

fn parse(text: &str) -> Json {
    to_json(&serde_json::from_str::<serde_json::Value>(text).unwrap())
}

fn merge(existing: &str, fragment: &str) -> serde_json::Value {
    to_value(&merge_configurations(parse(existing), parse(fragment)))
}

fn keys(ms: &Json) -> Vec<String> {
    match ms {
        Json::Object(ms) => ms.iter().map(|m| m.key.clone()).collect(),
        _ => Vec::new(),
    }
}

#[test]
fn test_preserves_other_profiles() {
    let existing_karabiner = r#"{
        "profiles": [
            {
                "name": "Work",
                "selected": false,
                "complex_modifications": {
                    "rules": [
                        {
                            "description": "Work specific rule",
                            "manipulators": []
                        }
                    ]
                }
            },
            {
                "name": "Gaming",
                "selected": false,
                "simple_modifications": [
                    {
                        "from": "caps_lock",
                        "to": "left_control"
                    }
                ]
            },
            {
                "name": "pkl",
                "selected": true,
                "complex_modifications": {
                    "rules": []
                }
            }
        ]
    }"#;
    // What update_profile.pkl compiles to.
    let compiled = r#"{"profiles": [{"name": "pkl", "selected": false,
        "simple_modifications": [{"from": "escape", "to": "caps_lock"}]}]}"#;
    let updated_json = merge(existing_karabiner, compiled);
    let profiles = updated_json["profiles"].as_array().unwrap();
    assert_eq!(profiles.len(), 3, "Should still have 3 profiles");

    let work_profile = profiles.iter().find(|p| p["name"] == "Work").unwrap();
    assert_eq!(work_profile["selected"], serde_json::Value::Bool(false));
    assert_eq!(
        work_profile["complex_modifications"]["rules"][0]["description"],
        "Work specific rule"
    );

    let gaming_profile = profiles.iter().find(|p| p["name"] == "Gaming").unwrap();
    assert_eq!(gaming_profile["selected"], serde_json::Value::Bool(false));
    assert_eq!(gaming_profile["simple_modifications"][0]["from"], "caps_lock");

    let pkl_profile = profiles.iter().find(|p| p["name"] == "pkl").unwrap();
    assert_eq!(pkl_profile["selected"], serde_json::Value::Bool(true));
    assert_eq!(pkl_profile["simple_modifications"][0]["from"], "escape");
}

#[test]
fn test_creates_new_profile_if_not_exists() {
    let existing_karabiner = r#"{
        "profiles": [
            {
                "name": "Default",
                "selected": true,
                "complex_modifications": {
                    "rules": []
                }
            }
        ]
    }"#;
    // What new_profile.pkl compiles to.
    let compiled = r#"{"profiles": [{"name": "MyNewProfile", "simple_modifications": []}]}"#;
    let updated_json = merge(existing_karabiner, compiled);
    let profiles = updated_json["profiles"].as_array().unwrap();
    assert_eq!(profiles.len(), 2, "Should have 2 profiles");

    let default_profile = profiles.iter().find(|p| p["name"] == "Default").unwrap();
    assert_eq!(default_profile["selected"], serde_json::Value::Bool(true));

    let new_profile = profiles.iter().find(|p| p["name"] == "MyNewProfile").unwrap();
    assert_eq!(new_profile["selected"], serde_json::Value::Bool(false));
}

#[test]
fn merge_scenario_carries_selection_and_leaves_work_untouched() {
    let existing = r#"{"profiles":[{"name":"Work","selected":false},{"name":"pkl","selected":true}]}"#;
    let fragment = r#"{"profiles":[{"name":"pkl","simple_modifications":[{"from":"a","to":"b"}]}]}"#;
    let merged = merge(existing, fragment);
    let profiles = merged["profiles"].as_array().unwrap();
    assert_eq!(profiles.len(), 2);
    assert_eq!(profiles[0], serde_json::from_str::<serde_json::Value>(r#"{"name":"Work","selected":false}"#).unwrap());
    assert_eq!(profiles[1]["name"], "pkl");
    assert_eq!(profiles[1]["selected"], serde_json::Value::Bool(true));
    assert_eq!(profiles[1]["simple_modifications"][0]["from"], "a");
}

#[test]
fn merge_appends_unknown_profile_unselected() {
    let existing = r#"{"profiles":[{"name":"A","selected":true},{"name":"B"}]}"#;
    let merged = merge(existing, r#"{"profiles":[{"name":"C","x":1}]}"#);
    let profiles = merged["profiles"].as_array().unwrap();
    assert_eq!(profiles.len(), 3);
    assert_eq!(profiles[2]["name"], "C");
    assert_eq!(profiles[2]["selected"], serde_json::Value::Bool(false));
    assert_eq!(profiles[2]["x"], 1);
}

#[test]
fn merge_keeps_explicit_selection_of_new_profile() {
    let merged = merge(r#"{"profiles":[]}"#, r#"{"profiles":[{"name":"C","selected":true}]}"#);
    assert_eq!(merged["profiles"][0]["selected"], serde_json::Value::Bool(true));
}

#[test]
fn merge_selected_true_survives_incoming_false() {
    let existing = r#"{"profiles":[{"name":"pkl","selected":true,"old":1}]}"#;
    let merged = merge(existing, r#"{"profiles":[{"name":"pkl","selected":false,"new":2}]}"#);
    let p = &merged["profiles"][0];
    assert_eq!(p["selected"], serde_json::Value::Bool(true));
    assert_eq!(p["new"], 2);
    assert!(p.get("old").is_none());
}

#[test]
fn merge_replaces_in_place_and_keeps_other_members() {
    let existing = r#"{"global":{"check_for_updates_on_startup":true},
        "profiles":[{"name":"A"},{"name":"pkl"},{"name":"Z"}],"title":"Mine"}"#;
    let fragment = r#"{"title":"Generated","profiles":[{"name":"pkl","v":3}]}"#;
    let merged = merge_configurations(parse(existing), parse(fragment));
    assert_eq!(keys(&merged), vec!["global", "profiles", "title"]);
    let v = to_value(&merged);
    assert_eq!(v["title"], "Mine");
    assert_eq!(v["global"]["check_for_updates_on_startup"], serde_json::Value::Bool(true));
    let names: Vec<&str> = v["profiles"].as_array().unwrap().iter().map(|p| p["name"].as_str().unwrap()).collect();
    assert_eq!(names, vec!["A", "pkl", "Z"]);
    assert_eq!(v["profiles"][1]["v"], 3);
}

#[test]
fn merge_takes_fragment_title_or_default() {
    let with_title = merge(r#"{"profiles":[]}"#, r#"{"title":"T","profiles":[{"name":"p"}]}"#);
    assert_eq!(with_title["title"], "T");
    let without = merge(r#"{}"#, r#"{"profiles":[{"name":"p"}]}"#);
    assert_eq!(without["title"], "Karabiner-Pkl Configuration");
    assert_eq!(without["profiles"].as_array().unwrap().len(), 1);
}

#[test]
fn merge_tolerates_malformed_existing_document() {
    let not_object = merge(r#"[1,2]"#, r#"{"profiles":[{"name":"p"}]}"#);
    assert_eq!(not_object["profiles"].as_array().unwrap().len(), 1);
    let bad_profiles = merge(r#"{"profiles":"nope"}"#, r#"{"profiles":[{"name":"p"}]}"#);
    assert_eq!(bad_profiles["profiles"].as_array().unwrap().len(), 1);
    assert_eq!(bad_profiles["profiles"][0]["selected"], serde_json::Value::Bool(false));
}

#[test]
fn merge_without_name_uses_pkl_key() {
    let existing = r#"{"profiles":[{"name":"pkl","selected":true}]}"#;
    let merged = merge(existing, r#"{"profiles":[{"rules":[]}]}"#);
    let profiles = merged["profiles"].as_array().unwrap();
    assert_eq!(profiles.len(), 1);
    assert_eq!(profiles[0]["selected"], serde_json::Value::Bool(true));
}

#[test]
fn merge_twice_is_same_as_once() {
    let existing = r#"{"profiles":[{"name":"A","selected":true},{"name":"pkl","selected":false}]}"#;
    let fragment = r#"{"profiles":[{"name":"pkl","rules":[1,2]}]}"#;
    let once = merge_configurations(parse(existing), parse(fragment));
    let once_value = to_value(&once);
    let twice = to_value(&merge_configurations(once, parse(fragment)));
    assert_eq!(once_value, twice);
    let appended_once = merge_configurations(parse(existing), parse(r#"{"profiles":[{"name":"N"}]}"#));
    let appended_value = to_value(&appended_once);
    let appended_twice = to_value(&merge_configurations(appended_once, parse(r#"{"profiles":[{"name":"N"}]}"#)));
    assert_eq!(appended_value, appended_twice);
}

#[test]
fn first_compile_writes_fragment_as_is() {
    let fragment = r#"{"profiles":[{"name":"p"}]}"#;
    let fresh = to_value(&document_to_write(None, parse(fragment)));
    assert_eq!(fresh, serde_json::from_str::<serde_json::Value>(fragment).unwrap());
    let merged = to_value(&document_to_write(Some(parse(r#"{"profiles":[{"name":"q"}]}"#)), parse(fragment)));
    assert_eq!(merged["profiles"].as_array().unwrap().len(), 2);
}

#[test]
fn fragments_start_with_a_profile_object() {
    assert!(is_profile_fragment(&parse(r#"{"profiles":[{"name":"p"}]}"#)));
    assert!(!is_profile_fragment(&parse(r#"{"profiles":["p"]}"#)));
    assert!(!is_profile_fragment(&parse(r#"{"profiles":[]}"#)));
    assert!(!is_profile_fragment(&parse(r#"{"profiles":{}}"#)));
    assert!(!is_profile_fragment(&parse(r#"[]"#)));
}
