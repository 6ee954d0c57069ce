//! The evaluator's JSON output for each configuration source, taken through the
//! library's output handling: the `config` member is taken, checked, and handed
//! back as the compiled fragment.

use ankura::compiler::accept_output;
use ankura::json::{Json, Member};

fn to_json(v: &serde_json::Value) -> Json {
    match v {
        serde_json::Value::Null => Json::Null,
        serde_json::Value::Bool(b) => Json::Bool(*b),
        serde_json::Value::Number(n) => Json::Number(n.to_string()),
        serde_json::Value::String(s) => Json::Str(s.clone()),
        serde_json::Value::Array(a) => Json::Array(a.iter().map(to_json).collect()),
        serde_json::Value::Object(m) => Json::Object(
            m.iter()
                .map(|(k, v)| Member { key: k.clone(), value: to_json(v) })
                .collect(),
        ),
    }
}

/// Compiles evaluator output `text` as the library does, with no profile rename.
fn compile_output(text: &str) -> Json {
    let v: serde_json::Value = serde_json::from_str(text).expect("evaluator output is JSON");
    accept_output(to_json(&v), None).unwrap_or_else(|_| panic!("Failed to compile"))
}

/// The value at a `/`-separated path of keys and array positions.
fn at<'a>(j: &'a Json, path: &str) -> &'a Json {
    let mut cur = j;
    for step in path.split('/') {
        cur = match step.parse::<usize>() {
            Ok(i) => cur.index(i),
            Err(_) => cur.get(step),
        }
        .unwrap_or_else(|| panic!("no value at {path}"));
    }
    cur
}

fn text_at<'a>(j: &'a Json, path: &str) -> &'a str {
    at(j, path).as_str().unwrap_or_else(|| panic!("no string at {path}"))
}

fn number_at(j: &Json, path: &str) -> String {
    match at(j, path) {
        Json::Number(n) => n.clone(),
        _ => panic!("no number at {path}"),
    }
}

fn has(j: &Json, path: &str, key: &str) -> bool {
    at(j, path).get(key).is_some()
}

fn len_at(j: &Json, path: &str) -> usize {
    at(j, path).array_len().unwrap_or_else(|| panic!("no array at {path}"))
}

/// A whole evaluator output: a module with one rule list under `config`.
fn module_output(rules: &str) -> String {
    format!(
        r#"{{"simpleConfig": {{"complex_modifications": {{"rules": {rules}}}}},
            "config": {{"profiles": [{{"name": "Default", "selected": true,
                                       "complex_modifications": {{"rules": {rules}}}}}]}}}}"#
    )
}

const RULES: &str = "profiles/0/complex_modifications/rules";

#[test]
fn test_anonymous_functions() {
    // anonymous_functions_test.pkl
    let manip = |k: &str| {
        format!(
            r#"{{"type": "basic",
                "from": {{"key_code": "{k}", "modifiers": {{"mandatory": ["left_shift"]}}}},
                "to": [{{"key_code": "{k}", "modifiers": ["left_command"]}}]}}"#
        )
    };
    let rules = format!(
        r#"[{{"description": "Anonymous Function Test", "manipulators": [{}, {}, {}]}}]"#,
        manip("a"),
        manip("b"),
        manip("c")
    );
    let config = compile_output(&module_output(&rules));
    let m = format!("{RULES}/0/manipulators");
    assert_eq!(len_at(&config, &m), 3);
    assert_eq!(text_at(&config, &format!("{m}/0/from/key_code")), "a");
    assert_eq!(text_at(&config, &format!("{m}/0/from/modifiers/mandatory/0")), "left_shift");
    assert_eq!(text_at(&config, &format!("{m}/0/to/0/key_code")), "a");
    assert_eq!(text_at(&config, &format!("{m}/0/to/0/modifiers/0")), "left_command");
}

#[test]
fn test_let_expressions() {
    // let_expressions_test.pkl
    let rules = r#"[{"description": "Let Expression Test", "manipulators": [{
        "type": "basic",
        "from": {"key_code": "a", "modifiers": {"mandatory": ["left_command", "left_shift"]}},
        "to": [{"key_code": "1"}],
        "parameters": {"basic.to_if_alone_timeout_milliseconds": 500}}]}]"#;
    let config = compile_output(&module_output(rules));
    let m = format!("{RULES}/0/manipulators/0");
    assert_eq!(text_at(&config, &format!("{m}/from/modifiers/mandatory/0")), "left_command");
    assert_eq!(text_at(&config, &format!("{m}/from/modifiers/mandatory/1")), "left_shift");
    assert_eq!(number_at(&config, &format!("{m}/parameters/basic.to_if_alone_timeout_milliseconds")), "500");
}

#[test]
fn test_complex_layer_with_classes() {
    // class_layer_test.pkl
    let manip = |from: &str, to: &str| {
        format!(
            r#"{{"type": "basic",
                "from": {{"key_code": "{from}", "modifiers": {{"mandatory": ["right_option"]}}}},
                "to": [{{"key_code": "{to}"}}],
                "parameters": {{"basic.simultaneous_threshold_milliseconds": 300}}}}"#
        )
    };
    let rules = format!(
        r#"[{{"description": "Custom Layer with Class", "manipulators": [{}, {}, {}]}}]"#,
        manip("1", "f1"),
        manip("2", "f2"),
        manip("3", "f3")
    );
    let config = compile_output(&module_output(&rules));
    assert_eq!(text_at(&config, &format!("{RULES}/0/description")), "Custom Layer with Class");
    let m = format!("{RULES}/0/manipulators");
    assert_eq!(len_at(&config, &m), 3);
    assert_eq!(text_at(&config, &format!("{m}/0/from/modifiers/mandatory/0")), "right_option");
    assert_eq!(
        number_at(&config, &format!("{m}/0/parameters/basic.simultaneous_threshold_milliseconds")),
        "300"
    );
}

#[test]
fn test_chained_operations() {
    // chained_operations_test.pkl
    let manip = |k: &str| {
        format!(
            r#"{{"type": "basic",
                "from": {{"key_code": "{k}", "modifiers": {{"mandatory": ["left_control"]}}}},
                "to": [{{"key_code": "{k}", "modifiers": ["left_command"]}}]}}"#
        )
    };
    let rules = format!(
        r#"[{{"description": "Chained Operations", "manipulators": [{}, {}, {}]}}]"#,
        manip("a"),
        manip("b"),
        manip("d")
    );
    let config = compile_output(&module_output(&rules));
    let m = format!("{RULES}/0/manipulators");
    assert_eq!(len_at(&config, &m), 3);
    assert_eq!(text_at(&config, &format!("{m}/0/from/key_code")), "a");
    assert_eq!(text_at(&config, &format!("{m}/1/from/key_code")), "b");
    assert_eq!(text_at(&config, &format!("{m}/2/from/key_code")), "d");
}

#[test]
fn test_caps_lock_to_escape_simple() {
    // caps_lock_simple_test.pkl
    let rules = r#"[{"description": "Caps Lock to Escape", "manipulators": [{
        "type": "basic", "from": {"key_code": "caps_lock"}, "to": [{"key_code": "escape"}]}]}]"#;
    let config = compile_output(&module_output(rules));
    assert_eq!(text_at(&config, &format!("{RULES}/0/description")), "Caps Lock to Escape");
    let m = format!("{RULES}/0/manipulators/0");
    assert_eq!(text_at(&config, &format!("{m}/from/key_code")), "caps_lock");
    assert_eq!(text_at(&config, &format!("{m}/to/0/key_code")), "escape");
    assert!(!has(&config, &m, "to_if_alone"));
}

fn caps_lock_modifier_rules(modifier: &str) -> String {
    format!(
        r#"[{{"description": "Caps Lock to {modifier} when held, Escape when alone",
             "manipulators": [{{"type": "basic", "from": {{"key_code": "caps_lock"}},
                                "to": [{{"key_code": "{modifier}"}}],
                                "to_if_alone": [{{"key_code": "escape"}}]}}]}}]"#
    )
}

#[test]
fn test_caps_lock_to_modifier_default() {
    // caps_lock_modifier_default_test.pkl
    let config = compile_output(&module_output(&caps_lock_modifier_rules("right_control")));
    assert_eq!(
        text_at(&config, &format!("{RULES}/0/description")),
        "Caps Lock to right_control when held, Escape when alone"
    );
    let m = format!("{RULES}/0/manipulators/0");
    assert_eq!(text_at(&config, &format!("{m}/from/key_code")), "caps_lock");
    assert_eq!(text_at(&config, &format!("{m}/to/0/key_code")), "right_control");
    assert_eq!(text_at(&config, &format!("{m}/to_if_alone/0/key_code")), "escape");
}

#[test]
fn test_caps_lock_to_modifier_custom() {
    // caps_lock_modifier_custom_test.pkl
    let config = compile_output(&module_output(&caps_lock_modifier_rules("left_command")));
    assert_eq!(
        text_at(&config, &format!("{RULES}/0/description")),
        "Caps Lock to left_command when held, Escape when alone"
    );
    let m = format!("{RULES}/0/manipulators/0");
    assert_eq!(text_at(&config, &format!("{m}/from/key_code")), "caps_lock");
    assert_eq!(text_at(&config, &format!("{m}/to/0/key_code")), "left_command");
    assert_eq!(text_at(&config, &format!("{m}/to_if_alone/0/key_code")), "escape");
}

#[test]
fn test_caps_lock_to_escape_control() {
    // caps_lock_test.pkl
    let rules = r#"[{"description": "Caps Lock to Escape when alone, Control when held",
        "manipulators": [{"type": "basic", "from": {"key_code": "caps_lock"},
                          "to": [{"key_code": "right_control"}],
                          "to_if_alone": [{"key_code": "escape"}]}]}]"#;
    let config = compile_output(&module_output(rules));
    assert_eq!(
        text_at(&config, &format!("{RULES}/0/description")),
        "Caps Lock to Escape when alone, Control when held"
    );
    let m = format!("{RULES}/0/manipulators/0");
    assert_eq!(text_at(&config, &format!("{m}/from/key_code")), "caps_lock");
    assert_eq!(text_at(&config, &format!("{m}/to/0/key_code")), "right_control");
    assert_eq!(text_at(&config, &format!("{m}/to_if_alone/0/key_code")), "escape");
}

fn key_rule(description: &str, keys: &[&str]) -> String {
    let manips: Vec<String> = keys
        .iter()
        .map(|k| {
            format!(r#"{{"type": "basic", "from": {{"key_code": "{k}"}}, "to": [{{"key_code": "{k}"}}]}}"#)
        })
        .collect();
    format!(r#"[{{"description": "{description}", "manipulators": [{}]}}]"#, manips.join(", "))
}

#[test]
fn test_char_range() {
    // char_range_test.pkl
    let rules = key_rule("Test Char Range: a,b,c,d,e", &["a", "b", "c", "d", "e"]);
    let config = compile_output(&module_output(&rules));
    assert_eq!(text_at(&config, &format!("{RULES}/0/description")), "Test Char Range: a,b,c,d,e");
    let m = format!("{RULES}/0/manipulators");
    assert_eq!(len_at(&config, &m), 5);
    assert_eq!(text_at(&config, &format!("{m}/0/from/key_code")), "a");
    assert_eq!(text_at(&config, &format!("{m}/4/from/key_code")), "e");
}

#[test]
fn test_num_range() {
    // num_range_test.pkl
    let rules = key_rule("Test Num Range: 1,2,3,4,5", &["1", "2", "3", "4", "5"]);
    let config = compile_output(&module_output(&rules));
    assert_eq!(text_at(&config, &format!("{RULES}/0/description")), "Test Num Range: 1,2,3,4,5");
    let m = format!("{RULES}/0/manipulators");
    assert_eq!(len_at(&config, &m), 5);
    assert_eq!(text_at(&config, &format!("{m}/0/from/key_code")), "1");
    assert_eq!(text_at(&config, &format!("{m}/4/from/key_code")), "5");
}

#[test]
fn test_qwerty_sequence() {
    // qwerty_sequence_test.pkl
    let rules = key_rule("QWERTY Sequence: j k l semicolon", &["j", "k", "l", "semicolon"]);
    let config = compile_output(&module_output(&rules));
    assert_eq!(
        text_at(&config, &format!("{RULES}/0/description")),
        "QWERTY Sequence: j k l semicolon"
    );
    let m = format!("{RULES}/0/manipulators");
    assert_eq!(len_at(&config, &m), 4);
    assert_eq!(text_at(&config, &format!("{m}/0/from/key_code")), "j");
    assert_eq!(text_at(&config, &format!("{m}/1/from/key_code")), "k");
    assert_eq!(text_at(&config, &format!("{m}/2/from/key_code")), "l");
    assert_eq!(text_at(&config, &format!("{m}/3/from/key_code")), "semicolon");
}

/// The manipulator of `list` whose value at `path` is the string `want`.
fn find_by<'a>(list: &'a Json, path: &str, want: &str) -> &'a Json {
    let n = list.array_len().unwrap();
    (0..n)
        .map(|i| list.index(i).unwrap())
        .find(|m| at(m, path).as_str() == Some(want))
        .unwrap_or_else(|| panic!("no manipulator with {path} = {want}"))
}

#[test]
fn test_vim_home_row_navigation() {
    // vim_home_row_test.pkl
    let pairs = [("h", "left_arrow"), ("j", "down_arrow"), ("k", "up_arrow"), ("l", "right_arrow")];
    let manips: Vec<String> = pairs
        .iter()
        .map(|(f, t)| {
            format!(
                r#"{{"type": "basic",
                    "from": {{"key_code": "{f}", "modifiers": {{"mandatory": ["left_control"]}}}},
                    "to": [{{"key_code": "{t}"}}]}}"#
            )
        })
        .collect();
    let rules = format!(r#"[{{"description": "Layer: left_control", "manipulators": [{}]}}]"#, manips.join(", "));
    let config = compile_output(&module_output(&rules));
    let list = at(&config, &format!("{RULES}/0/manipulators"));
    assert_eq!(text_at(find_by(list, "from/key_code", "h"), "to/0/key_code"), "left_arrow");
    assert_eq!(text_at(find_by(list, "from/key_code", "j"), "to/0/key_code"), "down_arrow");
}

#[test]
fn test_module_path_compilation() {
    // module_path_test.pkl
    let text = r#"{"config": {"profiles": [{"name": "test-profile", "selected": true,
        "complex_modifications": {"rules": [{"description": "Caps Lock to Escape", "manipulators": [{
            "type": "basic", "from": {"key_code": "caps_lock"}, "to": [{"key_code": "escape"}]}]}]}}]}}"#;
    let config = compile_output(text);
    assert_eq!(text_at(&config, "profiles/0/name"), "test-profile");
    assert_eq!(text_at(&config, &format!("{RULES}/0/description")), "Caps Lock to Escape");
}

#[test]
fn test_app_switcher_with_shell_commands() {
    // app_switcher_test.pkl
    let apps = [("s", "Slack"), ("c", "Google Chrome"), ("t", "Terminal")];
    let manips: Vec<String> = apps
        .iter()
        .map(|(k, app)| {
            format!(
                r#"{{"type": "basic",
                    "from": {{"key_code": "{k}", "modifiers": {{"mandatory": ["left_command"]}}}},
                    "to": [{{"shell_command": "open -a '{app}.app'"}}]}}"#
            )
        })
        .collect();
    let rules = format!(
        r#"[{{"description": "App Switcher: left_command + key", "manipulators": [{}]}}]"#,
        manips.join(", ")
    );
    let config = compile_output(&module_output(&rules));
    assert_eq!(text_at(&config, &format!("{RULES}/0/description")), "App Switcher: left_command + key");
    let list = at(&config, &format!("{RULES}/0/manipulators"));
    assert_eq!(list.array_len(), Some(3));
    let slack = find_by(list, "from/key_code", "s");
    assert!(text_at(slack, "to/0/shell_command").contains("Slack"), "Should have Slack mapping");
}

fn simultaneous_manip(trigger: &str, key: &str, to: &str, threshold: u32) -> String {
    format!(
        r#"{{"type": "basic",
            "from": {{"simultaneous": [{{"key_code": "{trigger}"}}, {{"key_code": "{key}"}}],
                      "simultaneous_options": {{"key_down_order": "strict"}}}},
            "to": [{{"key_code": "{to}"}}],
            "parameters": {{"basic.simultaneous_threshold_milliseconds": {threshold}}}}}"#
    )
}

#[test]
fn test_simple_layer() {
    // layer_test.pkl
    let pairs = [("h", "left_arrow"), ("j", "down_arrow"), ("k", "up_arrow"), ("l", "right_arrow")];
    let manips: Vec<String> = pairs.iter().map(|(k, t)| simultaneous_manip("d", k, t, 200)).collect();
    let rules = format!(r#"[{{"description": "Simlayer: d + key", "manipulators": [{}]}}]"#, manips.join(", "));
    let config = compile_output(&module_output(&rules));
    assert_eq!(text_at(&config, &format!("{RULES}/0/description")), "Simlayer: d + key");
    let m = format!("{RULES}/0/manipulators");
    assert_eq!(len_at(&config, &m), 4);
    assert_eq!(text_at(&config, &format!("{m}/0/from/simultaneous/0/key_code")), "d");
    assert_eq!(text_at(&config, &format!("{m}/0/from/simultaneous/1/key_code")), "h");
    assert_eq!(text_at(&config, &format!("{m}/0/to/0/key_code")), "left_arrow");
}

#[test]
fn test_space_mode() {
    // space_mode_test.pkl
    let pairs = [
        ("h", "left_arrow"),
        ("j", "down_arrow"),
        ("k", "up_arrow"),
        ("l", "right_arrow"),
        ("d", "delete_forward"),
        ("b", "delete_or_backspace"),
    ];
    let manips: Vec<String> = pairs.iter().map(|(k, t)| simultaneous_manip("spacebar", k, t, 200)).collect();
    let rules = format!(
        r#"[{{"description": "Space Mode: Hold spacebar + key", "manipulators": [{}]}}]"#,
        manips.join(", ")
    );
    let config = compile_output(&module_output(&rules));
    assert_eq!(text_at(&config, &format!("{RULES}/0/description")), "Space Mode: Hold spacebar + key");
    let m = format!("{RULES}/0/manipulators");
    assert!(len_at(&config, &m) == 6);
    assert_eq!(text_at(&config, &format!("{m}/0/type")), "basic");
    assert_eq!(text_at(&config, &format!("{m}/0/from/simultaneous/0/key_code")), "spacebar");
    assert_eq!(text_at(&config, &format!("{m}/0/from/simultaneous/1/key_code")), "h");
    assert_eq!(text_at(&config, &format!("{m}/0/to/0/key_code")), "left_arrow");
    assert_eq!(text_at(&config, &format!("{m}/0/from/simultaneous_options/key_down_order")), "strict");
}

#[test]
fn test_space_mode_with_custom_threshold() {
    // space_mode_threshold_test.pkl
    let manips = [simultaneous_manip("spacebar", "a", "1", 300), simultaneous_manip("spacebar", "s", "2", 300)];
    let rules = format!(
        r#"[{{"description": "Space Mode: Hold spacebar + key", "manipulators": [{}]}}]"#,
        manips.join(", ")
    );
    let config = compile_output(&module_output(&rules));
    assert_eq!(
        number_at(
            &config,
            &format!("{RULES}/0/manipulators/0/parameters/basic.simultaneous_threshold_milliseconds")
        ),
        "300"
    );
}
