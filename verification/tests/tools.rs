use crab_examples::json::JsonValue;
use crab_examples::tools::{execute_tool, extract_json, get_weather, select_tool_call, tool_call_json, ToolError};

fn s(text: &str) -> JsonValue {
    JsonValue::Str(text.to_string())
}

fn obj(members: Vec<(&str, JsonValue)>) -> JsonValue {
    JsonValue::Object(members.into_iter().map(|(k, v)| (k.to_string(), v)).collect())
}

fn weather_call(city: &str) -> JsonValue {
    obj(vec![("arguments", obj(vec![("city", s(city))])), ("name", s("get_weather"))])
}

#[test]
fn extract_json_takes_first_open_to_last_close() {
    assert_eq!(extract_json("x {\"a\":{\"b\":1}} y } z"), Some("{\"a\":{\"b\":1}} y }"));
    assert_eq!(extract_json("{}"), Some("{}"));
    assert_eq!(extract_json("<tool_call>{\"name\":1}</tool_call>"), Some("{\"name\":1}"));
}

#[test]
fn extract_json_refuses_missing_or_reversed_braces() {
    assert_eq!(extract_json("no json here"), None);
    assert_eq!(extract_json("only { open"), None);
    assert_eq!(extract_json("only } close"), None);
    assert_eq!(extract_json("} reversed {"), None);
    assert_eq!(extract_json(""), None);
}

#[test]
fn extract_json_keeps_multibyte_text() {
    assert_eq!(extract_json("é{\"city\":\"Zürich\"}ü"), Some("{\"city\":\"Zürich\"}"));
}

#[test]
fn tool_call_json_parses_a_well_formed_call() {
    let raw = "Sure! {\"name\": \"get_weather\", \"arguments\": {\"city\": \"Paris\"}} done";
    assert_eq!(tool_call_json(raw), weather_call("Paris"));
}

#[test]
fn tool_call_json_keeps_extra_members_in_key_order() {
    let raw = "{\"name\":\"get_weather\",\"id\":7,\"arguments\":{\"city\":\"Oslo\",\"unit\":null}}";
    let expected = obj(vec![
        ("arguments", obj(vec![("city", s("Oslo")), ("unit", JsonValue::Null)])),
        ("id", JsonValue::Number("7".to_string())),
        ("name", s("get_weather")),
    ]);
    assert_eq!(tool_call_json(raw), expected);
}

#[test]
fn tool_call_json_falls_back_to_tokyo() {
    assert_eq!(tool_call_json("I cannot call tools."), weather_call("Tokyo"));
    assert_eq!(tool_call_json("{not json}"), weather_call("Tokyo"));
    assert_eq!(tool_call_json("{\"name\":\"get_time\",\"arguments\":{}}"), weather_call("Tokyo"));
    assert_eq!(tool_call_json("{\"name\":42}"), weather_call("Tokyo"));
}

#[test]
fn select_tool_call_keeps_named_calls() {
    assert_eq!(select_tool_call(Some(weather_call("Lima"))), weather_call("Lima"));
    assert_eq!(select_tool_call(Some(JsonValue::Bool(true))), weather_call("Tokyo"));
    assert_eq!(select_tool_call(None), weather_call("Tokyo"));
}

#[test]
fn get_weather_reports_fixture() {
    let expected = obj(vec![
        ("city", s("Tokyo")),
        ("condition", s("clear")),
        ("source", s("example fixture")),
        ("temperature_c", JsonValue::Number("23".to_string())),
    ]);
    assert_eq!(get_weather("Tokyo"), expected);
}

#[test]
fn execute_tool_runs_weather_calls() {
    let result = execute_tool(&weather_call("Rome")).unwrap();
    assert_eq!(result, get_weather("Rome"));
}

#[test]
fn execute_tool_reports_each_failure() {
    let missing_name = obj(vec![("arguments", obj(vec![("city", s("Rome"))]))]);
    assert_eq!(execute_tool(&missing_name), Err(ToolError::MissingName));
    let missing_city = obj(vec![("arguments", obj(vec![])), ("name", s("get_weather"))]);
    assert_eq!(execute_tool(&missing_city), Err(ToolError::MissingCity));
    let no_arguments = obj(vec![("name", s("get_weather"))]);
    assert_eq!(execute_tool(&no_arguments), Err(ToolError::MissingCity));
    let other = obj(vec![("arguments", obj(vec![("city", s("Rome"))])), ("name", s("get_time"))]);
    assert_eq!(execute_tool(&other), Err(ToolError::UnknownTool("get_time".to_string())));
    assert_eq!(execute_tool(&JsonValue::Null), Err(ToolError::MissingName));
}

#[test]
fn tool_error_messages() {
    assert_eq!(ToolError::MissingName.message(), "tool call is missing name");
    assert_eq!(ToolError::MissingCity.message(), "tool call is missing arguments.city");
    assert_eq!(ToolError::UnknownTool("x".to_string()).message(), "unknown tool: x");
}

#[test]
fn reply_call_always_runs_or_lacks_city() {
    for raw in ["", "{}", "{\"name\":\"get_weather\"}", "{\"name\":\"nope\"}", "{\"name\":\"get_weather\",\"arguments\":{\"city\":\"Bern\"}}"] {
        match execute_tool(&tool_call_json(raw)) {
            Ok(_) | Err(ToolError::MissingCity) => {}
            Err(other) => panic!("unexpected failure {other:?} for {raw}"),
        }
    }
    assert_eq!(execute_tool(&tool_call_json("")), Ok(get_weather("Tokyo")));
}

#[test]
fn json_get_and_as_str() {
    let v = weather_call("Kyiv");
    assert_eq!(v.get("name"), Some(&s("get_weather")));
    assert_eq!(v.get("missing"), None);
    assert_eq!(v.text_member("name"), Some("get_weather"));
    assert_eq!(v.text_member("arguments"), None);
    assert_eq!(s("a").as_str(), Some("a"));
    assert_eq!(JsonValue::Null.get("a"), None);
}
