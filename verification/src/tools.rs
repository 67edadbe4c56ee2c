//! Function calling with one tool, `get_weather`: the JSON call is cut out
//! of the model's reply, checked, and dispatched to a local handler.

use vstd::prelude::*;
use crate::json::{Json, JsonValue, lookup, json_document, json_opt, lemma_object_view, members_view, parse_json};
use crate::text::{chars_of, same_text};

verus! {

/// The text from the first `{` to the last `}` of `raw`, both included,
/// where the last `}` stands after the first `{`.
pub open spec fn json_span(raw: Seq<char>) -> Option<Seq<char>> {
    match (raw.index_of_first('{'), raw.index_of_last('}')) {
        (Some(start), Some(end)) => if end > start {
            Some(raw.subrange(start, end + 1))
        } else {
            None
        },
        _ => None,
    }
}

/// The call `{"arguments":{"city":city},"name":"get_weather"}`.
pub open spec fn weather_call(city: Seq<char>) -> Json {
    Json::Object(
        seq![
            ("arguments"@, Json::Object(seq![("city"@, Json::Str(city))])),
            ("name"@, Json::Str("get_weather"@)),
        ],
    )
}

/// The call used where the reply holds no usable one.
pub open spec fn fallback_call() -> Json {
    weather_call("Tokyo"@)
}

/// Whether `v` names the one known tool.
pub open spec fn names_weather_tool(v: Json) -> bool {
    v.text_member("name"@) == Some("get_weather"@)
}

/// The parsed document where it names the known tool, else the fallback.
pub open spec fn chosen_call(parsed: Option<Json>) -> Json {
    match parsed {
        Some(v) => if names_weather_tool(v) {
            v
        } else {
            fallback_call()
        },
        None => fallback_call(),
    }
}

/// The call read from a model reply.
pub open spec fn reply_call(raw: Seq<char>) -> Json {
    match json_span(raw) {
        Some(text) => chosen_call(json_document(text)),
        None => fallback_call(),
    }
}

/// The handler's answer for `city`:
/// `{"city":city,"condition":"clear","source":"example fixture","temperature_c":23}`.
pub open spec fn weather_report(city: Seq<char>) -> Json {
    Json::Object(
        seq![
            ("city"@, Json::Str(city)),
            ("condition"@, Json::Str("clear"@)),
            ("source"@, Json::Str("example fixture"@)),
            ("temperature_c"@, Json::Number("23"@)),
        ],
    )
}

/// Why a call could not be run.
#[derive(Clone, Debug, PartialEq, Eq)]
pub enum ToolError {
    MissingName,
    MissingCity,
    UnknownTool(String),
}

/// Why a call could not be run, as values.
pub enum ToolFailure {
    MissingName,
    MissingCity,
    UnknownTool(Seq<char>),
}

impl View for ToolError {
    type V = ToolFailure;

    open spec fn view(&self) -> ToolFailure {
        match self {
            ToolError::MissingName => ToolFailure::MissingName,
            ToolError::MissingCity => ToolFailure::MissingCity,
            ToolError::UnknownTool(name) => ToolFailure::UnknownTool(name@),
        }
    }
}

/// The message that reports a failure.
pub open spec fn failure_message(failure: ToolFailure) -> Seq<char> {
    match failure {
        ToolFailure::MissingName => "tool call is missing name"@,
        ToolFailure::MissingCity => "tool call is missing arguments.city"@,
        ToolFailure::UnknownTool(name) => "unknown tool: "@ + name,
    }
}

impl ToolError {
    /// The message that reports this failure.
    pub fn message(&self) -> (text: String)
        ensures
            text@ == failure_message(self@),
    {
        match self {
            ToolError::MissingName => "tool call is missing name".to_owned(),
            ToolError::MissingCity => "tool call is missing arguments.city".to_owned(),
            ToolError::UnknownTool(name) => {
                let mut text = "unknown tool: ".to_owned();
                text.append(name.as_str());
                text
            },
        }
    }
}

/// The messages of the three failures.
pub proof fn lemma_failure_messages(name: Seq<char>)
    ensures
        failure_message(ToolFailure::MissingName) == "tool call is missing name"@,
        failure_message(ToolFailure::MissingCity) == "tool call is missing arguments.city"@,
        failure_message(ToolFailure::UnknownTool(name)) == "unknown tool: "@ + name,
{
}

/// The outcome of running `call`: its name is read first, then
/// `arguments.city`, then the name is dispatched.
pub open spec fn tool_outcome(call: Json) -> Result<Json, ToolFailure> {
    match call.text_member("name"@) {
        None => Err(ToolFailure::MissingName),
        Some(name) => match call.member("arguments"@) {
            Some(args) => match args.text_member("city"@) {
                Some(city) => if name == "get_weather"@ {
                    Ok(weather_report(city))
                } else {
                    Err(ToolFailure::UnknownTool(name))
                },
                None => Err(ToolFailure::MissingCity),
            },
            None => Err(ToolFailure::MissingCity),
        },
    }
}

/// The value of a tool result.
pub open spec fn outcome_view(r: Result<JsonValue, ToolError>) -> Result<Json, ToolFailure> {
    match r {
        Ok(v) => Ok(v@),
        Err(e) => Err(e@),
    }
}

/// Cuts the JSON object out of a model reply: the text from the first `{`
/// to the last `}`, or `None` where there is no such pair in that order.
pub fn extract_json(raw: &str) -> (found: Option<&str>)
    ensures
        match found {
            Some(text) => json_span(raw@) == Some(text@),
            None => json_span(raw@) is None,
        },
{
    let chars = chars_of(raw);
    let n = chars.len();
    proof {
        raw@.index_of_first_ensures('{');
        raw@.index_of_last_ensures('}');
    }
    let mut start: usize = 0;
    while start < n && chars[start] != '{'
        invariant
            chars@ == raw@,
            n == raw@.len(),
            start <= n,
            forall|j: int| 0 <= j < start ==> raw@[j] != '{',
        decreases n - start,
    {
        start = start + 1;
    }
    if start == n {
        return None;
    }
    assert(raw@.index_of_first('{') == Some(start as int));
    let mut end: usize = n;
    while end > 0 && chars[end - 1] != '}'
        invariant
            chars@ == raw@,
            n == raw@.len(),
            end <= n,
            forall|j: int| end <= j < n ==> raw@[j] != '}',
        decreases end,
    {
        end = end - 1;
    }
    if end == 0 {
        return None;
    }
    let last = end - 1;
    assert(raw@.index_of_last('}') == Some(last as int));
    if last > start {
        Some(raw.substring_char(start, last + 1))
    } else {
        None
    }
}

/// `{"arguments":{"city":city},"name":"get_weather"}`.
fn make_weather_call(city: &str) -> (call: JsonValue)
    ensures
        call@ == weather_call(city@),
{
    let mut arg_members: Vec<(String, JsonValue)> = Vec::new();
    arg_members.push(("city".to_owned(), JsonValue::Str(city.to_owned())));
    proof {
        lemma_object_view(arg_members);
        assert(members_view(arg_members@) =~= seq![("city"@, Json::Str(city@))]);
    }
    let args = JsonValue::Object(arg_members);
    let mut members: Vec<(String, JsonValue)> = Vec::new();
    members.push(("arguments".to_owned(), args));
    members.push(("name".to_owned(), JsonValue::Str("get_weather".to_owned())));
    proof {
        lemma_object_view(members);
        assert(members_view(members@) =~= weather_call(city@)->Object_0);
    }
    let call = JsonValue::Object(members);
    call
}

/// Keeps a parsed call that names `get_weather`; anything else becomes the
/// fallback call for Tokyo.
pub fn select_tool_call(parsed: Option<JsonValue>) -> (call: JsonValue)
    ensures
        call@ == chosen_call(json_opt(parsed)),
        parsed matches Some(v) ==> (names_weather_tool(v@) ==> call == v),
{
    match parsed {
        Some(v) => {
            let keep = match v.text_member("name") {
                Some(name) => same_text(name, "get_weather"),
                None => false,
            };
            if keep {
                v
            } else {
                make_weather_call("Tokyo")
            }
        },
        None => make_weather_call("Tokyo"),
    }
}

/// Reads the tool call out of a model reply: the JSON cut out by
/// `extract_json`, parsed, kept where it names `get_weather`, and the
/// fallback call for Tokyo otherwise.
pub fn tool_call_json(raw: &str) -> (call: JsonValue)
    ensures
        call@ == reply_call(raw@),
{
    let parsed = match extract_json(raw) {
        Some(text) => parse_json(text),
        None => None,
    };
    select_tool_call(parsed)
}

/// The local handler: a fixed report for `city`.
pub fn get_weather(city: &str) -> (report: JsonValue)
    ensures
        report@ == weather_report(city@),
{
    let mut members: Vec<(String, JsonValue)> = Vec::new();
    members.push(("city".to_owned(), JsonValue::Str(city.to_owned())));
    members.push(("condition".to_owned(), JsonValue::Str("clear".to_owned())));
    members.push(("source".to_owned(), JsonValue::Str("example fixture".to_owned())));
    members.push(("temperature_c".to_owned(), JsonValue::Number("23".to_owned())));
    proof {
        lemma_object_view(members);
        assert(members_view(members@) =~= weather_report(city@)->Object_0);
    }
    let report = JsonValue::Object(members);
    report
}

/// Runs a call: its `name` and `arguments.city` must be strings, and the
/// name must be `get_weather`.
pub fn execute_tool(call: &JsonValue) -> (result: Result<JsonValue, ToolError>)
    ensures
        outcome_view(result) == tool_outcome(call@),
{
    let name = match call.text_member("name") {
        Some(name) => name,
        None => return Err(ToolError::MissingName),
    };
    let city = match call.get("arguments") {
        Some(args) => match args.text_member("city") {
            Some(city) => city,
            None => return Err(ToolError::MissingCity),
        },
        None => return Err(ToolError::MissingCity),
    };
    if same_text(name, "get_weather") {
        Ok(get_weather(city))
    } else {
        Err(ToolError::UnknownTool(name.to_owned()))
    }
}

/// The text cut out of a reply opens with its first `{` and closes with
/// its last `}`: no `{` comes before it and no `}` after it.
pub proof fn lemma_json_span_braces(raw: Seq<char>)
    ensures
        json_span(raw) matches Some(text) ==> {
            let start = raw.index_of_first('{')->0;
            &&& text.len() >= 2
            &&& text[0] == '{'
            &&& text.last() == '}'
            &&& forall|j: int| 0 <= j < start ==> raw[j] != '{'
            &&& forall|j: int| start + text.len() <= j < raw.len() ==> raw[j] != '}'
        },
{
    raw.index_of_first_ensures('{');
    raw.index_of_last_ensures('}');
}

/// The fallback call names `get_weather` and runs to the report for Tokyo.
pub proof fn lemma_fallback_call_runs()
    ensures
        names_weather_tool(fallback_call()),
        tool_outcome(fallback_call()) == Ok::<Json, ToolFailure>(weather_report("Tokyo"@)),
{
    reveal_strlit("arguments");
    reveal_strlit("name");
    assert("arguments"@.len() == 9);
    assert("name"@.len() == 4);
    let members = fallback_call()->Object_0;
    assert(members[0].0 != "name"@);
    assert(members.drop_first()[0].0 == "name"@);
    assert(lookup(members, "name"@) == lookup(members.drop_first(), "name"@));
    assert(lookup(members.drop_first(), "name"@) == Some(Json::Str("get_weather"@)));
    assert(lookup(members, "arguments"@) == Some(members[0].1));
    let args = members[0].1->Object_0;
    assert(lookup(args, "city"@) == Some(Json::Str("Tokyo"@)));
}

/// Whatever the model replied, the call read from the reply names
/// `get_weather`.
pub proof fn lemma_reply_call_names_weather_tool(raw: Seq<char>)
    ensures
        names_weather_tool(reply_call(raw)),
{
    lemma_fallback_call_runs();
}

/// Whatever the model replied, running the call read from the reply either
/// gives a weather report or fails for want of `arguments.city`: it never
/// fails for want of a name, nor for an unknown tool.
pub proof fn lemma_reply_call_never_unknown(raw: Seq<char>)
    ensures
        match tool_outcome(reply_call(raw)) {
            Ok(report) => exists|city: Seq<char>| report == weather_report(city),
            Err(failure) => failure == ToolFailure::MissingCity,
        },
{
    lemma_reply_call_names_weather_tool(raw);
    let call = reply_call(raw);
    if let Some(args) = call.member("arguments"@) {
        if let Some(city) = args.text_member("city"@) {
            assert(tool_outcome(call) == Ok::<Json, ToolFailure>(weather_report(city)));
        }
    }
}

/// The call `{"arguments":{"city":"Tokyo"},"name":"get_weather"}`.
pub open spec fn tokyo_call() -> Json {
    Json::Object(
        seq![
            ("arguments"@, Json::Object(seq![("city"@, Json::Str("Tokyo"@))])),
            ("name"@, Json::Str("get_weather"@)),
        ],
    )
}

/// `start` holds the first `{` of `raw` and `end` its last `}`.
pub open spec fn is_brace_span(raw: Seq<char>, start: int, end: int) -> bool {
    &&& 0 <= start < raw.len()
    &&& 0 <= end < raw.len()
    &&& raw[start] == '{'
    &&& raw[end] == '}'
    &&& forall|j: int| 0 <= j < start ==> raw[j] != '{'
    &&& forall|j: int| end < j < raw.len() ==> raw[j] != '}'
}

/// The text from the first `{` to the last `}` is cut out of the reply,
/// whatever else the reply holds (line breaks, tags, prose), where the
/// `}` stands after the `{`.
pub proof fn lemma_json_span_is_brace_span(raw: Seq<char>, start: int, end: int)
    requires
        is_brace_span(raw, start, end),
    ensures
        start < end ==> json_span(raw) == Some(raw.subrange(start, end + 1)),
        end <= start ==> json_span(raw) is None,
{
    raw.index_of_first_ensures('{');
    raw.index_of_last_ensures('}');
    let a = raw.index_of_first('{')->0;
    let b = raw.index_of_last('}')->0;
    assert(raw.contains('{'));
    assert(raw.contains('}'));
    if a < start {
    } else if start < a {
    }
    if b < end {
    } else if end < b {
    }
}

/// A reply with no `{` before a `}` holds no call.
pub proof fn lemma_json_span_absent(raw: Seq<char>)
    requires
        forall|a: int, b: int| 0 <= a < b < raw.len() ==> !(raw[a] == '{' && raw[b] == '}'),
    ensures
        json_span(raw) is None,
{
    raw.index_of_first_ensures('{');
    raw.index_of_last_ensures('}');
}

/// Where the text from the first `{` to the last `}` of a reply parses as
/// a document that names `get_weather`, that document is the call,
/// whatever else the reply holds; where it parses to anything else, or not
/// at all, the call is the one for Tokyo.
pub proof fn lemma_reply_call_from_span(raw: Seq<char>, start: int, end: int)
    requires
        is_brace_span(raw, start, end),
        start < end,
    ensures
        match json_document(raw.subrange(start, end + 1)) {
            Some(v) => if v.text_member("name"@) == Some("get_weather"@) {
                reply_call(raw) == v
            } else {
                reply_call(raw) == tokyo_call()
            },
            None => reply_call(raw) == tokyo_call(),
        },
{
    lemma_json_span_is_brace_span(raw, start, end);
}

/// A reply with no `{` before a `}` gives the call for Tokyo.
pub proof fn lemma_reply_call_without_span(raw: Seq<char>)
    requires
        forall|a: int, b: int| 0 <= a < b < raw.len() ==> !(raw[a] == '{' && raw[b] == '}'),
    ensures
        reply_call(raw) == tokyo_call(),
{
    lemma_json_span_absent(raw);
}

/// The report is for the city that was asked for, with the fixed
/// condition, source and temperature.
pub proof fn lemma_report_is_for_asked_city(city: Seq<char>)
    ensures
        weather_report(city).text_member("city"@) == Some(city),
        weather_report(city).text_member("condition"@) == Some("clear"@),
        weather_report(city).text_member("source"@) == Some("example fixture"@),
        weather_report(city).member("temperature_c"@) == Some(Json::Number("23"@)),
        weather_report(city) is Object,
        weather_report(city)->Object_0.len() == 4,
{
    reveal_strlit("city");
    reveal_strlit("condition");
    reveal_strlit("source");
    reveal_strlit("temperature_c");
    assert("city"@.len() == 4);
    assert("condition"@.len() == 9);
    assert("source"@.len() == 6);
    assert("temperature_c"@.len() == 13);
    let m = weather_report(city)->Object_0;
    assert(m.drop_first()[0] == m[1]);
    assert(m.drop_first().drop_first()[0] == m[2]);
    assert(m.drop_first().drop_first().drop_first()[0] == m[3]);
    assert(lookup(m, "condition"@) == lookup(m.drop_first(), "condition"@));
    assert(lookup(m, "source"@) == lookup(m.drop_first(), "source"@));
    assert(lookup(m.drop_first(), "source"@) == lookup(m.drop_first().drop_first(), "source"@));
    assert(lookup(m, "temperature_c"@) == lookup(m.drop_first(), "temperature_c"@));
    assert(lookup(m.drop_first(), "temperature_c"@) == lookup(
        m.drop_first().drop_first(),
        "temperature_c"@,
    ));
    assert(lookup(m.drop_first().drop_first(), "temperature_c"@) == lookup(
        m.drop_first().drop_first().drop_first(),
        "temperature_c"@,
    ));
}

/// Running a call succeeds exactly when it names `get_weather` and carries
/// a string `arguments.city`, and then reports on that city; it fails for
/// want of a name exactly when `name` is not a string, and names an
/// unknown tool exactly when a string city comes with another name.
pub proof fn lemma_outcome_reports_called_city(call: Json)
    ensures
        (tool_outcome(call) is Ok) <==> (call.text_member("name"@) == Some("get_weather"@) && (
        call.member("arguments"@) matches Some(args) && args.text_member("city"@) is Some)),
        tool_outcome(call) matches Ok(report) ==> (call.member("arguments"@) matches Some(args)
            && report.text_member("city"@) == args.text_member("city"@)),
        (tool_outcome(call) == Err::<Json, ToolFailure>(ToolFailure::MissingName)) <==> (
        call.text_member("name"@) is None),
        (tool_outcome(call) matches Err(ToolFailure::UnknownTool(n)) ==> (call.text_member("name"@)
            == Some(n) && n != "get_weather"@ && (call.member("arguments"@) matches Some(args)
            && args.text_member("city"@) is Some))),
        (tool_outcome(call) == Err::<Json, ToolFailure>(ToolFailure::MissingCity)) <==> (
        call.text_member("name"@) is Some && !(call.member("arguments"@) matches Some(args)
            && args.text_member("city"@) is Some)),
{
    if let Some(args) = call.member("arguments"@) {
        if let Some(city) = args.text_member("city"@) {
            lemma_report_is_for_asked_city(city);
        }
    }
}

} // verus!
