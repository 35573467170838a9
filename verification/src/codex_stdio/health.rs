//! The `codex_health` tool: whether a transport can be had, without a call to
//! the model.
use vstd::prelude::*;

use crate::codex_stdio::codex;
use crate::codex_stdio::run_task;
use crate::codex_stdio::DEFAULT_MODEL;
use crate::json::{self, Json, JsonView};
use crate::text;

verus! {

/// Where responses would come from.
pub open spec fn transport_word(fixture: Option<Seq<char>>) -> Seq<char> {
    if codex::fixture_named(fixture) {
        "replay"@
    } else {
        "http"@
    }
}

/// The binary that would be used, or why there is none.
pub open spec fn probed_transport(
    fixture: Option<Seq<char>>,
    located: Result<Seq<char>, Seq<char>>,
) -> Result<Seq<char>, Seq<char>> {
    if codex::fixture_named(fixture) {
        Ok("(replay fixture)"@)
    } else {
        located
    }
}

/// The report on health.
pub open spec fn health_report(
    fixture: Option<Seq<char>>,
    located: Result<Seq<char>, Seq<char>>,
    env_model: Option<Seq<char>>,
    latency_ms: u64,
) -> JsonView {
    let model = run_task::or_else(env_model, DEFAULT_MODEL@);
    let transport = transport_word(fixture);
    match probed_transport(fixture, located) {
        Ok(binary) => JsonView::Object(
            map![
                "available"@ => JsonView::Bool(true),
                "model"@ => JsonView::Str(model),
                "latency_ms"@ => json::json_int(latency_ms as int),
                "transport"@ => JsonView::Str(transport),
                "binary_path"@ => JsonView::Str(binary),
            ],
        ),
        Err(reason) => JsonView::Object(
            map![
                "available"@ => JsonView::Bool(false),
                "model"@ => JsonView::Str(model),
                "latency_ms"@ => json::json_int(latency_ms as int),
                "reason"@ => JsonView::Str(reason),
                "transport"@ => JsonView::Str(transport),
            ],
        ),
    }
}

/// Where responses would come from.
pub fn transport_kind(fixture: Option<&str>) -> (word: &'static str)
    ensures
        word@ == transport_word(text::opt_str_view(fixture)),
{
    if codex::names_fixture(fixture) {
        "replay"
    } else {
        "http"
    }
}

/// The binary that would be used, or why there is none.
pub fn probe_transport(fixture: Option<&str>, located: Result<String, String>) -> (r: Result<
    String,
    String,
>)
    ensures
        codex::text_result(r) == probed_transport(
            text::opt_str_view(fixture),
            codex::text_result(located),
        ),
{
    if codex::names_fixture(fixture) {
        return Ok("(replay fixture)".to_owned());
    }
    located
}

/// Reports on health. That the backend is unavailable is a report like any
/// other and no error.
pub fn run(
    fixture: Option<&str>,
    located: Result<String, String>,
    env_model: Option<&str>,
    latency_ms: u64,
) -> (r: Result<Json, String>)
    ensures
        r is Ok,
        r->Ok_0@ == health_report(
            text::opt_str_view(fixture),
            codex::text_result(located),
            text::opt_str_view(env_model),
            latency_ms,
        ),
{
    let model = match env_model {
        Some(m) => m,
        None => DEFAULT_MODEL,
    };
    let transport = transport_kind(fixture);
    match probe_transport(fixture, located) {
        Ok(binary) => Ok(
            Json::object().put("available", Json::Bool(true)).put("model", Json::str(model)).put(
                "latency_ms",
                Json::uint(latency_ms),
            ).put("transport", Json::str(transport)).put("binary_path", Json::Str(binary)),
        ),
        Err(reason) => Ok(
            Json::object().put("available", Json::Bool(false)).put("model", Json::str(model)).put(
                "latency_ms",
                Json::uint(latency_ms),
            ).put("reason", Json::Str(reason)).put("transport", Json::str(transport)),
        ),
    }
}

/// Outcome of the smoke test.
#[derive(Debug)]
pub struct Probe {
    pub summary: Json,
    pub failed: bool,
}

/// Number of tools in a list of tools.
pub open spec fn tool_count(tools: JsonView) -> nat {
    match json::json_get(tools, "tools"@) {
        Some(JsonView::Array(items)) => items.len(),
        _ => 0,
    }
}

/// The summary of the smoke test so far, with a mark for a member that a report
/// lacks.
pub open spec fn marked_missing(
    summary: Map<Seq<char>, JsonView>,
    report: JsonView,
    key: Seq<char>,
) -> Map<Seq<char>, JsonView> {
    if json::json_get(report, key) is None {
        summary.insert("health_missing_"@ + key, JsonView::Bool(true))
    } else {
        summary
    }
}

/// Summary of the smoke test: the tools must be two, and the report on health
/// must say whether the backend is available, with which model and how fast.
pub open spec fn probe_summary(
    tools: JsonView,
    health: Result<JsonView, Seq<char>>,
) -> Map<Seq<char>, JsonView> {
    let n = tool_count(tools);
    let counted = map!["tools_count"@ => json::json_int(n as int)];
    let first = if n != 2 {
        counted.insert("tools_count_error"@, JsonView::Str("expected 2, got "@ + text::dec(n)))
    } else {
        counted
    };
    match health {
        Ok(report) => marked_missing(
            marked_missing(marked_missing(first, report, "available"@), report, "model"@),
            report,
            "latency_ms"@,
        ).insert("health"@, report),
        Err(e) => first.insert("health_error"@, JsonView::Str(e)),
    }
}

/// Whether the smoke test fails.
pub open spec fn probe_fails(tools: JsonView, health: Result<JsonView, Seq<char>>) -> bool {
    ||| tool_count(tools) != 2
    ||| match health {
        Ok(report) => json::json_get(report, "available"@) is None || json::json_get(
            report,
            "model"@,
        ) is None || json::json_get(report, "latency_ms"@) is None,
        Err(_) => true,
    }
}

/// The view of a report.
pub open spec fn report_view(health: Result<Json, String>) -> Result<JsonView, Seq<char>> {
    match health {
        Ok(j) => Ok(j@),
        Err(e) => Err(e@),
    }
}

fn mark_missing(summary: Json, report: &Json, key: &str) -> (r: Json)
    requires
        summary@ is Object,
    ensures
        r@ == JsonView::Object(marked_missing(summary@->Object_0, report@, key@)),
{
    if report.get(key).is_none() {
        summary.put(text::concat("health_missing_", key).as_str(), Json::Bool(true))
    } else {
        summary
    }
}

/// Sums up the smoke test.
pub fn probe(tools: &Json, health: &Result<Json, String>) -> (r: Probe)
    ensures
        r.summary@ == JsonView::Object(probe_summary(tools@, report_view(*health))),
        r.failed == probe_fails(tools@, report_view(*health)),
{
    let n: usize = match tools.get("tools") {
        Some(list) => match list.as_array() {
            Some(items) => items.len(),
            None => 0,
        },
        None => 0,
    };
    let mut failed = false;
    let mut summary = Json::object().put("tools_count", Json::uint(n as u64));
    if n != 2 {
        failed = true;
        let message = text::concat("expected 2, got ", text::dec_usize(n).as_str());
        summary = summary.put("tools_count_error", Json::Str(message));
    }
    match health {
        Ok(report) => {
            summary = mark_missing(summary, report, "available");
            summary = mark_missing(summary, report, "model");
            summary = mark_missing(summary, report, "latency_ms");
            if report.get("available").is_none() || report.get("model").is_none() || report.get(
                "latency_ms",
            ).is_none() {
                failed = true;
            }
            summary = summary.put("health", report.clone());
        },
        Err(e) => {
            failed = true;
            summary = summary.put("health_error", Json::str(e.as_str()));
        },
    }
    Probe { summary, failed }
}

/// A report on health always says whether the backend is available, with which
/// model and how fast, and gives a reason exactly where it is not.
pub proof fn law_health_report_is_complete(
    fixture: Option<Seq<char>>,
    located: Result<Seq<char>, Seq<char>>,
    env_model: Option<Seq<char>>,
    latency_ms: u64,
)
    ensures
        ({
            let report = health_report(fixture, located, env_model, latency_ms);
            let available = probed_transport(fixture, located) is Ok;
            &&& json::json_get(report, "available"@) == Some(JsonView::Bool(available))
            &&& json::json_get(report, "model"@) is Some
            &&& json::json_get(report, "latency_ms"@) == Some(json::json_int(latency_ms as int))
            &&& json::json_get(report, "reason"@) is Some <==> !available
        }),
{
    reveal_strlit("available");
    reveal_strlit("model");
    reveal_strlit("latency_ms");
    reveal_strlit("transport");
    reveal_strlit("binary_path");
    reveal_strlit("reason");
    assert("available"@.len() == 9 && "model"@.len() == 5 && "latency_ms"@.len() == 10);
    assert("transport"@.len() == 9 && "binary_path"@.len() == 11 && "reason"@.len() == 6);
    assert("available"@[0] != "transport"@[0]);
}

/// A report tells what a task would find: available with a recording or with a
/// binary, which one it is, and else why not; and the model that would be used.
pub proof fn law_health_tells_what_a_task_would_find(
    fixture: Option<Seq<char>>,
    located: Result<Seq<char>, Seq<char>>,
    env_model: Option<Seq<char>>,
    latency_ms: u64,
)
    ensures
        ({
            let report = health_report(fixture, located, env_model, latency_ms);
            let named = fixture is Some && fixture->0.len() > 0;
            &&& named || located is Ok ==> json::json_get(report, "available"@) == Some(
                JsonView::Bool(true),
            )
            &&& !named && located is Err ==> json::json_get(report, "available"@) == Some(
                JsonView::Bool(false),
            ) && json::json_get(report, "reason"@) == Some(JsonView::Str(located->Err_0))
            &&& named ==> json::json_get(report, "transport"@) == Some(JsonView::Str("replay"@))
            &&& !named ==> json::json_get(report, "transport"@) == Some(JsonView::Str("http"@))
            &&& !named && located is Ok ==> json::json_get(report, "binary_path"@) == Some(
                JsonView::Str(located->Ok_0),
            )
            &&& env_model is Some ==> json::json_get(report, "model"@) == Some(
                JsonView::Str(env_model->0),
            )
            &&& env_model is None ==> json::json_get(report, "model"@) == Some(
                JsonView::Str("gpt-5.3-codex"@),
            )
            &&& json::json_get(report, "latency_ms"@) == Some(json::json_int(latency_ms as int))
        }),
{
    reveal_strlit("available");
    reveal_strlit("model");
    reveal_strlit("latency_ms");
    reveal_strlit("transport");
    reveal_strlit("binary_path");
    reveal_strlit("reason");
    assert("available"@.len() == 9 && "model"@.len() == 5 && "latency_ms"@.len() == 10);
    assert("transport"@.len() == 9 && "binary_path"@.len() == 11 && "reason"@.len() == 6);
    assert("available"@[0] != "transport"@[0]);
}

/// The smoke test passes exactly where there are two tools and the report on
/// health tells all that it must; what it saw is in its summary.
pub proof fn law_smoke_test_passes_on_a_full_report(tools: JsonView, health: Result<JsonView, Seq<char>>)
    ensures
        !probe_fails(tools, health) <==> {
            &&& json::json_get(tools, "tools"@) matches Some(JsonView::Array(items))
            &&& items.len() == 2
            &&& health is Ok
            &&& json::json_get(health->Ok_0, "available"@) is Some
            &&& json::json_get(health->Ok_0, "model"@) is Some
            &&& json::json_get(health->Ok_0, "latency_ms"@) is Some
        },
        health is Ok ==> json::json_get(
            JsonView::Object(probe_summary(tools, health)),
            "health"@,
        ) == Some(health->Ok_0),
        health is Err ==> json::json_get(
            JsonView::Object(probe_summary(tools, health)),
            "health_error"@,
        ) == Some(JsonView::Str(health->Err_0)),
{
}

/// The names under which the smoke test reports are all different.
proof fn lemma_summary_names()
    ensures
        "tools_count"@ != "tools_count_error"@,
        "tools_count"@ != "health"@,
        "tools_count"@ != "health_error"@,
        "tools_count_error"@ != "health"@,
        "tools_count_error"@ != "health_error"@,
        "health_missing_"@ + "available"@ != "tools_count"@,
        "health_missing_"@ + "model"@ != "tools_count"@,
        "health_missing_"@ + "latency_ms"@ != "tools_count"@,
        "health_missing_"@ + "available"@ != "tools_count_error"@,
        "health_missing_"@ + "model"@ != "tools_count_error"@,
        "health_missing_"@ + "latency_ms"@ != "tools_count_error"@,
        "health_missing_"@ + "available"@ != "health"@,
        "health_missing_"@ + "model"@ != "health"@,
        "health_missing_"@ + "latency_ms"@ != "health"@,
        "health_missing_"@ + "available"@ != "health_missing_"@ + "model"@,
        "health_missing_"@ + "available"@ != "health_missing_"@ + "latency_ms"@,
        "health_missing_"@ + "model"@ != "health_missing_"@ + "latency_ms"@,
{
    reveal_strlit("tools_count");
    reveal_strlit("tools_count_error");
    reveal_strlit("health");
    reveal_strlit("health_error");
    reveal_strlit("health_missing_");
    reveal_strlit("available");
    reveal_strlit("model");
    reveal_strlit("latency_ms");
    assert("tools_count"@.len() == 11 && "tools_count_error"@.len() == 17 && "health"@.len() == 6);
    assert("health_error"@.len() == 12 && "health_missing_"@.len() == 15);
    assert("available"@.len() == 9 && "model"@.len() == 5 && "latency_ms"@.len() == 10);
    assert(("health_missing_"@ + "available"@).len() == 24);
    assert(("health_missing_"@ + "model"@).len() == 20);
    assert(("health_missing_"@ + "latency_ms"@).len() == 25);
}

/// The smoke test reports how many tools there are, says so where they are not
/// two, and marks each member that the health report lacks, and no other.
pub proof fn law_smoke_test_marks_what_is_missing(
    items: Seq<JsonView>,
    tools: JsonView,
    health: Result<JsonView, Seq<char>>,
)
    requires
        json::json_get(tools, "tools"@) == Some(JsonView::Array(items)),
    ensures
        ({
            let summary = JsonView::Object(probe_summary(tools, health));
            &&& json::json_get(summary, "tools_count"@) == Some(json::json_int(items.len() as int))
            &&& json::json_get(summary, "tools_count_error"@) is Some <==> items.len() != 2
            &&& items.len() != 2 ==> json::json_get(summary, "tools_count_error"@) == Some(
                JsonView::Str("expected 2, got "@ + text::dec(items.len())),
            )
            &&& health is Ok ==> {
                &&& json::json_get(summary, "health_missing_"@ + "available"@) is Some
                    <==> json::json_get(health->Ok_0, "available"@) is None
                &&& json::json_get(summary, "health_missing_"@ + "model"@) is Some
                    <==> json::json_get(health->Ok_0, "model"@) is None
                &&& json::json_get(summary, "health_missing_"@ + "latency_ms"@) is Some
                    <==> json::json_get(health->Ok_0, "latency_ms"@) is None
            }
        }),
{
    lemma_summary_names();
}

} // verus!
