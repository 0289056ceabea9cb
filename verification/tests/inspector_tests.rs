use codex_runtime_bridge::inspector::{
    format_runtime_name, inspector_endpoints, is_node_inspector_version,
    normalize_inspector_ws_url, ports_to_scan, push_ws_target, EndpointTrials, InspectorEndpoint,
    InspectorEndpointCache, InspectorProbe, InspectorTargetKind, InspectorWsTarget, ProbeReply,
    TrialPurpose,
};
use codex_runtime_bridge::json::JsonValue;
use codex_runtime_bridge::ports::InspectorPort;

fn s(v: &str) -> JsonValue {
    JsonValue::Str(v.to_string())
}

fn obj(members: Vec<(&str, JsonValue)>) -> JsonValue {
    JsonValue::Object(members.into_iter().map(|(k, v)| (k.to_string(), v)).collect())
}

fn endpoint(pid: u32, port: u16, url: &str, kind: InspectorTargetKind) -> InspectorEndpoint {
    InspectorEndpoint { pid, port, ws_url: url.to_string(), kind }
}

#[test]
fn loopback_ws_hosts_become_127_0_0_1() {
    assert_eq!(normalize_inspector_ws_url("ws://localhost:9229/abc"), "ws://127.0.0.1:9229/abc");
    assert_eq!(normalize_inspector_ws_url("wss://[::1]:9229/x"), "wss://127.0.0.1:9229/x");
    assert_eq!(normalize_inspector_ws_url("ws://[::1]:1/a ws://localhost:2/b"), "ws://127.0.0.1:1/a ws://127.0.0.1:2/b");
    assert_eq!(normalize_inspector_ws_url("ws://example.com:9229/"), "ws://example.com:9229/");
}

#[test]
fn targets_with_the_same_url_are_kept_once() {
    let mut targets: Vec<InspectorWsTarget> = Vec::new();
    push_ws_target(&mut targets, "ws://localhost:9229/a", InspectorTargetKind::CodexRenderer);
    push_ws_target(&mut targets, "ws://127.0.0.1:9229/a", InspectorTargetKind::Node);
    push_ws_target(&mut targets, "ws://127.0.0.1:9229/b", InspectorTargetKind::Node);
    assert_eq!(targets.len(), 2);
    assert_eq!(targets[0].ws_url, "ws://127.0.0.1:9229/a");
    assert!(targets[0].kind == InspectorTargetKind::CodexRenderer);
    assert_eq!(targets[1].ws_url, "ws://127.0.0.1:9229/b");
}

#[test]
fn node_versions_are_recognized_by_browser() {
    assert!(is_node_inspector_version(&obj(vec![("Browser", s("node.js/v20.11.1"))])));
    assert!(!is_node_inspector_version(&obj(vec![("Browser", s("Chrome/120"))])));
    assert!(!is_node_inspector_version(&obj(vec![])));
}

#[test]
fn runtime_names_name_pid_port_and_kind() {
    let e = endpoint(4242, 9333, "ws://127.0.0.1:9333/x", InspectorTargetKind::Node);
    assert_eq!(format_runtime_name(&e), "antigravity-codex-extension-inspector:pid=4242,port=9333,kind=node");
    let r = endpoint(1, 2, "u", InspectorTargetKind::CodexRenderer);
    assert_eq!(format_runtime_name(&r), "antigravity-codex-extension-inspector:pid=1,port=2,kind=codex-renderer");
    assert_eq!(InspectorTargetKind::Node.priority(), 0);
    assert_eq!(InspectorTargetKind::CodexRenderer.priority(), 10);
}

#[test]
fn probe_asks_list_then_version_on_both_hosts() {
    let mut probe = InspectorProbe::new(9333);
    assert_eq!(probe.next_url().as_deref(), Some("http://127.0.0.1:9333/json/list"));
    probe.record(ProbeReply::Unavailable);
    assert_eq!(probe.next_url().as_deref(), Some("http://localhost:9333/json/list"));
    probe.record(ProbeReply::Json(JsonValue::Array(vec![obj(vec![
        ("type", s("page")),
        ("title", s("Extension Host")),
        ("webSocketDebuggerUrl", s("ws://127.0.0.1:9333/page")),
    ])])));
    assert_eq!(probe.next_url().as_deref(), Some("http://127.0.0.1:9333/json/version"));
    probe.record(ProbeReply::Json(obj(vec![
        ("Browser", s("node.js/v20")),
        ("webSocketDebuggerUrl", s("ws://localhost:9333/node")),
    ])));
    assert_eq!(probe.next_url().as_deref(), Some("http://localhost:9333/json/version"));
    probe.record(ProbeReply::Unavailable);
    assert_eq!(probe.next_url(), None);
    let targets = probe.finish().unwrap();
    assert_eq!(targets.len(), 1);
    assert_eq!(targets[0].ws_url, "ws://127.0.0.1:9333/node");
}

#[test]
fn probe_stops_after_a_list_with_targets_and_sorts_node_first() {
    let mut probe = InspectorProbe::new(1);
    probe.record(ProbeReply::Json(JsonValue::Array(vec![
        obj(vec![("type", s("page")), ("title", s("openai.chatgpt")), ("webSocketDebuggerUrl", s("ws://127.0.0.1:1/r"))]),
        obj(vec![("type", s("node")), ("webSocketDebuggerUrl", s("ws://127.0.0.1:1/n"))]),
        obj(vec![("type", s("node"))]),
    ])));
    probe.record(ProbeReply::Unavailable);
    assert_eq!(probe.next_url(), None);
    let targets = probe.finish().unwrap();
    let urls: Vec<&str> = targets.iter().map(|t| t.ws_url.as_str()).collect();
    assert_eq!(urls, vec!["ws://127.0.0.1:1/n", "ws://127.0.0.1:1/r"]);
}

#[test]
fn probe_without_targets_fails() {
    let mut probe = InspectorProbe::new(9229);
    while probe.next_url().is_some() {
        probe.record(ProbeReply::Unavailable);
    }
    assert_eq!(probe.finish().err().unwrap(), "端口 9229 未返回可用的 Inspector WebSocket");
}

#[test]
fn endpoints_are_sorted_by_priority_then_port() {
    let t = |url: &str, kind| InspectorWsTarget { ws_url: url.to_string(), kind };
    let found = vec![
        (InspectorPort { pid: 1, port: 9500 }, vec![t("a", InspectorTargetKind::CodexRenderer), t("b", InspectorTargetKind::Node)]),
        (InspectorPort { pid: 2, port: 9400 }, vec![t("c", InspectorTargetKind::CodexRenderer), t("d", InspectorTargetKind::CodexRenderer)]),
    ];
    let urls: Vec<String> = inspector_endpoints(found).into_iter().map(|e| e.ws_url).collect();
    assert_eq!(urls, vec!["b", "c", "d", "a"]);
}

#[test]
fn at_most_twelve_ports_are_scanned() {
    let ports: Vec<InspectorPort> = (0..20).map(|i| InspectorPort { pid: i, port: 9000 + i as u16 }).collect();
    assert_eq!(ports_to_scan(ports).len(), 12);
}

#[test]
fn endpoint_trials_try_three_and_report_every_failure() {
    let endpoints: Vec<InspectorEndpoint> = (1..=5)
        .map(|i| endpoint(i, 9000 + i as u16, "u", InspectorTargetKind::Node))
        .collect();
    let mut trials = EndpointTrials::begin(endpoints).unwrap();
    let mut tried = 0;
    while let Some(e) = trials.next_endpoint() {
        let msg = format!("err{}", e.pid);
        trials.record_failure(&msg);
        tried += 1;
    }
    assert_eq!(tried, 3);
    assert_eq!(
        trials.failure_message(TrialPurpose::HotSwitch),
        "Antigravity Inspector 均未完成热切: pid=1,port=9001: err1 | pid=2,port=9002: err2 | pid=3,port=9003: err3"
    );
    assert_eq!(
        trials.failure_message(TrialPurpose::WarmUp),
        "Antigravity Inspector 均未完成预热: pid=1,port=9001: err1 | pid=2,port=9002: err2 | pid=3,port=9003: err3"
    );
    assert_eq!(EndpointTrials::begin(Vec::new()).err().unwrap(), "未发现 Antigravity 扩展宿主 Inspector 端口");
}

#[test]
fn the_remembered_endpoint_is_given_back() {
    let mut cache = InspectorEndpointCache::new();
    assert!(cache.cached_inspector_endpoint().is_none());
    cache.remember_inspector_endpoint(&endpoint(7, 9333, "ws://127.0.0.1:9333/x", InspectorTargetKind::Node));
    let e = cache.cached_inspector_endpoint().unwrap();
    assert_eq!((e.pid, e.port, e.ws_url.as_str()), (7, 9333, "ws://127.0.0.1:9333/x"));
    cache.remember_inspector_endpoint(&endpoint(8, 1, "y", InspectorTargetKind::CodexRenderer));
    assert_eq!(cache.cached_inspector_endpoint().unwrap().pid, 8);
}

#[test]
fn normalizing_twice_changes_nothing_more() {
    let urls = [
        "ws://[::1]:9229/a",
        "wss://localhost:1/b",
        "ws://localhost:2/x wss://[::1]:3/y",
        "ws://127.0.0.1:9229/c",
        "wss://[::1]:ws://localhost:4/",
    ];
    for url in urls {
        let once = normalize_inspector_ws_url(url);
        let twice = normalize_inspector_ws_url(&once);
        assert_eq!(once, twice);
        for prefix in ["ws://[::1]:", "wss://[::1]:", "ws://localhost:", "wss://localhost:"] {
            assert!(!once.contains(prefix), "{} in {}", prefix, once);
        }
    }
    assert_eq!(normalize_inspector_ws_url("wss://example.org:443/p"), "wss://example.org:443/p");
}

#[test]
fn the_remembered_endpoint_is_tried_before_discovery() {
    let mut trials = EndpointTrials::with_cached(Some(endpoint(4, 9400, "ws://c", InspectorTargetKind::Node)));
    assert!(!trials.needs_discovery());
    assert_eq!(trials.next_endpoint().unwrap().pid, 4);
    assert!(!trials.remembers_success());
    trials.record_failure("gone");
    assert!(trials.needs_discovery());
    assert!(trials.next_endpoint().is_none());
    let endpoints: Vec<InspectorEndpoint> = (1..=4)
        .map(|i| endpoint(i, 9000 + i as u16, "u", InspectorTargetKind::Node))
        .collect();
    trials.add_discovered(endpoints).unwrap();
    assert!(!trials.needs_discovery());
    assert!(trials.remembers_success());
    let mut tried = Vec::new();
    while let Some(e) = trials.next_endpoint() {
        tried.push(e.pid);
        let msg = format!("e{}", e.pid);
        trials.record_failure(&msg);
    }
    assert_eq!(tried, vec![1, 2, 3]);
    assert_eq!(
        trials.failure_message(TrialPurpose::HotSwitch),
        "Antigravity Inspector 均未完成热切: pid=1,port=9001: e1 | pid=2,port=9002: e2 | pid=3,port=9003: e3"
    );
}

#[test]
fn discovery_without_endpoints_fails_after_the_remembered_one() {
    let mut trials = EndpointTrials::with_cached(None);
    assert!(trials.needs_discovery());
    assert_eq!(trials.add_discovered(Vec::new()).err().unwrap(), "未发现 Antigravity 扩展宿主 Inspector 端口");
}
