use vstd::prelude::*;

use crate::json::{str_member, str_member_or_empty, JsonValue};
use crate::order::{is_stable_sort_of, sort_by_keys};
use crate::ports::InspectorPort;
use crate::text::{join, join_with, views, 
    ascii_lower, contains, decimal, eq_ascii_ci, eq_ignore_ascii_case, has_infix, join2,
    push_decimal, replace, replace_all, to_ascii_lowercase, only_first_is, differ_early,
    lemma_replace_avoids, lemma_replace_without_match,
};

verus! {

/// What an Inspector WebSocket target is: a Node process (the extension host), or a renderer
/// page of the Codex extension.
#[derive(Debug, PartialEq, Eq, Structural)]
pub enum InspectorTargetKind {
    Node,
    CodexRenderer,
}

impl InspectorTargetKind {
    pub open spec fn spec_priority(self) -> u8 {
        match self {
            InspectorTargetKind::Node => 0,
            InspectorTargetKind::CodexRenderer => 10,
        }
    }

    /// The rank by which targets are tried: Node first.
    pub fn priority(&self) -> (r: u8)
        ensures
            r == self.spec_priority(),
    {
        match self {
            InspectorTargetKind::Node => 0,
            InspectorTargetKind::CodexRenderer => 10,
        }
    }

    pub open spec fn spec_label(self) -> Seq<char> {
        match self {
            InspectorTargetKind::Node => "node"@,
            InspectorTargetKind::CodexRenderer => "codex-renderer"@,
        }
    }

    /// The name of the kind in runtime names.
    pub fn label(&self) -> (r: &'static str)
        ensures
            r@ == self.spec_label(),
    {
        match self {
            InspectorTargetKind::Node => "node",
            InspectorTargetKind::CodexRenderer => "codex-renderer",
        }
    }

    pub fn copy(&self) -> (r: InspectorTargetKind)
        ensures
            r == *self,
    {
        match self {
            InspectorTargetKind::Node => InspectorTargetKind::Node,
            InspectorTargetKind::CodexRenderer => InspectorTargetKind::CodexRenderer,
        }
    }
}

/// An Inspector WebSocket found on a port.
#[derive(Debug)]
pub struct InspectorWsTarget {
    pub ws_url: String,
    pub kind: InspectorTargetKind,
}

/// An Inspector WebSocket of a process, with where it was found.
#[derive(Debug)]
pub struct InspectorEndpoint {
    pub pid: u32,
    pub port: u16,
    pub ws_url: String,
    pub kind: InspectorTargetKind,
}

impl InspectorEndpoint {
    pub fn duplicate(&self) -> (r: InspectorEndpoint)
        ensures
            r == *self,
    {
        InspectorEndpoint {
            pid: self.pid,
            port: self.port,
            ws_url: self.ws_url.clone(),
            kind: self.kind.copy(),
        }
    }
}

/// A WebSocket URL with loopback host names (`[::1]`, `localhost`) written as `127.0.0.1`.
pub open spec fn normalized_ws_url(url: Seq<char>) -> Seq<char> {
    replace_all(
        replace_all(
            replace_all(
                replace_all(url, "ws://[::1]:"@, "ws://127.0.0.1:"@),
                "wss://[::1]:"@,
                "wss://127.0.0.1:"@,
            ),
            "ws://localhost:"@,
            "ws://127.0.0.1:"@,
        ),
        "wss://localhost:"@,
        "wss://127.0.0.1:"@,
    )
}

/// Writes the loopback host of a WebSocket URL as `127.0.0.1`.
pub fn normalize_inspector_ws_url(ws_url: &str) -> (r: String)
    ensures
        r@ == normalized_ws_url(ws_url@),
{
    proof {
        reveal_strlit("ws://[::1]:");
        reveal_strlit("wss://[::1]:");
        reveal_strlit("ws://localhost:");
        reveal_strlit("wss://localhost:");
    }
    let a = replace(ws_url, "ws://[::1]:", "ws://127.0.0.1:");
    let b = replace(a.as_str(), "wss://[::1]:", "wss://127.0.0.1:");
    let c = replace(b.as_str(), "ws://localhost:", "ws://127.0.0.1:");
    replace(c.as_str(), "wss://localhost:", "wss://127.0.0.1:")
}

/// Whether a URL holds one of the loopback prefixes that `normalize_inspector_ws_url` rewrites.
pub open spec fn has_loopback_prefix(url: Seq<char>) -> bool {
    ||| has_infix(url, "ws://[::1]:"@)
    ||| has_infix(url, "wss://[::1]:"@)
    ||| has_infix(url, "ws://localhost:"@)
    ||| has_infix(url, "wss://localhost:"@)
}

/// The prefixes and their replacements each begin with the only `'w'` in them, and no prefix
/// and replacement agree up to the end of the shorter.
proof fn lemma_loopback_texts()
    ensures
        only_first_is("ws://[::1]:"@, 'w'),
        only_first_is("wss://[::1]:"@, 'w'),
        only_first_is("ws://localhost:"@, 'w'),
        only_first_is("wss://localhost:"@, 'w'),
        only_first_is("ws://127.0.0.1:"@, 'w'),
        only_first_is("wss://127.0.0.1:"@, 'w'),
        "ws://127.0.0.1:"@[0] == 'w',
        "wss://127.0.0.1:"@[0] == 'w',
        differ_early("ws://[::1]:"@, "ws://127.0.0.1:"@),
        differ_early("ws://[::1]:"@, "wss://127.0.0.1:"@),
        differ_early("wss://[::1]:"@, "ws://127.0.0.1:"@),
        differ_early("wss://[::1]:"@, "wss://127.0.0.1:"@),
        differ_early("ws://localhost:"@, "ws://127.0.0.1:"@),
        differ_early("ws://localhost:"@, "wss://127.0.0.1:"@),
        differ_early("wss://localhost:"@, "ws://127.0.0.1:"@),
        differ_early("wss://localhost:"@, "wss://127.0.0.1:"@),
{
    reveal_strlit("ws://[::1]:");
    reveal_strlit("wss://[::1]:");
    reveal_strlit("ws://localhost:");
    reveal_strlit("wss://localhost:");
    reveal_strlit("ws://127.0.0.1:");
    reveal_strlit("wss://127.0.0.1:");
    let p1 = "ws://[::1]:"@;
    let p2 = "wss://[::1]:"@;
    let p3 = "ws://localhost:"@;
    let p4 = "wss://localhost:"@;
    let t1 = "ws://127.0.0.1:"@;
    let t2 = "wss://127.0.0.1:"@;
    assert(p1 =~= seq!['w', 's', ':', '/', '/', '[', ':', ':', '1', ']', ':']);
    assert(p2 =~= seq!['w', 's', 's', ':', '/', '/', '[', ':', ':', '1', ']', ':']);
    assert(p3 =~= seq![
        'w', 's', ':', '/', '/', 'l', 'o', 'c', 'a', 'l', 'h', 'o', 's', 't', ':',
    ]);
    assert(p4 =~= seq![
        'w', 's', 's', ':', '/', '/', 'l', 'o', 'c', 'a', 'l', 'h', 'o', 's', 't', ':',
    ]);
    assert(t1 =~= seq![
        'w', 's', ':', '/', '/', '1', '2', '7', '.', '0', '.', '0', '.', '1', ':',
    ]);
    assert(t2 =~= seq![
        'w', 's', 's', ':', '/', '/', '1', '2', '7', '.', '0', '.', '0', '.', '1', ':',
    ]);
    assert(p1[5] != t1[5]);
    assert(p1[2] != t2[2]);
    assert(p2[2] != t1[2]);
    assert(p2[6] != t2[6]);
    assert(p3[5] != t1[5]);
    assert(p3[2] != t2[2]);
    assert(p4[2] != t1[2]);
    assert(p4[6] != t2[6]);
}

/// A normalized URL holds none of the four loopback prefixes.
pub proof fn normalized_ws_url_has_no_loopback(url: Seq<char>)
    ensures
        !has_loopback_prefix(normalized_ws_url(url)),
{
    lemma_loopback_texts();
    reveal_strlit("ws://[::1]:");
    reveal_strlit("wss://[::1]:");
    reveal_strlit("ws://localhost:");
    reveal_strlit("wss://localhost:");
    let p1 = "ws://[::1]:"@;
    let p2 = "wss://[::1]:"@;
    let p3 = "ws://localhost:"@;
    let p4 = "wss://localhost:"@;
    let t1 = "ws://127.0.0.1:"@;
    let t2 = "wss://127.0.0.1:"@;
    let a = replace_all(url, p1, t1);
    let b = replace_all(a, p2, t2);
    let c = replace_all(b, p3, t1);
    let d = replace_all(c, p4, t2);
    lemma_replace_avoids(url, p1, t1, p1);
    lemma_replace_avoids(a, p2, t2, p1);
    lemma_replace_avoids(a, p2, t2, p2);
    lemma_replace_avoids(b, p3, t1, p1);
    lemma_replace_avoids(b, p3, t1, p2);
    lemma_replace_avoids(b, p3, t1, p3);
    lemma_replace_avoids(c, p4, t2, p1);
    lemma_replace_avoids(c, p4, t2, p2);
    lemma_replace_avoids(c, p4, t2, p3);
    lemma_replace_avoids(c, p4, t2, p4);
}

/// A URL without any of the four loopback prefixes is left as it is.
pub proof fn normalized_ws_url_keeps_plain_url(url: Seq<char>)
    requires
        !has_loopback_prefix(url),
    ensures
        normalized_ws_url(url) == url,
{
    reveal_strlit("ws://[::1]:");
    reveal_strlit("wss://[::1]:");
    reveal_strlit("ws://localhost:");
    reveal_strlit("wss://localhost:");
    lemma_replace_without_match(url, "ws://[::1]:"@, "ws://127.0.0.1:"@);
    lemma_replace_without_match(url, "wss://[::1]:"@, "wss://127.0.0.1:"@);
    lemma_replace_without_match(url, "ws://localhost:"@, "ws://127.0.0.1:"@);
    lemma_replace_without_match(url, "wss://localhost:"@, "wss://127.0.0.1:"@);
}

/// Normalizing a URL twice gives what normalizing it once gives.
pub proof fn normalized_ws_url_idempotent(url: Seq<char>)
    ensures
        normalized_ws_url(normalized_ws_url(url)) == normalized_ws_url(url),
{
    normalized_ws_url_has_no_loopback(url);
    normalized_ws_url_keeps_plain_url(normalized_ws_url(url));
}

/// The (URL, kind) pairs after a target has been offered: its URL normalized, and left out
/// when a target with that URL is already there.
pub open spec fn add_target(
    pairs: Seq<(Seq<char>, InspectorTargetKind)>,
    ws_url: Seq<char>,
    kind: InspectorTargetKind,
) -> Seq<(Seq<char>, InspectorTargetKind)> {
    let url = normalized_ws_url(ws_url);
    if exists|i: int| 0 <= i < pairs.len() && #[trigger] pairs[i].0 == url {
        pairs
    } else {
        pairs.push((url, kind))
    }
}

pub open spec fn target_pairs(targets: Seq<InspectorWsTarget>) -> Seq<(Seq<char>, InspectorTargetKind)> {
    targets.map_values(|t: InspectorWsTarget| (t.ws_url@, t.kind))
}

/// Adds a target, unless one with the same (normalized) URL is already there.
pub fn push_ws_target(targets: &mut Vec<InspectorWsTarget>, ws_url: &str, kind: InspectorTargetKind)
    ensures
        target_pairs(final(targets)@) == add_target(target_pairs(old(targets)@), ws_url@, kind),
{
    let url = normalize_inspector_ws_url(ws_url);
    let mut i: usize = 0;
    while i < targets.len()
        invariant
            i <= targets.len(),
            targets@ == old(targets)@,
            url@ == normalized_ws_url(ws_url@),
            forall|k: int| 0 <= k < i ==> targets@[k].ws_url@ != url@,
        decreases targets.len() - i,
    {
        if targets[i].ws_url == url {
            proof {
                assert(target_pairs(targets@)[i as int].0 == url@);
            }
            return;
        }
        i = i + 1;
    }
    proof {
        assert forall|k: int| 0 <= k < target_pairs(targets@).len() implies #[trigger] target_pairs(
            targets@,
        )[k].0 != url@ by {
            assert(target_pairs(targets@)[k].0 == targets@[k].ws_url@);
        }
    }
    let ghost before = targets@;
    targets.push(InspectorWsTarget { ws_url: url, kind });
    proof {
        assert(target_pairs(targets@) =~= target_pairs(before).push((url@, kind)));
    }
}

/// The Inspector target kind of an entry of `/json/list`: `Node` for type `node` (any ASCII
/// case); `CodexRenderer` where type, title, URL and description, joined with spaces and in
/// lower case, name `openai.chatgpt` or `codexmcpconnection`, or `chatgpt` or `codex`
/// together with `extension`; otherwise none.
pub open spec fn entry_kind(entry: JsonValue) -> Option<InspectorTargetKind> {
    let t = str_member_or_empty(entry, "type"@);
    if eq_ascii_ci(t, "node"@) {
        Some(InspectorTargetKind::Node)
    } else {
        let h = ascii_lower(
            t + " "@ + str_member_or_empty(entry, "title"@) + " "@ + str_member_or_empty(
                entry,
                "url"@,
            ) + " "@ + str_member_or_empty(entry, "description"@),
        );
        if has_infix(h, "openai.chatgpt"@) || has_infix(h, "codexmcpconnection"@) || (has_infix(
            h,
            "chatgpt"@,
        ) && has_infix(h, "extension"@)) || (has_infix(h, "codex"@) && has_infix(
            h,
            "extension"@,
        )) {
            Some(InspectorTargetKind::CodexRenderer)
        } else {
            None
        }
    }
}

/// `v.get(key).and_then(Value::as_str).unwrap_or("")`.
pub fn member_text(v: &JsonValue, key: &str) -> (r: String)
    ensures
        r@ == str_member_or_empty(*v, key@),
{
    match v.str_member(key) {
        Some(s) => s.clone(),
        None => String::new(),
    }
}

/// Which kind of Inspector target an entry of `/json/list` is, if it is one to use.
pub fn inspector_entry_kind(entry: &JsonValue) -> (r: Option<InspectorTargetKind>)
    ensures
        r == entry_kind(*entry),
{
    let t = member_text(entry, "type");
    if eq_ignore_ascii_case(t.as_str(), "node") {
        return Some(InspectorTargetKind::Node);
    }
    let title = member_text(entry, "title");
    let url = member_text(entry, "url");
    let description = member_text(entry, "description");
    let haystack = t.concat(" ").concat(title.as_str()).concat(" ").concat(url.as_str()).concat(
        " ",
    ).concat(description.as_str());
    let h = to_ascii_lowercase(haystack.as_str());
    let hs = h.as_str();
    if contains(hs, "openai.chatgpt") || contains(hs, "codexmcpconnection") || (contains(
        hs,
        "chatgpt",
    ) && contains(hs, "extension")) || (contains(hs, "codex") && contains(hs, "extension")) {
        Some(InspectorTargetKind::CodexRenderer)
    } else {
        None
    }
}

/// A `/json/version` reply is Node's: its `Browser` names `node` (any ASCII case).
pub open spec fn is_node_version(value: JsonValue) -> bool {
    match str_member(value, "Browser"@) {
        Some(b) => has_infix(ascii_lower(b), "node"@),
        None => false,
    }
}

/// Whether a `/json/version` reply comes from a Node Inspector.
pub fn is_node_inspector_version(value: &JsonValue) -> (r: bool)
    ensures
        r == is_node_version(*value),
{
    match value.str_member("Browser") {
        Some(b) => {
            let lower = to_ascii_lowercase(b.as_str());
            contains(lower.as_str(), "node")
        },
        None => false,
    }
}

/// The runtime name of an Inspector endpoint.
pub open spec fn runtime_name(endpoint: InspectorEndpoint) -> Seq<char> {
    "antigravity-codex-extension-inspector:pid="@ + decimal(endpoint.pid as nat) + ",port="@
        + decimal(endpoint.port as nat) + ",kind="@ + endpoint.kind.spec_label()
}

/// Names the runtime reached through an Inspector endpoint.
pub fn format_runtime_name(endpoint: &InspectorEndpoint) -> (r: String)
    ensures
        r@ == runtime_name(*endpoint),
{
    let mut s = String::from_str("antigravity-codex-extension-inspector:pid=");
    push_decimal(&mut s, endpoint.pid as u64);
    s.append(",port=");
    push_decimal(&mut s, endpoint.port as u64);
    s.append(",kind=");
    s.append(endpoint.kind.label());
    s
}


/// The (URL, kind) pairs after the entries of a `/json/list` reply have been offered, in order:
/// each entry of a kind to use that has a `webSocketDebuggerUrl`.
pub open spec fn list_targets(
    pairs: Seq<(Seq<char>, InspectorTargetKind)>,
    entries: Seq<JsonValue>,
) -> Seq<(Seq<char>, InspectorTargetKind)>
    decreases entries.len(),
{
    if entries.len() == 0 {
        pairs
    } else {
        let st = list_targets(pairs, entries.drop_last());
        let e = entries.last();
        match entry_kind(e) {
            None => st,
            Some(k) => match str_member(e, "webSocketDebuggerUrl"@) {
                Some(u) => add_target(st, u, k),
                None => st,
            },
        }
    }
}

/// The paths asked on each port, in order.
pub open spec fn probe_path(i: int) -> Seq<char> {
    if i == 0 {
        "json/list"@
    } else {
        "json/version"@
    }
}

/// The hosts asked for each path, in order.
pub open spec fn probe_host(i: int) -> Seq<char> {
    if i == 0 {
        "127.0.0.1"@
    } else {
        "localhost"@
    }
}

/// The probe of one port for Inspector WebSocket targets: `/json/list`, then (where that gave
/// none) `/json/version`, each on `127.0.0.1` and then on `localhost`.
#[derive(Debug)]
pub struct InspectorProbe {
    pub port: u16,
    pub path: usize,
    pub host: usize,
    pub targets: Vec<InspectorWsTarget>,
}

pub struct InspectorProbeView {
    pub port: u16,
    pub path: int,
    pub host: int,
    pub targets: Seq<(Seq<char>, InspectorTargetKind)>,
}

impl View for InspectorProbe {
    type V = InspectorProbeView;

    open spec fn view(&self) -> InspectorProbeView {
        InspectorProbeView {
            port: self.port,
            path: self.path as int,
            host: self.host as int,
            targets: target_pairs(self.targets@),
        }
    }
}

/// What a request of the probe gave.
#[derive(Debug)]
pub enum ProbeReply {
    /// No usable reply: the request failed, its status was not a success, or its body was not
    /// JSON.
    Unavailable,
    Json(JsonValue),
}

pub open spec fn probe_wf(p: InspectorProbeView) -> bool {
    0 <= p.path <= 2 && 0 <= p.host < 2 && (p.path == 2 ==> p.host == 0)
}

/// The probe after its current request has been answered: the reply's targets added, then on
/// to the next host, or to the next path, or done (path 2) where this path gave targets.
pub open spec fn probe_record(p: InspectorProbeView, reply: ProbeReply) -> InspectorProbeView {
    let targets = match reply {
        ProbeReply::Unavailable => p.targets,
        ProbeReply::Json(v) => if p.path == 0 {
            match crate::json::json_items(v) {
                Some(entries) => list_targets(p.targets, entries),
                None => p.targets,
            }
        } else if is_node_version(v) {
            match str_member(v, "webSocketDebuggerUrl"@) {
                Some(u) => add_target(p.targets, u, InspectorTargetKind::Node),
                None => p.targets,
            }
        } else {
            p.targets
        },
    };
    if p.host + 1 < 2 {
        InspectorProbeView { host: p.host + 1, targets, ..p }
    } else if targets.len() > 0 {
        InspectorProbeView { path: 2, host: 0, targets, ..p }
    } else {
        InspectorProbeView { path: p.path + 1, host: 0, targets, ..p }
    }
}

/// The URL of a request of the probe.
pub open spec fn probe_url(host: Seq<char>, port: u16, path: Seq<char>) -> Seq<char> {
    "http://"@ + host + ":"@ + decimal(port as nat) + "/"@ + path
}

/// The sort key of a target: its kind's priority.
pub open spec fn target_key(t: InspectorWsTarget) -> (u64, u64, u64) {
    (t.kind.spec_priority() as u64, 0, 0)
}

pub open spec fn target_keys(ts: Seq<InspectorWsTarget>) -> Seq<(u64, u64, u64)> {
    ts.map_values(|t: InspectorWsTarget| target_key(t))
}

/// The failure of a probe that found no target.
pub open spec fn no_target_message(port: u16) -> Seq<char> {
    "端口 "@ + decimal(port as nat) + " 未返回可用的 Inspector WebSocket"@
}

fn offer_list_entries(targets: &mut Vec<InspectorWsTarget>, entries: &Vec<JsonValue>)
    ensures
        target_pairs(final(targets)@) == list_targets(target_pairs(old(targets)@), entries@),
{
    let ghost start = target_pairs(targets@);
    let mut i: usize = 0;
    while i < entries.len()
        invariant
            i <= entries.len(),
            target_pairs(targets@) == list_targets(start, entries@.take(i as int)),
        decreases entries.len() - i,
    {
        proof {
            assert(entries@.take(i + 1).drop_last() =~= entries@.take(i as int));
        }
        let e = &entries[i];
        match inspector_entry_kind(e) {
            Some(k) => match e.str_member("webSocketDebuggerUrl") {
                Some(u) => {
                    push_ws_target(targets, u.as_str(), k);
                },
                None => {},
            },
            None => {},
        }
        i = i + 1;
    }
    proof {
        assert(entries@.take(entries.len() as int) =~= entries@);
    }
}

impl InspectorProbe {
    pub fn new(port: u16) -> (r: InspectorProbe)
        ensures
            r@ == (InspectorProbeView { port, path: 0, host: 0, targets: Seq::empty() }),
    {
        let r = InspectorProbe { port, path: 0, host: 0, targets: Vec::new() };
        proof {
            assert(target_pairs(r.targets@) =~= Seq::<(Seq<char>, InspectorTargetKind)>::empty());
        }
        r
    }

    /// The URL to ask next, or nothing once the probe is done.
    pub fn next_url(&self) -> (r: Option<String>)
        requires
            probe_wf(self@),
        ensures
            match r {
                Some(u) => self@.path < 2 && u@ == probe_url(
                    probe_host(self@.host),
                    self@.port,
                    probe_path(self@.path),
                ),
                None => self@.path == 2,
            },
    {
        if self.path >= 2 {
            return None;
        }
        let host = if self.host == 0 {
            "127.0.0.1"
        } else {
            "localhost"
        };
        let path = if self.path == 0 {
            "json/list"
        } else {
            "json/version"
        };
        let mut u = join2("http://", host).concat(":");
        push_decimal(&mut u, self.port as u64);
        Some(u.concat("/").concat(path))
    }

    /// Takes in the reply to the current request.
    pub fn record(&mut self, reply: ProbeReply)
        requires
            probe_wf(old(self)@),
            old(self)@.path < 2,
        ensures
            final(self)@ == probe_record(old(self)@, reply),
            probe_wf(final(self)@),
    {
        match reply {
            ProbeReply::Unavailable => {},
            ProbeReply::Json(v) => {
                if self.path == 0 {
                    match v.as_array() {
                        Some(entries) => {
                            offer_list_entries(&mut self.targets, entries);
                        },
                        None => {},
                    }
                } else if is_node_inspector_version(&v) {
                    match v.str_member("webSocketDebuggerUrl") {
                        Some(u) => {
                            push_ws_target(&mut self.targets, u.as_str(), InspectorTargetKind::Node);
                        },
                        None => {},
                    }
                }
            },
        }
        if self.host + 1 < 2 {
            self.host = self.host + 1;
        } else if self.targets.len() > 0 {
            self.path = 2;
            self.host = 0;
        } else {
            self.path = self.path + 1;
            self.host = 0;
        }
    }

    /// The targets found, Node first (a stable sort by priority), or the failure of a probe
    /// that found none.
    pub fn finish(self) -> (r: Result<Vec<InspectorWsTarget>, String>)
        ensures
            match r {
                Ok(out) => self.targets@.len() > 0 && is_stable_sort_of(
                    self.targets@,
                    target_keys(self.targets@),
                    out@,
                ),
                Err(e) => self.targets@.len() == 0 && e@ == no_target_message(self.port),
            },
    {
        if self.targets.len() == 0 {
            let mut m = String::from_str("端口 ");
            push_decimal(&mut m, self.port as u64);
            return Err(m.concat(" 未返回可用的 Inspector WebSocket"));
        }
        let mut keys: Vec<(u64, u64, u64)> = Vec::new();
        let mut i: usize = 0;
        while i < self.targets.len()
            invariant
                i <= self.targets.len(),
                keys.len() == i,
                forall|k: int| 0 <= k < i ==> #[trigger] keys@[k] == target_key(self.targets@[k]),
            decreases self.targets.len() - i,
        {
            let p = self.targets[i].kind.priority();
            keys.push((p as u64, 0, 0));
            i = i + 1;
        }
        proof {
            assert(keys@ =~= target_keys(self.targets@));
        }
        Ok(sort_by_keys(self.targets, &keys))
    }
}


/// No two targets share a URL.
pub open spec fn distinct_urls(pairs: Seq<(Seq<char>, InspectorTargetKind)>) -> bool {
    forall|i: int, j: int| 0 <= i < j < pairs.len() ==> #[trigger] pairs[i].0 != #[trigger] pairs[j].0
}

/// Offering a target keeps the targets' URLs distinct.
pub proof fn add_target_keeps_urls_distinct(
    pairs: Seq<(Seq<char>, InspectorTargetKind)>,
    ws_url: Seq<char>,
    kind: InspectorTargetKind,
)
    requires
        distinct_urls(pairs),
    ensures
        distinct_urls(add_target(pairs, ws_url, kind)),
{
    let out = add_target(pairs, ws_url, kind);
    assert forall|i: int, j: int| 0 <= i < j < out.len() implies #[trigger] out[i].0
        != #[trigger] out[j].0 by {
        if j == pairs.len() {
            assert(out[i] == pairs[i]);
        } else {
            assert(out[i] == pairs[i] && out[j] == pairs[j]);
        }
    }
}

proof fn lemma_list_targets_distinct(pairs: Seq<(Seq<char>, InspectorTargetKind)>, entries: Seq<JsonValue>)
    requires
        distinct_urls(pairs),
    ensures
        distinct_urls(list_targets(pairs, entries)),
    decreases entries.len(),
{
    if entries.len() > 0 {
        lemma_list_targets_distinct(pairs, entries.drop_last());
        let st = list_targets(pairs, entries.drop_last());
        let e = entries.last();
        match entry_kind(e) {
            Some(k) => match str_member(e, "webSocketDebuggerUrl"@) {
                Some(u) => add_target_keeps_urls_distinct(st, u, k),
                None => {},
            },
            None => {},
        }
    }
}

/// Whatever reply comes in, the targets that a probe gathers never share a URL.
pub proof fn probe_keeps_urls_distinct(p: InspectorProbeView, reply: ProbeReply)
    requires
        distinct_urls(p.targets),
    ensures
        distinct_urls(probe_record(p, reply).targets),
{
    match reply {
        ProbeReply::Unavailable => {},
        ProbeReply::Json(v) => {
            if p.path == 0 {
                match crate::json::json_items(v) {
                    Some(entries) => lemma_list_targets_distinct(p.targets, entries),
                    None => {},
                }
            } else if is_node_version(v) {
                match str_member(v, "webSocketDebuggerUrl"@) {
                    Some(u) => add_target_keeps_urls_distinct(p.targets, u, InspectorTargetKind::Node),
                    None => {},
                }
            }
        },
    }
}

/// How many requests a probe has left at most.
/// A `/json/version` reply adds a target only when its `Browser` names Node (in any ASCII case):
/// a browser's reply, or one without `Browser`, leaves the targets as they were.
pub proof fn version_reply_of_a_browser_adds_nothing(p: InspectorProbeView, v: JsonValue)
    requires
        p.path != 0,
        match str_member(v, "Browser"@) {
            Some(b) => !has_infix(ascii_lower(b), "node"@),
            None => true,
        },
    ensures
        probe_record(p, ProbeReply::Json(v)).targets == p.targets,
{
}

/// A `/json/version` reply whose `Browser` names Node and which gives a WebSocket URL leaves
/// the earlier targets in place and has a target with that URL, normalized; where none had it,
/// that target comes last, as a Node target.
pub proof fn version_reply_of_node_adds_its_url(p: InspectorProbeView, v: JsonValue, u: Seq<char>)
    requires
        p.path != 0,
        str_member(v, "Browser"@) matches Some(b) && has_infix(ascii_lower(b), "node"@),
        str_member(v, "webSocketDebuggerUrl"@) == Some(u),
    ensures
        ({
            let t = probe_record(p, ProbeReply::Json(v)).targets;
            let url = normalized_ws_url(u);
            &&& t.take(p.targets.len() as int) == p.targets
            &&& exists|k: int| 0 <= k < t.len() && #[trigger] t[k].0 == url
            &&& (forall|k: int| 0 <= k < p.targets.len() ==> #[trigger] p.targets[k].0 != url)
                ==> t == p.targets.push((url, InspectorTargetKind::Node))
        }),
{
    let t = probe_record(p, ProbeReply::Json(v)).targets;
    let url = normalized_ws_url(u);
    if exists|i: int| 0 <= i < p.targets.len() && #[trigger] p.targets[i].0 == url {
        assert(t.take(p.targets.len() as int) =~= p.targets);
    } else {
        assert(t.take(p.targets.len() as int) =~= p.targets);
        assert(t[p.targets.len() as int].0 == url);
    }
}

pub open spec fn probe_measure(p: InspectorProbeView) -> int {
    (2 - p.path) * 2 - p.host
}

/// A probe always ends: each reply moves it on, so it asks at most four URLs.
pub proof fn probe_always_ends(p: InspectorProbeView, reply: ProbeReply)
    requires
        probe_wf(p),
        p.path < 2,
    ensures
        probe_measure(p) <= 4,
        0 <= probe_measure(probe_record(p, reply)) < probe_measure(p),
        probe_wf(probe_record(p, reply)),
{
}

/// How many ports are asked for targets.
pub const MAX_INSPECTOR_PORTS_TO_SCAN: usize = 12;

/// How many endpoints a switch or warm-up tries.
pub const MAX_INSPECTOR_ENDPOINTS_TO_TRY: usize = 3;

/// The ports to ask for targets: the first `MAX_INSPECTOR_PORTS_TO_SCAN`.
pub fn ports_to_scan(ports: Vec<InspectorPort>) -> (r: Vec<InspectorPort>)
    ensures
        r@ == if ports@.len() <= MAX_INSPECTOR_PORTS_TO_SCAN {
            ports@
        } else {
            ports@.take(MAX_INSPECTOR_PORTS_TO_SCAN as int)
        },
{
    let mut ports = ports;
    ports.truncate(MAX_INSPECTOR_PORTS_TO_SCAN);
    ports
}

/// The endpoints that the targets found on the ports give, port after port.
pub open spec fn endpoints_of(found: Seq<(InspectorPort, Vec<InspectorWsTarget>)>) -> Seq<
    InspectorEndpoint,
>
    decreases found.len(),
{
    if found.len() == 0 {
        Seq::empty()
    } else {
        let (port, targets) = found.last();
        endpoints_of(found.drop_last()) + targets@.map_values(
            |t: InspectorWsTarget|
                InspectorEndpoint { pid: port.pid, port: port.port, ws_url: t.ws_url, kind: t.kind },
        )
    }
}

/// The sort key of an endpoint: its kind's priority, then its port.
pub open spec fn endpoint_key(e: InspectorEndpoint) -> (u64, u64, u64) {
    (e.kind.spec_priority() as u64, e.port as u64, 0)
}

pub open spec fn endpoint_keys(es: Seq<InspectorEndpoint>) -> Seq<(u64, u64, u64)> {
    es.map_values(|e: InspectorEndpoint| endpoint_key(e))
}

/// The Inspector endpoints found: the targets of each port, stably sorted by priority and port.
pub fn inspector_endpoints(found: Vec<(InspectorPort, Vec<InspectorWsTarget>)>) -> (r: Vec<
    InspectorEndpoint,
>)
    ensures
        is_stable_sort_of(endpoints_of(found@), endpoint_keys(endpoints_of(found@)), r@),
{
    let ghost all = found@;
    let mut endpoints: Vec<InspectorEndpoint> = Vec::new();
    let mut keys: Vec<(u64, u64, u64)> = Vec::new();
    let mut i: usize = 0;
    for pair in it: found
        invariant
            it.seq() == all,
            endpoints@ == endpoints_of(all.take(it.index() as int)),
            keys@ == endpoint_keys(endpoints@),
    {
        let (port, targets) = pair;
        let ghost tv = targets@;
        let ghost before = endpoints@;
        proof {
            assert(all.take(it.index() + 1).drop_last() =~= all.take(it.index() as int));
            assert(all[it.index() as int] == (port, targets));
        }
        for t in jt: targets
            invariant
                jt.seq() == tv,
                endpoints@ == before + tv.take(jt.index() as int).map_values(
                    |t: InspectorWsTarget|
                        InspectorEndpoint {
                            pid: port.pid,
                            port: port.port,
                            ws_url: t.ws_url,
                            kind: t.kind,
                        },
                ),
                keys@ == endpoint_keys(endpoints@),
        {
            let ghost prev = endpoints@;
            let p = t.kind.priority();
            keys.push((p as u64, port.port as u64, 0));
            endpoints.push(
                InspectorEndpoint { pid: port.pid, port: port.port, ws_url: t.ws_url, kind: t.kind },
            );
            proof {
                assert(tv.take(jt.index() + 1) =~= tv.take(jt.index() as int).push(tv[jt.index() as int]));
                assert(endpoints@ =~= before + tv.take(jt.index() + 1).map_values(
                    |t: InspectorWsTarget|
                        InspectorEndpoint {
                            pid: port.pid,
                            port: port.port,
                            ws_url: t.ws_url,
                            kind: t.kind,
                        },
                ));
                assert(endpoint_keys(endpoints@) =~= endpoint_keys(prev).push(
                    endpoint_key(endpoints@.last()),
                ));
            }
        }
        proof {
            assert(tv.take(tv.len() as int) =~= tv);
        }
    }
    proof {
        assert(all.take(all.len() as int) =~= all);
    }
    sort_by_keys(endpoints, &keys)
}

/// Whether endpoints are tried for a switch or for a warm-up.
#[derive(Debug)]
pub enum TrialPurpose {
    HotSwitch,
    WarmUp,
}

/// Trying endpoints in turn: the remembered one first, while `cached` holds it; then the
/// discovered ones (at most `MAX_INSPECTOR_ENDPOINTS_TO_TRY`), with their failures so far.
#[derive(Debug)]
pub struct EndpointTrials {
    pub cached: Option<InspectorEndpoint>,
    pub endpoints: Vec<InspectorEndpoint>,
    pub next: usize,
    pub errors: Vec<String>,
}

/// The failure of trying an endpoint, as recorded.
pub open spec fn endpoint_failure(endpoint: InspectorEndpoint, error: Seq<char>) -> Seq<char> {
    "pid="@ + decimal(endpoint.pid as nat) + ",port="@ + decimal(endpoint.port as nat) + ": "@
        + error
}

/// The failure when no endpoint was discovered.
pub open spec fn no_endpoint_message() -> Seq<char> {
    "未发现 Antigravity 扩展宿主 Inspector 端口"@
}

/// The failure when every endpoint tried failed.
pub open spec fn trials_failed_message(purpose: TrialPurpose, errors: Seq<Seq<char>>) -> Seq<char> {
    let head = match purpose {
        TrialPurpose::HotSwitch => "Antigravity Inspector 均未完成热切: "@,
        TrialPurpose::WarmUp => "Antigravity Inspector 均未完成预热: "@,
    };
    head + join_with(errors, " | "@)
}

impl EndpointTrials {
    /// Starts with the remembered endpoint, if any: it is tried before anything is discovered.
    pub fn with_cached(cached: Option<InspectorEndpoint>) -> (r: EndpointTrials)
        ensures
            r.cached == cached,
            r.endpoints@.len() == 0,
            r.next == 0,
            r.errors@.len() == 0,
    {
        EndpointTrials { cached, endpoints: Vec::new(), next: 0, errors: Vec::new() }
    }

    /// Whether the endpoints have to be discovered now: no remembered endpoint is left to try
    /// and none has been discovered yet.
    pub fn needs_discovery(&self) -> (r: bool)
        ensures
            r == (self.cached is None && self.endpoints@.len() == 0),
    {
        self.cached.is_none() && self.endpoints.len() == 0
    }

    /// Takes the discovered endpoints, to be tried in order: the first
    /// `MAX_INSPECTOR_ENDPOINTS_TO_TRY`; a failure where none was discovered.
    pub fn add_discovered(&mut self, endpoints: Vec<InspectorEndpoint>) -> (r: Result<(), String>)
        requires
            old(self).cached is None,
            old(self).endpoints@.len() == 0,
        ensures
            final(self).cached is None,
            final(self).next == old(self).next,
            final(self).errors == old(self).errors,
            match r {
                Ok(_) => endpoints@.len() > 0 && final(self).endpoints@ == if endpoints@.len()
                    <= MAX_INSPECTOR_ENDPOINTS_TO_TRY {
                    endpoints@
                } else {
                    endpoints@.take(MAX_INSPECTOR_ENDPOINTS_TO_TRY as int)
                },
                Err(e) => endpoints@.len() == 0 && e@ == no_endpoint_message()
                    && final(self).endpoints@.len() == 0,
            },
    {
        if endpoints.len() == 0 {
            return Err(String::from_str("未发现 Antigravity 扩展宿主 Inspector 端口"));
        }
        let mut endpoints = endpoints;
        endpoints.truncate(MAX_INSPECTOR_ENDPOINTS_TO_TRY);
        self.endpoints = endpoints;
        Ok(())
    }

    /// Starts trying the discovered endpoints, with none remembered: the first
    /// `MAX_INSPECTOR_ENDPOINTS_TO_TRY`; a failure where none was discovered.
    pub fn begin(endpoints: Vec<InspectorEndpoint>) -> (r: Result<EndpointTrials, String>)
        ensures
            match r {
                Ok(t) => endpoints@.len() > 0 && t.cached is None && t.next == 0
                    && t.errors@.len() == 0 && t.endpoints@ == if endpoints@.len()
                    <= MAX_INSPECTOR_ENDPOINTS_TO_TRY {
                    endpoints@
                } else {
                    endpoints@.take(MAX_INSPECTOR_ENDPOINTS_TO_TRY as int)
                },
                Err(e) => endpoints@.len() == 0 && e@ == no_endpoint_message(),
            },
    {
        let mut t = EndpointTrials::with_cached(None);
        match t.add_discovered(endpoints) {
            Ok(()) => Ok(t),
            Err(e) => Err(e),
        }
    }

    /// The endpoint to try next, if any is left: the remembered one while it is there, then the
    /// discovered ones in order.
    pub fn next_endpoint(&self) -> (r: Option<&InspectorEndpoint>)
        ensures
            match self.cached {
                Some(c) => r == Some(&c),
                None => match r {
                    Some(e) => self.next < self.endpoints@.len() && *e
                        == self.endpoints@[self.next as int],
                    None => self.next >= self.endpoints@.len(),
                },
            },
    {
        match &self.cached {
            Some(c) => Some(c),
            None => if self.next < self.endpoints.len() {
                Some(&self.endpoints[self.next])
            } else {
                None
            },
        }
    }

    /// Whether the endpoint being tried was discovered, so that it is remembered once it works.
    pub fn remembers_success(&self) -> (r: bool)
        ensures
            r == (self.cached is None),
    {
        self.cached.is_none()
    }

    /// Records that the endpoint being tried failed, and moves on. The failure of the remembered
    /// endpoint only drops it; that of a discovered one is kept for the final message.
    pub fn record_failure(&mut self, error: &str)
        requires
            old(self).cached is Some || old(self).next < old(self).endpoints@.len(),
        ensures
            final(self).cached is None,
            final(self).endpoints == old(self).endpoints,
            old(self).cached is Some ==> final(self).next == old(self).next && final(self).errors
                == old(self).errors,
            old(self).cached is None ==> final(self).next == old(self).next + 1 && views(
                final(self).errors@,
            ) == views(old(self).errors@).push(
                endpoint_failure(old(self).endpoints@[old(self).next as int], error@),
            ),
    {
        if self.cached.is_some() {
            self.cached = None;
            return;
        }
        let n = self.next;
        let len = self.endpoints.len();
        assert(n < len);
        let e = &self.endpoints[n];
        let mut m = String::from_str("pid=");
        push_decimal(&mut m, e.pid as u64);
        m.append(",port=");
        push_decimal(&mut m, e.port as u64);
        m.append(": ");
        m.append(error);
        let ghost before = self.errors@;
        self.errors.push(m);
        proof {
            assert(views(self.errors@) =~= views(before).push(m@));
        }
        self.next = n + 1;
    }

    /// The failure once every endpoint tried has failed.
    pub fn failure_message(&self, purpose: TrialPurpose) -> (r: String)
        ensures
            r@ == trials_failed_message(purpose, views(self.errors@)),
    {
        let head = match purpose {
            TrialPurpose::HotSwitch => "Antigravity Inspector 均未完成热切: ",
            TrialPurpose::WarmUp => "Antigravity Inspector 均未完成预热: ",
        };
        let joined = join(self.errors.as_slice(), " | ");
        join2(head, joined.as_str())
    }
}

/// The endpoint through which the last switch or warm-up succeeded.
#[derive(Debug)]
pub struct InspectorEndpointCache {
    pub last: Option<InspectorEndpoint>,
}

impl InspectorEndpointCache {
    pub fn new() -> (r: InspectorEndpointCache)
        ensures
            r.last is None,
    {
        InspectorEndpointCache { last: None }
    }

    /// The remembered endpoint, if any.
    pub fn cached_inspector_endpoint(&self) -> (r: Option<InspectorEndpoint>)
        ensures
            r == self.last,
    {
        match &self.last {
            Some(e) => Some(e.duplicate()),
            None => None,
        }
    }

    /// Remembers the endpoint that just worked.
    pub fn remember_inspector_endpoint(&mut self, endpoint: &InspectorEndpoint)
        ensures
            final(self).last == Some(*endpoint),
    {
        self.last = Some(endpoint.duplicate());
    }
}

} // verus!
