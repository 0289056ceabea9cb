use vstd::prelude::*;

use crate::cdp::{
    class_candidates_of, codex_mcp_class_candidates, evaluate_object_outcome, evaluate_outcome,
    format_cdp_exception, exception_message, indexed_ids, indexed_object_ids, internal_object_id,
    key_views, named_object_id, object_id_at, object_id_at_path, properties_failure,
    properties_failure_message, property_object_id, result_items, CdpRequest,
    CdpRequestView, InspectorFunction, InspectorScript,
};
use crate::json::{json_bool, json_get, str_member, JsonValue};
use crate::text::{decimal, join, join2, join_with, push_decimal, views};

verus! {

/// The class-by-class part of the search: the candidate classes (at most 80 of them), the one
/// being tried, how many candidates there were, and the failures so far.
#[derive(Debug)]
pub struct ClassSearch {
    pub scan_error: String,
    pub classes: Vec<String>,
    pub index: usize,
    pub candidate_count: usize,
    pub errors: Vec<String>,
}

pub struct ClassSearchView {
    pub scan_error: Seq<char>,
    pub classes: Seq<Seq<char>>,
    pub index: int,
    pub candidate_count: nat,
    pub errors: Seq<Seq<char>>,
}

impl View for ClassSearch {
    type V = ClassSearchView;

    open spec fn view(&self) -> ClassSearchView {
        ClassSearchView {
            scan_error: self.scan_error@,
            classes: views(self.classes@),
            index: self.index as int,
            candidate_count: self.candidate_count as nat,
            errors: views(self.errors@),
        }
    }
}

/// The search for the live `CodexMcpConnection` in the extension host, one CDP call at a time:
/// first a direct scan of the module cache, then a scan of the heap's arrays, then the classes
/// in the closure of the extension's `activate` and their instances.
#[derive(Debug)]
pub enum InstanceSearch {
    DirectScan,
    ArrayConstructor { direct_error: String },
    ArrayPrototype { direct_error: String },
    ArrayObjects { direct_error: String },
    ArrayScan { direct_error: String },
    ActivateLookup { scan_error: String },
    ActivateProperties { scan_error: String },
    ActivateScopes { scan_error: String },
    ClosureScope { scan_error: String },
    ClassProperties(ClassSearch),
    ClassObjects(ClassSearch),
    ClassInstances(ClassSearch),
    InstanceCheck { search: ClassSearch, ids: Vec<String>, at: usize },
    Finished,
}

pub enum InstanceSearchView {
    DirectScan,
    ArrayConstructor { direct_error: Seq<char> },
    ArrayPrototype { direct_error: Seq<char> },
    ArrayObjects { direct_error: Seq<char> },
    ArrayScan { direct_error: Seq<char> },
    ActivateLookup { scan_error: Seq<char> },
    ActivateProperties { scan_error: Seq<char> },
    ActivateScopes { scan_error: Seq<char> },
    ClosureScope { scan_error: Seq<char> },
    ClassProperties(ClassSearchView),
    ClassObjects(ClassSearchView),
    ClassInstances(ClassSearchView),
    InstanceCheck { search: ClassSearchView, ids: Seq<Seq<char>>, at: int },
    Finished,
}

impl View for InstanceSearch {
    type V = InstanceSearchView;

    open spec fn view(&self) -> InstanceSearchView {
        match self {
            InstanceSearch::DirectScan => InstanceSearchView::DirectScan,
            InstanceSearch::ArrayConstructor { direct_error } => InstanceSearchView::ArrayConstructor {
                direct_error: direct_error@,
            },
            InstanceSearch::ArrayPrototype { direct_error } => InstanceSearchView::ArrayPrototype {
                direct_error: direct_error@,
            },
            InstanceSearch::ArrayObjects { direct_error } => InstanceSearchView::ArrayObjects {
                direct_error: direct_error@,
            },
            InstanceSearch::ArrayScan { direct_error } => InstanceSearchView::ArrayScan {
                direct_error: direct_error@,
            },
            InstanceSearch::ActivateLookup { scan_error } => InstanceSearchView::ActivateLookup {
                scan_error: scan_error@,
            },
            InstanceSearch::ActivateProperties { scan_error } => InstanceSearchView::ActivateProperties {
                scan_error: scan_error@,
            },
            InstanceSearch::ActivateScopes { scan_error } => InstanceSearchView::ActivateScopes {
                scan_error: scan_error@,
            },
            InstanceSearch::ClosureScope { scan_error } => InstanceSearchView::ClosureScope {
                scan_error: scan_error@,
            },
            InstanceSearch::ClassProperties(c) => InstanceSearchView::ClassProperties(c@),
            InstanceSearch::ClassObjects(c) => InstanceSearchView::ClassObjects(c@),
            InstanceSearch::ClassInstances(c) => InstanceSearchView::ClassInstances(c@),
            InstanceSearch::InstanceCheck { search, ids, at } => InstanceSearchView::InstanceCheck {
                search: search@,
                ids: views(ids@),
                at: *at as int,
            },
            InstanceSearch::Finished => InstanceSearchView::Finished,
        }
    }
}

/// What the search does next: make a call, or end with the instance's object id, or fail.
#[derive(Debug)]
pub enum SearchStep {
    Call(CdpRequest),
    Found(String),
    Failed(String),
}

pub enum SearchStepView {
    Call(CdpRequestView),
    Found(Seq<char>),
    Failed(Seq<char>),
}

impl View for SearchStep {
    type V = SearchStepView;

    open spec fn view(&self) -> SearchStepView {
        match self {
            SearchStep::Call(r) => SearchStepView::Call(r@),
            SearchStep::Found(s) => SearchStepView::Found(s@),
            SearchStep::Failed(s) => SearchStepView::Failed(s@),
        }
    }
}

/// How many candidate classes are tried.
pub const MAX_CLASS_CANDIDATES: usize = 80;

/// How many instances of a class are tried.
pub const MAX_INSTANCES_PER_CLASS: usize = 20;

/// The first `n` items (all, where there are fewer).
pub open spec fn first_n<T>(s: Seq<T>, n: int) -> Seq<T> {
    if s.len() <= n {
        s
    } else {
        s.take(n)
    }
}

/// The failure reported once the scans have failed (`scan_error`) and a later stage failed.
pub open spec fn lookup_error(stage: Seq<char>, scan_error: Seq<char>, detail: Seq<char>) -> Seq<
    char,
> {
    "直接扫描失败: "@ + scan_error + "; "@ + stage + ": "@ + detail
}

/// Builds the failure reported once the scans have failed and a later stage failed.
pub fn format_lookup_error(stage: &str, direct_scan_error: &str, detail: &str) -> (r: String)
    ensures
        r@ == lookup_error(stage@, direct_scan_error@, detail@),
{
    join2("直接扫描失败: ", direct_scan_error).concat("; ").concat(stage).concat(": ").concat(detail)
}

/// The message of a search in which no class had a live instance.
pub open spec fn not_found_detail(candidate_count: nat, errors: Seq<Seq<char>>) -> Seq<char> {
    let head = "当前 Antigravity 扩展宿主中未找到 CodexMcpConnection 实例，candidate_count="@
        + decimal(candidate_count);
    if errors.len() == 0 {
        head
    } else {
        head + ", errors="@ + join_with(first_n(errors, 3), " | "@)
    }
}

/// What the heap-array scan gave: a failure, nothing, or an object id.
pub open spec fn arrays_scan_result(response: JsonValue) -> Result<Option<Seq<char>>, Seq<char>> {
    match json_get(response, "exceptionDetails"@) {
        Some(x) => Err("扫描 heap arrays 异常: "@ + exception_message(x)),
        None => match json_get(response, "result"@) {
            None => Ok(None),
            Some(result) => if str_member(result, "subtype"@) == Some("null"@) || str_member(
                result,
                "type"@,
            ) == Some("undefined"@) {
                Ok(None)
            } else {
                Ok(object_id_at_path(response, seq!["result"@]))
            },
        },
    }
}

/// Whether the instance test returned `true`.
pub open spec fn is_instance_reply(response: JsonValue) -> bool {
    match json_get(response, "result"@) {
        Some(r) => match json_get(r, "value"@) {
            Some(v) => json_bool(v) == Some(true),
            None => false,
        },
        None => false,
    }
}

/// After the heap-array scan failed with `array_error`: look up `activate`.
pub open spec fn after_array_failure(direct_error: Seq<char>, array_error: Seq<char>) -> (
    InstanceSearchView,
    SearchStepView,
) {
    (
        InstanceSearchView::ActivateLookup {
            scan_error: direct_error + "; heap arrays 扫描失败: "@ + array_error,
        },
        SearchStepView::Call(CdpRequestView::Evaluate(InspectorScript::ActivateFunction)),
    )
}

/// The search fails at the `activate` stage.
pub open spec fn activate_failed(scan_error: Seq<char>, detail: Seq<char>) -> (
    InstanceSearchView,
    SearchStepView,
) {
    (
        InstanceSearchView::Finished,
        SearchStepView::Failed(lookup_error("activate 失败"@, scan_error, detail)),
    )
}

pub open spec fn get_properties_call(object_id: Seq<char>, own: bool) -> SearchStepView {
    SearchStepView::Call(CdpRequestView::GetProperties { object_id, own_properties: own })
}

/// The class search with one more failure.
pub open spec fn with_error(cs: ClassSearchView, e: Seq<char>) -> ClassSearchView {
    ClassSearchView { errors: cs.errors.push(e), ..cs }
}

/// On to the next candidate class, or, after the last, the failure of the whole search.
pub open spec fn next_class(cs: ClassSearchView) -> (InstanceSearchView, SearchStepView) {
    let i = cs.index + 1;
    if i < cs.classes.len() {
        (
            InstanceSearchView::ClassProperties(ClassSearchView { index: i, ..cs }),
            get_properties_call(cs.classes[i], false),
        )
    } else {
        (
            InstanceSearchView::Finished,
            SearchStepView::Failed(
                lookup_error(
                    "queryObjects 失败"@,
                    cs.scan_error,
                    not_found_detail(cs.candidate_count, cs.errors),
                ),
            ),
        )
    }
}

pub open spec fn call_function(object_id: Seq<char>, function: InspectorFunction) -> SearchStepView {
    SearchStepView::Call(CdpRequestView::CallFunctionOn { object_id, function })
}

/// The step of the search on the reply to its last call.
pub open spec fn search_step(s: InstanceSearchView, reply: Result<JsonValue, String>) -> (
    InstanceSearchView,
    SearchStepView,
) {
    match s {
        InstanceSearchView::DirectScan => match evaluate_outcome("direct req.cache scan"@, reply) {
            Ok(id) => (InstanceSearchView::Finished, SearchStepView::Found(id)),
            Err(e) => (
                InstanceSearchView::ArrayConstructor { direct_error: e },
                SearchStepView::Call(CdpRequestView::Evaluate(InspectorScript::ArrayConstructor)),
            ),
        },
        InstanceSearchView::ArrayConstructor { direct_error } => match evaluate_outcome(
            "Array constructor"@,
            reply,
        ) {
            Err(e) => after_array_failure(direct_error, "获取 Array 构造函数失败: "@ + e),
            Ok(id) => (
                InstanceSearchView::ArrayPrototype { direct_error },
                get_properties_call(id, false),
            ),
        },
        InstanceSearchView::ArrayPrototype { direct_error } => match reply {
            Err(e) => after_array_failure(
                direct_error,
                "读取 Array.prototype 失败: "@ + properties_failure("Array constructor"@, e@),
            ),
            Ok(p) => match named_object_id(p, "result"@, "prototype"@) {
                None => after_array_failure(direct_error, "Array.prototype 缺少 objectId"@),
                Some(proto) => (
                    InstanceSearchView::ArrayObjects { direct_error },
                    SearchStepView::Call(
                        CdpRequestView::QueryObjects { prototype_object_id: proto },
                    ),
                ),
            },
        },
        InstanceSearchView::ArrayObjects { direct_error } => match reply {
            Err(e) => after_array_failure(direct_error, "queryObjects(Array.prototype) 失败: "@ + e@),
            Ok(q) => match object_id_at_path(q, seq!["objects"@]) {
                None => after_array_failure(
                    direct_error,
                    "Inspector queryObjects(Array) 未返回对象数组"@,
                ),
                Some(arrays) => (
                    InstanceSearchView::ArrayScan { direct_error },
                    call_function(arrays, InspectorFunction::FindCodexInstanceInArrays),
                ),
            },
        },
        InstanceSearchView::ArrayScan { direct_error } => match reply {
            Err(e) => after_array_failure(direct_error, "扫描 heap arrays 失败: "@ + e@),
            Ok(r) => match arrays_scan_result(r) {
                Err(m) => after_array_failure(direct_error, m),
                Ok(Some(id)) => (InstanceSearchView::Finished, SearchStepView::Found(id)),
                Ok(None) => after_array_failure(
                    direct_error,
                    "heap arrays 未找到 CodexMcpConnection 实例"@,
                ),
            },
        },
        InstanceSearchView::ActivateLookup { scan_error } => match evaluate_outcome(
            "activate export lookup"@,
            reply,
        ) {
            Err(e) => activate_failed(scan_error, e),
            Ok(id) => (
                InstanceSearchView::ActivateProperties { scan_error },
                get_properties_call(id, false),
            ),
        },
        InstanceSearchView::ActivateProperties { scan_error } => match reply {
            Err(e) => activate_failed(scan_error, properties_failure("activate function"@, e@)),
            Ok(p) => match named_object_id(p, "internalProperties"@, "[[Scopes]]"@) {
                None => activate_failed(scan_error, "未找到 Codex 扩展 activate [[Scopes]]"@),
                Some(scopes) => (
                    InstanceSearchView::ActivateScopes { scan_error },
                    get_properties_call(scopes, true),
                ),
            },
        },
        InstanceSearchView::ActivateScopes { scan_error } => match reply {
            Err(e) => activate_failed(scan_error, properties_failure("activate [[Scopes]]"@, e@)),
            Ok(p) => match named_object_id(p, "result"@, "0"@) {
                None => activate_failed(scan_error, "未找到 Codex 扩展闭包 scope"@),
                Some(closure) => (
                    InstanceSearchView::ClosureScope { scan_error },
                    get_properties_call(closure, true),
                ),
            },
        },
        InstanceSearchView::ClosureScope { scan_error } => match reply {
            Err(e) => activate_failed(
                scan_error,
                properties_failure("activate closure scope"@, e@),
            ),
            Ok(p) => {
                let classes = class_candidates_of(result_items(p));
                if classes.len() == 0 {
                    activate_failed(scan_error, "未找到 CodexMcpConnection 候选类"@)
                } else {
                    (
                        InstanceSearchView::ClassProperties(
                            ClassSearchView {
                                scan_error,
                                classes: first_n(classes, 80),
                                index: 0,
                                candidate_count: classes.len(),
                                errors: Seq::empty(),
                            },
                        ),
                        get_properties_call(classes[0], false),
                    )
                }
            },
        },
        InstanceSearchView::ClassProperties(cs) => match reply {
            Err(e) => next_class(
                with_error(cs, properties_failure("CodexMcpConnection class candidate"@, e@)),
            ),
            Ok(p) => match named_object_id(p, "result"@, "prototype"@) {
                None => next_class(cs),
                Some(proto) => (
                    InstanceSearchView::ClassObjects(cs),
                    SearchStepView::Call(
                        CdpRequestView::QueryObjects { prototype_object_id: proto },
                    ),
                ),
            },
        },
        InstanceSearchView::ClassObjects(cs) => match reply {
            Err(e) => next_class(with_error(cs, e@)),
            Ok(q) => match object_id_at_path(q, seq!["objects"@]) {
                None => next_class(with_error(cs, "Inspector queryObjects 未返回对象数组"@)),
                Some(objects) => (
                    InstanceSearchView::ClassInstances(cs),
                    get_properties_call(objects, true),
                ),
            },
        },
        InstanceSearchView::ClassInstances(cs) => match reply {
            Err(e) => next_class(with_error(cs, properties_failure("queryObjects result"@, e@))),
            Ok(objects) => {
                let ids = first_n(indexed_ids(objects), 20);
                if ids.len() == 0 {
                    next_class(cs)
                } else {
                    (
                        InstanceSearchView::InstanceCheck { search: cs, ids, at: 0 },
                        call_function(ids[0], InspectorFunction::IsCodexMcpInstance),
                    )
                }
            },
        },
        InstanceSearchView::InstanceCheck { search, ids, at } => match reply {
            Err(e) => next_class(with_error(search, e@)),
            Ok(r) => if is_instance_reply(r) {
                (InstanceSearchView::Finished, SearchStepView::Found(ids[at]))
            } else if at + 1 < ids.len() {
                (
                    InstanceSearchView::InstanceCheck { search, ids, at: at + 1 },
                    call_function(ids[at + 1], InspectorFunction::IsCodexMcpInstance),
                )
            } else {
                next_class(search)
            },
        },
        InstanceSearchView::Finished => (InstanceSearchView::Finished, SearchStepView::Failed(Seq::empty())),
    }
}

/// The search reports an object only on evidence: the object id that the direct scan or the
/// heap-array scan returned (in a reply without an exception), or the instance under test when
/// its test answered `true`. An instance test that did not answer `true` never ends in a find,
/// and no other step finds anything.
pub proof fn search_finds_only_on_evidence(
    s: InstanceSearchView,
    reply: Result<JsonValue, String>,
    id: Seq<char>,
)
    requires
        search_step(s, reply).1 == SearchStepView::Found(id),
    ensures
        match s {
            InstanceSearchView::DirectScan => reply matches Ok(v) && json_get(
                v,
                "exceptionDetails"@,
            ) is None && object_id_at_path(v, seq!["result"@]) == Some(id),
            InstanceSearchView::ArrayScan { .. } => reply matches Ok(v) && json_get(
                v,
                "exceptionDetails"@,
            ) is None && object_id_at_path(v, seq!["result"@]) == Some(id),
            InstanceSearchView::InstanceCheck { ids, at, .. } => reply matches Ok(v) && (json_get(
                v,
                "result"@,
            ) matches Some(r) && (json_get(r, "value"@) == Some(JsonValue::Bool(true)) && id
                == ids[at])),
            _ => false,
        },
{
}

/// A state the search can be in between calls.
pub open spec fn class_search_wf(cs: ClassSearchView) -> bool {
    &&& 0 <= cs.index < cs.classes.len()
    &&& cs.classes.len() <= 80
    &&& cs.candidate_count >= cs.classes.len()
}

pub open spec fn search_wf(s: InstanceSearchView) -> bool {
    match s {
        InstanceSearchView::ClassProperties(cs) => class_search_wf(cs),
        InstanceSearchView::ClassObjects(cs) => class_search_wf(cs),
        InstanceSearchView::ClassInstances(cs) => class_search_wf(cs),
        InstanceSearchView::InstanceCheck { search, ids, at } => class_search_wf(search) && 0 <= at
            < ids.len() <= 20,
        InstanceSearchView::Finished => false,
        _ => true,
    }
}


/// An upper bound on the calls the search has left to make.
pub open spec fn search_measure(s: InstanceSearchView) -> int {
    match s {
        InstanceSearchView::DirectScan => 1928,
        InstanceSearchView::ArrayConstructor { .. } => 1927,
        InstanceSearchView::ArrayPrototype { .. } => 1926,
        InstanceSearchView::ArrayObjects { .. } => 1925,
        InstanceSearchView::ArrayScan { .. } => 1924,
        InstanceSearchView::ActivateLookup { .. } => 1923,
        InstanceSearchView::ActivateProperties { .. } => 1922,
        InstanceSearchView::ActivateScopes { .. } => 1921,
        InstanceSearchView::ClosureScope { .. } => 1920,
        InstanceSearchView::ClassProperties(cs) => (cs.classes.len() - cs.index - 1) * 24 + 23,
        InstanceSearchView::ClassObjects(cs) => (cs.classes.len() - cs.index - 1) * 24 + 22,
        InstanceSearchView::ClassInstances(cs) => (cs.classes.len() - cs.index - 1) * 24 + 21,
        InstanceSearchView::InstanceCheck { search, at, .. } => (search.classes.len() - search.index
            - 1) * 24 + 20 - at,
        InstanceSearchView::Finished => 0,
    }
}

/// The search always ends: each reply either ends it or leaves it with fewer calls to make,
/// so, with its first call, it makes at most 1929 calls.
pub proof fn search_always_ends(s: InstanceSearchView, reply: Result<JsonValue, String>)
    requires
        search_wf(s),
    ensures
        search_measure(s) <= 1928,
        search_step(s, reply).1 is Call ==> 0 <= search_measure(search_step(s, reply).0)
            < search_measure(s) && search_wf(search_step(s, reply).0),
{
    let next = search_step(s, reply);
    match s {
        InstanceSearchView::ClosureScope { scan_error } => {
            match reply {
                Ok(p) => {
                    let classes = class_candidates_of(result_items(p));
                    if classes.len() > 0 {
                        assert(first_n(classes, 80).len() <= 80);
                        assert(first_n(classes, 80).len() >= 1);
                    }
                },
                Err(_) => {},
            }
        },
        InstanceSearchView::ClassInstances(cs) => {
            match reply {
                Ok(objects) => {
                    let ids = first_n(indexed_ids(objects), 20);
                    assert(ids.len() <= 20);
                },
                Err(_) => {},
            }
        },
        _ => {},
    }
}

fn first_n_strings(v: Vec<String>, n: usize) -> (r: Vec<String>)
    ensures
        views(r@) == first_n(views(v@), n as int),
{
    let mut v = v;
    let ghost before = v@;
    v.truncate(n);
    proof {
        if before.len() > n {
            assert(views(v@) =~= views(before).take(n as int));
        }
    }
    v
}

fn array_failure(direct_error: &str, array_error: &str) -> (r: (InstanceSearch, SearchStep))
    ensures
        (r.0@, r.1@) == after_array_failure(direct_error@, array_error@),
{
    let combined = join2(direct_error, "; heap arrays 扫描失败: ").concat(array_error);
    (
        InstanceSearch::ActivateLookup { scan_error: combined },
        SearchStep::Call(CdpRequest::Evaluate(InspectorScript::ActivateFunction)),
    )
}

fn activate_fail(scan_error: &str, detail: &str) -> (r: (InstanceSearch, SearchStep))
    ensures
        (r.0@, r.1@) == activate_failed(scan_error@, detail@),
{
    (InstanceSearch::Finished, SearchStep::Failed(format_lookup_error("activate 失败", scan_error, detail)))
}

fn get_properties_step(object_id: String, own: bool) -> (r: SearchStep)
    ensures
        r@ == get_properties_call(object_id@, own),
{
    SearchStep::Call(CdpRequest::GetProperties { object_id, own_properties: own })
}

fn call_function_step(object_id: String, function: InspectorFunction) -> (r: SearchStep)
    ensures
        r@ == call_function(object_id@, function),
{
    SearchStep::Call(CdpRequest::CallFunctionOn { object_id, function })
}

fn with_error_exec(cs: ClassSearch, e: String) -> (r: ClassSearch)
    ensures
        r@ == with_error(cs@, e@),
{
    let mut cs = cs;
    let ghost before = cs.errors@;
    cs.errors.push(e);
    proof {
        assert(views(cs.errors@) =~= views(before).push(e@));
    }
    cs
}

/// The message of a search in which no class had a live instance.
pub fn not_found_detail_message(candidate_count: usize, errors: &Vec<String>) -> (r: String)
    ensures
        r@ == not_found_detail(candidate_count as nat, views(errors@)),
{
    let mut head = String::from_str("当前 Antigravity 扩展宿主中未找到 CodexMcpConnection 实例，candidate_count=");
    push_decimal(&mut head, candidate_count as u64);
    if errors.len() == 0 {
        head
    } else {
        let n: usize = if errors.len() < 3 {
            errors.len()
        } else {
            3
        };
        let first = vstd::slice::slice_subrange(errors.as_slice(), 0, n);
        proof {
            if views(errors@).len() <= 3 {
                assert(views(first@) =~= views(errors@));
            } else {
                assert(views(first@) =~= views(errors@).take(3));
            }
        }
        let joined = join(first, " | ");
        head.concat(", errors=").concat(joined.as_str())
    }
}

fn next_class_exec(cs: ClassSearch) -> (r: (InstanceSearch, SearchStep))
    requires
        class_search_wf(cs@),
    ensures
        (r.0@, r.1@) == next_class(cs@),
        r.1 is Call ==> search_wf(r.0@),
{
    let i = cs.index + 1;
    if i < cs.classes.len() {
        let id = cs.classes[i].clone();
        let mut cs = cs;
        cs.index = i;
        (InstanceSearch::ClassProperties(cs), get_properties_step(id, false))
    } else {
        let detail = not_found_detail_message(cs.candidate_count, &cs.errors);
        let m = format_lookup_error("queryObjects 失败", cs.scan_error.as_str(), detail.as_str());
        (InstanceSearch::Finished, SearchStep::Failed(m))
    }
}


fn text_is(s: &String, t: &str) -> (r: bool)
    ensures
        r == (s@ == t@),
{
    let x = String::from_str(t);
    *s == x
}

fn member_is(v: &JsonValue, key: &str, t: &str) -> (r: bool)
    ensures
        r == (str_member(*v, key@) == Some(t@)),
{
    match v.str_member(key) {
        Some(s) => text_is(s, t),
        None => false,
    }
}

fn single_path(key: &'static str) -> (r: [&'static str; 1])
    ensures
        key_views(r@) == seq![key@],
{
    let r = [key];
    proof {
        assert(key_views(r@) =~= seq![key@]);
    }
    r
}

/// What the heap-array scan gave.
pub fn arrays_scan_outcome(response: &JsonValue) -> (r: Result<Option<String>, String>)
    ensures
        match r {
            Ok(Some(id)) => arrays_scan_result(*response) == Ok::<Option<Seq<char>>, Seq<char>>(
                Some(id@),
            ),
            Ok(None) => arrays_scan_result(*response) == Ok::<Option<Seq<char>>, Seq<char>>(None),
            Err(e) => arrays_scan_result(*response) == Err::<Option<Seq<char>>, Seq<char>>(e@),
        },
{
    match response.get("exceptionDetails") {
        Some(x) => {
            let m = format_cdp_exception(x);
            return Err(join2("扫描 heap arrays 异常: ", m.as_str()));
        },
        None => {},
    }
    let result = match response.get("result") {
        Some(r) => r,
        None => {
            return Ok(None);
        },
    };
    if member_is(result, "subtype", "null") || member_is(result, "type", "undefined") {
        return Ok(None);
    }
    let path = single_path("result");
    Ok(object_id_at(response, path.as_slice()))
}

/// Whether the instance test returned `true`.
pub fn is_codex_mcp_instance_reply(response: &JsonValue) -> (r: bool)
    ensures
        r == is_instance_reply(*response),
{
    match response.get("result") {
        Some(r) => match r.get("value") {
            Some(v) => match v.as_bool() {
                Some(b) => b,
                None => false,
            },
            None => false,
        },
        None => false,
    }
}

impl InstanceSearch {
    /// The first call of the search: the direct scan of the module cache.
    pub fn start() -> (r: (InstanceSearch, CdpRequest))
        ensures
            r.0@ == InstanceSearchView::DirectScan,
            r.1@ == CdpRequestView::Evaluate(InspectorScript::CodexInstance),
            search_wf(r.0@),
    {
        (InstanceSearch::DirectScan, CdpRequest::Evaluate(InspectorScript::CodexInstance))
    }

    /// The next step of the search, given the reply to its last call.
    pub fn on_reply(self, reply: Result<JsonValue, String>) -> (r: (InstanceSearch, SearchStep))
        requires
            search_wf(self@),
        ensures
            (r.0@, r.1@) == search_step(self@, reply),
            r.1 is Call ==> search_wf(r.0@),
    {
        match self {
            InstanceSearch::DirectScan => {
                match evaluate_object_outcome("direct req.cache scan", &reply) {
                    Ok(id) => (InstanceSearch::Finished, SearchStep::Found(id)),
                    Err(e) => (
                        InstanceSearch::ArrayConstructor { direct_error: e },
                        SearchStep::Call(CdpRequest::Evaluate(InspectorScript::ArrayConstructor)),
                    ),
                }
            },
            InstanceSearch::ArrayConstructor { direct_error } => {
                match evaluate_object_outcome("Array constructor", &reply) {
                    Err(e) => {
                        let m = join2("获取 Array 构造函数失败: ", e.as_str());
                        array_failure(direct_error.as_str(), m.as_str())
                    },
                    Ok(id) => (
                        InstanceSearch::ArrayPrototype { direct_error },
                        get_properties_step(id, false),
                    ),
                }
            },
            InstanceSearch::ArrayPrototype { direct_error } => {
                match reply {
                    Err(e) => {
                        let inner = properties_failure_message("Array constructor", e.as_str());
                        let m = join2("读取 Array.prototype 失败: ", inner.as_str());
                        array_failure(direct_error.as_str(), m.as_str())
                    },
                    Ok(p) => match property_object_id(&p, "prototype") {
                        None => array_failure(direct_error.as_str(), "Array.prototype 缺少 objectId"),
                        Some(proto) => (
                            InstanceSearch::ArrayObjects { direct_error },
                            SearchStep::Call(CdpRequest::QueryObjects { prototype_object_id: proto }),
                        ),
                    },
                }
            },
            InstanceSearch::ArrayObjects { direct_error } => {
                match reply {
                    Err(e) => {
                        let m = join2("queryObjects(Array.prototype) 失败: ", e.as_str());
                        array_failure(direct_error.as_str(), m.as_str())
                    },
                    Ok(q) => {
                        let path = single_path("objects");
                        match object_id_at(&q, path.as_slice()) {
                            None => array_failure(
                                direct_error.as_str(),
                                "Inspector queryObjects(Array) 未返回对象数组",
                            ),
                            Some(arrays) => (
                                InstanceSearch::ArrayScan { direct_error },
                                call_function_step(arrays, InspectorFunction::FindCodexInstanceInArrays),
                            ),
                        }
                    },
                }
            },
            InstanceSearch::ArrayScan { direct_error } => {
                match reply {
                    Err(e) => {
                        let m = join2("扫描 heap arrays 失败: ", e.as_str());
                        array_failure(direct_error.as_str(), m.as_str())
                    },
                    Ok(r) => match arrays_scan_outcome(&r) {
                        Err(m) => array_failure(direct_error.as_str(), m.as_str()),
                        Ok(Some(id)) => (InstanceSearch::Finished, SearchStep::Found(id)),
                        Ok(None) => array_failure(
                            direct_error.as_str(),
                            "heap arrays 未找到 CodexMcpConnection 实例",
                        ),
                    },
                }
            },
            InstanceSearch::ActivateLookup { scan_error } => {
                match evaluate_object_outcome("activate export lookup", &reply) {
                    Err(e) => activate_fail(scan_error.as_str(), e.as_str()),
                    Ok(id) => (
                        InstanceSearch::ActivateProperties { scan_error },
                        get_properties_step(id, false),
                    ),
                }
            },
            InstanceSearch::ActivateProperties { scan_error } => {
                match reply {
                    Err(e) => {
                        let m = properties_failure_message("activate function", e.as_str());
                        activate_fail(scan_error.as_str(), m.as_str())
                    },
                    Ok(p) => match internal_object_id(&p, "[[Scopes]]") {
                        None => activate_fail(
                            scan_error.as_str(),
                            "未找到 Codex 扩展 activate [[Scopes]]",
                        ),
                        Some(scopes) => (
                            InstanceSearch::ActivateScopes { scan_error },
                            get_properties_step(scopes, true),
                        ),
                    },
                }
            },
            InstanceSearch::ActivateScopes { scan_error } => {
                match reply {
                    Err(e) => {
                        let m = properties_failure_message("activate [[Scopes]]", e.as_str());
                        activate_fail(scan_error.as_str(), m.as_str())
                    },
                    Ok(p) => match property_object_id(&p, "0") {
                        None => activate_fail(scan_error.as_str(), "未找到 Codex 扩展闭包 scope"),
                        Some(closure) => (
                            InstanceSearch::ClosureScope { scan_error },
                            get_properties_step(closure, true),
                        ),
                    },
                }
            },
            InstanceSearch::ClosureScope { scan_error } => {
                match reply {
                    Err(e) => {
                        let m = properties_failure_message("activate closure scope", e.as_str());
                        activate_fail(scan_error.as_str(), m.as_str())
                    },
                    Ok(p) => {
                        let classes = codex_mcp_class_candidates(&p);
                        if classes.len() == 0 {
                            activate_fail(scan_error.as_str(), "未找到 CodexMcpConnection 候选类")
                        } else {
                            let candidate_count = classes.len();
                            let first = classes[0].clone();
                            let tried = first_n_strings(classes, MAX_CLASS_CANDIDATES);
                            let cs = ClassSearch {
                                scan_error,
                                classes: tried,
                                index: 0,
                                candidate_count,
                                errors: Vec::new(),
                            };
                            proof {
                                assert(views(cs.errors@) =~= Seq::<Seq<char>>::empty());
                            }
                            (InstanceSearch::ClassProperties(cs), get_properties_step(first, false))
                        }
                    },
                }
            },
            InstanceSearch::ClassProperties(cs) => {
                match reply {
                    Err(e) => {
                        let m = properties_failure_message(
                            "CodexMcpConnection class candidate",
                            e.as_str(),
                        );
                        next_class_exec(with_error_exec(cs, m))
                    },
                    Ok(p) => match property_object_id(&p, "prototype") {
                        None => next_class_exec(cs),
                        Some(proto) => (
                            InstanceSearch::ClassObjects(cs),
                            SearchStep::Call(CdpRequest::QueryObjects { prototype_object_id: proto }),
                        ),
                    },
                }
            },
            InstanceSearch::ClassObjects(cs) => {
                match reply {
                    Err(e) => next_class_exec(with_error_exec(cs, e)),
                    Ok(q) => {
                        let path = single_path("objects");
                        match object_id_at(&q, path.as_slice()) {
                            None => next_class_exec(
                                with_error_exec(
                                    cs,
                                    String::from_str("Inspector queryObjects 未返回对象数组"),
                                ),
                            ),
                            Some(objects) => (
                                InstanceSearch::ClassInstances(cs),
                                get_properties_step(objects, true),
                            ),
                        }
                    },
                }
            },
            InstanceSearch::ClassInstances(cs) => {
                match reply {
                    Err(e) => {
                        let m = properties_failure_message("queryObjects result", e.as_str());
                        next_class_exec(with_error_exec(cs, m))
                    },
                    Ok(objects) => {
                        let all = indexed_object_ids(&objects);
                        let ids = first_n_strings(all, MAX_INSTANCES_PER_CLASS);
                        if ids.len() == 0 {
                            next_class_exec(cs)
                        } else {
                            let first = ids[0].clone();
                            (
                                InstanceSearch::InstanceCheck { search: cs, ids, at: 0 },
                                call_function_step(first, InspectorFunction::IsCodexMcpInstance),
                            )
                        }
                    },
                }
            },
            InstanceSearch::InstanceCheck { search, ids, at } => {
                match reply {
                    Err(e) => next_class_exec(with_error_exec(search, e)),
                    Ok(r) => {
                        if is_codex_mcp_instance_reply(&r) {
                            let id = ids[at].clone();
                            (InstanceSearch::Finished, SearchStep::Found(id))
                        } else if at + 1 < ids.len() {
                            let next = ids[at + 1].clone();
                            (
                                InstanceSearch::InstanceCheck { search, ids, at: at + 1 },
                                call_function_step(next, InspectorFunction::IsCodexMcpInstance),
                            )
                        } else {
                            next_class_exec(search)
                        }
                    },
                }
            },
            InstanceSearch::Finished => (InstanceSearch::Finished, SearchStep::Failed(String::new())),
        }
    }
}

} // verus!
