use vstd::prelude::*;

use crate::json::{
    is_object_with_keys, json_get, json_text_of, json_text_parse, json_to_text, parse_json_text, json_items, json_member, json_opt_string, json_str,
    json_string, member_keys, member_value, str_member, JsonNumber, JsonValue,
};
use crate::scripts::{
    ACTIVATE_FUNCTION_EXPRESSION, CODEX_INSTANCE_EXPRESSION, FIND_CODEX_INSTANCE_IN_ARRAYS_FUNCTION,
    HOT_SWITCH_FUNCTION, IS_CODEX_MCP_INSTANCE_FUNCTION,
};
use crate::order::{is_stable_sort_of, sort_by_keys};
use crate::text::{decimal, join2, parse_unsigned, parse_unsigned_str, push_decimal, views};

verus! {

/// The object id a CDP remote object carries.
pub open spec fn object_id_of(v: JsonValue) -> Option<Seq<char>> {
    str_member(v, "objectId"@)
}

/// The first item whose `name` is `name`.
pub open spec fn first_named(items: Seq<JsonValue>, name: Seq<char>) -> Option<JsonValue>
    decreases items.len(),
{
    if items.len() == 0 {
        None
    } else if str_member(items[0], "name"@) == Some(name) {
        Some(items[0])
    } else {
        first_named(items.drop_first(), name)
    }
}

/// The object id of the value of the first property named `name` in the list `list_key` of a
/// `Runtime.getProperties` result.
pub open spec fn named_object_id(props: JsonValue, list_key: Seq<char>, name: Seq<char>) -> Option<
    Seq<char>,
> {
    match json_get(props, list_key) {
        None => None,
        Some(list) => match json_items(list) {
            None => None,
            Some(items) => match first_named(items, name) {
                None => None,
                Some(item) => match json_get(item, "value"@) {
                    None => None,
                    Some(value) => object_id_of(value),
                },
            },
        },
    }
}

fn text_is(s: &String, t: &str) -> (r: bool)
    ensures
        r == (s@ == t@),
{
    let x = String::from_str(t);
    *s == x
}

fn named_object_id_exec(props: &JsonValue, list_key: &str, name: &str) -> (r: Option<String>)
    ensures
        match r {
            Some(s) => named_object_id(*props, list_key@, name@) == Some(s@),
            None => named_object_id(*props, list_key@, name@) is None,
        },
{
    let list = match props.get(list_key) {
        Some(l) => l,
        None => {
            return None;
        },
    };
    let items = match list.as_array() {
        Some(items) => items,
        None => {
            return None;
        },
    };
    let mut i: usize = 0;
    proof {
        assert(items@.skip(0) =~= items@);
    }
    while i < items.len()
        invariant
            i <= items.len(),
            json_get(*props, list_key@) == Some(*list),
            json_items(*list) == Some(items@),
            first_named(items@, name@) == first_named(items@.skip(i as int), name@),
        decreases items.len() - i,
    {
        proof {
            assert(items@.skip(i as int).drop_first() =~= items@.skip(i + 1));
            assert(items@.skip(i as int)[0] == items@[i as int]);
        }
        let item = &items[i];
        let matched = match item.str_member("name") {
            Some(n) => text_is(n, name),
            None => false,
        };
        if matched {
            let value = match item.get("value") {
                Some(v) => v,
                None => {
                    return None;
                },
            };
            return match value.str_member("objectId") {
                Some(id) => Some(id.clone()),
                None => None,
            };
        }
        i = i + 1;
    }
    None
}

/// The object id of the property `name` of a `Runtime.getProperties` result.
pub fn property_object_id(properties: &JsonValue, name: &str) -> (r: Option<String>)
    ensures
        match r {
            Some(s) => named_object_id(*properties, "result"@, name@) == Some(s@),
            None => named_object_id(*properties, "result"@, name@) is None,
        },
{
    named_object_id_exec(properties, "result", name)
}

/// The object id of the internal property `name` of a `Runtime.getProperties` result.
pub fn internal_object_id(properties: &JsonValue, name: &str) -> (r: Option<String>)
    ensures
        match r {
            Some(s) => named_object_id(*properties, "internalProperties"@, name@) == Some(s@),
            None => named_object_id(*properties, "internalProperties"@, name@) is None,
        },
{
    named_object_id_exec(properties, "internalProperties", name)
}

/// The value reached from `v` by the members named in `path`, in order.
pub open spec fn json_path(v: JsonValue, path: Seq<Seq<char>>) -> Option<JsonValue>
    decreases path.len(),
{
    if path.len() == 0 {
        Some(v)
    } else {
        match json_get(v, path[0]) {
            Some(next) => json_path(next, path.drop_first()),
            None => None,
        }
    }
}

pub open spec fn key_views(path: Seq<&str>) -> Seq<Seq<char>> {
    path.map_values(|k: &str| k@)
}

/// The object id of the remote object reached by `path`.
pub open spec fn object_id_at_path(v: JsonValue, path: Seq<Seq<char>>) -> Option<Seq<char>> {
    match json_path(v, path) {
        Some(x) => object_id_of(x),
        None => None,
    }
}

/// The object id found at `path` in a CDP result.
pub fn object_id_at(value: &JsonValue, path: &[&str]) -> (r: Option<String>)
    ensures
        match r {
            Some(s) => object_id_at_path(*value, key_views(path@)) == Some(s@),
            None => object_id_at_path(*value, key_views(path@)) is None,
        },
{
    let ghost keys = key_views(path@);
    let mut current = value;
    let mut i: usize = 0;
    proof {
        assert(keys.skip(0) =~= keys);
    }
    while i < path.len()
        invariant
            i <= path.len(),
            keys == key_views(path@),
            keys.len() == path@.len(),
            json_path(*value, keys) == json_path(*current, keys.skip(i as int)),
        decreases path.len() - i,
    {
        proof {
            assert(keys.skip(i as int)[0] == path@[i as int]@);
            assert(keys.skip(i as int).drop_first() =~= keys.skip(i + 1));
        }
        match current.get(path[i]) {
            Some(next) => {
                current = next;
            },
            None => {
                return None;
            },
        }
        i = i + 1;
    }
    match current.str_member("objectId") {
        Some(id) => Some(id.clone()),
        None => None,
    }
}

/// The class candidate that a property of a closure scope gives: the object id of a value of
/// type `function`.
pub open spec fn class_candidate(item: JsonValue) -> Option<Seq<char>> {
    match json_get(item, "value"@) {
        None => None,
        Some(value) => if str_member(value, "type"@) == Some("function"@) {
            object_id_of(value)
        } else {
            None
        },
    }
}

pub open spec fn class_candidates_of(items: Seq<JsonValue>) -> Seq<Seq<char>>
    decreases items.len(),
{
    if items.len() == 0 {
        Seq::empty()
    } else {
        match class_candidate(items.last()) {
            Some(id) => class_candidates_of(items.drop_last()).push(id),
            None => class_candidates_of(items.drop_last()),
        }
    }
}

/// The list of a `Runtime.getProperties` result, or nothing where it has none.
pub open spec fn result_items(props: JsonValue) -> Seq<JsonValue> {
    match json_get(props, "result"@) {
        Some(list) => match json_items(list) {
            Some(items) => items,
            None => Seq::empty(),
        },
        None => Seq::empty(),
    }
}

fn result_items_exec(props: &JsonValue) -> (r: &[JsonValue])
    ensures
        r@ == result_items(*props),
{
    match props.get("result") {
        Some(list) => match list.as_array() {
            Some(items) => items.as_slice(),
            None => &[],
        },
        None => &[],
    }
}

/// The object ids of the functions among the properties of a closure scope, in order: the
/// candidates for the `CodexMcpConnection` class.
pub fn codex_mcp_class_candidates(properties: &JsonValue) -> (r: Vec<String>)
    ensures
        views(r@) == class_candidates_of(result_items(*properties)),
{
    let items = result_items_exec(properties);
    let mut out: Vec<String> = Vec::new();
    let mut i: usize = 0;
    while i < items.len()
        invariant
            i <= items.len(),
            views(out@) == class_candidates_of(items@.take(i as int)),
        decreases items.len() - i,
    {
        proof {
            assert(items@.take(i + 1).drop_last() =~= items@.take(i as int));
        }
        let item = &items[i];
        match item.get("value") {
            Some(value) => {
                let is_function = match value.str_member("type") {
                    Some(t) => text_is(t, "function"),
                    None => false,
                };
                if is_function {
                    match value.str_member("objectId") {
                        Some(id) => {
                            let ghost before = out@;
                            out.push(id.clone());
                            proof {
                                assert(views(out@) =~= views(before).push(id@));
                            }
                        },
                        None => {},
                    }
                }
            },
            None => {},
        }
        i = i + 1;
    }
    proof {
        assert(items@.take(items.len() as int) =~= items@);
    }
    out
}

/// The message of a CDP `exceptionDetails`: the exception's description, else its text, else
/// `<unknown>`.
pub open spec fn exception_message(exception: JsonValue) -> Seq<char> {
    let described = match json_get(exception, "exception"@) {
        Some(x) => str_member(x, "description"@),
        None => None,
    };
    match described {
        Some(d) => d,
        None => match str_member(exception, "text"@) {
            Some(t) => t,
            None => "<unknown>"@,
        },
    }
}

/// Describes a CDP `exceptionDetails`.
pub fn format_cdp_exception(exception: &JsonValue) -> (r: String)
    ensures
        r@ == exception_message(*exception),
{
    let described = match exception.get("exception") {
        Some(x) => x.str_member("description"),
        None => None,
    };
    match described {
        Some(d) => d.clone(),
        None => match exception.str_member("text") {
            Some(t) => t.clone(),
            None => String::from_str("<unknown>"),
        },
    }
}

/// The array index that the name of a property reads as, if it reads as one.
pub open spec fn property_index(item: JsonValue) -> Option<nat> {
    match str_member(item, "name"@) {
        Some(n) => parse_unsigned(n, usize::MAX as nat),
        None => None,
    }
}

/// The object id of a property whose name is an array index.
pub open spec fn indexed_id(item: JsonValue) -> Option<Seq<char>> {
    match property_index(item) {
        None => None,
        Some(_) => match json_get(item, "value"@) {
            Some(value) => object_id_of(value),
            None => None,
        },
    }
}

/// The key by which properties are sorted: their index, unreadable names last.
pub open spec fn index_key(item: JsonValue) -> (u64, u64, u64) {
    match property_index(item) {
        Some(i) => (i as u64, 0, 0),
        None => (usize::MAX as u64, 0, 0),
    }
}

pub open spec fn index_keys(items: Seq<JsonValue>) -> Seq<(u64, u64, u64)> {
    items.map_values(|x: JsonValue| index_key(x))
}

pub open spec fn indexed_ids_of(items: Seq<JsonValue>) -> Seq<Seq<char>>
    decreases items.len(),
{
    if items.len() == 0 {
        Seq::empty()
    } else {
        match indexed_id(items.last()) {
            Some(id) => indexed_ids_of(items.drop_last()).push(id),
            None => indexed_ids_of(items.drop_last()),
        }
    }
}

/// `ids` are the object ids of the array elements among the properties of `props`, ordered
/// by index (a stable sort, as `slice::sort_by_key` makes).
pub open spec fn indexed_object_ids_of(props: JsonValue, ids: Seq<Seq<char>>) -> bool {
    exists|sorted: Seq<JsonValue>|
        #[trigger] is_stable_sort_of(result_items(props), index_keys(result_items(props)), sorted)
            && ids == indexed_ids_of(sorted)
}

/// The object ids of the array elements among the properties of `props`, by index.
pub open spec fn indexed_ids(props: JsonValue) -> Seq<Seq<char>> {
    choose|ids: Seq<Seq<char>>| indexed_object_ids_of(props, ids)
}

/// Only one list of ids meets `indexed_object_ids_of`.
pub proof fn lemma_indexed_ids_unique(props: JsonValue, ids: Seq<Seq<char>>)
    requires
        indexed_object_ids_of(props, ids),
    ensures
        ids == indexed_ids(props),
{
    let other = indexed_ids(props);
    let s1 = choose|sorted: Seq<JsonValue>|
        #[trigger] is_stable_sort_of(result_items(props), index_keys(result_items(props)), sorted)
            && ids == indexed_ids_of(sorted);
    let s2 = choose|sorted: Seq<JsonValue>|
        #[trigger] is_stable_sort_of(result_items(props), index_keys(result_items(props)), sorted)
            && other == indexed_ids_of(sorted);
    crate::order::stable_sort_is_unique(
        result_items(props),
        index_keys(result_items(props)),
        s1,
        s2,
    );
}

fn property_index_exec(item: &JsonValue) -> (r: Option<u64>)
    ensures
        match r {
            Some(i) => property_index(*item) == Some(i as nat),
            None => property_index(*item) is None,
        },
{
    match item.str_member("name") {
        Some(n) => parse_unsigned_str(n.as_str(), usize::MAX as u64),
        None => None,
    }
}

fn clone_items(items: &[JsonValue]) -> (r: Vec<&JsonValue>)
    ensures
        r@.len() == items@.len(),
        forall|k: int| 0 <= k < items@.len() ==> *#[trigger] r@[k] == items@[k],
{
    let mut r: Vec<&JsonValue> = Vec::new();
    let mut i: usize = 0;
    while i < items.len()
        invariant
            i <= items.len(),
            r@.len() == i,
            forall|k: int| 0 <= k < i ==> *#[trigger] r@[k] == items@[k],
        decreases items.len() - i,
    {
        r.push(&items[i]);
        i = i + 1;
    }
    r
}

/// The object ids of the array elements among the properties of a `Runtime.getProperties`
/// result, by index.
pub fn indexed_object_ids(properties: &JsonValue) -> (r: Vec<String>)
    ensures
        indexed_object_ids_of(*properties, views(r@)),
        views(r@) == indexed_ids(*properties),
{
    let items = result_items_exec(properties);
    let mut keys: Vec<(u64, u64, u64)> = Vec::new();
    let mut i: usize = 0;
    while i < items.len()
        invariant
            i <= items.len(),
            keys.len() == i,
            forall|k: int| 0 <= k < i ==> #[trigger] keys@[k] == index_key(items@[k]),
        decreases items.len() - i,
    {
        let key = match property_index_exec(&items[i]) {
            Some(n) => n,
            None => usize::MAX as u64,
        };
        keys.push((key, 0, 0));
        i = i + 1;
    }
    let refs = clone_items(items);
    let ghost ref_seq = refs@;
    proof {
        assert(keys@ =~= index_keys(items@));
    }
    let sorted = sort_by_keys(refs, &keys);
    let ghost sorted_items = sorted@.map_values(|x: &JsonValue| *x);
    proof {
        let w = choose|w: Seq<usize>|
            crate::order::is_stable_order(keys@, w) && sorted@.len() == w.len() && forall|a: int|
                0 <= a < sorted@.len() ==> #[trigger] sorted@[a] == ref_seq[w[a] as int];
        assert(crate::order::is_stable_order(keys@, w) && sorted_items.len() == w.len()
            && forall|a: int|
            0 <= a < sorted_items.len() ==> #[trigger] sorted_items[a] == items@[w[a] as int]);
        assert(is_stable_sort_of(items@, index_keys(items@), sorted_items));
    }
    let mut out: Vec<String> = Vec::new();
    let mut i: usize = 0;
    while i < sorted.len()
        invariant
            i <= sorted.len(),
            sorted_items == sorted@.map_values(|x: &JsonValue| *x),
            views(out@) == indexed_ids_of(sorted_items.take(i as int)),
        decreases sorted.len() - i,
    {
        proof {
            assert(sorted_items.take(i + 1).drop_last() =~= sorted_items.take(i as int));
            assert(sorted_items[i as int] == *sorted@[i as int]);
        }
        let item: &JsonValue = sorted[i];
        if property_index_exec(item).is_some() {
            match item.get("value") {
                Some(value) => match value.str_member("objectId") {
                    Some(id) => {
                        let ghost before = out@;
                        out.push(id.clone());
                        proof {
                            assert(views(out@) =~= views(before).push(id@));
                        }
                    },
                    None => {},
                },
                None => {},
            }
        }
        i = i + 1;
    }
    proof {
        assert(sorted_items.take(sorted.len() as int) =~= sorted_items);
        assert(indexed_object_ids_of(*properties, views(out@)));
        lemma_indexed_ids_unique(*properties, views(out@));
    }
    out
}


/// A script evaluated in the extension host.
#[derive(Debug)]
pub enum InspectorScript {
    /// Walks the module cache and globals for the live `CodexMcpConnection`.
    CodexInstance,
    /// Finds the `activate` export of the Codex extension.
    ActivateFunction,
    /// `Array`.
    ArrayConstructor,
}

/// A function called on a remote object.
#[derive(Debug)]
pub enum InspectorFunction {
    /// Scans heap arrays for a `CodexMcpConnection`.
    FindCodexInstanceInArrays,
    /// Tells whether the object looks like a `CodexMcpConnection`.
    IsCodexMcpInstance,
}

/// What the runtime switch hands to the `CodexMcpConnection` in the extension host.
#[derive(Debug)]
pub struct HotSwitchPayload {
    pub access_token: String,
    pub chatgpt_account_id: String,
    pub chatgpt_plan_type: Option<String>,
    pub expected_email: String,
}

/// A Chrome DevTools Protocol call.
#[derive(Debug)]
pub enum CdpRequest {
    /// `Runtime.evaluate` of a script, not by value, in REPL mode.
    Evaluate(InspectorScript),
    /// `Runtime.getProperties` without previews.
    GetProperties { object_id: String, own_properties: bool },
    /// `Runtime.queryObjects`.
    QueryObjects { prototype_object_id: String },
    /// `Runtime.callFunctionOn` of a search function (by value only for the instance test).
    CallFunctionOn { object_id: String, function: InspectorFunction },
    /// `Runtime.callFunctionOn` of the account switch, by value, awaiting its promise.
    HotSwitch { object_id: String, payload: HotSwitchPayload },
}

pub enum CdpRequestView {
    Evaluate(InspectorScript),
    GetProperties { object_id: Seq<char>, own_properties: bool },
    QueryObjects { prototype_object_id: Seq<char> },
    CallFunctionOn { object_id: Seq<char>, function: InspectorFunction },
    HotSwitch {
        object_id: Seq<char>,
        access_token: Seq<char>,
        chatgpt_account_id: Seq<char>,
        chatgpt_plan_type: Option<Seq<char>>,
        expected_email: Seq<char>,
    },
}

pub open spec fn opt_str_view(v: Option<String>) -> Option<Seq<char>> {
    match v {
        Some(s) => Some(s@),
        None => None,
    }
}

impl View for CdpRequest {
    type V = CdpRequestView;

    open spec fn view(&self) -> CdpRequestView {
        match self {
            CdpRequest::Evaluate(s) => CdpRequestView::Evaluate(*s),
            CdpRequest::GetProperties { object_id, own_properties } => CdpRequestView::GetProperties {
                object_id: object_id@,
                own_properties: *own_properties,
            },
            CdpRequest::QueryObjects { prototype_object_id } => CdpRequestView::QueryObjects {
                prototype_object_id: prototype_object_id@,
            },
            CdpRequest::CallFunctionOn { object_id, function } => CdpRequestView::CallFunctionOn {
                object_id: object_id@,
                function: *function,
            },
            CdpRequest::HotSwitch { object_id, payload } => CdpRequestView::HotSwitch {
                object_id: object_id@,
                access_token: payload.access_token@,
                chatgpt_account_id: payload.chatgpt_account_id@,
                chatgpt_plan_type: opt_str_view(payload.chatgpt_plan_type),
                expected_email: payload.expected_email@,
            },
        }
    }
}

/// The CDP method of a call.
pub open spec fn method_name(req: CdpRequestView) -> Seq<char> {
    match req {
        CdpRequestView::Evaluate(_) => "Runtime.evaluate"@,
        CdpRequestView::GetProperties { .. } => "Runtime.getProperties"@,
        CdpRequestView::QueryObjects { .. } => "Runtime.queryObjects"@,
        _ => "Runtime.callFunctionOn"@,
    }
}

/// The JavaScript text of an evaluated script.
pub open spec fn script_source(script: InspectorScript) -> Seq<char> {
    match script {
        InspectorScript::CodexInstance => CODEX_INSTANCE_EXPRESSION@,
        InspectorScript::ActivateFunction => ACTIVATE_FUNCTION_EXPRESSION@,
        InspectorScript::ArrayConstructor => "Array"@,
    }
}

/// The JavaScript text of a function called on a remote object.
pub open spec fn function_source(function: InspectorFunction) -> Seq<char> {
    match function {
        InspectorFunction::FindCodexInstanceInArrays => FIND_CODEX_INSTANCE_IN_ARRAYS_FUNCTION@,
        InspectorFunction::IsCodexMcpInstance => IS_CODEX_MCP_INSTANCE_FUNCTION@,
    }
}

/// The `arguments` of the account switch: one argument whose value is the payload object.
pub open spec fn switch_arguments_are(
    args: JsonValue,
    access_token: Seq<char>,
    chatgpt_account_id: Seq<char>,
    chatgpt_plan_type: Option<Seq<char>>,
    expected_email: Seq<char>,
) -> bool {
    match args {
        JsonValue::Array(items) => {
            &&& items@.len() == 1
            &&& is_object_with_keys(items@[0], seq!["value"@])
            &&& is_object_with_keys(
                member_value(items@[0], 0),
                seq!["accessToken"@, "chatgptAccountId"@, "chatgptPlanType"@, "expectedEmail"@],
            )
            &&& json_str(member_value(member_value(items@[0], 0), 0)) == Some(access_token)
            &&& json_str(member_value(member_value(items@[0], 0), 1)) == Some(chatgpt_account_id)
            &&& match chatgpt_plan_type {
                Some(p) => json_str(member_value(member_value(items@[0], 0), 2)) == Some(p),
                None => member_value(member_value(items@[0], 0), 2) == JsonValue::Null,
            }
            &&& json_str(member_value(member_value(items@[0], 0), 3)) == Some(expected_email)
        },
        _ => false,
    }
}

/// The `params` object of a CDP call, member by member in order.
pub open spec fn params_are(params: JsonValue, req: CdpRequestView) -> bool {
    match req {
        CdpRequestView::Evaluate(script) => {
            &&& is_object_with_keys(params, seq!["expression"@, "returnByValue"@, "replMode"@])
            &&& json_str(member_value(params, 0)) == Some(script_source(script))
            &&& member_value(params, 1) == JsonValue::Bool(false)
            &&& member_value(params, 2) == JsonValue::Bool(true)
        },
        CdpRequestView::GetProperties { object_id, own_properties } => {
            &&& is_object_with_keys(
                params,
                seq!["objectId"@, "ownProperties"@, "generatePreview"@],
            )
            &&& json_str(member_value(params, 0)) == Some(object_id)
            &&& member_value(params, 1) == JsonValue::Bool(own_properties)
            &&& member_value(params, 2) == JsonValue::Bool(false)
        },
        CdpRequestView::QueryObjects { prototype_object_id } => {
            &&& is_object_with_keys(params, seq!["prototypeObjectId"@])
            &&& json_str(member_value(params, 0)) == Some(prototype_object_id)
        },
        CdpRequestView::CallFunctionOn { object_id, function } => {
            &&& is_object_with_keys(
                params,
                seq!["objectId"@, "functionDeclaration"@, "returnByValue"@],
            )
            &&& json_str(member_value(params, 0)) == Some(object_id)
            &&& json_str(member_value(params, 1)) == Some(function_source(function))
            &&& member_value(params, 2) == JsonValue::Bool(function is IsCodexMcpInstance)
        },
        CdpRequestView::HotSwitch {
            object_id,
            access_token,
            chatgpt_account_id,
            chatgpt_plan_type,
            expected_email,
        } => {
            &&& is_object_with_keys(
                params,
                seq![
                    "objectId"@,
                    "functionDeclaration"@,
                    "arguments"@,
                    "returnByValue"@,
                    "awaitPromise"@,
                ],
            )
            &&& json_str(member_value(params, 0)) == Some(object_id)
            &&& json_str(member_value(params, 1)) == Some(HOT_SWITCH_FUNCTION@)
            &&& switch_arguments_are(
                member_value(params, 2),
                access_token,
                chatgpt_account_id,
                chatgpt_plan_type,
                expected_email,
            )
            &&& member_value(params, 3) == JsonValue::Bool(true)
            &&& member_value(params, 4) == JsonValue::Bool(true)
        },
    }
}

/// The message of a CDP call: its id, its method and its `params`.
pub open spec fn call_message_is(message: JsonValue, id: u64, req: CdpRequestView) -> bool {
    &&& is_object_with_keys(message, seq!["id"@, "method"@, "params"@])
    &&& member_value(message, 0) == JsonValue::Number(JsonNumber::PosInt(id))
    &&& json_str(member_value(message, 1)) == Some(method_name(req))
    &&& params_are(member_value(message, 2), req)
}

/// The text frame that makes a CDP call: its message written as compact JSON.
pub fn cdp_call_frame(id: u64, request: &CdpRequest) -> (r: String)
    ensures
        exists|message: JsonValue|
            call_message_is(message, id, request@) && r@ == #[trigger] json_text_of(message),
{
    let message = cdp_call_message(id, request);
    json_to_text(&message)
}

fn script_text(script: &InspectorScript) -> (r: &'static str)
    ensures
        r@ == script_source(*script),
{
    match script {
        InspectorScript::CodexInstance => CODEX_INSTANCE_EXPRESSION,
        InspectorScript::ActivateFunction => ACTIVATE_FUNCTION_EXPRESSION,
        InspectorScript::ArrayConstructor => "Array",
    }
}

fn function_text(function: &InspectorFunction) -> (r: &'static str)
    ensures
        r@ == function_source(*function),
{
    match function {
        InspectorFunction::FindCodexInstanceInArrays => FIND_CODEX_INSTANCE_IN_ARRAYS_FUNCTION,
        InspectorFunction::IsCodexMcpInstance => IS_CODEX_MCP_INSTANCE_FUNCTION,
    }
}

/// The payload of the account switch as the `arguments` of its call.
fn switch_arguments(payload: &HotSwitchPayload) -> (r: JsonValue)
    ensures
        switch_arguments_are(
            r,
            payload.access_token@,
            payload.chatgpt_account_id@,
            opt_str_view(payload.chatgpt_plan_type),
            payload.expected_email@,
        ),
{
    let members = vec![
        json_member("accessToken", JsonValue::Str(payload.access_token.clone())),
        json_member("chatgptAccountId", JsonValue::Str(payload.chatgpt_account_id.clone())),
        json_member("chatgptPlanType", json_opt_string(&payload.chatgpt_plan_type)),
        json_member("expectedEmail", JsonValue::Str(payload.expected_email.clone())),
    ];
    proof {
        assert(member_keys(members@) =~= seq![
            "accessToken"@,
            "chatgptAccountId"@,
            "chatgptPlanType"@,
            "expectedEmail"@,
        ]);
    }
    let wrapper = vec![json_member("value", JsonValue::Object(members))];
    proof {
        assert(member_keys(wrapper@) =~= seq!["value"@]);
    }
    let r = JsonValue::Array(vec![JsonValue::Object(wrapper)]);
    r
}

impl CdpRequest {
    /// The CDP method of the call.
    pub fn method(&self) -> (r: &'static str)
        ensures
            r@ == method_name(self@),
    {
        match self {
            CdpRequest::Evaluate(_) => "Runtime.evaluate",
            CdpRequest::GetProperties { .. } => "Runtime.getProperties",
            CdpRequest::QueryObjects { .. } => "Runtime.queryObjects",
            CdpRequest::CallFunctionOn { .. } => "Runtime.callFunctionOn",
            CdpRequest::HotSwitch { .. } => "Runtime.callFunctionOn",
        }
    }

    /// The `params` object of the call.
    pub fn params(&self) -> (r: JsonValue)
        ensures
            params_are(r, self@),
    {
        let fields = match self {
            CdpRequest::Evaluate(script) => vec![
                json_member("expression", json_string(script_text(script))),
                json_member("returnByValue", JsonValue::Bool(false)),
                json_member("replMode", JsonValue::Bool(true)),
            ],
            CdpRequest::GetProperties { object_id, own_properties } => vec![
                json_member("objectId", JsonValue::Str(object_id.clone())),
                json_member("ownProperties", JsonValue::Bool(*own_properties)),
                json_member("generatePreview", JsonValue::Bool(false)),
            ],
            CdpRequest::QueryObjects { prototype_object_id } => vec![
                json_member("prototypeObjectId", JsonValue::Str(prototype_object_id.clone())),
            ],
            CdpRequest::CallFunctionOn { object_id, function } => {
                let by_value = match function {
                    InspectorFunction::FindCodexInstanceInArrays => false,
                    InspectorFunction::IsCodexMcpInstance => true,
                };
                vec![
                    json_member("objectId", JsonValue::Str(object_id.clone())),
                    json_member("functionDeclaration", json_string(function_text(function))),
                    json_member("returnByValue", JsonValue::Bool(by_value)),
                ]
            },
            CdpRequest::HotSwitch { object_id, payload } => vec![
                json_member("objectId", JsonValue::Str(object_id.clone())),
                json_member("functionDeclaration", json_string(HOT_SWITCH_FUNCTION)),
                json_member("arguments", switch_arguments(payload)),
                json_member("returnByValue", JsonValue::Bool(true)),
                json_member("awaitPromise", JsonValue::Bool(true)),
            ],
        };
        proof {
            assert(member_keys(fields@) =~= match self@ {
                CdpRequestView::Evaluate(_) => seq!["expression"@, "returnByValue"@, "replMode"@],
                CdpRequestView::GetProperties { .. } => seq![
                    "objectId"@,
                    "ownProperties"@,
                    "generatePreview"@,
                ],
                CdpRequestView::QueryObjects { .. } => seq!["prototypeObjectId"@],
                CdpRequestView::CallFunctionOn { .. } => seq![
                    "objectId"@,
                    "functionDeclaration"@,
                    "returnByValue"@,
                ],
                CdpRequestView::HotSwitch { .. } => seq![
                    "objectId"@,
                    "functionDeclaration"@,
                    "arguments"@,
                    "returnByValue"@,
                    "awaitPromise"@,
                ],
            });
        }
        JsonValue::Object(fields)
    }
}

/// The message that makes a CDP call: `{"id": id, "method": ..., "params": ...}`.
pub fn cdp_call_message(id: u64, request: &CdpRequest) -> (r: JsonValue)
    ensures
        call_message_is(r, id, request@),
{
    let fields = vec![
        json_member("id", JsonValue::Number(JsonNumber::PosInt(id))),
        json_member("method", json_string(request.method())),
        json_member("params", request.params()),
    ];
    proof {
        assert(member_keys(fields@) =~= seq!["id"@, "method"@, "params"@]);
    }
    JsonValue::Object(fields)
}

/// The ids of the calls made over one Inspector connection: 1, 2, 3, ...
#[derive(Debug)]
pub struct CdpSession {
    pub next_id: u64,
}

impl CdpSession {
    pub fn new() -> (r: CdpSession)
        ensures
            r.next_id == 1,
    {
        CdpSession { next_id: 1 }
    }

    /// Takes the id of the next call.
    pub fn begin_call(&mut self) -> (id: u64)
        requires
            old(self).next_id < u64::MAX,
        ensures
            id == old(self).next_id,
            final(self).next_id == old(self).next_id + 1,
    {
        let id = self.next_id;
        self.next_id = self.next_id + 1;
        id
    }
}

/// What arrived on the Inspector WebSocket while a reply was awaited.
#[derive(Debug)]
pub enum CdpMessage {
    /// A text or binary frame that holds JSON.
    Json(JsonValue),
    /// A text or binary frame that is not JSON, with the parser's complaint.
    Unparsable(String),
    /// Reading failed, with the reason.
    ReadFailed(String),
    /// A close frame.
    Closed,
    /// The stream ended.
    Ended,
    /// Any other frame (ping, pong, ...).
    Ignored,
}

/// What a message means for the call awaiting reply `id`.
#[derive(Debug)]
pub enum CdpWait {
    /// Not the reply: keep reading.
    Continue,
    /// The reply's `result` (`null` where it has none).
    Reply(JsonValue),
    /// The reply's `error`.
    RemoteError(JsonValue),
    /// The call failed, with why.
    Failed(String),
}

/// `"method=M, id=N"`, as call failures name the call.
pub open spec fn call_ref(method: Seq<char>, id: u64) -> Seq<char> {
    "method="@ + method + ", id="@ + decimal(id as nat)
}

/// What a JSON message means for the call awaiting reply `id`: one with another (or no) id is
/// skipped; one with an `error` member fails the call; one without gives its `result` (`null`
/// where absent).
pub open spec fn json_reply_wait(v: JsonValue, id: u64) -> CdpWait {
    match json_get(v, "id"@) {
        Some(x) => if crate::json::json_u64(x) != Some(id) {
            CdpWait::Continue
        } else {
            match json_get(v, "error"@) {
                Some(e) => CdpWait::RemoteError(e),
                None => match json_get(v, "result"@) {
                    Some(r) => CdpWait::Reply(r),
                    None => CdpWait::Reply(JsonValue::Null),
                },
            }
        },
        None => CdpWait::Continue,
    }
}

/// Why the call failed, for the messages that fail it.
pub open spec fn cdp_failure(message: CdpMessage, method: Seq<char>, id: u64) -> Seq<char> {
    match message {
        CdpMessage::Unparsable(e) => "Inspector 响应解析失败: "@ + call_ref(method, id) + ", error="@
            + e@,
        CdpMessage::ReadFailed(e) => "Inspector WebSocket 读取失败: "@ + call_ref(method, id)
            + ", error="@ + e@,
        CdpMessage::Closed => "Inspector WebSocket 已关闭: "@ + call_ref(method, id),
        CdpMessage::Ended => "Inspector WebSocket 已断开: "@ + call_ref(method, id),
        _ => Seq::empty(),
    }
}

fn call_ref_exec(prefix: &str, method: &str, id: u64) -> (r: String)
    ensures
        r@ == prefix@ + call_ref(method@, id),
{
    let mut s = join2(prefix, "method=");
    s.append(method);
    s.append(", id=");
    push_decimal(&mut s, id);
    s
}

/// Removes and returns the member `key` of an object.
pub fn take_member(value: JsonValue, key: &str) -> (r: Option<JsonValue>)
    ensures
        r == json_get(value, key@),
{
    let ghost gv = value;
    match value {
        JsonValue::Object(fields0) => {
            let mut fields = fields0;
            let ghost orig = fields@;
            let mut i: usize = 0;
            proof {
                assert(orig.skip(0) =~= orig);
            }
            while i < fields.len()
                invariant
                    i <= fields.len(),
                    fields@ == orig,
                    gv == value,
                    json_get(gv, key@) == crate::json::member(orig, key@),
                    crate::json::member(orig, key@) == crate::json::member(orig.skip(i as int), key@),
                decreases fields.len() - i,
            {
                proof {
                    assert(orig.skip(i as int).drop_first() =~= orig.skip(i + 1));
                    assert(orig.skip(i as int)[0] == orig[i as int]);
                }
                if text_is(&fields[i].0, key) {
                    proof {
                        assert(crate::json::member(orig.skip(i as int), key@) == Some(orig[i as int].1));
                    }
                    let (_, member_value) = fields.remove(i);
                    return Some(member_value);
                }
                i = i + 1;
            }
            None
        },
        _ => None,
    }
}

/// Reads one message for the call `method` awaiting reply `id`.
pub fn classify_cdp_message(message: CdpMessage, method: &str, id: u64) -> (r: CdpWait)
    ensures
        match message {
            CdpMessage::Json(v) => r == json_reply_wait(v, id),
            CdpMessage::Ignored => r is Continue,
            _ => r matches CdpWait::Failed(m) && m@ == cdp_failure(message, method@, id),
        },
{
    match message {
        CdpMessage::Json(v) => {
            let matches_id = match v.get("id") {
                Some(x) => match x.as_u64() {
                    Some(n) => n == id,
                    None => false,
                },
                None => false,
            };
            if !matches_id {
                return CdpWait::Continue;
            }
            if v.get("error").is_some() {
                match take_member(v, "error") {
                    Some(e) => CdpWait::RemoteError(e),
                    None => CdpWait::Continue,
                }
            } else {
                match take_member(v, "result") {
                    Some(r) => CdpWait::Reply(r),
                    None => CdpWait::Reply(JsonValue::Null),
                }
            }
        },
        CdpMessage::Unparsable(e) => {
            let s = call_ref_exec("Inspector 响应解析失败: ", method, id).concat(", error=").concat(
                e.as_str(),
            );
            CdpWait::Failed(s)
        },
        CdpMessage::ReadFailed(e) => {
            let s = call_ref_exec("Inspector WebSocket 读取失败: ", method, id).concat(
                ", error=",
            ).concat(e.as_str());
            CdpWait::Failed(s)
        },
        CdpMessage::Closed => CdpWait::Failed(call_ref_exec("Inspector WebSocket 已关闭: ", method, id)),
        CdpMessage::Ended => CdpWait::Failed(call_ref_exec("Inspector WebSocket 已断开: ", method, id)),
        CdpMessage::Ignored => CdpWait::Continue,
    }
}

/// The failure of a call whose reply holds an `error`, given that error as JSON text.
pub fn cdp_remote_error_message(method: &str, id: u64, error_text: &str) -> (r: String)
    ensures
        r@ == "Inspector 调用失败: "@ + call_ref(method@, id) + ", error="@ + error_text@,
{
    call_ref_exec("Inspector 调用失败: ", method, id).concat(", error=").concat(error_text)
}

/// Reads one text frame (a binary frame read as text) for the call `method` awaiting reply `id`:
/// JSON text as `classify_cdp_message` reads a JSON message; other text fails the call with the
/// parser's complaint.
pub fn classify_text_frame(text: &str, method: &str, id: u64) -> (r: CdpWait)
    ensures
        match json_text_parse(text@) {
            Ok(v) => r == json_reply_wait(v, id),
            Err(e) => r matches CdpWait::Failed(m) && m@ == "Inspector 响应解析失败: "@ + call_ref(
                method@,
                id,
            ) + ", error="@ + e,
        },
{
    match parse_json_text(text) {
        Ok(v) => classify_cdp_message(CdpMessage::Json(v), method, id),
        Err(e) => classify_cdp_message(CdpMessage::Unparsable(e), method, id),
    }
}

/// The failure of a call whose reply holds `error`, which it quotes as JSON text.
pub fn cdp_remote_error(method: &str, id: u64, error: &JsonValue) -> (r: String)
    ensures
        r@ == "Inspector 调用失败: "@ + call_ref(method@, id) + ", error="@ + json_text_of(*error),
{
    let text = json_to_text(error);
    cdp_remote_error_message(method, id, text.as_str())
}

/// The failure of a call whose request could not be written.
pub fn cdp_write_error_message(method: &str, id: u64, error_text: &str) -> (r: String)
    ensures
        r@ == "Inspector WebSocket 写入失败: "@ + call_ref(method@, id) + ", error="@ + error_text@,
{
    call_ref_exec("Inspector WebSocket 写入失败: ", method, id).concat(", error=").concat(error_text)
}

/// How long a call waits for its reply, in seconds.
pub const INSPECTOR_REQUEST_TIMEOUT_SECS: u64 = 8;

/// The failure of a call whose reply did not come in time.
pub fn cdp_timeout_message(method: &str, id: u64) -> (r: String)
    ensures
        r@ == "Inspector WebSocket 超时: "@ + call_ref(method@, id) + ", timeout="@ + decimal(
            INSPECTOR_REQUEST_TIMEOUT_SECS as nat,
        ) + "s"@,
{
    let mut s = call_ref_exec("Inspector WebSocket 超时: ", method, id).concat(", timeout=");
    push_decimal(&mut s, INSPECTOR_REQUEST_TIMEOUT_SECS);
    s.concat("s")
}

pub open spec fn result_view(r: Result<String, String>) -> Result<Seq<char>, Seq<char>> {
    match r {
        Ok(s) => Ok(s@),
        Err(e) => Err(e@),
    }
}

/// What `Runtime.evaluate` of an object gives, for a call labelled `label`: the object id of
/// its `result`; a failure where the call failed, threw, or gave no object.
pub open spec fn evaluate_outcome(label: Seq<char>, reply: Result<JsonValue, String>) -> Result<
    Seq<char>,
    Seq<char>,
> {
    match reply {
        Err(e) => Err("evaluate_object("@ + label + ") 失败: "@ + e@),
        Ok(v) => match json_get(v, "exceptionDetails"@) {
            Some(x) => Err("evaluate_object("@ + label + ") 异常: "@ + exception_message(x)),
            None => match object_id_at_path(v, seq!["result"@]) {
                Some(id) => Ok(id),
                None => Err("evaluate_object("@ + label + ") 未返回 objectId"@),
            },
        },
    }
}

/// Reads the reply to `Runtime.evaluate` of an object.
pub fn evaluate_object_outcome(label: &str, reply: &Result<JsonValue, String>) -> (r: Result<
    String,
    String,
>)
    ensures
        result_view(r) == evaluate_outcome(label@, *reply),
{
    let head = join2("evaluate_object(", label);
    match reply {
        Err(e) => Err(head.concat(") 失败: ").concat(e.as_str())),
        Ok(v) => {
            match v.get("exceptionDetails") {
                Some(x) => {
                    let m = format_cdp_exception(x);
                    return Err(head.concat(") 异常: ").concat(m.as_str()));
                },
                None => {},
            }
            let path: [&str; 1] = ["result"];
            let ps = path.as_slice();
            proof {
                assert(key_views(ps@) =~= seq!["result"@]);
            }
            match object_id_at(v, ps) {
                Some(id) => Ok(id),
                None => Err(head.concat(") 未返回 objectId")),
            }
        },
    }
}

/// The failure of `Runtime.getProperties` for a call labelled `label`.
pub open spec fn properties_failure(label: Seq<char>, e: Seq<char>) -> Seq<char> {
    "get_properties("@ + label + ") 失败: "@ + e
}

pub fn properties_failure_message(label: &str, e: &str) -> (r: String)
    ensures
        r@ == properties_failure(label@, e@),
{
    join2("get_properties(", label).concat(") 失败: ").concat(e)
}

} // verus!
