//! The Chrome DevTools Protocol side of the launcher: the requests it sends
//! to a Chromium browser and what it reads from the replies.
use vstd::prelude::*;
use crate::json::{
    answers, answers_exec, array_member, as_array, as_str_spec, empty_object, get, index_spec,
    is_empty_object, is_request, parse_json, request, request_params, serde_json_parse,
    serde_json_text, str_member, str_member_of, JsonValue,
};
use crate::text::{before_first, join_text, decimal, decimal_spec, first_piece, replace, replace_spec};

verus! {

/// A page, worker or other target of a Chromium browser.
pub struct Target {
    pub id: String,
    pub title: String,
    pub target_type: String,
    pub url: String,
    pub web_socket_debugger_url: Option<String>,
}

/// The address of the debugging socket of the page `id` on `port`.
pub open spec fn page_socket_spec(port: u16, id: Seq<char>) -> Seq<char> {
    "ws://127.0.0.1:"@ + decimal_spec(port as nat) + "/devtools/page/"@ + id
}

/// The host and port of a socket address: the scheme removed and everything
/// from the first `/` dropped.
pub open spec fn host_port_spec(ws_url: Seq<char>) -> Seq<char> {
    let no_ws = replace_spec(ws_url, "ws://"@, Seq::<char>::empty());
    let no_wss = replace_spec(no_ws, "wss://"@, Seq::<char>::empty());
    before_first(no_wss, '/')
}

/// `url` with `localhost` written as `127.0.0.1`.
pub open spec fn local_address_spec(url: Seq<char>) -> Seq<char> {
    replace_spec(url, "localhost"@, "127.0.0.1"@)
}

/// `v` is `{"expression": js}`.
pub open spec fn is_expression_params(v: JsonValue, js: Seq<char>) -> bool {
    match v {
        JsonValue::Object(m) => {
            &&& m@.len() == 1
            &&& m@[0].0@ == "expression"@
            &&& as_str_spec(m@[0].1) == Some(js)
        },
        _ => false,
    }
}

/// The target descriptions of a reply to `Target.getTargets`.
pub open spec fn target_infos(reply: JsonValue) -> Seq<JsonValue> {
    array_member(index_spec(reply, "result"@), "targetInfos"@)
}

/// `t` is the target that `info` describes, reachable through `port`.
pub open spec fn describes(t: Target, info: JsonValue, port: u16) -> bool {
    &&& t.id@ == str_member(info, "targetId"@)
    &&& t.title@ == str_member(info, "title"@)
    &&& t.target_type@ == str_member(info, "type"@)
    &&& t.url@ == str_member(info, "url"@)
    &&& t.web_socket_debugger_url matches Some(w) && w@ == page_socket_spec(port, t.id@)
}

/// The targets that a reply lists, in order.
pub open spec fn lists_targets(ts: Seq<Target>, reply: JsonValue, port: u16) -> bool {
    &&& ts.len() == target_infos(reply).len()
    &&& forall|i: int| 0 <= i < ts.len() ==> describes(#[trigger] ts[i], target_infos(reply)[i], port)
}

/// The message for a browser whose socket address was never captured; none
/// when there is an address.
pub fn missing_socket_error(browser_ws_url: &str) -> (res: Option<String>)
    ensures
        res is Some <==> browser_ws_url@.len() == 0,
        res matches Some(m) ==> m@ == "URL do WebSocket não capturada no lançamento"@,
{
    if browser_ws_url.is_empty() {
        Some(String::from_str("URL do WebSocket não capturada no lançamento"))
    } else {
        None
    }
}

/// The host and port to name in the `Host` header for a socket address.
pub fn host_port(ws_url: &str) -> (res: String)
    ensures
        res@ == host_port_spec(ws_url@),
{
    proof {
        reveal_strlit("ws://");
        reveal_strlit("wss://");
        reveal_strlit("");
        assert(""@ =~= Seq::<char>::empty());
    }
    let a = replace(ws_url, "ws://", "");
    let b = replace(a.as_str(), "wss://", "");
    first_piece(b.as_str(), '/')
}

/// `url` with `localhost` written as `127.0.0.1`.
pub fn local_address(url: &str) -> (res: String)
    ensures
        res@ == local_address_spec(url@),
{
    proof {
        reveal_strlit("localhost");
    }
    replace(url, "localhost", "127.0.0.1")
}

/// The address of the debugging socket of the page `id` on `port`.
pub fn page_socket(port: u16, id: &str) -> (res: String)
    ensures
        res@ == page_socket_spec(port, id@),
{
    let p = decimal(port as u64);
    let a = join_text("ws://127.0.0.1:", p.as_str());
    let b = join_text(a.as_str(), "/devtools/page/");
    join_text(b.as_str(), id)
}

/// The request that lists the targets of the browser.
pub fn targets_request() -> (res: JsonValue)
    ensures
        is_request(res, "Target.getTargets"@),
        is_empty_object(request_params(res)),
{
    request("Target.getTargets", empty_object())
}

/// The text of the request that lists the targets of the browser.
pub fn targets_request_text() -> (res: String)
    ensures
        exists|r: JsonValue|
            is_request(r, "Target.getTargets"@) && is_empty_object(request_params(r)) && res@
                == serde_json_text(r),
{
    let r = targets_request();
    crate::json::request_text(&r)
}

/// The request that runs `method` with `params` in a page.
pub fn command_request(method: &str, params: JsonValue) -> (res: JsonValue)
    ensures
        is_request(res, method@),
        request_params(res) == params,
{
    request(method, params)
}

/// The text of the request that runs `method` with `params` in a page.
pub fn command_request_text(method: &str, params: JsonValue) -> (res: String)
    ensures
        exists|r: JsonValue|
            is_request(r, method@) && request_params(r) == params && res@ == serde_json_text(r),
{
    let r = command_request(method, params);
    crate::json::request_text(&r)
}

/// The parameters of `Runtime.evaluate` for the script `js`:
/// `{"expression": js}`.
pub fn expression_params(js: &str) -> (res: JsonValue)
    ensures
        is_expression_params(res, js@),
{
    let mut m: Vec<(String, JsonValue)> = Vec::new();
    m.push((String::from_str("expression"), JsonValue::Str(String::from_str(js))));
    JsonValue::Object(m)
}

/// The targets listed by `reply`, when it answers the request with the
/// number 1; a missing or malformed list counts as empty and missing fields
/// as empty text.
pub fn targets_of_reply(reply: &JsonValue, port: u16) -> (res: Option<Vec<Target>>)
    ensures
        res is Some <==> answers(*reply, 1),
        res matches Some(ts) ==> lists_targets(ts@, *reply, port),
{
    if !answers_exec(reply, 1) {
        return None;
    }
    let mut targets: Vec<Target> = Vec::new();
    let ghost infos = target_infos(*reply);
    let list = match get(reply, "result") {
        Some(r) => match get(r, "targetInfos") {
            Some(t) => as_array(t),
            None => None,
        },
        None => None,
    };
    if let Some(items) = list {
        proof {
            assert(items@ == infos);
        }
        let mut i: usize = 0;
        while i < items.len()
            invariant
                i <= items@.len(),
                items@ == infos,
                infos == target_infos(*reply),
                targets@.len() == i,
                forall|j: int| 0 <= j < i ==> describes(#[trigger] targets@[j], infos[j], port),
            decreases items@.len() - i,
        {
            let info = &items[i];
            let id = str_member_of(info, "targetId");
            let target_type = str_member_of(info, "type");
            let url = str_member_of(info, "url");
            let title = str_member_of(info, "title");
            let ws = page_socket(port, id.as_str());
            targets.push(
                Target { id, title, target_type, url, web_socket_debugger_url: Some(ws) },
            );
            i += 1;
        }
    } else {
        proof {
            assert(infos =~= Seq::<JsonValue>::empty());
        }
    }
    Some(targets)
}

/// The targets listed by the message `text`, when it is a reply to the
/// request with the number 1; none when it is not, or is no JSON.
pub fn targets_from_message(text: &str, port: u16) -> (res: Option<Vec<Target>>)
    ensures
        res is Some <==> (serde_json_parse(text@) matches Ok(v) && answers(v, 1)),
        res matches Some(ts) ==> (serde_json_parse(text@) matches Ok(v) && lists_targets(
            ts@,
            v,
            port,
        )),
{
    match parse_json(text) {
        Ok(v) => targets_of_reply(&v, port),
        Err(_) => None,
    }
}

} // verus!
