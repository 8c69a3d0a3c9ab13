//! The WebDriver BiDi side of the launcher: the requests it sends to a
//! Firefox browser and what it reads from the replies.
use vstd::prelude::*;
use crate::json::{
    answers, answers_exec, array_member, as_array, as_str, as_str_spec, empty_object, get,
    index_spec, is_empty_object, is_request, parse_json, request, request_params,
    serde_json_parse, serde_json_text, str_member, str_member_of, JsonValue,
};
use crate::cdp::{local_address, local_address_spec};
use crate::text::{join_text, decimal, decimal_spec};

verus! {

/// A browsing context (a tab or a frame) of a Firefox browser.
pub struct Target {
    pub id: String,
    pub url: String,
}

/// The host and port of the debugging endpoint on `port`.
pub open spec fn host_spec(port: u16) -> Seq<char> {
    "127.0.0.1:"@ + decimal_spec(port as nat)
}

/// The address that describes the debugging endpoint on `port`.
pub open spec fn version_url_spec(port: u16) -> Seq<char> {
    "http://"@ + host_spec(port) + "/json/version"@
}

/// The identifier and address of a browsing context.
pub open spec fn context_entry(ctx: JsonValue) -> (Seq<char>, Seq<char>) {
    (str_member(ctx, "context"@), str_member(ctx, "url"@))
}

/// A context followed by its children.
pub open spec fn context_entries(ctx: JsonValue) -> Seq<(Seq<char>, Seq<char>)> {
    seq![context_entry(ctx)] + array_member(ctx, "children"@).map_values(
        |c: JsonValue| context_entry(c),
    )
}

/// Every context of `contexts`, each followed by its children.
pub open spec fn tree_entries(contexts: Seq<JsonValue>) -> Seq<(Seq<char>, Seq<char>)>
    decreases contexts.len(),
{
    if contexts.len() == 0 {
        Seq::<(Seq<char>, Seq<char>)>::empty()
    } else {
        tree_entries(contexts.drop_last()) + context_entries(contexts.last())
    }
}

/// The top-level contexts of a reply to `browsingContext.getTree`.
pub open spec fn reply_contexts(reply: JsonValue) -> Seq<JsonValue> {
    array_member(index_spec(reply, "result"@), "contexts"@)
}

/// The identifiers and addresses of targets.
pub open spec fn target_entries(ts: Seq<Target>) -> Seq<(Seq<char>, Seq<char>)> {
    ts.map_values(|t: Target| (t.id@, t.url@))
}

/// `v` is the parameters of `script.evaluate` that run `js` in the context
/// `context_id` without waiting for a promise.
pub open spec fn is_evaluate_params(v: JsonValue, context_id: Seq<char>, js: Seq<char>) -> bool {
    match v {
        JsonValue::Object(m) => {
            &&& m@.len() == 3
            &&& m@[0].0@ == "expression"@
            &&& as_str_spec(m@[0].1) == Some(js)
            &&& m@[1].0@ == "target"@
            &&& match m@[1].1 {
                JsonValue::Object(t) => {
                    &&& t@.len() == 1
                    &&& t@[0].0@ == "context"@
                    &&& as_str_spec(t@[0].1) == Some(context_id)
                },
                _ => false,
            }
            &&& m@[2].0@ == "awaitPromise"@
            &&& m@[2].1 == JsonValue::Bool(false)
        },
        _ => false,
    }
}

/// The number of children of the contexts `contexts`, all together.
pub open spec fn children_total(contexts: Seq<JsonValue>) -> nat
    decreases contexts.len(),
{
    if contexts.len() == 0 {
        0
    } else {
        children_total(contexts.drop_last()) + array_member(contexts.last(), "children"@).len()
    }
}

/// Where the context at `i` is listed: after every earlier context and all
/// of their children.
pub open spec fn context_position(contexts: Seq<JsonValue>, i: int) -> int {
    i + children_total(contexts.take(i)) as int
}

/// Every context and every child of it is listed, nothing else: each
/// top-level context at its position, immediately followed by each of its
/// children in order, and as many entries as contexts and children together.
pub proof fn lemma_tree_lists_every_child(contexts: Seq<JsonValue>)
    ensures
        tree_entries(contexts).len() == contexts.len() + children_total(contexts),
        forall|i: int|
            0 <= i < contexts.len() ==> tree_entries(contexts)[#[trigger] context_position(
                contexts,
                i,
            )] == context_entry(contexts[i]),
        forall|i: int, k: int|
            0 <= i < contexts.len() && 0 <= k < array_member(contexts[i], "children"@).len()
                ==> tree_entries(contexts)[context_position(contexts, i) + 1 + k] == context_entry(
                #[trigger] array_member(contexts[i], "children"@)[k],
            ),
    decreases contexts.len(),
{
    if contexts.len() > 0 {
        let q = contexts.drop_last();
        lemma_tree_lists_every_child(q);
        let last = contexts.last();
        let kids = array_member(last, "children"@);
        let head = tree_entries(q);
        let tail = context_entries(last);
        assert(tree_entries(contexts) == head + tail);
        assert(tail.len() == 1 + kids.len());
        assert(contexts.take(contexts.len() - 1) =~= q);
        assert forall|i: int| 0 <= i < contexts.len() implies tree_entries(contexts)[
            #[trigger] context_position(contexts, i)] == context_entry(contexts[i]) by {
            if i < q.len() {
                assert(contexts.take(i) =~= q.take(i));
                assert(context_position(contexts, i) == context_position(q, i));
                assert(contexts[i] == q[i]);
                lemma_position_bound(q, i);
            } else {
                assert(context_position(contexts, i) == head.len());
            }
        }
        assert forall|i: int, k: int|
            0 <= i < contexts.len() && 0 <= k < array_member(contexts[i], "children"@).len()
                implies tree_entries(contexts)[context_position(contexts, i) + 1 + k]
            == context_entry(#[trigger] array_member(contexts[i], "children"@)[k]) by {
            if i < q.len() {
                assert(contexts.take(i) =~= q.take(i));
                assert(context_position(contexts, i) == context_position(q, i));
                assert(contexts[i] == q[i]);
                assert(context_position(q, i) + 1 + k < head.len()) by {
                    lemma_position_bound(q, i);
                }
            } else {
                assert(context_position(contexts, i) == head.len());
                assert(tail[1 + k] == context_entry(kids[k]));
            }
        }
    }
}

/// A context and its children end before the entries of later contexts.
proof fn lemma_position_bound(contexts: Seq<JsonValue>, i: int)
    requires
        0 <= i < contexts.len(),
    ensures
        context_position(contexts, i) + 1 + array_member(contexts[i], "children"@).len() <= contexts.len()
            + children_total(contexts),
    decreases contexts.len(),
{
    let q = contexts.drop_last();
    if i < q.len() {
        lemma_position_bound(q, i);
        assert(contexts.take(i) =~= q.take(i));
        assert(contexts[i] == q[i]);
    } else {
        assert(contexts.take(i) =~= q);
    }
}

/// The host and port of the debugging endpoint on `port`.
pub fn host(port: u16) -> (res: String)
    ensures
        res@ == host_spec(port),
{
    let p = decimal(port as u64);
    join_text("127.0.0.1:", p.as_str())
}

/// The address that describes the debugging endpoint on `port`.
pub fn version_url(port: u16) -> (res: String)
    ensures
        res@ == version_url_spec(port),
{
    let h = host(port);
    let a = join_text("http://", h.as_str());
    join_text(a.as_str(), "/json/version")
}

/// The debugging socket named by the endpoint description `body`, with
/// `localhost` written as `127.0.0.1`; the parse error, or a message when the
/// description names no socket.
pub fn socket_from_version(body: &str) -> (res: Result<String, String>)
    ensures
        match serde_json_parse(body@) {
            Err(e) => res matches Err(m) && m@ == e,
            Ok(v) => match crate::json::as_str_spec(index_spec(v, "webSocketDebuggerUrl"@)) {
                Some(u) => res matches Ok(s) && s@ == local_address_spec(u),
                None => res matches Err(m) && m@ == "webSocketDebuggerUrl ausente"@,
            },
        },
{
    let v = match parse_json(body) {
        Ok(v) => v,
        Err(e) => {
            return Err(e);
        },
    };
    let url = match get(&v, "webSocketDebuggerUrl") {
        Some(x) => as_str(x),
        None => None,
    };
    match url {
        Some(u) => Ok(local_address(u.as_str())),
        None => Err(String::from_str("webSocketDebuggerUrl ausente")),
    }
}

/// The request that lists the browsing contexts.
pub fn tree_request() -> (res: JsonValue)
    ensures
        is_request(res, "browsingContext.getTree"@),
        is_empty_object(request_params(res)),
{
    request("browsingContext.getTree", empty_object())
}

/// The text of the request that lists the browsing contexts.
pub fn tree_request_text() -> (res: String)
    ensures
        exists|r: JsonValue|
            is_request(r, "browsingContext.getTree"@) && is_empty_object(request_params(r))
                && res@ == serde_json_text(r),
{
    let r = tree_request();
    crate::json::request_text(&r)
}

/// The request that runs `js` in the context `context_id`.
pub fn evaluate_request(context_id: &str, js: &str) -> (res: JsonValue)
    ensures
        is_request(res, "script.evaluate"@),
        is_evaluate_params(request_params(res), context_id@, js@),
{
    let mut t: Vec<(String, JsonValue)> = Vec::new();
    t.push((String::from_str("context"), JsonValue::Str(String::from_str(context_id))));
    let mut m: Vec<(String, JsonValue)> = Vec::new();
    m.push((String::from_str("expression"), JsonValue::Str(String::from_str(js))));
    m.push((String::from_str("target"), JsonValue::Object(t)));
    m.push((String::from_str("awaitPromise"), JsonValue::Bool(false)));
    request("script.evaluate", JsonValue::Object(m))
}

/// The text of the request that runs `js` in the context `context_id`.
pub fn evaluate_request_text(context_id: &str, js: &str) -> (res: String)
    ensures
        exists|r: JsonValue|
            is_request(r, "script.evaluate"@) && is_evaluate_params(
                request_params(r),
                context_id@,
                js@,
            ) && res@ == serde_json_text(r),
{
    let r = evaluate_request(context_id, js);
    crate::json::request_text(&r)
}

/// The browsing contexts listed by `reply`, each top-level context followed
/// by its children, when it answers the request with the number 1.
pub fn tree_targets(reply: &JsonValue) -> (res: Option<Vec<Target>>)
    ensures
        res is Some <==> answers(*reply, 1),
        res matches Some(ts) ==> target_entries(ts@) == tree_entries(reply_contexts(*reply)),
{
    if !answers_exec(reply, 1) {
        return None;
    }
    let mut targets: Vec<Target> = Vec::new();
    let ghost cs = reply_contexts(*reply);
    let list = match get(reply, "result") {
        Some(r) => match get(r, "contexts") {
            Some(c) => as_array(c),
            None => None,
        },
        None => None,
    };
    if let Some(contexts) = list {
        proof {
            assert(contexts@ == cs);
            assert(cs.take(0) =~= Seq::<JsonValue>::empty());
        }
        let mut i: usize = 0;
        while i < contexts.len()
            invariant
                i <= contexts@.len(),
                contexts@ == cs,
                target_entries(targets@) == tree_entries(cs.take(i as int)),
            decreases contexts@.len() - i,
        {
            let ctx = &contexts[i];
            let ghost before = target_entries(targets@);
            let id = str_member_of(ctx, "context");
            let url = str_member_of(ctx, "url");
            targets.push(Target { id, url });
            let ghost kids = array_member(*ctx, "children"@);
            let children = match get(ctx, "children") {
                Some(c) => as_array(c),
                None => None,
            };
            let ghost head = target_entries(targets@);
            proof {
                assert(head =~= before.push(context_entry(*ctx)));
            }
            if let Some(kids_vec) = children {
                let mut k: usize = 0;
                while k < kids_vec.len()
                    invariant
                        k <= kids_vec@.len(),
                        kids_vec@ == kids,
                        target_entries(targets@) == head + kids.take(k as int).map_values(
                            |c: JsonValue| context_entry(c),
                        ),
                    decreases kids_vec@.len() - k,
                {
                    let child = &kids_vec[k];
                    let cid = str_member_of(child, "context");
                    let curl = str_member_of(child, "url");
                    let ghost prev = target_entries(targets@);
                    targets.push(Target { id: cid, url: curl });
                    proof {
                        assert(kids.take(k + 1).map_values(|c: JsonValue| context_entry(c))
                            =~= kids.take(k as int).map_values(|c: JsonValue| context_entry(c)).push(
                            context_entry(kids[k as int]),
                        ));
                        assert(target_entries(targets@) =~= prev.push(context_entry(*child)));
                    }
                    k += 1;
                }
                proof {
                    assert(kids.take(kids.len() as int) =~= kids);
                }
            } else {
                proof {
                    assert(kids =~= Seq::<JsonValue>::empty());
                }
            }
            proof {
                assert(cs.take(i + 1).drop_last() =~= cs.take(i as int));
                assert(cs.take(i + 1).last() == *ctx);
                assert(seq![context_entry(*ctx)] + kids.map_values(|c: JsonValue| context_entry(c))
                    == context_entries(*ctx));
                assert(target_entries(targets@) =~= tree_entries(cs.take(i as int))
                    + context_entries(*ctx));
            }
            i += 1;
        }
        proof {
            assert(cs.take(cs.len() as int) =~= cs);
        }
    } else {
        proof {
            assert(cs =~= Seq::<JsonValue>::empty());
            assert(target_entries(targets@) =~= Seq::<(Seq<char>, Seq<char>)>::empty());
        }
    }
    Some(targets)
}

/// The browsing contexts listed by the message `text`, when it is a reply to
/// the request with the number 1; none when it is not, or is no JSON.
pub fn tree_from_message(text: &str) -> (res: Option<Vec<Target>>)
    ensures
        res is Some <==> (serde_json_parse(text@) matches Ok(v) && answers(v, 1)),
        res matches Some(ts) ==> (serde_json_parse(text@) matches Ok(v) && target_entries(ts@)
            == tree_entries(reply_contexts(v))),
{
    match parse_json(text) {
        Ok(v) => tree_targets(&v),
        Err(_) => None,
    }
}

} // verus!
