//! The request/response mapping of the chat-completion wire protocol:
//! the exact JSON body sent for a model and history, and the extraction
//! of the choices' message contents from a response body.

use vstd::prelude::*;

use crate::json::Json;
use crate::json::JsonV;
use crate::json::ser;
use crate::json::view_json;
use crate::json::view_jsons;
use crate::json::view_json_fields;
use crate::json::lemma_view_jsons;
use crate::json::lemma_view_json_fields;
use crate::message::Message;
use crate::message::MsgView;
use crate::message::Role;
use crate::message::msg_views;
use crate::parse::parse_json;
use crate::parse::parse_document;
use crate::text::str_eq;

verus! {

/// The wire name of a role.
pub open spec fn role_text(r: Role) -> Seq<char> {
    match r {
        Role::System => "system"@,
        Role::User => "user"@,
        Role::Assistant => "assistant"@,
    }
}

/// The JSON object sent for one message.
pub open spec fn message_jsonv(m: MsgView) -> JsonV {
    JsonV::Obj(
        seq![("role"@, JsonV::Str(role_text(m.role))), ("content"@, JsonV::Str(m.content))],
    )
}

/// The JSON objects sent for a history.
pub open spec fn messages_jsonv(h: Seq<MsgView>) -> Seq<JsonV> {
    Seq::new(h.len(), |k: int| message_jsonv(h[k]))
}

/// The JSON object sent for one exchange: the model, the whole history,
/// and the fixed temperature and output-token budget.
pub open spec fn request_jsonv(model: Seq<char>, h: Seq<MsgView>) -> JsonV {
    JsonV::Obj(
        seq![
            ("model"@, JsonV::Str(model)),
            ("messages"@, JsonV::Arr(messages_jsonv(h))),
            ("temperature"@, JsonV::Num("0.7"@)),
            ("max_tokens"@, JsonV::Num("2048"@)),
        ],
    )
}

/// The exact request body sent for a model and history.
pub open spec fn request_body(model: Seq<char>, h: Seq<MsgView>) -> Seq<char> {
    ser(request_jsonv(model, h))
}

fn role_text_x(r: Role) -> (t: &'static str)
    ensures
        t@ == role_text(r),
{
    match r {
        Role::System => "system",
        Role::User => "user",
        Role::Assistant => "assistant",
    }
}

fn message_json(m: &Message) -> (j: Json)
    ensures
        view_json(j) == message_jsonv(m@),
{
    let mut fields: Vec<(String, Json)> = Vec::new();
    fields.push((String::from_str("role"), Json::Str(String::from_str(role_text_x(m.role)))));
    fields.push((String::from_str("content"), Json::Str(m.content.clone())));
    proof {
        lemma_view_json_fields(fields@);
        assert(view_json_fields(fields@) =~= seq![
            ("role"@, JsonV::Str(role_text(m@.role))),
            ("content"@, JsonV::Str(m@.content)),
        ]);
    }
    Json::Obj(fields)
}

/// Builds the request body for the given model and history.
pub fn build_request(model: &String, history: &Vec<Message>) -> (r: String)
    ensures
        r@ == request_body(model@, msg_views(history@)),
{
    let mut items: Vec<Json> = Vec::new();
    let mut idx: usize = 0;
    while idx < history.len()
        invariant
            idx <= history@.len(),
            items@.len() == idx,
            forall|k: int| 0 <= k < idx ==> view_json(items@[k]) == message_jsonv(history@[k]@),
        decreases history@.len() - idx,
    {
        let jm = message_json(&history[idx]);
        items.push(jm);
        idx = idx + 1;
    }
    proof {
        lemma_view_jsons(items@);
        assert(view_jsons(items@) =~= messages_jsonv(msg_views(history@)));
    }
    let ghost items_v = items@;
    let mut fields: Vec<(String, Json)> = Vec::new();
    fields.push((String::from_str("model"), Json::Str(model.clone())));
    fields.push((String::from_str("messages"), Json::Arr(items)));
    fields.push((String::from_str("temperature"), Json::Num(String::from_str("0.7"))));
    fields.push((String::from_str("max_tokens"), Json::Num(String::from_str("2048"))));
    let req = Json::Obj(fields);
    proof {
        lemma_view_json_fields(fields@);
        assert(view_json_fields(fields@) =~= seq![
            ("model"@, JsonV::Str(model@)),
            ("messages"@, JsonV::Arr(messages_jsonv(msg_views(history@)))),
            ("temperature"@, JsonV::Num("0.7"@)),
            ("max_tokens"@, JsonV::Num("2048"@)),
        ]);
    }
    req.to_json_string()
}

/// The value of the first field with the given key, if any.
pub open spec fn lookup(fields: Seq<(Seq<char>, JsonV)>, key: Seq<char>) -> Option<JsonV>
    decreases fields.len(),
{
    if fields.len() == 0 {
        None
    } else if fields[0].0 == key {
        Some(fields[0].1)
    } else {
        lookup(fields.drop_first(), key)
    }
}

/// The message content of one choice, if the choice has the expected
/// shape: an object whose `message` field is an object whose `content`
/// field is a string.
pub open spec fn choice_content(c: JsonV) -> Option<Seq<char>> {
    match c {
        JsonV::Obj(fs) => match lookup(fs, "message"@) {
            Some(m) => match m {
                JsonV::Obj(ms) => match lookup(ms, "content"@) {
                    Some(t) => match t {
                        JsonV::Str(text) => Some(text),
                        _ => None,
                    },
                    None => None,
                },
                _ => None,
            },
            None => None,
        },
        _ => None,
    }
}

/// Whether every choice has the expected shape.
pub open spec fn all_choices_ok(cs: Seq<JsonV>) -> bool {
    forall|k: int| 0 <= k < cs.len() ==> choice_content(cs[k]) is Some
}

/// The message contents of all choices, in order; `None` if any choice
/// has the wrong shape.
pub open spec fn choices_contents(cs: Seq<JsonV>) -> Option<Seq<Seq<char>>> {
    if all_choices_ok(cs) {
        Some(Seq::new(cs.len(), |k: int| choice_content(cs[k]).unwrap()))
    } else {
        None
    }
}

/// What a response body decodes to: the contents of its choices, or
/// `None` if the body is not a JSON object with a `choices` array of the
/// expected shape.
pub open spec fn response_contents(body: Seq<char>) -> Option<Seq<Seq<char>>> {
    match parse_json(body) {
        Some(j) => match j {
            JsonV::Obj(fs) => match lookup(fs, "choices"@) {
                Some(c) => match c {
                    JsonV::Arr(cs) => choices_contents(cs),
                    _ => None,
                },
                None => None,
            },
            _ => None,
        },
        None => None,
    }
}

/// The models of a sequence of strings.
pub open spec fn str_views(v: Seq<String>) -> Seq<Seq<char>> {
    Seq::new(v.len(), |k: int| v[k]@)
}

fn lookup_x<'a>(fields: &'a Vec<(String, Json)>, key: &str) -> (r: Option<&'a Json>)
    ensures
        (match r {
            Some(j) => lookup(view_json_fields(fields@), key@) == Some(view_json(*j)),
            None => lookup(view_json_fields(fields@), key@) is None,
        }),
{
    proof {
        lemma_view_json_fields(fields@);
    }
    let ghost fv = view_json_fields(fields@);
    proof {
        assert(fv.subrange(0, fv.len() as int) =~= fv);
    }
    let mut idx: usize = 0;
    while idx < fields.len()
        invariant
            idx <= fields@.len(),
            fv == view_json_fields(fields@),
            fv.len() == fields@.len(),
            forall|k: int|
                0 <= k < fields@.len() ==> fv[k] == (fields@[k].0@, view_json(fields@[k].1)),
            lookup(fv, key@) == lookup(fv.subrange(idx as int, fv.len() as int), key@),
        decreases fields@.len() - idx,
    {
        let ghost tail = fv.subrange(idx as int, fv.len() as int);
        if str_eq(fields[idx].0.as_str(), key) {
            proof {
                assert(tail[0] == fv[idx as int]);
                assert(lookup(tail, key@) == Some(view_json(fields@[idx as int].1)));
            }
            return Some(&fields[idx].1);
        }
        proof {
            assert(tail[0] == fv[idx as int]);
            assert(tail.drop_first() =~= fv.subrange(idx + 1 as int, fv.len() as int));
            assert(lookup(tail, key@) == lookup(
                fv.subrange(idx + 1 as int, fv.len() as int),
                key@,
            ));
        }
        idx = idx + 1;
    }
    proof {
        assert(fv.subrange(idx as int, fv.len() as int).len() == 0);
    }
    None
}

fn choice_content_x(c: &Json) -> (r: Option<String>)
    ensures
        (match r {
            Some(t) => choice_content(view_json(*c)) == Some(t@),
            None => choice_content(view_json(*c)) is None,
        }),
{
    match c {
        Json::Obj(fs) => match lookup_x(fs, "message") {
            Some(m) => match m {
                Json::Obj(ms) => match lookup_x(ms, "content") {
                    Some(t) => match t {
                        Json::Str(text) => Some(text.clone()),
                        _ => None,
                    },
                    None => None,
                },
                _ => None,
            },
            None => None,
        },
        _ => None,
    }
}

/// Decodes a response body as by [`response_contents`].
#[verifier::loop_isolation(false)]
pub fn decode_response(body: &str) -> (r: Option<Vec<String>>)
    ensures
        (match r {
            Some(v) => response_contents(body@) == Some(str_views(v@)),
            None => response_contents(body@) is None,
        }),
{
    let doc = match parse_document(body) {
        Some(d) => d,
        None => {
            return None;
        },
    };
    match &doc {
        Json::Obj(fs) => match lookup_x(fs, "choices") {
            Some(c) => match c {
                Json::Arr(cs) => {
                    proof {
                        lemma_view_jsons(cs@);
                    }
                    let ghost csv = view_jsons(cs@);
                    let mut out: Vec<String> = Vec::new();
                    let mut idx: usize = 0;
                    while idx < cs.len()
                        invariant
                            idx <= cs@.len(),
                            out@.len() == idx,
                            csv == view_jsons(cs@),
                            csv.len() == cs@.len(),
                            forall|k: int| 0 <= k < cs@.len() ==> csv[k] == view_json(cs@[k]),
                            forall|k: int|
                                0 <= k < idx ==> choice_content(csv[k]) == Some(out@[k]@),
                        decreases cs@.len() - idx,
                    {
                        match choice_content_x(&cs[idx]) {
                            Some(t) => {
                                out.push(t);
                            },
                            None => {
                                proof {
                                    assert(choice_content(csv[idx as int]) is None);
                                    assert(!all_choices_ok(csv));
                                    assert(choices_contents(csv) is None);
                                    assert(view_json(doc) == JsonV::Obj(view_json_fields(fs@)));
                                    assert(view_json(*c) == JsonV::Arr(view_jsons(cs@)));
                                    assert(response_contents(body@) is None);
                                }
                                return None;
                            },
                        }
                        idx = idx + 1;
                    }
                    proof {
                        assert(all_choices_ok(csv));
                        assert(Seq::new(csv.len(), |k: int| choice_content(csv[k]).unwrap())
                            =~= str_views(out@));
                    }
                    Some(out)
                },
                _ => None,
            },
            None => None,
        },
        _ => None,
    }
}

} // verus!
