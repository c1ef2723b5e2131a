//! The wire codec: an envelope travels as its JSON document followed by the
//! four characters `\r\n\r\n`.
use vstd::prelude::*;
use crate::envelope::{ClientToServer, RequestModel, ResponseModel, ServerToClient, strings_view};
use crate::json::{
    FieldModel, JsonField, JsonObject, JsonScalar, ObjectModel, ScalarModel, canonical, field_canonical,
    has_no_line_break, json_text,
    key_lt, parse_object, render_object,
};

verus! {

/// Why a received text is not an envelope.
#[derive(Debug, Clone, Copy, PartialEq, Eq, Structural)]
pub enum ParseError {
    /// The text is not a JSON object.
    Syntax,
    /// A required field is missing or holds a value of the wrong type.
    Shape,
}

pub open spec fn sentinel() -> Seq<char> {
    seq!['\r', '\n', '\r', '\n']
}

pub open spec fn framed(t: Seq<char>) -> Seq<char> {
    t + sentinel()
}

pub open spec fn ends_with_sentinel(t: Seq<char>) -> bool {
    t.len() >= 4 && t.subrange(t.len() - 4, t.len() as int) == sentinel()
}

/// The document part of a received text: the text without a final sentinel.
pub open spec fn unframed(t: Seq<char>) -> Seq<char> {
    if ends_with_sentinel(t) {
        t.subrange(0, t.len() - 4)
    } else {
        t
    }
}

pub open spec fn key_action() -> Seq<char> {
    seq!['a', 'c', 't', 'i', 'o', 'n']
}

pub open spec fn key_ipaddress() -> Seq<char> {
    seq!['i', 'p', 'a', 'd', 'd', 'r', 'e', 's', 's']
}

pub open spec fn key_messages() -> Seq<char> {
    seq!['m', 'e', 's', 's', 'a', 'g', 'e', 's']
}

pub open spec fn key_status() -> Seq<char> {
    seq!['s', 't', 'a', 't', 'u', 's']
}

pub open spec fn text_list(msgs: Seq<Seq<char>>) -> FieldModel {
    FieldModel::List(msgs.map_values(|t: Seq<char>| ScalarModel::Text(t)))
}

pub open spec fn request_object(e: RequestModel) -> ObjectModel {
    seq![
        (key_action(), FieldModel::Scalar(ScalarModel::Text(e.action))),
        (key_ipaddress(), FieldModel::Scalar(ScalarModel::Text(e.ipaddress))),
        (key_messages(), text_list(e.messages)),
        (key_status(), FieldModel::Scalar(ScalarModel::Number(e.status as u64))),
    ]
}

pub open spec fn response_object(e: ResponseModel) -> ObjectModel {
    seq![
        (key_messages(), text_list(e.messages)),
        (key_status(), FieldModel::Scalar(ScalarModel::Number(e.status as u64))),
    ]
}

/// The text that a request travels as.
pub open spec fn request_text(e: RequestModel) -> Seq<char> {
    framed(json_text(request_object(e)))
}

/// The text that a response travels as.
pub open spec fn response_text(e: ResponseModel) -> Seq<char> {
    framed(json_text(response_object(e)))
}

/// The value of a field by its key; where a key repeats, the last one counts.
pub open spec fn lookup(m: ObjectModel, k: Seq<char>) -> Option<FieldModel>
    decreases m.len(),
{
    if m.len() == 0 {
        None
    } else if m.last().0 == k {
        Some(m.last().1)
    } else {
        lookup(m.drop_last(), k)
    }
}

pub open spec fn text_of(f: Option<FieldModel>) -> Option<Seq<char>> {
    match f {
        Some(FieldModel::Scalar(ScalarModel::Text(t))) => Some(t),
        _ => None,
    }
}

pub open spec fn status_of(f: Option<FieldModel>) -> Option<u16> {
    match f {
        Some(FieldModel::Scalar(ScalarModel::Number(n))) => if n <= u16::MAX {
            Some(n as u16)
        } else {
            None
        },
        _ => None,
    }
}

pub open spec fn texts_of(f: Option<FieldModel>) -> Option<Seq<Seq<char>>> {
    match f {
        Some(FieldModel::List(items)) => if forall|i: int| 0 <= i < items.len() ==> #[trigger] items[i] is Text {
            Some(items.map_values(|s: ScalarModel| s->Text_0))
        } else {
            None
        },
        _ => None,
    }
}

/// The request that a document holds: each field present with its type;
/// other fields are ignored.
pub open spec fn request_from_object(m: ObjectModel) -> Option<RequestModel> {
    let status = status_of(lookup(m, key_status()));
    let action = text_of(lookup(m, key_action()));
    let messages = texts_of(lookup(m, key_messages()));
    let ipaddress = text_of(lookup(m, key_ipaddress()));
    if status is Some && action is Some && messages is Some && ipaddress is Some {
        Some(
            RequestModel {
                status: status->Some_0,
                action: action->Some_0,
                messages: messages->Some_0,
                ipaddress: ipaddress->Some_0,
            },
        )
    } else {
        None
    }
}

/// The response that a document holds.
pub open spec fn response_from_object(m: ObjectModel) -> Option<ResponseModel> {
    let status = status_of(lookup(m, key_status()));
    let messages = texts_of(lookup(m, key_messages()));
    if status is Some && messages is Some {
        Some(ResponseModel { status: status->Some_0, messages: messages->Some_0 })
    } else {
        None
    }
}

/// `r` is what decoding `text` may give: for a document rendered from a
/// canonical model, the request that the model holds.
pub open spec fn decodes_request(text: Seq<char>, r: Option<RequestModel>) -> bool {
    forall|m: ObjectModel|
        #![trigger json_text(m)]
        canonical(m) && unframed(text) == json_text(m) ==> r == request_from_object(m)
}

pub open spec fn decodes_response(text: Seq<char>, r: Option<ResponseModel>) -> bool {
    forall|m: ObjectModel|
        #![trigger json_text(m)]
        canonical(m) && unframed(text) == json_text(m) ==> r == response_from_object(m)
}

pub open spec fn request_result(r: Result<ClientToServer, ParseError>) -> Option<RequestModel> {
    match r {
        Ok(v) => Some(v@),
        Err(_) => None,
    }
}

pub open spec fn response_result(r: Result<ServerToClient, ParseError>) -> Option<ResponseModel> {
    match r {
        Ok(v) => Some(v@),
        Err(_) => None,
    }
}

/// Whether the text received so far ends with the sentinel, so that reading
/// stops.
pub fn frame_complete(text: &str) -> (r: bool)
    ensures
        r == ends_with_sentinel(text@),
{
    let n = text.unicode_len();
    if n < 4 {
        return false;
    }
    let a = text.get_char(n - 4);
    let b = text.get_char(n - 3);
    let c = text.get_char(n - 2);
    let d = text.get_char(n - 1);
    let r = a == '\r' && b == '\n' && c == '\r' && d == '\n';
    proof {
        let tail = text@.subrange(n - 4, n as int);
        if r {
            assert(tail =~= sentinel());
        } else {
            assert(tail[0] == a && tail[1] == b && tail[2] == c && tail[3] == d);
            assert(sentinel()[0] == '\r' && sentinel()[1] == '\n');
        }
    }
    r
}

fn key_string(which: u8) -> (r: String)
    requires
        which < 4,
    ensures
        which == 0 ==> r@ == key_action(),
        which == 1 ==> r@ == key_ipaddress(),
        which == 2 ==> r@ == key_messages(),
        which == 3 ==> r@ == key_status(),
{
    if which == 0 {
        let r = String::from_str("action");
        proof {
            reveal_strlit("action");
            assert(r@ =~= key_action());
        }
        r
    } else if which == 1 {
        let r = String::from_str("ipaddress");
        proof {
            reveal_strlit("ipaddress");
            assert(r@ =~= key_ipaddress());
        }
        r
    } else if which == 2 {
        let r = String::from_str("messages");
        proof {
            reveal_strlit("messages");
            assert(r@ =~= key_messages());
        }
        r
    } else {
        let r = String::from_str("status");
        proof {
            reveal_strlit("status");
            assert(r@ =~= key_status());
        }
        r
    }
}

fn text_list_field(msgs: &Vec<String>) -> (r: JsonField)
    ensures
        r@ == text_list(strings_view(msgs@)),
{
    let mut items: Vec<JsonScalar> = Vec::new();
    let mut i: usize = 0;
    while i < msgs.len()
        invariant
            i <= msgs.len(),
            items@.map_values(|x: JsonScalar| x@) =~= strings_view(msgs@.take(i as int)).map_values(
                |t: Seq<char>| ScalarModel::Text(t),
            ),
        decreases msgs.len() - i,
    {
        let ghost before = items@;
        items.push(JsonScalar::Text(msgs[i].clone()));
        proof {
            assert(msgs@.take(i as int + 1) =~= msgs@.take(i as int).push(msgs@[i as int]));
            assert(items@ == before.push(items@.last()));
            assert(items@.map_values(|x: JsonScalar| x@) =~= before.map_values(|x: JsonScalar| x@).push(
                ScalarModel::Text(msgs@[i as int]@),
            ));
        }
        i += 1;
    }
    proof {
        assert(msgs@.take(msgs@.len() as int) =~= msgs@);
    }
    JsonField::List(items)
}

fn sentinel_string() -> (r: String)
    ensures
        r@ == sentinel(),
{
    let r = String::from_str("\r\n\r\n");
    proof {
        reveal_strlit("\r\n\r\n");
        assert(r@ =~= sentinel());
    }
    r
}

fn frame(obj: &JsonObject) -> (r: String)
    ensures
        r@ == framed(json_text(obj@)),
        has_no_line_break(json_text(obj@)),
{
    let mut t = render_object(obj);
    let s = sentinel_string();
    t.append(s.as_str());
    t
}

/// Writes a request as it travels.
pub fn encode_request(req: &ClientToServer) -> (r: String)
    ensures
        r@ == request_text(req@),
        has_no_line_break(json_text(request_object(req@))),
{
    let mut fields: Vec<(String, JsonField)> = Vec::new();
    fields.push((key_string(0), JsonField::Scalar(JsonScalar::Text(req.action.clone()))));
    fields.push((key_string(1), JsonField::Scalar(JsonScalar::Text(req.ipaddress.clone()))));
    fields.push((key_string(2), text_list_field(&req.messages)));
    fields.push((key_string(3), JsonField::Scalar(JsonScalar::Number(req.status as u64))));
    let obj = JsonObject { fields };
    proof {
        assert(obj@ =~= request_object(req@));
    }
    frame(&obj)
}

/// Writes a response as it travels.
pub fn encode_response(resp: &ServerToClient) -> (r: String)
    ensures
        r@ == response_text(resp@),
        has_no_line_break(json_text(response_object(resp@))),
{
    let mut fields: Vec<(String, JsonField)> = Vec::new();
    fields.push((key_string(2), text_list_field(&resp.messages)));
    fields.push((key_string(3), JsonField::Scalar(JsonScalar::Number(resp.status as u64))));
    let obj = JsonObject { fields };
    proof {
        assert(obj@ =~= response_object(resp@));
    }
    frame(&obj)
}

/// The position of the field that `lookup` reads.
fn find_field(obj: &JsonObject, k: &String) -> (r: Option<usize>)
    ensures
        match r {
            Some(i) => i < obj.fields@.len() && lookup(obj@, k@) == Some(obj@[i as int].1),
            None => lookup(obj@, k@) is None,
        },
{
    let mut i: usize = obj.fields.len();
    proof {
        assert(obj@ =~= obj@.take(obj@.len() as int));
    }
    while i > 0
        invariant
            i <= obj.fields@.len(),
            lookup(obj@, k@) == lookup(obj@.take(i as int), k@),
        decreases i,
    {
        proof {
            assert(obj@.take(i as int).drop_last() =~= obj@.take(i as int - 1));
        }
        if obj.fields[i - 1].0 == *k {
            return Some(i - 1);
        }
        i -= 1;
    }
    proof {
        assert(obj@ =~= obj@.take(obj@.len() as int));
    }
    None
}

fn field_text(obj: &JsonObject, k: &String) -> (r: Option<String>)
    ensures
        r is Some == text_of(lookup(obj@, k@)) is Some,
        r is Some ==> r->Some_0@ == text_of(lookup(obj@, k@))->Some_0,
{
    match find_field(obj, k) {
        Some(i) => match &obj.fields[i].1 {
            JsonField::Scalar(JsonScalar::Text(t)) => Some(t.clone()),
            _ => None,
        },
        None => None,
    }
}

fn field_status(obj: &JsonObject, k: &String) -> (r: Option<u16>)
    ensures
        r == status_of(lookup(obj@, k@)),
{
    match find_field(obj, k) {
        Some(i) => match &obj.fields[i].1 {
            JsonField::Scalar(JsonScalar::Number(n)) => if *n <= u16::MAX as u64 {
                Some(*n as u16)
            } else {
                None
            },
            _ => None,
        },
        None => None,
    }
}

fn field_texts(obj: &JsonObject, k: &String) -> (r: Option<Vec<String>>)
    ensures
        r is Some == texts_of(lookup(obj@, k@)) is Some,
        r is Some ==> strings_view(r->Some_0@) == texts_of(lookup(obj@, k@))->Some_0,
{
    match find_field(obj, k) {
        Some(i) => match &obj.fields[i].1 {
            JsonField::List(items) => {
                let ghost model = items@.map_values(|x: JsonScalar| x@);
                proof {
                    assert(obj@[i as int].1 == FieldModel::List(model));
                }
                let mut out: Vec<String> = Vec::new();
                let mut j: usize = 0;
                while j < items.len()
                    invariant
                        j <= items@.len(),
                        model == items@.map_values(|x: JsonScalar| x@),
                        lookup(obj@, k@) == Some(FieldModel::List(model)),
                        forall|q: int| 0 <= q < j ==> #[trigger] model[q] is Text,
                        strings_view(out@) =~= model.take(j as int).map_values(
                            |s: ScalarModel| s->Text_0,
                        ),
                    decreases items@.len() - j,
                {
                    match &items[j] {
                        JsonScalar::Text(t) => {
                            let ghost before = out@;
                            out.push(t.clone());
                            proof {
                                assert(model.take(j as int + 1) =~= model.take(j as int).push(
                                    model[j as int],
                                ));
                                assert(out@ == before.push(out@.last()));
                                assert(strings_view(out@) =~= strings_view(before).push(t@));
                            }
                        },
                        _ => {
                            proof {
                                assert(model[j as int] == items@[j as int]@);
                                assert(!(model[j as int] is Text));
                                assert(texts_of(Some(FieldModel::List(model))) is None);
                            }
                            return None;
                        },
                    }
                    j += 1;
                }
                proof {
                    assert(model.take(model.len() as int) =~= model);
                }
                Some(out)
            },
            _ => None,
        },
        None => None,
    }
}

fn request_from(obj: &JsonObject) -> (r: Option<ClientToServer>)
    ensures
        match r {
            Some(v) => Some(v@) == request_from_object(obj@),
            None => request_from_object(obj@) is None,
        },
{
    let status = field_status(obj, &key_string(3));
    let action = field_text(obj, &key_string(0));
    let messages = field_texts(obj, &key_string(2));
    let ipaddress = field_text(obj, &key_string(1));
    match (status, action, messages, ipaddress) {
        (Some(status), Some(action), Some(messages), Some(ipaddress)) => Some(
            ClientToServer { status, action, messages, ipaddress },
        ),
        _ => None,
    }
}

fn response_from(obj: &JsonObject) -> (r: Option<ServerToClient>)
    ensures
        match r {
            Some(v) => Some(v@) == response_from_object(obj@),
            None => response_from_object(obj@) is None,
        },
{
    let status = field_status(obj, &key_string(3));
    let messages = field_texts(obj, &key_string(2));
    match (status, messages) {
        (Some(status), Some(messages)) => Some(ServerToClient { status, messages }),
        _ => None,
    }
}

fn document_part(text: &str) -> (r: &str)
    ensures
        r@ == unframed(text@),
{
    if frame_complete(text) {
        text.substring_char(0, text.unicode_len() - 4)
    } else {
        text
    }
}

/// Reads a request from the text received on a connection, with or without
/// its final sentinel. A text that is no JSON object gives `Syntax`; one
/// without the four fields, each of its type, gives `Shape`.
pub fn decode_request(text: &str) -> (r: Result<ClientToServer, ParseError>)
    ensures
        decodes_request(text@, request_result(r)),
{
    match parse_object(document_part(text)) {
        None => Err(ParseError::Syntax),
        Some(obj) => match request_from(&obj) {
            Some(v) => Ok(v),
            None => Err(ParseError::Shape),
        },
    }
}

/// Reads a response from the text received on a connection.
pub fn decode_response(text: &str) -> (r: Result<ServerToClient, ParseError>)
    ensures
        decodes_response(text@, response_result(r)),
{
    match parse_object(document_part(text)) {
        None => Err(ParseError::Syntax),
        Some(obj) => match response_from(&obj) {
            Some(v) => Ok(v),
            None => Err(ParseError::Shape),
        },
    }
}

proof fn lemma_keys()
    ensures
        key_lt(key_action(), key_ipaddress()),
        key_lt(key_action(), key_messages()),
        key_lt(key_action(), key_status()),
        key_lt(key_ipaddress(), key_messages()),
        key_lt(key_ipaddress(), key_status()),
        key_lt(key_messages(), key_status()),
        key_action() != key_ipaddress(),
        key_action() != key_messages(),
        key_action() != key_status(),
        key_ipaddress() != key_messages(),
        key_ipaddress() != key_status(),
        key_messages() != key_status(),
{
    assert(key_action()[0] == 'a');
    assert(key_ipaddress()[0] == 'i');
    assert(key_messages()[0] == 'm');
    assert(key_status()[0] == 's');
}

proof fn lemma_unframed(t: Seq<char>)
    ensures
        unframed(framed(t)) == t,
{
    let f = framed(t);
    assert(f.subrange(f.len() - 4, f.len() as int) =~= sentinel());
    assert(f.subrange(0, f.len() - 4) =~= t);
}

proof fn lemma_text_list(msgs: Seq<Seq<char>>)
    ensures
        texts_of(Some(text_list(msgs))) == Some(msgs),
        field_canonical(text_list(msgs)),
{
    let items = msgs.map_values(|t: Seq<char>| ScalarModel::Text(t));
    assert(forall|i: int| 0 <= i < items.len() ==> #[trigger] items[i] is Text);
    assert(items.map_values(|s: ScalarModel| s->Text_0) =~= msgs);
}

proof fn lemma_request_object(e: RequestModel)
    ensures
        canonical(request_object(e)),
        request_from_object(request_object(e)) == Some(e),
{
    let m = request_object(e);
    lemma_keys();
    lemma_text_list(e.messages);
    assert(m[0].0 == key_action() && m[1].0 == key_ipaddress());
    assert(m[2].0 == key_messages() && m[3].0 == key_status());
    let m3 = m.drop_last();
    let m2 = m3.drop_last();
    let m1 = m2.drop_last();
    assert(m1.last() == m[0]);
    assert(m2.last() == m[1]);
    assert(m3.last() == m[2]);
    assert(lookup(m, key_status()) == Some(m[3].1));
    assert(lookup(m3, key_messages()) == Some(m[2].1));
    assert(lookup(m, key_messages()) == Some(m[2].1));
    assert(lookup(m2, key_ipaddress()) == Some(m[1].1));
    assert(lookup(m3, key_ipaddress()) == Some(m[1].1));
    assert(lookup(m, key_ipaddress()) == Some(m[1].1));
    assert(lookup(m1, key_action()) == Some(m[0].1));
    assert(lookup(m2, key_action()) == Some(m[0].1));
    assert(lookup(m3, key_action()) == Some(m[0].1));
    assert(lookup(m, key_action()) == Some(m[0].1));
    assert(status_of(Some(m[3].1)) == Some(e.status));
}

proof fn lemma_response_object(e: ResponseModel)
    ensures
        canonical(response_object(e)),
        response_from_object(response_object(e)) == Some(e),
{
    let m = response_object(e);
    lemma_keys();
    lemma_text_list(e.messages);
    assert(m[0].0 == key_messages() && m[1].0 == key_status());
    assert(m.drop_last().last() == m[0]);
    assert(lookup(m, key_status()) == Some(m[1].1));
    assert(lookup(m.drop_last(), key_messages()) == Some(m[0].1));
    assert(lookup(m, key_messages()) == Some(m[0].1));
    assert(status_of(Some(m[1].1)) == Some(e.status));
}

/// Decoding the text that a request travels as gives that request back,
/// whatever its messages (none included).
pub proof fn lemma_request_round_trip(e: RequestModel, r: Option<RequestModel>)
    requires
        decodes_request(request_text(e), r),
    ensures
        r == Some(e),
{
    let m = request_object(e);
    lemma_request_object(e);
    lemma_unframed(json_text(m));
}

/// Decoding the text that a response travels as gives that response back.
pub proof fn lemma_response_round_trip(e: ResponseModel, r: Option<ResponseModel>)
    requires
        decodes_response(response_text(e), r),
    ensures
        r == Some(e),
{
    let m = response_object(e);
    lemma_response_object(e);
    lemma_unframed(json_text(m));
}

/// The sentinel ends no proper prefix of a framed document that holds no
/// line break: a reader that stops at the first sentinel reads it whole.
pub proof fn lemma_sentinel_only_at_end(t: Seq<char>, k: int)
    requires
        has_no_line_break(t),
        0 <= k < framed(t).len(),
    ensures
        !ends_with_sentinel(framed(t).take(k)),
{
    if k >= 4 {
        let p = framed(t).take(k);
        assert(p.subrange(k - 4, k)[0] == t[k - 4]);
        assert(sentinel()[0] == '\r');
    }
}

} // verus!
