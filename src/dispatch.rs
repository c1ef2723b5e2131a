//! What the server does with one request, and with one connection.
use vstd::prelude::*;
use crate::codec::{ParseError, decode_request, decodes_request, encode_response, response_text};
use crate::envelope::{ClientToServer, RequestModel, ResponseModel, ServerToClient, strings_view};
use crate::store::{
    ChatStore, StoreModel, concat_all, find_spec, lemma_find_spec, store_wf, transcript, valid_key,
    with_messages, with_user,
};

verus! {

pub open spec fn usage_text() -> Seq<char> {
    "Invalid command. Only can run `send`, `receive`, or `createuser`"@
}

/// The store after a request and the text of the answer.
pub open spec fn dispatch_spec(s: StoreModel, q: RequestModel, now: u64) -> (StoreModel, Seq<char>) {
    if q.action == "receive"@ {
        (s, transcript(s))
    } else if q.action == "createuser"@ {
        match find_spec(s.users, q.ipaddress) {
            Some(_) => (s, "User already in database."@),
            None => if s.users.len() + 1 < i64::MAX {
                let name = concat_all(q.messages);
                (with_user(s, q.ipaddress, name), name + " Created."@)
            } else {
                (s, "Error in creating user."@)
            },
        }
    } else if q.action == "send"@ {
        match find_spec(s.users, q.ipaddress) {
            Some(k) => (with_messages(s, k, q.messages, now), "Success!"@),
            None => (s, "Must run createuser before you can send messages."@),
        }
    } else {
        (s, usage_text())
    }
}

/// The response that carries `body` with status 200.
pub open spec fn success(body: Seq<char>) -> ResponseModel {
    ResponseModel { status: 200, messages: seq![body] }
}

/// Answers one request, `now` being the time in whole seconds: `receive`
/// reads the transcript; `createuser` registers the caller's address unless
/// it is known; `send` stores the messages of a known caller; any other
/// action gets the usage text.
pub fn handle_request(store: &mut ChatStore, req: &ClientToServer, now: u64) -> (r: String)
    requires
        old(store).wf(),
    ensures
        final(store).wf(),
        (final(store)@, r@) == dispatch_spec(old(store)@, req@, now),
{
    if req.action == String::from_str("receive") {
        store.read_message_from_db()
    } else if req.action == String::from_str("createuser") {
        match store.find_user(&req.ipaddress) {
            Some(_) => String::from_str("User already in database."),
            None => match store.create_user(req.ipaddress.clone(), &req.messages) {
                Ok(name) => {
                    let mut out = name;
                    out.append(" Created.");
                    out
                },
                Err(_) => String::from_str("Error in creating user."),
            },
        }
    } else if req.action == String::from_str("send") {
        match store.find_user(&req.ipaddress) {
            Some(k) => {
                proof {
                    lemma_find_spec(store@.users, req.ipaddress@);
                }
                match store.write_new_messages_to_db(&req.messages, k, now) {
                    Ok(()) => String::from_str("Success!"),
                    Err(_) => String::from_str("Error in sending messages."),
                }
            },
            None => String::from_str("Must run createuser before you can send messages."),
        }
    } else {
        String::from_str("Invalid command. Only can run `send`, `receive`, or `createuser`")
    }
}

/// The text of the response that carries `body` with status 200.
pub fn success_response(body: String) -> (r: String)
    ensures
        r@ == response_text(success(body@)),
{
    encode_response(&ServerToClient::ok(body))
}

/// Answers the text received on one connection: decodes one request,
/// answers it and returns the text to send back. A text that does not
/// decode changes nothing and is answered by nothing.
pub fn handle_stream(store: &mut ChatStore, received: &str, now: u64) -> (r: Result<String, ParseError>)
    requires
        old(store).wf(),
    ensures
        final(store).wf(),
        r is Err ==> final(store)@ == old(store)@ && decodes_request(received@, None),
        r matches Ok(out) ==> exists|q: RequestModel|
            decodes_request(received@, Some(q)) && final(store)@ == dispatch_spec(old(store)@, q, now).0
                && out@ == response_text(success(dispatch_spec(old(store)@, q, now).1)),
{
    match decode_request(received) {
        Ok(req) => {
            let body = handle_request(store, &req, now);
            Ok(success_response(body))
        },
        Err(e) => Err(e),
    }
}

/// A second `createuser` from the same address finds the user that the
/// first one made: it is answered "User already in database." and leaves
/// the store as the first one left it.
pub proof fn lemma_createuser_twice(s: StoreModel, q: RequestModel, now: u64)
    requires
        store_wf(s),
        q.action == "createuser"@,
    ensures
        dispatch_spec(dispatch_spec(s, q, now).0, q, now).1 == "User already in database."@
            || dispatch_spec(s, q, now).1 == "Error in creating user."@,
        dispatch_spec(dispatch_spec(s, q, now).0, q, now).0 == dispatch_spec(s, q, now).0,
{
    let s1 = dispatch_spec(s, q, now).0;
    reveal_strlit("receive");
    reveal_strlit("createuser");
    assert("receive"@.len() != "createuser"@.len());
    lemma_find_spec(s.users, q.ipaddress);
    if find_spec(s.users, q.ipaddress) is None && s.users.len() + 1 < i64::MAX {
        assert(s1.users.last().address == q.ipaddress);
        assert(find_spec(s1.users, q.ipaddress) is Some);
    }
}

} // verus!
