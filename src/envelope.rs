//! The request and response envelopes exchanged over one connection.
use vstd::prelude::*;

verus! {

/// What a client asks of the server.
pub struct ClientToServer {
    pub status: u16,
    pub action: String,
    pub messages: Vec<String>,
    pub ipaddress: String,
}

/// What the server answers.
pub struct ServerToClient {
    pub status: u16,
    pub messages: Vec<String>,
}

pub ghost struct RequestModel {
    pub status: u16,
    pub action: Seq<char>,
    pub messages: Seq<Seq<char>>,
    pub ipaddress: Seq<char>,
}

pub ghost struct ResponseModel {
    pub status: u16,
    pub messages: Seq<Seq<char>>,
}

pub open spec fn strings_view(v: Seq<String>) -> Seq<Seq<char>> {
    v.map_values(|s: String| s@)
}

impl View for ClientToServer {
    type V = RequestModel;

    open spec fn view(&self) -> RequestModel {
        RequestModel {
            status: self.status,
            action: self.action@,
            messages: strings_view(self.messages@),
            ipaddress: self.ipaddress@,
        }
    }
}

impl View for ServerToClient {
    type V = ResponseModel;

    open spec fn view(&self) -> ResponseModel {
        ResponseModel { status: self.status, messages: strings_view(self.messages@) }
    }
}

/// Copies a list of strings.
pub fn copy_strings(v: &Vec<String>) -> (r: Vec<String>)
    ensures
        strings_view(r@) == strings_view(v@),
{
    let mut r: Vec<String> = Vec::new();
    let mut i: usize = 0;
    while i < v.len()
        invariant
            i <= v.len(),
            strings_view(r@) == strings_view(v@.take(i as int)),
        decreases v.len() - i,
    {
        let ghost before = r@;
        let s = v[i].clone();
        r.push(s);
        proof {
            assert(v@.take(i as int + 1) =~= v@.take(i as int).push(v@[i as int]));
            assert(r@ == before.push(s));
            assert(strings_view(r@) =~= strings_view(before).push(s@));
            assert(strings_view(v@.take(i as int + 1)) =~= strings_view(v@.take(i as int)).push(
                v@[i as int]@,
            ));
        }
        i += 1;
    }
    proof {
        assert(v@.take(v@.len() as int) =~= v@);
    }
    r
}

impl ClientToServer {
    pub fn new(status: u16, action: String, messages: Vec<String>, ipaddress: String) -> (r: Self)
        ensures
            r.status == status,
            r.action == action,
            r.messages == messages,
            r.ipaddress == ipaddress,
    {
        ClientToServer { status, action, messages, ipaddress }
    }
}

impl ServerToClient {
    pub fn new(status: u16, messages: Vec<String>) -> (r: Self)
        ensures
            r.status == status,
            r.messages == messages,
    {
        ServerToClient { status, messages }
    }

    /// The response that carries one line of text with status 200.
    pub fn ok(body: String) -> (r: Self)
        ensures
            r@ == (ResponseModel { status: 200, messages: seq![body@] }),
    {
        let mut messages: Vec<String> = Vec::new();
        messages.push(body);
        proof {
            assert(strings_view(messages@) =~= seq![body@]);
        }
        ServerToClient { status: 200, messages }
    }
}

} // verus!
