use tcp_chat::codec::{
    decode_request, decode_response, encode_request, encode_response, frame_complete, ParseError,
};
use tcp_chat::dispatch::{handle_request, handle_stream, success_response};
use tcp_chat::envelope::{ClientToServer, ServerToClient};
use tcp_chat::store::{ChatStore, StoreError};

fn strings(v: &[&str]) -> Vec<String> {
    v.iter().map(|s| s.to_string()).collect()
}

fn request(action: &str, messages: &[&str], ip: &str) -> ClientToServer {
    ClientToServer::new(200, action.to_string(), strings(messages), ip.to_string())
}

fn exchange(store: &mut ChatStore, req: &ClientToServer, now: u64) -> ServerToClient {
    let text = encode_request(req);
    let reply = handle_stream(store, &text, now).unwrap();
    assert!(frame_complete(&reply));
    decode_response(&reply).unwrap()
}

#[test]
fn request_round_trip() {
    let req = request("send", &["hi", "line\nbreak \"quoted\" \r\n\r\n"], "1.2.3.4");
    let back = decode_request(&encode_request(&req)).unwrap();
    assert_eq!(back.status, 200);
    assert_eq!(back.action, "send");
    assert_eq!(back.messages, req.messages);
    assert_eq!(back.ipaddress, "1.2.3.4");
}

#[test]
fn request_round_trip_empty_messages() {
    let req = request("receive", &[], "");
    let back = decode_request(&encode_request(&req)).unwrap();
    assert_eq!(back.action, "receive");
    assert!(back.messages.is_empty());
    assert_eq!(back.ipaddress, "");
}

#[test]
fn response_round_trip() {
    let resp = ServerToClient::new(404, strings(&["a", "", "ü"]));
    let back = decode_response(&encode_response(&resp)).unwrap();
    assert_eq!(back.status, 404);
    assert_eq!(back.messages, resp.messages);
    let empty = ServerToClient::new(0, Vec::new());
    let back = decode_response(&encode_response(&empty)).unwrap();
    assert_eq!(back.status, 0);
    assert!(back.messages.is_empty());
}

#[test]
fn encoded_response_text() {
    assert_eq!(success_response("ok".to_string()), "{\"messages\":[\"ok\"],\"status\":200}\r\n\r\n");
}

#[test]
fn encoded_text_has_sentinel_only_at_end() {
    let text = encode_request(&request("send", &["a\r\n\r\nb"], "x"));
    assert!(text.ends_with("\r\n\r\n"));
    assert_eq!(text.matches('\r').count(), 2);
}

#[test]
fn frame_detection() {
    assert!(!frame_complete(""));
    assert!(!frame_complete("{}\r\n"));
    assert!(!frame_complete("\r\n\r"));
    assert!(frame_complete("\r\n\r\n"));
    assert!(frame_complete("{\"a\":1}\r\n\r\n"));
}

#[test]
fn decode_without_sentinel() {
    let text = "{\"status\":1,\"action\":\"receive\",\"messages\":[],\"ipaddress\":\"h\"}";
    let req = decode_request(text).unwrap();
    assert_eq!(req.status, 1);
    assert_eq!(req.action, "receive");
}

#[test]
fn decode_ignores_unknown_fields() {
    let text = "{\"extra\":{\"x\":[1]},\"status\":2,\"action\":\"send\",\"messages\":[\"m\"],\"ipaddress\":\"h\",\"more\":-1.5}\r\n\r\n";
    let req = decode_request(text).unwrap();
    assert_eq!(req.status, 2);
    assert_eq!(req.messages, strings(&["m"]));
}

#[test]
fn decode_malformed_is_syntax_error() {
    assert_eq!(decode_request("not json\r\n\r\n").err(), Some(ParseError::Syntax));
    assert_eq!(decode_request("").err(), Some(ParseError::Syntax));
    assert_eq!(decode_request("[1,2]").err(), Some(ParseError::Syntax));
}

#[test]
fn decode_missing_or_mistyped_field_is_shape_error() {
    let missing = "{\"status\":200,\"action\":\"send\",\"messages\":[]}";
    assert_eq!(decode_request(missing).err(), Some(ParseError::Shape));
    let big_status = "{\"status\":70000,\"action\":\"send\",\"messages\":[],\"ipaddress\":\"h\"}";
    assert_eq!(decode_request(big_status).err(), Some(ParseError::Shape));
    let number_message = "{\"status\":1,\"action\":\"send\",\"messages\":[\"a\",3],\"ipaddress\":\"h\"}";
    assert_eq!(decode_request(number_message).err(), Some(ParseError::Shape));
    assert_eq!(decode_response("{\"status\":200}").err(), Some(ParseError::Shape));
}

#[test]
fn find_user_after_create_user() {
    let mut store = ChatStore::new();
    let a = "10.0.0.1".to_string();
    assert_eq!(store.find_user(&a), None);
    assert_eq!(store.create_user(a.clone(), &strings(&["Bo", "b"])), Ok("Bob".to_string()));
    assert_eq!(store.find_user(&a), Some(1));
    let b = "10.0.0.2".to_string();
    assert_eq!(store.find_user(&b), None);
    assert_eq!(store.create_user(b.clone(), &Vec::new()), Ok(String::new()));
    assert_eq!(store.find_user(&b), Some(2));
}

#[test]
fn create_user_refuses_known_address() {
    let mut store = ChatStore::new();
    let a = "h".to_string();
    store.create_user(a.clone(), &strings(&["x"])).unwrap();
    assert_eq!(store.create_user(a.clone(), &strings(&["y"])), Err(StoreError::DuplicateAddress));
    assert_eq!(store.read_message_from_db(), "");
}

#[test]
fn append_then_read_in_order() {
    let mut store = ChatStore::new();
    let a = "h".to_string();
    store.create_user(a.clone(), &strings(&["Ann"])).unwrap();
    let k = store.find_user(&a).unwrap();
    assert_eq!(store.read_message_from_db(), "");
    store.write_new_messages_to_db(&strings(&["m1", "m2"]), k, 5).unwrap();
    assert_eq!(store.read_message_from_db(), "Ann: m1\nAnn: m2");
    let b = "g".to_string();
    store.create_user(b.clone(), &strings(&["Bea"])).unwrap();
    store.write_new_messages_to_db(&strings(&["m3"]), 2, 6).unwrap();
    store.write_new_messages_to_db(&strings(&["m4"]), 1, 7).unwrap();
    assert_eq!(store.read_message_from_db(), "Ann: m1\nAnn: m2\nBea: m3\nAnn: m4");
}

#[test]
fn write_for_unknown_user_is_refused() {
    let mut store = ChatStore::new();
    assert_eq!(store.write_new_messages_to_db(&strings(&["m"]), 1, 0), Err(StoreError::UnknownUser));
    assert_eq!(store.write_new_messages_to_db(&strings(&["m"]), 0, 0), Err(StoreError::UnknownUser));
    assert_eq!(store.write_new_messages_to_db(&strings(&["m"]), -3, 0), Err(StoreError::UnknownUser));
    assert_eq!(store.read_message_from_db(), "");
}

#[test]
fn send_before_createuser() {
    let mut store = ChatStore::new();
    let resp = exchange(&mut store, &request("send", &["hi"], "1.2.3.4"), 0);
    assert_eq!(resp.status, 200);
    assert_eq!(resp.messages, strings(&["Must run createuser before you can send messages."]));
    assert_eq!(store.read_message_from_db(), "");
}

#[test]
fn createuser_send_receive() {
    let mut store = ChatStore::new();
    let resp = exchange(&mut store, &request("createuser", &["Al", "ice"], "1.2.3.4"), 0);
    assert_eq!(resp.messages, strings(&["Alice Created."]));
    let resp = exchange(&mut store, &request("send", &["hello"], "1.2.3.4"), 1);
    assert_eq!(resp.messages, strings(&["Success!"]));
    let resp = exchange(&mut store, &request("receive", &[], "9.9.9.9"), 2);
    assert_eq!(resp.status, 200);
    assert_eq!(resp.messages, strings(&["Alice: hello"]));
}

#[test]
fn createuser_twice() {
    let mut store = ChatStore::new();
    let req = request("createuser", &["Al"], "1.2.3.4");
    assert_eq!(handle_request(&mut store, &req, 0), "Al Created.");
    assert_eq!(handle_request(&mut store, &req, 0), "User already in database.");
    assert_eq!(store.find_user(&"1.2.3.4".to_string()), Some(1));
    let other = request("createuser", &["Bo"], "5.6.7.8");
    assert_eq!(handle_request(&mut store, &other, 0), "Bo Created.");
    assert_eq!(store.find_user(&"5.6.7.8".to_string()), Some(2));
}

#[test]
fn unknown_action_gets_usage() {
    let mut store = ChatStore::new();
    let resp = exchange(&mut store, &request("delete", &["x"], "1.2.3.4"), 0);
    assert_eq!(resp.status, 200);
    assert_eq!(
        resp.messages,
        strings(&["Invalid command. Only can run `send`, `receive`, or `createuser`"])
    );
}

#[test]
fn receive_on_empty_store() {
    let mut store = ChatStore::new();
    let resp = exchange(&mut store, &request("receive", &[], "1.2.3.4"), 0);
    assert_eq!(resp.messages, strings(&[""]));
}

#[test]
fn bad_text_is_not_answered() {
    let mut store = ChatStore::new();
    assert_eq!(handle_stream(&mut store, "{\"status\":1}\r\n\r\n", 0).err(), Some(ParseError::Shape));
    assert_eq!(handle_stream(&mut store, "garbage", 0).err(), Some(ParseError::Syntax));
}
