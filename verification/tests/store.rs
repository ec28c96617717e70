use kv_facade::proxy::{get_response, ping, set_response, GetResponse, SetResponse};
use kv_facade::memory::MemoryStore;
use kv_facade::store::StoreFault;

fn text(s: &str) -> String {
    s.to_string()
}

#[test]
fn new_store_holds_nothing() {
    let store = MemoryStore::new();
    assert_eq!(store.get("a"), Ok(None));
    assert_eq!(store.get(""), Ok(None));
}

#[test]
fn unwritten_key_is_absent() {
    let mut store = MemoryStore::new();
    assert_eq!(store.set(text("a"), text("1")), Ok(()));
    assert_eq!(store.set(text("b"), text("None")), Ok(()));
    let response = get_response(store.get("c"));
    assert_eq!(response, GetResponse::Absent);
    assert!(response.is_absent());
    assert_eq!(get_response(store.get("A")), GetResponse::Absent);
    assert_eq!(get_response(store.get("a ")), GetResponse::Absent);
}

#[test]
fn set_then_get_returns_the_value() {
    let mut store = MemoryStore::new();
    assert_eq!(set_response(store.set(text("greeting"), text("hello world"))), SetResponse::Stored);
    assert_eq!(store.get("greeting"), Ok(Some(text("hello world"))));
    assert_eq!(
        get_response(store.get("greeting")),
        GetResponse::Found(text("hello world"))
    );
}

#[test]
fn set_then_get_keeps_empty_and_unusual_text() {
    let mut store = MemoryStore::new();
    assert_eq!(store.set(text(""), text("")), Ok(()));
    assert_eq!(store.get(""), Ok(Some(text(""))));
    assert_eq!(get_response(store.get("")), GetResponse::Found(text("")));
    let value = text("a=b&c=d \u{fc}\u{1f511}\n");
    assert_eq!(store.set(text("k e y"), value.clone()), Ok(()));
    assert_eq!(store.get("k e y"), Ok(Some(value)));
}

#[test]
fn later_write_replaces_the_earlier() {
    let mut store = MemoryStore::new();
    assert_eq!(store.set(text("a"), text("1")), Ok(()));
    assert_eq!(store.set(text("b"), text("2")), Ok(()));
    assert_eq!(store.set(text("a"), text("3")), Ok(()));
    assert_eq!(store.get("a"), Ok(Some(text("3"))));
    assert_eq!(store.get("b"), Ok(Some(text("2"))));
}

#[test]
fn writes_to_different_keys_do_not_interfere() {
    let writes = vec![("a", "1"), ("b", "2"), ("c", "3"), ("d", "4")];
    let mut forward = MemoryStore::new();
    for (key, value) in writes.iter() {
        assert_eq!(forward.set(text(key), text(value)), Ok(()));
    }
    let mut backward = MemoryStore::new();
    for (key, value) in writes.iter().rev() {
        assert_eq!(backward.set(text(key), text(value)), Ok(()));
    }
    for (key, value) in writes.iter() {
        assert_eq!(forward.get(key), Ok(Some(text(value))));
        assert_eq!(backward.get(key), Ok(Some(text(value))));
    }
    assert_eq!(forward.get("e"), Ok(None));
    assert_eq!(backward.get("e"), Ok(None));
}

#[test]
fn store_out_of_reach_fails_reads_and_writes() {
    let mut store = MemoryStore::new();
    assert_eq!(store.set(text("a"), text("1")), Ok(()));
    store.set_reachable(false);
    assert_eq!(store.get("a"), Err(StoreFault));
    assert_eq!(store.get("b"), Err(StoreFault));
    assert_eq!(store.set(text("a"), text("2")), Err(StoreFault));
    assert_eq!(store.set(text("b"), text("2")), Err(StoreFault));
}

#[test]
fn store_back_in_reach_holds_what_it_held() {
    let mut store = MemoryStore::new();
    assert_eq!(store.set(text("a"), text("1")), Ok(()));
    store.set_reachable(false);
    assert_eq!(store.set(text("a"), text("2")), Err(StoreFault));
    assert_eq!(store.set(text("b"), text("2")), Err(StoreFault));
    store.set_reachable(true);
    assert_eq!(store.get("a"), Ok(Some(text("1"))));
    assert_eq!(store.get("b"), Ok(None));
}

#[test]
fn set_out_of_reach_is_a_bad_request() {
    let mut store = MemoryStore::new();
    store.set_reachable(false);
    let response = set_response(store.set(text("a"), text("1")));
    assert_eq!(response, SetResponse::Rejected);
    assert_eq!(response.status(), 400);
}

#[test]
fn get_out_of_reach_is_a_server_error() {
    let mut store = MemoryStore::new();
    assert_eq!(store.set(text("a"), text("1")), Ok(()));
    store.set_reachable(false);
    let response = get_response(store.get("a"));
    assert_eq!(response, GetResponse::Unavailable);
    assert_eq!(response.status(), 500);
}

#[test]
fn ping_answers_whatever_the_store_does() {
    let mut store = MemoryStore::new();
    assert_eq!(ping(), "Pong");
    assert_eq!(store.set(text("a"), text("1")), Ok(()));
    assert_eq!(ping(), "Pong");
    store.set_reachable(false);
    assert_eq!(ping(), "Pong");
}

#[test]
fn many_keys_are_kept_apart() {
    let mut store = MemoryStore::new();
    let mut i: u32 = 0;
    while i < 200 {
        assert_eq!(store.set(format!("key{}", i), format!("value{}", i)), Ok(()));
        i += 1;
    }
    let mut i: u32 = 0;
    while i < 200 {
        assert_eq!(store.set(format!("key{}", i), format!("again{}", i * 2)), Ok(()));
        i += 2;
    }
    let mut i: u32 = 0;
    while i < 200 {
        let expected = if i % 2 == 0 { format!("again{}", i * 2) } else { format!("value{}", i) };
        assert_eq!(store.get(&format!("key{}", i)), Ok(Some(expected)));
        i += 1;
    }
    assert_eq!(store.get("key200"), Ok(None));
}
