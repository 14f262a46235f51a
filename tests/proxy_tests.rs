use multichain_proxy::aggregator::{BlockscoutProxy, FanOut};
use multichain_proxy::json::{put_text_field, stamp_shard, JsonValue};
use multichain_proxy::proxy::{
    is_success, normalize, settle_transport, str_equal, target_url, Instance, InstanceResponse,
    INTERNAL_SERVER_ERROR,
};
use std::time::Duration;

fn instance(id: &str, url: &str) -> Instance {
    Instance {
        id: id.to_string(),
        title: format!("{id} title"),
        url: url.to_string(),
    }
}

fn num(n: u64) -> JsonValue {
    JsonValue::Number(serde_json::Number::from(n))
}

fn text(s: &str) -> JsonValue {
    JsonValue::String(s.to_string())
}

fn object(fields: Vec<(&str, JsonValue)>) -> JsonValue {
    JsonValue::Object(fields.into_iter().map(|(k, v)| (k.to_string(), v)).collect())
}

fn three_instance_proxy(limit: usize) -> BlockscoutProxy {
    BlockscoutProxy::new(
        vec![
            instance("A", "http://a.example/"),
            instance("B", "http://b.example/base/"),
            instance("C", "http://c.example"),
        ],
        limit,
        Duration::from_secs(5),
    )
}

fn ok_response(id: &str, status: u16, parsed: Option<JsonValue>) -> InstanceResponse {
    normalize(&id.to_string(), status, parsed, "0.1".to_string())
}

#[test]
fn target_url_without_path_keeps_base() {
    assert_eq!(target_url("http://a.example/", None), "http://a.example/");
}

#[test]
fn target_url_trims_trailing_slash_and_appends() {
    assert_eq!(
        target_url("http://a.example/", Some("/api/v2/search?q=0xab&limit=5")),
        "http://a.example/api/v2/search?q=0xab&limit=5"
    );
}

#[test]
fn target_url_trims_every_trailing_slash() {
    assert_eq!(
        target_url("http://a.example/prefix///", Some("/x")),
        "http://a.example/prefix/x"
    );
}

#[test]
fn target_url_base_without_slash() {
    assert_eq!(target_url("http://a.example", Some("/x?y=1")), "http://a.example/x?y=1");
}

#[test]
fn success_range_edges() {
    assert!(!is_success(199));
    assert!(is_success(200));
    assert!(is_success(204));
    assert!(is_success(299));
    assert!(!is_success(300));
    assert!(!is_success(500));
}

#[test]
fn transport_failure_becomes_internal_error() {
    let (content, status) = settle_transport(Err("connection refused".to_string()));
    assert_eq!(status, 500);
    assert_eq!(status, INTERNAL_SERVER_ERROR);
    assert_eq!(content, "connection refused");
}

#[test]
fn transport_success_keeps_body_and_status() {
    let (content, status) = settle_transport(Ok(("[1]".to_string(), 201)));
    assert_eq!(status, 201);
    assert_eq!(content, "[1]");
}

#[test]
fn failed_transport_result_has_no_data() {
    let (_, status) = settle_transport(Err("timeout".to_string()));
    let r = ok_response("C", status, Some(num(1)));
    assert_eq!(r.status, 500);
    assert_eq!(r.data, None);
}

#[test]
fn error_status_with_json_body_has_no_data() {
    let r = ok_response("B", 503, Some(object(vec![("err", text("down"))])));
    assert_eq!(r.status, 503);
    assert_eq!(r.data, None);
}

#[test]
fn success_with_unparsed_body_has_no_data() {
    let r = ok_response("A", 200, None);
    assert_eq!(r.status, 200);
    assert_eq!(r.data, None);
}

#[test]
fn success_keeps_elapsed_text() {
    let r = normalize(&"A".to_string(), 200, Some(num(3)), "0.25".to_string());
    assert_eq!(r.elapsed_secs, "0.25");
    assert_eq!(r.data, Some(num(3)));
}

#[test]
fn stamp_marks_each_object_of_array() {
    let v = JsonValue::Array(vec![
        object(vec![("x", num(1))]),
        object(vec![]),
    ]);
    let r = stamp_shard(v, &"eth".to_string());
    assert_eq!(
        r,
        JsonValue::Array(vec![
            object(vec![("x", num(1)), ("shard_id", text("eth"))]),
            object(vec![("shard_id", text("eth"))]),
        ])
    );
}

#[test]
fn stamp_overwrites_existing_shard_field_in_place() {
    let v = JsonValue::Array(vec![object(vec![
        ("shard_id", text("old")),
        ("y", JsonValue::Bool(true)),
    ])]);
    let r = stamp_shard(v, &"gnosis".to_string());
    assert_eq!(
        r,
        JsonValue::Array(vec![object(vec![
            ("shard_id", text("gnosis")),
            ("y", JsonValue::Bool(true)),
        ])])
    );
}

#[test]
fn stamp_leaves_non_objects_in_array() {
    let v = JsonValue::Array(vec![
        num(7),
        text("s"),
        JsonValue::Null,
        JsonValue::Array(vec![object(vec![("z", num(2))])]),
    ]);
    let r = stamp_shard(v, &"A".to_string());
    assert_eq!(
        r,
        JsonValue::Array(vec![
            num(7),
            text("s"),
            JsonValue::Null,
            JsonValue::Array(vec![object(vec![("z", num(2))])]),
        ])
    );
}

#[test]
fn stamp_leaves_non_array_payloads() {
    let v = object(vec![("items", JsonValue::Array(vec![object(vec![])]))]);
    let r = stamp_shard(v, &"A".to_string());
    assert_eq!(r, object(vec![("items", JsonValue::Array(vec![object(vec![])]))]));
    assert_eq!(stamp_shard(num(5), &"A".to_string()), num(5));
}

#[test]
fn stamp_empty_array() {
    assert_eq!(
        stamp_shard(JsonValue::Array(vec![]), &"A".to_string()),
        JsonValue::Array(vec![])
    );
}

#[test]
fn put_field_appends_when_absent() {
    let mut fields = vec![("a".to_string(), num(1))];
    put_text_field(&mut fields, &"b".to_string(), &"v".to_string());
    assert_eq!(
        fields,
        vec![("a".to_string(), num(1)), ("b".to_string(), text("v"))]
    );
}

#[test]
fn success_with_array_is_stamped() {
    let r = ok_response("A", 200, Some(JsonValue::Array(vec![object(vec![("x", num(1))])])));
    assert_eq!(r.status, 200);
    assert_eq!(
        r.data,
        Some(JsonValue::Array(vec![object(vec![
            ("x", num(1)),
            ("shard_id", text("A"))
        ])]))
    );
}

#[test]
fn strings_compare_by_characters() {
    assert!(str_equal("abc", "abc"));
    assert!(!str_equal("abc", "abd"));
    assert!(!str_equal("abc", "ab"));
    assert!(str_equal("", ""));
}

#[test]
fn registry_lists_instances_in_order() {
    let proxy = three_instance_proxy(2);
    let listed = proxy.instances();
    assert_eq!(listed.len(), 3);
    assert_eq!(listed[0], instance("A", "http://a.example/"));
    assert_eq!(listed[2].id, "C");
    assert_eq!(proxy.concurrent_requests(), 2);
    assert_eq!(proxy.request_timeout(), Duration::from_secs(5));
}

#[test]
fn dispatch_addresses_each_instance() {
    let proxy = three_instance_proxy(3);
    let mut f = proxy.fan_out(Some("/api?q=1"));
    let a = f.next_dispatch().unwrap();
    let b = f.next_dispatch().unwrap();
    let c = f.next_dispatch().unwrap();
    assert!(f.next_dispatch().is_none());
    assert_eq!((a.index, a.id.as_str(), a.url.as_str()), (0, "A", "http://a.example/api?q=1"));
    assert_eq!((b.index, b.id.as_str(), b.url.as_str()), (1, "B", "http://b.example/base/api?q=1"));
    assert_eq!((c.index, c.id.as_str(), c.url.as_str()), (2, "C", "http://c.example/api?q=1"));
}

#[test]
fn in_flight_never_exceeds_limit() {
    let proxy = three_instance_proxy(2);
    let mut f: FanOut = proxy.fan_out(None);
    let first = f.next_dispatch().unwrap();
    let second = f.next_dispatch().unwrap();
    assert!(f.next_dispatch().is_none());
    assert!(f.is_pending(first.index));
    assert!(!f.is_pending(2));
    f.complete(second.index, ok_response("B", 200, None));
    assert!(!f.is_pending(second.index));
    let third = f.next_dispatch().unwrap();
    assert_eq!(third.index, 2);
    assert!(f.next_dispatch().is_none());
    assert!(!f.is_finished());
    f.complete(third.index, ok_response("C", 200, None));
    f.complete(first.index, ok_response("A", 200, None));
    assert!(f.is_finished());
    let r = f.finish();
    assert_eq!(r.0.len(), 3);
}

#[test]
fn limit_one_runs_requests_one_at_a_time() {
    let proxy = three_instance_proxy(1);
    let mut f = proxy.fan_out(None);
    for i in 0..3 {
        let d = f.next_dispatch().unwrap();
        assert_eq!(d.index, i);
        assert!(f.next_dispatch().is_none());
        f.complete(d.index, ok_response(&d.id, 204, None));
    }
    assert!(f.next_dispatch().is_none());
    assert!(f.is_finished());
}

#[test]
fn empty_registry_finishes_at_once() {
    let proxy = BlockscoutProxy::new(vec![], 4, Duration::from_secs(1));
    let mut f = proxy.fan_out(None);
    assert!(f.next_dispatch().is_none());
    assert!(f.is_finished());
    assert_eq!(f.finish().0.len(), 0);
}

#[test]
fn every_instance_has_exactly_one_entry() {
    let proxy = three_instance_proxy(2);
    let mut f = proxy.fan_out(None);
    let mut in_flight = vec![];
    while !f.is_finished() {
        while let Some(d) = f.next_dispatch() {
            in_flight.push(d);
        }
        let d = in_flight.pop().unwrap();
        f.complete(d.index, ok_response(&d.id, 200, Some(num(1))));
    }
    let r = f.finish();
    let keys: Vec<&str> = r.0.iter().map(|(k, _)| k.as_str()).collect();
    assert_eq!(keys, vec!["A", "B", "C"]);
    for id in ["A", "B", "C"] {
        let e = r.get(id).unwrap();
        assert_eq!(e.status, 200);
        assert!(e.data.is_some());
    }
    assert!(r.get("D").is_none());
}

#[test]
fn mixed_outcomes_aggregate() {
    let proxy = three_instance_proxy(3);
    let mut f = proxy.fan_out(Some("/search"));
    let a = f.next_dispatch().unwrap();
    let b = f.next_dispatch().unwrap();
    let c = f.next_dispatch().unwrap();

    let (_, c_status) = settle_transport(Err("request timed out".to_string()));
    f.complete(c.index, normalize(&c.id, c_status, None, "5.0".to_string()));

    let (_, b_status) = settle_transport(Ok(("{\"err\":\"down\"}".to_string(), 503)));
    f.complete(
        b.index,
        normalize(&b.id, b_status, Some(object(vec![("err", text("down"))])), "0.2".to_string()),
    );

    let (_, a_status) = settle_transport(Ok(("[{\"x\":1}]".to_string(), 200)));
    f.complete(
        a.index,
        normalize(
            &a.id,
            a_status,
            Some(JsonValue::Array(vec![object(vec![("x", num(1))])])),
            "0.1".to_string(),
        ),
    );

    let r = f.finish();
    assert_eq!(r.0.len(), 3);
    let ra = r.get("A").unwrap();
    assert_eq!(ra.status, 200);
    assert_eq!(
        ra.data,
        Some(JsonValue::Array(vec![object(vec![
            ("x", num(1)),
            ("shard_id", text("A"))
        ])]))
    );
    let rb = r.get("B").unwrap();
    assert_eq!(rb.status, 503);
    assert_eq!(rb.data, None);
    let rc = r.get("C").unwrap();
    assert_eq!(rc.status, 500);
    assert_eq!(rc.data, None);
}
