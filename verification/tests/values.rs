use routerify_ng::types::IpAddress;
use routerify_ng::{DataMap, Method, MethodSet, RemoteAddr, RequestMeta, RouteParams};

#[test]
fn params_keep_the_order_of_first_storing() {
    let mut params = RouteParams::with_capacity(2);
    assert!(params.is_empty());
    params.set("a".to_string(), "1".to_string());
    params.set("b".to_string(), "2".to_string());
    params.set("a".to_string(), "3".to_string());
    assert_eq!(params.len(), 2);
    assert_eq!(params.name_at(0), Some(&"a".to_string()));
    assert_eq!(params.value_at(0), Some(&"3".to_string()));
    assert_eq!(params.name_at(1), Some(&"b".to_string()));
    assert_eq!(params.value_at(2), None);
    assert_eq!(params.get("a"), Some(&"3".to_string()));
    assert_eq!(params.get("b"), Some(&"2".to_string()));
    assert!(params.has("b"));
    assert!(!params.has("c"));
    assert_eq!(RouteParams::new().len(), 0);
}

#[test]
fn data_map_holds_one_value_per_key_and_the_last_wins() {
    let map: DataMap<&str> = DataMap::new();
    assert!(map.is_empty());
    assert_eq!(map.get(1), None);
    let map = map.insert(1, "one").insert(2, "two").insert(1, "uno");
    assert_eq!(map.len(), 2);
    assert_eq!(map.get(1), Some(&"uno"));
    assert_eq!(map.get(2), Some(&"two"));
    assert_eq!(map.get(3), None);
    assert!(map.contains(2));
    assert!(!map.contains(3));
}

#[test]
fn a_nested_map_shadows_the_outer_one_key_by_key() {
    let parent: DataMap<&str> = DataMap::new().insert(1, "p1").insert(2, "p2");
    let child: DataMap<&str> = DataMap::new().insert(2, "c2").insert(3, "c3");
    let merged = DataMap::merge(parent, child);
    assert_eq!(merged.len(), 3);
    assert_eq!(merged.get(1), Some(&"p1"));
    assert_eq!(merged.get(2), Some(&"c2"));
    assert_eq!(merged.get(3), Some(&"c3"));
    assert_eq!(merged.get(4), None);
    let empty: DataMap<&str> = DataMap::new();
    let same = DataMap::merge(merged, empty);
    assert_eq!(same.len(), 3);
    assert_eq!(same.get(2), Some(&"c2"));
}

#[test]
fn method_tokens() {
    assert_eq!(Method::Get.as_str(), "GET");
    assert_eq!(Method::Post.as_str(), "POST");
    assert_eq!(Method::Put.as_str(), "PUT");
    assert_eq!(Method::Delete.as_str(), "DELETE");
    assert_eq!(Method::Patch.as_str(), "PATCH");
    assert_eq!(Method::Head.as_str(), "HEAD");
    assert_eq!(Method::Options.as_str(), "OPTIONS");
    assert_eq!(Method::Connect.as_str(), "CONNECT");
    assert_eq!(Method::Trace.as_str(), "TRACE");
    assert_eq!(Method::all().len(), 9);
    assert_eq!(Method::all()[0], Method::Get);
    assert_eq!(Method::all()[8], Method::Trace);
}

#[test]
fn method_set_lists_in_canonical_order_without_repeats() {
    let set = MethodSet::empty()
        .with(Method::Put)
        .with_all(&vec![Method::Get, Method::Put, Method::Get])
        .with(Method::Trace);
    assert!(set.contains(Method::Get));
    assert!(set.contains(Method::Put));
    assert!(set.contains(Method::Trace));
    assert!(!set.contains(Method::Post));
    assert_eq!(set.methods(), vec![Method::Get, Method::Put, Method::Trace]);
    assert_eq!(set.allow_header(), "GET, PUT, TRACE");
}

#[test]
fn allow_header_of_small_sets() {
    assert_eq!(MethodSet::empty().allow_header(), "");
    assert_eq!(MethodSet::empty().with(Method::Head).allow_header(), "HEAD");
    assert_eq!(
        MethodSet::empty().with_all(&Method::all()).allow_header(),
        "GET, POST, PUT, DELETE, PATCH, HEAD, OPTIONS, CONNECT, TRACE"
    );
}

#[test]
fn unknown_peer_is_the_unspecified_address() {
    let unspecified = RemoteAddr::unspecified();
    assert_eq!(unspecified.ip, IpAddress::V4(0, 0, 0, 0));
    assert_eq!(unspecified.port, 0);
    assert_eq!(RemoteAddr::or_unspecified(None), unspecified);
    let peer = RemoteAddr::new(IpAddress::V6(0, 0, 0, 0, 0, 0, 0, 1), 3000);
    assert_eq!(RemoteAddr::or_unspecified(Some(peer)), peer);
}

#[test]
fn metadata_is_extended_part_by_part() {
    let peer = RemoteAddr::new(IpAddress::V4(127, 0, 0, 1), 80);
    let meta = RequestMeta::with_remote_addr(peer);
    assert_eq!(meta.remote_addr(), Some(peer));
    assert!(meta.route_params().is_none());
    let mut params = RouteParams::new();
    params.set("id".to_string(), "7".to_string());
    let meta = meta.extend(RequestMeta::with_route_params(params));
    assert_eq!(meta.remote_addr(), Some(peer));
    assert_eq!(meta.route_params().unwrap().get("id"), Some(&"7".to_string()));
    let other = RemoteAddr::new(IpAddress::V4(10, 0, 0, 1), 81);
    let meta = meta.extend(RequestMeta::with_remote_addr(other));
    assert_eq!(meta.remote_addr(), Some(other));
    assert_eq!(meta.route_params().unwrap().len(), 1);
}
