use pieeg_local_bridge::discovery::{
    on_removed, on_resolved, pretty_name, service_host, SERVICE_TYPE,
};
use pieeg_local_bridge::state::Discovered;

fn entry(name: &str, host: &str) -> Discovered {
    Discovered { name: name.to_string(), host: host.to_string(), port: 9000 }
}

fn names(list: &Vec<Discovered>) -> Vec<&str> {
    list.iter().map(|d| d.name.as_str()).collect()
}

#[test]
fn service_type_is_cut_off() {
    assert_eq!(pretty_name("MyApp._osc._udp.local."), "MyApp");
    assert_eq!(pretty_name("My._osc App._osc._udp.local."), "My._osc App");
    assert_eq!(pretty_name("x._osc._udp._osc._udp.local."), "x");
    assert_eq!(pretty_name("other._http._tcp.local."), "other._http._tcp.local.");
    assert_eq!(pretty_name("._osc._udp"), "");
    assert_eq!(SERVICE_TYPE, "_osc._udp.local.");
}

#[test]
fn host_is_the_address_or_else_the_name() {
    assert_eq!(service_host(Some("10.0.0.2".to_string()), "box.local."), "10.0.0.2");
    assert_eq!(service_host(None, "box.local."), "box.local");
    assert_eq!(service_host(None, "box.."), "box");
}

#[test]
fn resolved_destination_takes_the_place_of_its_name() {
    let mut list = Vec::new();
    on_resolved(&mut list, entry("a", "1"));
    on_resolved(&mut list, entry("b", "2"));
    on_resolved(&mut list, entry("a", "3"));
    assert_eq!(names(&list), vec!["a", "b"]);
    assert_eq!(list[0].host, "3");
    assert_eq!(list[1].host, "2");
}

#[test]
fn removed_destination_is_gone_and_the_others_stay() {
    let mut list = vec![entry("a", "1"), entry("b", "2"), entry("c", "3")];
    on_removed(&mut list, "b._osc._udp.local.");
    assert_eq!(names(&list), vec!["a", "c"]);
    on_removed(&mut list, "x._osc._udp.local.");
    assert_eq!(names(&list), vec!["a", "c"]);
    on_removed(&mut list, "c");
    assert_eq!(names(&list), vec!["a"]);
}
