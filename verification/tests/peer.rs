use localdrop::peer::{Peer, Peers};

fn peer(address: &str, port: u16, name: &str) -> Peer {
    Peer {
        address: address.to_string(),
        port,
        name: name.to_string(),
    }
}

#[test]
fn empty_table() {
    let p = Peers::new();
    assert_eq!(p.len(), 0);
    assert!(p.get(&"10.0.0.1".to_string()).is_none());
    assert!(p.values().is_empty());
}

#[test]
fn insert_then_get() {
    let mut p = Peers::new();
    p.insert(peer("10.0.0.1", 12727, "laptop"));
    p.insert(peer("10.0.0.2", 80, "phone"));
    assert_eq!(p.len(), 2);
    let found = p.get(&"10.0.0.1".to_string()).unwrap();
    assert_eq!(found.name, "laptop");
    assert_eq!(found.port, 12727);
    assert_eq!(p.get(&"10.0.0.2".to_string()).unwrap().name, "phone");
    assert!(p.get(&"10.0.0.3".to_string()).is_none());
}

#[test]
fn same_address_replaces() {
    let mut p = Peers::new();
    p.insert(peer("10.0.0.1", 1, "old"));
    p.insert(peer("10.0.0.2", 2, "other"));
    p.insert(peer("10.0.0.1", 3, "new"));
    assert_eq!(p.len(), 2);
    let found = p.get(&"10.0.0.1".to_string()).unwrap();
    assert_eq!(found.name, "new");
    assert_eq!(found.port, 3);
    assert_eq!(p.get(&"10.0.0.2".to_string()).unwrap().name, "other");
    let mut names: Vec<String> = p.values().iter().map(|x| x.name.clone()).collect();
    names.sort();
    assert_eq!(names, vec!["new".to_string(), "other".to_string()]);
}

#[test]
fn clone_keeps_every_peer() {
    let mut p = Peers::new();
    p.insert(peer("10.0.0.1", 1, "a"));
    p.insert(peer("10.0.0.2", 2, "b"));
    let q = p.clone();
    assert_eq!(q.len(), 2);
    assert_eq!(q.get(&"10.0.0.2".to_string()).unwrap().port, 2);
    let one = peer("10.0.0.9", 9, "z").clone();
    assert_eq!(one.address, "10.0.0.9");
    assert_eq!(one.name, "z");
}
