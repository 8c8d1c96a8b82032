use psyk::address::ClientAddr;
use psyk::game::GameId;
use psyk::registry::ClientRegistry;
use psyk::PsykError;

fn addr(port: u16) -> ClientAddr {
    ClientAddr::V4 { octets: 0x0a00_0001, port }
}

#[test]
fn registry_insert_get_remove() {
    let mut r: ClientRegistry<&str> = ClientRegistry::new();
    assert_eq!(r.len(), 0);
    assert_eq!(r.insert(addr(1), "one"), None);
    assert_eq!(r.insert(addr(2), "two"), None);
    assert_eq!(r.len(), 2);
    assert_eq!(r.get(&addr(1)), Some(&"one"));
    assert_eq!(r.get(&addr(3)), None);
    assert_eq!(r.insert(addr(1), "uno"), Some("one"));
    assert_eq!(r.len(), 2);
    assert_eq!(r.get(&addr(1)), Some(&"uno"));
    assert_eq!(r.remove(&addr(1)), Some("uno"));
    assert_eq!(r.remove(&addr(1)), None);
    assert_eq!(r.get(&addr(1)), None);
    assert_eq!(r.get(&addr(2)), Some(&"two"));
    assert_eq!(r.len(), 1);
}

#[test]
fn address_families_differ() {
    let v4 = ClientAddr::V4 { octets: 1, port: 80 };
    let v6 = ClientAddr::V6 { segments: 1, port: 80, flowinfo: 0, scope_id: 0 };
    assert_ne!(v4, v6);
    assert_ne!(v6, ClientAddr::V6 { segments: 1, port: 80, flowinfo: 0, scope_id: 2 });
    assert_eq!(v4, ClientAddr::V4 { octets: 1, port: 80 });
}

#[test]
fn game_id_keeps_its_number() {
    assert_eq!(GameId::new(17).raw(), 17);
    assert_eq!(GameId::new(17), GameId::new(17));
    assert_ne!(GameId::new(17), GameId::new(18));
}

#[test]
fn io_errors_become_psyk_errors() {
    let err = std::io::Error::new(std::io::ErrorKind::Other, "boom");
    let wrapped: PsykError = PsykError::from(err);
    match wrapped {
        PsykError::IO(e) => assert_eq!(e.to_string(), "boom"),
    }
}
