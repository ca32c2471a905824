use packetcomm::connstate::{registry_key_of, ClientRegistry, ClientRegistryKeeper, SocketReadAddress};

fn address(host: &str, port: u32, id: &str) -> SocketReadAddress {
    SocketReadAddress {
        read_host: String::from(host),
        read_port: port,
        reader_id: String::from(id),
    }
}

#[test]
fn client_registry() {
    let mut client_registry = ClientRegistry::new();
    let chandle = SocketReadAddress {
        read_host: String::from("testhost"),
        read_port: 55,
        reader_id: String::from(""),
    };
    client_registry.add_client(chandle);
}

#[test]
fn registry_key_is_host_colon_port() {
    assert_eq!(registry_key_of(&address("testhost", 55, "")), "testhost:55");
    assert_eq!(registry_key_of(&address("127.0.0.1", 34527, "x")), "127.0.0.1:34527");
}

#[test]
fn added_client_is_found_under_its_key() {
    let mut registry = ClientRegistry::new();
    assert_eq!(registry.len(), 0);
    registry.add_client(address("testhost", 55, "id"));
    assert_eq!(registry.len(), 1);
    assert_eq!(registry.get("testhost:55"), Some(&address("testhost", 55, "id")));
    assert_eq!(registry.get("testhost"), None);
    assert_eq!(registry.get("testhost:56"), None);
}

#[test]
fn adding_under_the_same_key_replaces() {
    let mut registry = ClientRegistry::new();
    registry.add_client(address("h", 1, "first"));
    registry.add_client(address("h", 2, "other"));
    registry.add_client(address("h", 1, "second"));
    assert_eq!(registry.len(), 2);
    assert_eq!(registry.get("h:1"), Some(&address("h", 1, "second")));
    assert_eq!(registry.get("h:2"), Some(&address("h", 2, "other")));
}

#[test]
fn remove_client_drops_the_client_added() {
    let mut registry = ClientRegistry::new();
    registry.add_client(address("h", 2, "b"));
    registry.add_client(address("h", 1, "a"));
    registry.remove_client(address("h", 1, "a"));
    assert_eq!(registry.len(), 1);
    assert_eq!(registry.get("h:1"), None);
    assert_eq!(registry.get("h:2"), Some(&address("h", 2, "b")));
    // Removing a client that is not registered changes nothing.
    registry.remove_client(address("h", 3, "c"));
    assert_eq!(registry.len(), 1);
    registry.remove_client(address("h", 2, "anything"));
    assert_eq!(registry.len(), 0);
}
