use futures::sync::mpsc::unbounded;
use psyk::address::ClientAddr;
use psyk::client::{ChannelToServer, ClientInboundEvent, ClientOutboundEvent};
use psyk::event::to_client;
use psyk::event::to_server::{Event, Payload};
use psyk::game::{GameId, Human, Player};

#[test]
fn to_server_events_compare_by_content() {
    let alice = Player::Human(Human { id: 1, name: "alice".to_string() });
    let a: Event<u8, String> = Event { player: alice.clone(), payload: Payload::GameEvent(GameId::new(3), 9) };
    let b = a.clone();
    assert_eq!(a, b);
    let c: Event<u8, String> = Event { player: Player::AI, payload: Payload::JoinGame(GameId::new(3)) };
    assert_ne!(a, c);
}

#[test]
fn to_client_events_carry_their_details() {
    let listing: to_client::Event<u8, String> = to_client::Event::GameListing(vec!["chess".to_string()]);
    match listing {
        to_client::Event::GameListing(games) => assert_eq!(games, vec!["chess".to_string()]),
        _ => panic!("wrong variant"),
    }
}

#[test]
fn client_events_reach_the_server_channel() {
    let (tx, rx) = unbounded::<u32>();
    let address = ClientAddr::V4 { octets: 1, port: 2 };
    let event: ClientInboundEvent<String, u32> =
        ClientInboundEvent::ServerConnected { address, channel_to_server: ChannelToServer { sender: tx } };
    match event {
        ClientInboundEvent::ServerConnected { channel_to_server, .. } => {
            channel_to_server.sender.unbounded_send(5).unwrap()
        }
        _ => panic!("wrong variant"),
    }
    let got: Vec<u32> = futures::Stream::wait(rx).map(|r| r.unwrap()).collect();
    assert_eq!(got, vec![5]);
    let out: ClientOutboundEvent<u32> = ClientOutboundEvent::SendMessage { event: 4 };
    assert!(matches!(out.clone(), ClientOutboundEvent::SendMessage { event: 4 }));
}

#[test]
fn server_events_clone_with_their_channel() {
    let (tx, rx) = unbounded::<u32>();
    let address = ClientAddr::V4 { octets: 1, port: 2 };
    let event: psyk::server::ServerInboundEvent<String, u32> =
        psyk::server::ServerInboundEvent::ClientConnected { address, client_sender: tx };
    let copy = event.clone();
    drop(event);
    match copy {
        psyk::server::ServerInboundEvent::ClientConnected { client_sender, .. } => {
            client_sender.unbounded_send(8).unwrap()
        }
        _ => panic!("wrong variant"),
    }
    let got: Vec<u32> = futures::Stream::wait(rx).map(|r| r.unwrap()).collect();
    assert_eq!(got, vec![8]);
}
