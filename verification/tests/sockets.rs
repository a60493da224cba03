use filebrowser::login::User;
use filebrowser::types::{AdminAction, BrowseAction, ClientMsg, EntryActionKind, ServerMsg};
use filebrowser::ws::{dispatch, hello, Dispatch, SocketStorage, SocketWriter};
use tokio::sync::mpsc;

fn writer(id: u64) -> (SocketWriter, mpsc::UnboundedReceiver<ServerMsg>) {
    let (tx, rx) = mpsc::unbounded_channel();
    (SocketWriter { id, tx }, rx)
}

#[test]
fn connections_by_user() {
    let mut s = SocketStorage::new();
    assert!(s.connected_user_ids().is_empty());
    let (w1, mut r1) = writer(1);
    let (w2, mut r2) = writer(2);
    let (w3, _r3) = writer(3);
    s.insert(20, w1);
    s.insert(20, w2);
    s.insert(10, w3);
    assert_eq!(s.connected_user_ids(), vec![10, 20]);
    assert_eq!(s.send_to(20, &ServerMsg::Unauthenticated), vec![true, true]);
    assert!(s.send_to(99, &ServerMsg::Unauthenticated).is_empty());
    assert_eq!(r1.try_recv().unwrap(), ServerMsg::Unauthenticated);
    assert_eq!(r2.try_recv().unwrap(), ServerMsg::Unauthenticated);
    s.remove(20, 1);
    s.send_to(20, &ServerMsg::Unauthenticated);
    assert!(r1.try_recv().is_err());
    assert_eq!(r2.try_recv().unwrap(), ServerMsg::Unauthenticated);
    s.remove(20, 2);
    assert_eq!(s.connected_user_ids(), vec![10]);
    s.remove(99, 1);
    assert_eq!(s.connected_user_ids(), vec![10]);
}

#[test]
fn closed_connections_are_dropped() {
    let mut s = SocketStorage::new();
    let (w1, r1) = writer(1);
    let (w2, mut r2) = writer(2);
    s.insert(5, w1);
    s.insert(5, w2);
    drop(r1);
    assert_eq!(s.send_to(5, &ServerMsg::Unauthenticated), vec![false, true]);
    assert_eq!(r2.try_recv().unwrap(), ServerMsg::Unauthenticated);
    assert_eq!(s.connected_user_ids(), vec![5]);
    drop(r2);
    s.send_to(5, &ServerMsg::Unauthenticated);
    assert!(s.connected_user_ids().is_empty());
}

#[test]
fn writer_send_reports_delivery() {
    let (mut w, r) = writer(1);
    assert!(w.send(ServerMsg::Unauthenticated));
    drop(r);
    assert!(!w.send(ServerMsg::Unauthenticated));
}

#[test]
fn routing_messages() {
    assert_eq!(dispatch(false, ClientMsg::GetMyVolumes), Dispatch::Reply(ServerMsg::Unauthenticated));
    assert_eq!(dispatch(false, ClientMsg::Admin(AdminAction::GetRoles)), Dispatch::Reply(ServerMsg::Unauthenticated));
    assert_eq!(dispatch(true, ClientMsg::GetMyVolumes), Dispatch::MyVolumes);
    assert_eq!(dispatch(true, ClientMsg::Admin(AdminAction::GetTokens)), Dispatch::Admin(AdminAction::GetTokens));
    assert_eq!(
        dispatch(true, ClientMsg::Browse(BrowseAction::ListDirectory { volume_id: 3, path: "/a".into() })),
        Dispatch::ListDirectory { volume_id: 3, path: "/a".into() }
    );
    assert_eq!(
        dispatch(true, ClientMsg::Browse(BrowseAction::EntryAction { volume_id: 3, path: "/a".into(), action: EntryActionKind::Delete })),
        Dispatch::Ignore
    );
}

#[test]
fn greeting() {
    assert_eq!(
        hello(&Some(User { user_id: 1, username: "ann".into() })),
        ServerMsg::Hello { username: "ann".into(), avatar_url: None }
    );
    assert_eq!(hello(&None), ServerMsg::Unauthenticated);
}
