use wedcam::hub::{copy_frame, Session};
use wedcam::registry::WebsocketConnections;

fn send_all(session: &mut Session<u32>, frame: &[u8], closed: &[u32], inbox: &mut Vec<(u32, Vec<u8>)>) {
    let pass = session.broadcast_img(frame);
    let mut delivered = Vec::new();
    for target in pass.targets.iter() {
        if closed.contains(target) {
            delivered.push(false);
        } else {
            inbox.push((*target, pass.frame.clone()));
            delivered.push(true);
        }
    }
    session.finish_broadcast(pass.targets, &delivered);
}

#[test]
fn every_live_subscriber_gets_one_identical_copy() {
    let mut session: Session<u32> = Session::new();
    for id in 1..=4u32 {
        session.connections.add(id);
    }
    let pass = session.broadcast_img(&[9, 8, 7]);
    assert_eq!(pass.targets, vec![1, 2, 3, 4]);
    assert_eq!(pass.frame, vec![9, 8, 7]);
    assert_eq!(session.connections.len(), 0);
    session.finish_broadcast(pass.targets, &vec![true, true, true, true]);
    assert_eq!(session.connections.len(), 4);
}

#[test]
fn one_failed_send_removes_only_that_subscriber() {
    let mut session: Session<u32> = Session::new();
    for id in 1..=3u32 {
        session.connections.add(id);
    }
    let mut inbox = Vec::new();
    send_all(&mut session, b"F", &[2], &mut inbox);
    assert_eq!(inbox, vec![(1, b"F".to_vec()), (3, b"F".to_vec())]);
    let pass = session.broadcast_img(b"G");
    assert_eq!(pass.targets, vec![1, 3]);
}

#[test]
fn admission_during_a_pass_starts_with_the_next_pass() {
    let mut session: Session<u32> = Session::new();
    session.connections.add(1);
    session.connections.add(2);
    let pass = session.broadcast_img(b"A");
    session.connections.add(3);
    assert_eq!(pass.targets, vec![1, 2]);
    session.finish_broadcast(pass.targets, &vec![true, true]);
    let next = session.broadcast_img(b"B");
    assert_eq!(next.targets, vec![1, 2, 3]);
}

#[test]
fn end_to_end_two_subscribers_one_closes() {
    let mut session: Session<u32> = Session::new();
    assert_eq!(session.connections.len(), 0);
    session.connections.add(1);
    session.connections.add(2);
    let mut inbox = Vec::new();
    send_all(&mut session, b"A", &[], &mut inbox);
    assert_eq!(inbox, vec![(1, b"A".to_vec()), (2, b"A".to_vec())]);
    inbox.clear();
    send_all(&mut session, b"B", &[1], &mut inbox);
    assert_eq!(inbox, vec![(2, b"B".to_vec())]);
    assert_eq!(session.connections.len(), 1);
}

#[test]
fn empty_registry_broadcast_reaches_nobody() {
    let mut session: Session<u32> = Session::new();
    let pass = session.broadcast_img(b"A");
    assert!(pass.targets.is_empty());
    session.finish_broadcast(pass.targets, &vec![]);
    assert_eq!(session.connections.len(), 0);
}

#[test]
fn single_request_captures_only_the_first_frame() {
    let mut session: Session<u32> = Session::new();
    session.state.new_session(0x1234, true).unwrap();
    session.connections.take_pic_time();
    let first = session.capture_still().expect("a still for the first frame");
    assert_eq!(first.session, 0x1234);
    for _ in 0..5 {
        assert!(session.capture_still().is_none());
    }
}

#[test]
fn repeated_request_before_a_frame_gives_one_still() {
    let mut session: Session<u32> = Session::new();
    session.state.new_session(7, true).unwrap();
    session.connections.take_pic_time();
    session.connections.take_pic_time();
    assert!(session.capture_still().is_some());
    assert!(session.capture_still().is_none());
}

#[test]
fn capture_without_session_writes_nothing() {
    let mut session: Session<u32> = Session::new();
    session.connections.take_pic_time();
    assert!(session.capture_still().is_none());
    session.state.new_session(5, true).unwrap();
    assert!(session.capture_still().is_none());
}

#[test]
fn stills_of_two_sessions_go_to_their_own_directories() {
    let a: u128 = 0x67e5_5044_10b1_426f_9247_bb68_0e5f_e0c8;
    let b: u128 = 0x0000_0000_0000_4000_8000_0000_0000_0001;
    let mut session: Session<u32> = Session::new();
    session.state.new_session(a, true).unwrap();
    session.connections.take_pic_time();
    let first = session.capture_still().unwrap();
    session.state.new_session(b, true).unwrap();
    session.connections.take_pic_time();
    let second = session.capture_still().unwrap();
    assert_eq!(first.session, a);
    assert_eq!(second.session, b);
    assert!(first.path.starts_with("sessions/67e55044-10b1-426f-9247-bb680e5fe0c8/"));
    assert!(second.path.starts_with("sessions/00000000-0000-4000-8000-000000000001/"));
    assert!(first.path.ends_with(".jpg"));
    assert_ne!(first.path, second.path);
}

#[test]
fn capture_file_names_are_fresh() {
    let mut session: Session<u32> = Session::new();
    session.state.new_session(1, true).unwrap();
    session.connections.take_pic_time();
    let one = session.capture_still().unwrap();
    session.connections.take_pic_time();
    let two = session.capture_still().unwrap();
    assert_ne!(one.file, two.file);
    assert_eq!(one.path.len(), "sessions/".len() + 36 + 1 + 36 + ".jpg".len());
}

#[test]
fn trigger_is_consumed_once() {
    let mut conns: WebsocketConnections<u8> = WebsocketConnections::new();
    assert!(!conns.take_pic());
    conns.take_pic_time();
    assert!(conns.take_pic());
    assert!(!conns.take_pic());
}

#[test]
fn frame_copy_is_byte_identical() {
    assert_eq!(copy_frame(&[]), Vec::<u8>::new());
    assert_eq!(copy_frame(&[0, 255, 3]), vec![0, 255, 3]);
}

#[test]
fn capture_file_ids_are_version_four() {
    let mut session: Session<u32> = Session::new();
    session.state.new_session(2, true).unwrap();
    session.connections.take_pic_time();
    let still = session.capture_still().unwrap();
    assert_eq!((still.file >> 76) & 0xf, 4);
    assert_eq!((still.file >> 62) & 0x3, 2);
}
