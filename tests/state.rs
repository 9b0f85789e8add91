use wedcam::state::{prepare_session, session_dir_of, still_path_of, State, StorageError};

#[test]
fn session_dir_uses_hyphenated_uuid() {
    let dir = session_dir_of(0x67e5_5044_10b1_426f_9247_bb68_0e5f_e0c8);
    assert_eq!(dir, "sessions/67e55044-10b1-426f-9247-bb680e5fe0c8");
}

#[test]
fn still_path_nests_file_under_session() {
    let path = still_path_of(1, 0xffff_ffff_ffff_ffff_ffff_ffff_ffff_ffff);
    assert_eq!(
        path,
        "sessions/00000000-0000-0000-0000-000000000001/ffffffff-ffff-ffff-ffff-ffffffffffff.jpg"
    );
}

#[test]
fn prepared_sessions_are_version_four_and_distinct() {
    let one = prepare_session();
    let two = prepare_session();
    assert_eq!((one.id >> 76) & 0xf, 4);
    assert_eq!((one.id >> 62) & 0x3, 2);
    assert_ne!(one.id, two.id);
    assert_eq!(one.dir, session_dir_of(one.id));
    assert_ne!(one.dir, two.dir);
}

#[test]
fn new_session_installs_only_when_directory_exists() {
    let mut state = State::new();
    assert_eq!(state.new_session(3, false), Err(StorageError::DirectoryNotCreated));
    assert_eq!(state.curr_session, None);
    assert_eq!(state.new_session(3, true), Ok(3));
    assert_eq!(state.curr_session, Some(3));
    assert_eq!(state.new_session(4, false), Err(StorageError::DirectoryNotCreated));
    assert_eq!(state.curr_session, Some(3));
    assert_eq!(state.new_session(4, true), Ok(4));
    assert_eq!(state.curr_session, Some(4));
}

#[test]
fn end_session_clears_active_session() {
    let mut state = State::new();
    state.new_session(9, true).unwrap();
    assert!(state.end_session(Some("guest@example.com")).is_ok());
    assert_eq!(state.curr_session, None);
    assert!(state.end_session(None).is_ok());
}
