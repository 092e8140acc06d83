use llmsh_vfs::codes::{code_name, map_code, map_exit, VfsErrorCode};

#[test]
fn each_name_maps_to_its_code() {
    assert!(matches!(map_code("E_ARG"), VfsErrorCode::EArg));
    assert!(matches!(map_code("E_NOENT"), VfsErrorCode::ENoEnt));
    assert!(matches!(map_code("E_PERM"), VfsErrorCode::EPerm));
    assert!(matches!(map_code("E_IO"), VfsErrorCode::EIO));
    assert!(matches!(map_code("E_CLOSED"), VfsErrorCode::EClosed));
    assert!(matches!(map_code("E_UNSUPPORTED"), VfsErrorCode::EUnsupported));
    match map_code("E_WEIRD") {
        VfsErrorCode::Other(s) => assert_eq!(s, "E_WEIRD"),
        other => panic!("unexpected {:?}", other),
    }
    assert!(matches!(map_code("e_arg"), VfsErrorCode::Other(_)));
    assert!(matches!(map_code("?"), VfsErrorCode::Other(_)));
}

#[test]
fn exit_status_of_each_code() {
    assert_eq!(map_exit(&VfsErrorCode::ENoEnt), 1);
    assert_eq!(map_exit(&VfsErrorCode::EPerm), 2);
    assert_eq!(map_exit(&VfsErrorCode::EArg), 2);
    assert_eq!(map_exit(&VfsErrorCode::EIO), 3);
    assert_eq!(map_exit(&VfsErrorCode::EClosed), 4);
    assert_eq!(map_exit(&VfsErrorCode::EUnsupported), 5);
    assert_eq!(map_exit(&VfsErrorCode::Other("x".to_string())), 6);
}

#[test]
fn names_and_codes_round_trip() {
    for name in ["E_ARG", "E_NOENT", "E_PERM", "E_IO", "E_CLOSED", "E_UNSUPPORTED", "E_ELSE"] {
        assert_eq!(code_name(&map_code(name)), name);
    }
}
