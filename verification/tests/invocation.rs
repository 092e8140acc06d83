use llmsh_vfs::invocation::{decide, parse_invocation, ArgError, Invocation};

fn strings(v: &[&str]) -> Vec<String> {
    v.iter().map(|s| s.to_string()).collect()
}

#[test]
fn origin_with_allowlists() {
    let args = strings(&["-i", "a", "--client-vfs-fd", "7", "--output", "b", "-i", "c", "-o", "d"]);
    match parse_invocation(&args) {
        Ok(Invocation::Origin { client_fd, allow_read, allow_write }) => {
            assert_eq!(client_fd, 7);
            assert_eq!(allow_read, strings(&["a", "c"]));
            assert_eq!(allow_write, strings(&["b", "d"]));
        }
        _ => panic!("expected an origin"),
    }
    match parse_invocation(&strings(&["--client-vfs-fd", "3"])) {
        Ok(Invocation::Origin { client_fd, allow_read, allow_write }) => {
            assert_eq!(client_fd, 3);
            assert!(allow_read.is_empty() && allow_write.is_empty());
        }
        _ => panic!("expected an origin"),
    }
}

#[test]
fn bridge_takes_two_sockets_and_no_list() {
    match parse_invocation(&strings(&["--vfs-fd", "9", "--client-vfs-fd", "8"])) {
        Ok(Invocation::Bridge { client_fd, upstream_fd }) => {
            assert_eq!((client_fd, upstream_fd), (8, 9))
        }
        _ => panic!("expected a bridge"),
    }
    let with_list = strings(&["--client-vfs-fd", "8", "--vfs-fd", "9", "-i", "a"]);
    assert!(matches!(parse_invocation(&with_list), Err(ArgError::BridgeWithLists)));
    let no_client = strings(&["--vfs-fd", "9"]);
    assert!(matches!(parse_invocation(&no_client), Err(ArgError::MissingClientFd)));
    assert!(matches!(
        decide(None, Some(1), strings(&["x"]), vec![]),
        Err(ArgError::BridgeWithLists)
    ));
}

#[test]
fn arguments_at_fault() {
    assert!(matches!(parse_invocation(&[]), Err(ArgError::MissingClientFd)));
    assert!(matches!(
        parse_invocation(&strings(&["-i", "a"])),
        Err(ArgError::MissingClientFd)
    ));
    assert!(matches!(
        parse_invocation(&strings(&["--client-vfs-fd"])),
        Err(ArgError::MissingValue { at: 0 })
    ));
    assert!(matches!(
        parse_invocation(&strings(&["--client-vfs-fd", "3", "-o"])),
        Err(ArgError::MissingValue { at: 2 })
    ));
    assert!(matches!(
        parse_invocation(&strings(&["--client-vfs-fd", "x3"])),
        Err(ArgError::InvalidFd { at: 1 })
    ));
    assert!(matches!(
        parse_invocation(&strings(&["--client-vfs-fd", "3", "--bogus"])),
        Err(ArgError::UnknownArg { at: 2 })
    ));
    assert!(matches!(parse_invocation(&strings(&["-h", "--bogus"])), Ok(Invocation::Help)));
    assert!(matches!(
        parse_invocation(&strings(&["--bogus", "--help"])),
        Err(ArgError::UnknownArg { at: 0 })
    ));
}
