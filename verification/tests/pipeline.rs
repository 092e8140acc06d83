use llmsh_vfs::pipeline::{
    external_redirects, pipe_count, pipeline_status, stage_wiring, INPUT_NOT_ALLOWED,
    OUTPUT_NOT_ALLOWED,
};
use llmsh_vfs::shell::RedirSpec;

#[test]
fn stages_are_chained_by_pipes() {
    assert_eq!(pipe_count(0), 0);
    assert_eq!(pipe_count(1), 0);
    assert_eq!(pipe_count(4), 3);
    assert_eq!(stage_wiring(0, 1), (None, None));
    assert_eq!(stage_wiring(0, 3), (None, Some(0)));
    assert_eq!(stage_wiring(1, 3), (Some(0), Some(1)));
    assert_eq!(stage_wiring(2, 3), (Some(1), None));
}

#[test]
fn external_commands_keep_to_the_allowlists() {
    let reads = vec!["in.txt".to_string()];
    let writes = vec!["out.txt".to_string()];
    let redir = |i: Option<&str>, o: Option<&str>| RedirSpec {
        in_file: i.map(|s| s.to_string()),
        out_file: o.map(|s| (s.to_string(), false)),
    };
    assert_eq!(external_redirects(&redir(None, None), &reads, &writes), Ok(()));
    assert_eq!(external_redirects(&redir(Some("in.txt"), Some("out.txt")), &reads, &writes), Ok(()));
    assert_eq!(external_redirects(&redir(Some("out.txt"), None), &reads, &writes), Ok(()));
    assert_eq!(external_redirects(&redir(Some("nope.txt"), None), &reads, &writes), Err(13));
    assert_eq!(external_redirects(&redir(None, Some("in.txt")), &reads, &writes), Err(15));
    assert_eq!(external_redirects(&redir(Some("x"), Some("y")), &reads, &writes), Err(13));
    assert_eq!(external_redirects(&redir(Some("in.txt"), Some("y")), &[], &[]), Err(13));
    assert_eq!((INPUT_NOT_ALLOWED, OUTPUT_NOT_ALLOWED), (13, 15));
}

#[test]
fn pipeline_ends_with_the_last_status_reaped() {
    assert_eq!(pipeline_status(&[]), 0);
    assert_eq!(pipeline_status(&[Some(2)]), 2);
    assert_eq!(pipeline_status(&[Some(2), Some(0)]), 0);
    assert_eq!(pipeline_status(&[Some(3), None]), 3);
    assert_eq!(pipeline_status(&[None, None]), 0);
    assert_eq!(pipeline_status(&[None, Some(1), None, Some(7), None]), 7);
}
