//! How the stages of a pipeline are wired, and which redirections an
//! external command may have.

use vstd::prelude::*;
use crate::broker::path_allowed;
use crate::shell::{RedirSpec, RedirView};
use crate::text::listed;

verus! {

/// Exit status of a stage whose input redirection is not on the read
/// allowlist.
pub const INPUT_NOT_ALLOWED: i32 = 13;

/// Exit status of a stage whose output redirection is not on the write
/// allowlist.
pub const OUTPUT_NOT_ALLOWED: i32 = 15;

/// The number of pipes between `n` stages.
pub fn pipe_count(n: usize) -> (r: usize)
    ensures
        n == 0 ==> r == 0,
        n > 0 ==> r == n - 1,
{
    if n == 0 {
        0
    } else {
        n - 1
    }
}

/// The pipes of stage `i` of `n`: the one it reads its standard input
/// from and the one it writes its standard output to. The first stage
/// keeps the shell's input and the last one the shell's output.
pub fn stage_wiring(i: usize, n: usize) -> (r: (Option<usize>, Option<usize>))
    requires
        i < n,
    ensures
        r.0 == (if i > 0 {
            Some((i - 1) as usize)
        } else {
            None
        }),
        r.1 == (if i + 1 < n {
            Some(i)
        } else {
            None
        }),
{
    let input = if i > 0 {
        Some(i - 1)
    } else {
        None
    };
    let output = if i < n - 1 {
        Some(i)
    } else {
        None
    };
    (input, output)
}

/// Whether an external command may have the redirections `redir`: its
/// input file has to be on either allowlist, since what may be written
/// may be read, and its output file on the write allowlist. The input is
/// looked at first.
pub open spec fn spec_external_redirects(
    redir: RedirView,
    allow_read: Seq<String>,
    allow_write: Seq<String>,
) -> Result<(), i32> {
    if redir.in_file is Some && !listed(allow_read, redir.in_file->Some_0) && !listed(
        allow_write,
        redir.in_file->Some_0,
    ) {
        Err(INPUT_NOT_ALLOWED)
    } else if redir.out_file is Some && !listed(allow_write, redir.out_file->Some_0.0) {
        Err(OUTPUT_NOT_ALLOWED)
    } else {
        Ok(())
    }
}

/// Checks the redirections of an external command against the
/// allowlists; where one is refused, the stage ends with the status given.
pub fn external_redirects(redir: &RedirSpec, allow_read: &[String], allow_write: &[String]) -> (r:
    Result<(), i32>)
    ensures
        r == spec_external_redirects(redir@, allow_read@, allow_write@),
{
    match &redir.in_file {
        Some(p) => {
            if !path_allowed(allow_read, p.as_str()) && !path_allowed(allow_write, p.as_str()) {
                return Err(INPUT_NOT_ALLOWED);
            }
        },
        None => {},
    }
    match &redir.out_file {
        Some(o) => {
            if !path_allowed(allow_write, o.0.as_str()) {
                return Err(OUTPUT_NOT_ALLOWED);
            }
        },
        None => {},
    }
    Ok(())
}

/// The status of a pipeline whose stages ended as `ended` says, in the
/// order in which they were reaped: that of the last stage that exited,
/// 0 where none did.
pub open spec fn spec_pipeline_status(ended: Seq<Option<i32>>) -> i32
    decreases ended.len(),
{
    if ended.len() == 0 {
        0
    } else {
        match ended.last() {
            Some(code) => code,
            None => spec_pipeline_status(ended.drop_last()),
        }
    }
}

/// The status of a pipeline from the statuses of its stages; `None`
/// stands for a stage that did not exit by itself.
pub fn pipeline_status(ended: &[Option<i32>]) -> (r: i32)
    ensures
        r == spec_pipeline_status(ended@),
{
    let mut status: i32 = 0;
    let mut i: usize = 0;
    assert(ended@.take(0) =~= Seq::<Option<i32>>::empty());
    while i < ended.len()
        invariant
            i <= ended@.len(),
            status == spec_pipeline_status(ended@.take(i as int)),
        decreases ended@.len() - i,
    {
        proof {
            assert(ended@.take(i + 1).drop_last() =~= ended@.take(i as int));
            assert(ended@.take(i + 1).last() == ended@[i as int]);
        }
        match ended[i] {
            Some(code) => {
                status = code;
            },
            None => {},
        }
        i += 1;
    }
    assert(ended@.take(i as int) =~= ended@);
    status
}

} // verus!
