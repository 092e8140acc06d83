//! How the broker is started: as the origin of files, with its two
//! allowlists, or as a bridge between two sockets.

use vstd::prelude::*;
use crate::shell::texts;
use crate::text::{i32_of_text, read_i32, same_text};

verus! {

/// What the broker's arguments ask for.
pub enum Invocation {
    /// Print how the broker is started, and do nothing else.
    Help,
    /// Serve the files of the two allowlists on socket `client_fd`.
    Origin { client_fd: i32, allow_read: Vec<String>, allow_write: Vec<String> },
    /// Copy bytes between `client_fd` and `upstream_fd`.
    Bridge { client_fd: i32, upstream_fd: i32 },
}

/// Mathematical value of an [`Invocation`].
pub enum InvocationView {
    Help,
    Origin { client_fd: i32, allow_read: Seq<Seq<char>>, allow_write: Seq<Seq<char>> },
    Bridge { client_fd: i32, upstream_fd: i32 },
}

impl View for Invocation {
    type V = InvocationView;

    open spec fn view(&self) -> InvocationView {
        match self {
            Invocation::Help => InvocationView::Help,
            Invocation::Origin { client_fd, allow_read, allow_write } => InvocationView::Origin {
                client_fd: *client_fd,
                allow_read: texts(allow_read@),
                allow_write: texts(allow_write@),
            },
            Invocation::Bridge { client_fd, upstream_fd } => InvocationView::Bridge {
                client_fd: *client_fd,
                upstream_fd: *upstream_fd,
            },
        }
    }
}

/// Why the broker's arguments were refused; `at` is the position of the
/// argument at fault.
#[derive(Debug, Clone, Copy, PartialEq, Eq, Structural)]
pub enum ArgError {
    /// The flag at `at` is the last argument and has no value.
    MissingValue { at: usize },
    /// The value at `at` is no descriptor number.
    InvalidFd { at: usize },
    /// The argument at `at` is no flag of the broker.
    UnknownArg { at: usize },
    /// An upstream socket was given together with an allowlist.
    BridgeWithLists,
    /// No downstream socket was given.
    MissingClientFd,
}

/// What the arguments read so far have set.
pub struct ArgScan {
    pub client_fd: Option<i32>,
    pub upstream_fd: Option<i32>,
    pub ins: Seq<Seq<char>>,
    pub outs: Seq<Seq<char>>,
}

/// How reading the arguments ended.
pub enum Scanned {
    /// Every argument was read.
    Done(ArgScan),
    /// A request for help was met.
    Help,
    /// An argument was refused.
    Refused(ArgError),
}

/// Reads the arguments from position `i` on.
pub open spec fn spec_scan_args(args: Seq<Seq<char>>, i: int, acc: ArgScan) -> Scanned
    decreases args.len() - i,
{
    if i < 0 || i >= args.len() {
        Scanned::Done(acc)
    } else if args[i] == "--client-vfs-fd"@ || args[i] == "--vfs-fd"@ {
        if i + 1 >= args.len() {
            Scanned::Refused(ArgError::MissingValue { at: i as usize })
        } else {
            match i32_of_text(args[i + 1]) {
                None => Scanned::Refused(ArgError::InvalidFd { at: (i + 1) as usize }),
                Some(fd) => spec_scan_args(
                    args,
                    i + 2,
                    if args[i] == "--client-vfs-fd"@ {
                        ArgScan { client_fd: Some(fd), ..acc }
                    } else {
                        ArgScan { upstream_fd: Some(fd), ..acc }
                    },
                ),
            }
        }
    } else if args[i] == "-i"@ || args[i] == "--input"@ {
        if i + 1 >= args.len() {
            Scanned::Refused(ArgError::MissingValue { at: i as usize })
        } else {
            spec_scan_args(args, i + 2, ArgScan { ins: acc.ins.push(args[i + 1]), ..acc })
        }
    } else if args[i] == "-o"@ || args[i] == "--output"@ {
        if i + 1 >= args.len() {
            Scanned::Refused(ArgError::MissingValue { at: i as usize })
        } else {
            spec_scan_args(args, i + 2, ArgScan { outs: acc.outs.push(args[i + 1]), ..acc })
        }
    } else if args[i] == "-h"@ || args[i] == "--help"@ {
        Scanned::Help
    } else {
        Scanned::Refused(ArgError::UnknownArg { at: i as usize })
    }
}

/// What the settings ask for, once every argument has been read: a bridge
/// where an upstream socket was given, which no allowlist may accompany;
/// the origin otherwise. Both need the downstream socket.
pub open spec fn spec_decide(scan: ArgScan) -> Result<InvocationView, ArgError> {
    if scan.upstream_fd is Some && (scan.ins.len() > 0 || scan.outs.len() > 0) {
        Err(ArgError::BridgeWithLists)
    } else if scan.client_fd is None {
        Err(ArgError::MissingClientFd)
    } else if scan.upstream_fd is Some {
        Ok(
            InvocationView::Bridge {
                client_fd: scan.client_fd->Some_0,
                upstream_fd: scan.upstream_fd->Some_0,
            },
        )
    } else {
        Ok(
            InvocationView::Origin {
                client_fd: scan.client_fd->Some_0,
                allow_read: scan.ins,
                allow_write: scan.outs,
            },
        )
    }
}

/// What the broker's arguments ask for.
pub open spec fn spec_invocation(args: Seq<Seq<char>>) -> Result<InvocationView, ArgError> {
    match spec_scan_args(
        args,
        0,
        ArgScan { client_fd: None, upstream_fd: None, ins: Seq::empty(), outs: Seq::empty() },
    ) {
        Scanned::Done(scan) => spec_decide(scan),
        Scanned::Help => Ok(InvocationView::Help),
        Scanned::Refused(e) => Err(e),
    }
}

/// Decides between origin and bridge once every argument has been read.
pub fn decide(
    client_fd: Option<i32>,
    upstream_fd: Option<i32>,
    ins: Vec<String>,
    outs: Vec<String>,
) -> (r: Result<Invocation, ArgError>)
    ensures
        match r {
            Ok(inv) => spec_decide(
                ArgScan { client_fd, upstream_fd, ins: texts(ins@), outs: texts(outs@) },
            ) == Ok::<InvocationView, ArgError>(inv@),
            Err(e) => spec_decide(
                ArgScan { client_fd, upstream_fd, ins: texts(ins@), outs: texts(outs@) },
            ) == Err::<InvocationView, ArgError>(e),
        },
{
    if upstream_fd.is_some() && (ins.len() > 0 || outs.len() > 0) {
        return Err(ArgError::BridgeWithLists);
    }
    let cfd = match client_fd {
        Some(fd) => fd,
        None => {
            return Err(ArgError::MissingClientFd);
        },
    };
    match upstream_fd {
        Some(up) => Ok(Invocation::Bridge { client_fd: cfd, upstream_fd: up }),
        None => Ok(Invocation::Origin { client_fd: cfd, allow_read: ins, allow_write: outs }),
    }
}

/// Reads the broker's arguments.
///
/// `--client-vfs-fd N` names the downstream socket and `--vfs-fd N` the
/// upstream one; `-i PATH` and `-o PATH`, each as often as needed, add to
/// the read and to the write allowlist. The first argument at fault is
/// reported, and a request for help ends the reading.
pub fn parse_invocation(args: &[String]) -> (r: Result<Invocation, ArgError>)
    ensures
        match r {
            Ok(inv) => spec_invocation(texts(args@)) == Ok::<InvocationView, ArgError>(inv@),
            Err(e) => spec_invocation(texts(args@)) == Err::<InvocationView, ArgError>(e),
        },
{
    let mut client_fd: Option<i32> = None;
    let mut upstream_fd: Option<i32> = None;
    let mut ins: Vec<String> = Vec::new();
    let mut outs: Vec<String> = Vec::new();
    let mut i: usize = 0;
    let ghost all = texts(args@);
    let ghost start = ArgScan {
        client_fd: None,
        upstream_fd: None,
        ins: Seq::empty(),
        outs: Seq::empty(),
    };
    assert(texts(ins@) =~= Seq::<Seq<char>>::empty());
    assert(texts(outs@) =~= Seq::<Seq<char>>::empty());
    while i < args.len()
        invariant
            i <= args@.len(),
            all == texts(args@),
            start == (ArgScan {
                client_fd: None,
                upstream_fd: None,
                ins: Seq::empty(),
                outs: Seq::empty(),
            }),
            spec_scan_args(
                all,
                i as int,
                ArgScan { client_fd, upstream_fd, ins: texts(ins@), outs: texts(outs@) },
            ) == spec_scan_args(all, 0, start),
        decreases args@.len() - i,
    {
        let a = args[i].as_str();
        let to_client = same_text(a, "--client-vfs-fd");
        if to_client || same_text(a, "--vfs-fd") {
            if i + 1 >= args.len() {
                return Err(ArgError::MissingValue { at: i });
            }
            match read_i32(args[i + 1].as_str()) {
                None => {
                    return Err(ArgError::InvalidFd { at: i + 1 });
                },
                Some(fd) => {
                    if to_client {
                        client_fd = Some(fd);
                    } else {
                        upstream_fd = Some(fd);
                    }
                },
            }
            i += 2;
        } else if same_text(a, "-i") || same_text(a, "--input") {
            if i + 1 >= args.len() {
                return Err(ArgError::MissingValue { at: i });
            }
            let ghost before = texts(ins@);
            ins.push(args[i + 1].clone());
            assert(texts(ins@) =~= before.push(all[i + 1]));
            i += 2;
        } else if same_text(a, "-o") || same_text(a, "--output") {
            if i + 1 >= args.len() {
                return Err(ArgError::MissingValue { at: i });
            }
            let ghost before = texts(outs@);
            outs.push(args[i + 1].clone());
            assert(texts(outs@) =~= before.push(all[i + 1]));
            i += 2;
        } else if same_text(a, "-h") || same_text(a, "--help") {
            return Ok(Invocation::Help);
        } else {
            return Err(ArgError::UnknownArg { at: i });
        }
    }
    decide(client_fd, upstream_fd, ins, outs)
}

} // verus!
