//! The error taxonomy of the protocol and what a stage makes of it.

use vstd::prelude::*;
use crate::text::same_text;

verus! {

/// An error code as a stage sees it, decoded from its name on the wire.
#[derive(Debug)]
pub enum VfsErrorCode {
    EArg,
    ENoEnt,
    EPerm,
    EIO,
    EClosed,
    EUnsupported,
    Other(String),
}

/// Mathematical value of a [`VfsErrorCode`].
pub enum CodeView {
    EArg,
    ENoEnt,
    EPerm,
    EIO,
    EClosed,
    EUnsupported,
    Other(Seq<char>),
}

impl View for VfsErrorCode {
    type V = CodeView;

    open spec fn view(&self) -> CodeView {
        match self {
            VfsErrorCode::EArg => CodeView::EArg,
            VfsErrorCode::ENoEnt => CodeView::ENoEnt,
            VfsErrorCode::EPerm => CodeView::EPerm,
            VfsErrorCode::EIO => CodeView::EIO,
            VfsErrorCode::EClosed => CodeView::EClosed,
            VfsErrorCode::EUnsupported => CodeView::EUnsupported,
            VfsErrorCode::Other(s) => CodeView::Other(s@),
        }
    }
}

/// The code that a name on the wire stands for.
pub open spec fn spec_map_code(name: Seq<char>) -> CodeView {
    if name == "E_ARG"@ {
        CodeView::EArg
    } else if name == "E_NOENT"@ {
        CodeView::ENoEnt
    } else if name == "E_PERM"@ {
        CodeView::EPerm
    } else if name == "E_IO"@ {
        CodeView::EIO
    } else if name == "E_CLOSED"@ {
        CodeView::EClosed
    } else if name == "E_UNSUPPORTED"@ {
        CodeView::EUnsupported
    } else {
        CodeView::Other(name)
    }
}

/// The name under which a code travels.
pub open spec fn spec_code_name(code: CodeView) -> Seq<char> {
    match code {
        CodeView::EArg => "E_ARG"@,
        CodeView::ENoEnt => "E_NOENT"@,
        CodeView::EPerm => "E_PERM"@,
        CodeView::EIO => "E_IO"@,
        CodeView::EClosed => "E_CLOSED"@,
        CodeView::EUnsupported => "E_UNSUPPORTED"@,
        CodeView::Other(s) => s,
    }
}

/// The exit status that a stage ends with after an error of this code.
pub open spec fn spec_map_exit(code: CodeView) -> i32 {
    match code {
        CodeView::ENoEnt => 1,
        CodeView::EPerm => 2,
        CodeView::EArg => 2,
        CodeView::EIO => 3,
        CodeView::EClosed => 4,
        CodeView::EUnsupported => 5,
        CodeView::Other(_) => 6,
    }
}

/// Decodes an error code from its name; an unknown name is kept as it is.
pub fn map_code(c: &str) -> (r: VfsErrorCode)
    ensures
        r@ == spec_map_code(c@),
{
    if same_text(c, "E_ARG") {
        VfsErrorCode::EArg
    } else if same_text(c, "E_NOENT") {
        VfsErrorCode::ENoEnt
    } else if same_text(c, "E_PERM") {
        VfsErrorCode::EPerm
    } else if same_text(c, "E_IO") {
        VfsErrorCode::EIO
    } else if same_text(c, "E_CLOSED") {
        VfsErrorCode::EClosed
    } else if same_text(c, "E_UNSUPPORTED") {
        VfsErrorCode::EUnsupported
    } else {
        VfsErrorCode::Other(c.to_owned())
    }
}

/// The name under which `code` travels.
pub fn code_name(code: &VfsErrorCode) -> (r: String)
    ensures
        r@ == spec_code_name(code@),
{
    match code {
        VfsErrorCode::EArg => "E_ARG".to_owned(),
        VfsErrorCode::ENoEnt => "E_NOENT".to_owned(),
        VfsErrorCode::EPerm => "E_PERM".to_owned(),
        VfsErrorCode::EIO => "E_IO".to_owned(),
        VfsErrorCode::EClosed => "E_CLOSED".to_owned(),
        VfsErrorCode::EUnsupported => "E_UNSUPPORTED".to_owned(),
        VfsErrorCode::Other(s) => s.clone(),
    }
}

/// Maps an error code to the exit status of the stage that met it.
pub fn map_exit(code: &VfsErrorCode) -> (r: i32)
    ensures
        r == spec_map_exit(code@),
        1 <= r <= 6,
{
    match code {
        VfsErrorCode::ENoEnt => 1,
        VfsErrorCode::EPerm => 2,
        VfsErrorCode::EArg => 2,
        VfsErrorCode::EIO => 3,
        VfsErrorCode::EClosed => 4,
        VfsErrorCode::EUnsupported => 5,
        VfsErrorCode::Other(_) => 6,
    }
}

/// The six names of the taxonomy differ from one another.
pub proof fn code_names_differ()
    ensures
        "E_ARG"@.len() == 5,
        "E_NOENT"@.len() == 7,
        "E_PERM"@.len() == 6,
        "E_IO"@.len() == 4,
        "E_CLOSED"@.len() == 8,
        "E_UNSUPPORTED"@.len() == 13,
{
    reveal_strlit("E_ARG");
    reveal_strlit("E_NOENT");
    reveal_strlit("E_PERM");
    reveal_strlit("E_IO");
    reveal_strlit("E_CLOSED");
    reveal_strlit("E_UNSUPPORTED");
}

/// Each code of the taxonomy is decoded from its own name, and a name
/// outside the taxonomy is decoded as itself.
pub proof fn code_name_round_trip(code: CodeView)
    requires
        code matches CodeView::Other(s) ==> spec_map_code(s) == CodeView::Other(s),
    ensures
        spec_map_code(spec_code_name(code)) == code,
{
    code_names_differ();
}

} // verus!
