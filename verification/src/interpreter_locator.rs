//! Candidate interpreter invocations for the backend script.
//!
//! The bare interpreter name comes first — at spawn time it resolves through
//! the environment's executable search path, which is the cheapest and most
//! likely route.  On Windows two conventional installation locations follow,
//! built from the `ProgramFiles` and `ProgramFiles(x86)` variables when they
//! are set.  Other platforms get the bare name only.

use vstd::prelude::*;
use vstd::string::StringExecFns;

verus! {

/// The host platform, as far as interpreter discovery cares.
#[derive(Clone, Copy, PartialEq, Eq, Structural, Debug)]
pub enum Platform {
    Windows,
    Other,
}

/// The bare interpreter name, resolved through the search path at spawn time.
pub open spec fn bare_interpreter() -> Seq<char> {
    "node"@
}

/// The conventional Node.js interpreter location under a Windows
/// program-files root.
pub open spec fn nodejs_suffix() -> Seq<char> {
    "/nodejs/node.exe"@
}

/// The candidate list: the bare name always and first; on Windows also the
/// conventional install under `ProgramFiles`, then the one under
/// `ProgramFiles(x86)`, each only when the variable is set.
pub open spec fn interpreter_candidates_spec(
    platform: Platform,
    program_files: Option<Seq<char>>,
    program_files_x86: Option<Seq<char>>,
) -> Seq<Seq<char>> {
    seq![bare_interpreter()] + (if platform is Windows {
        (match program_files {
            Some(d) => seq![d + nodejs_suffix()],
            None => Seq::<Seq<char>>::empty(),
        }) + (match program_files_x86 {
            Some(d) => seq![d + nodejs_suffix()],
            None => Seq::<Seq<char>>::empty(),
        })
    } else {
        Seq::<Seq<char>>::empty()
    })
}

/// Builds the interpreter candidate list for `platform`, where
/// `program_files` and `program_files_x86` hold the values of the two
/// Windows environment variables when set.  Besides the full list, the
/// contract states the two platform laws: off Windows the list is exactly
/// the bare name, whatever the variables hold; on Windows with both
/// variables set it is exactly the three candidates in the fixed order.
pub fn interpreter_candidates(
    platform: Platform,
    program_files: Option<&str>,
    program_files_x86: Option<&str>,
) -> (r: Vec<String>)
    ensures
        r.deep_view() == interpreter_candidates_spec(
            platform,
            program_files.deep_view(),
            program_files_x86.deep_view(),
        ),
        platform is Other ==> r.deep_view() == seq![bare_interpreter()],
        platform is Windows && program_files is Some && program_files_x86 is Some
            ==> r.deep_view() == seq![
            bare_interpreter(),
            program_files.unwrap()@ + nodejs_suffix(),
            program_files_x86.unwrap()@ + nodejs_suffix(),
        ],
{
    let mut r: Vec<String> = Vec::new();
    r.push("node".to_owned());
    match platform {
        Platform::Windows => {
            match program_files {
                Some(d) => r.push(d.to_owned().concat("/nodejs/node.exe")),
                None => {},
            }
            match program_files_x86 {
                Some(d) => r.push(d.to_owned().concat("/nodejs/node.exe")),
                None => {},
            }
        },
        Platform::Other => {},
    }
    proof {
        assert(r.deep_view() =~= interpreter_candidates_spec(
            platform,
            program_files.deep_view(),
            program_files_x86.deep_view(),
        ));
        if platform is Other {
            assert(r.deep_view() =~= seq![bare_interpreter()]);
        }
        if platform is Windows && program_files is Some && program_files_x86 is Some {
            assert(r.deep_view() =~= seq![
                bare_interpreter(),
                program_files.unwrap()@ + nodejs_suffix(),
                program_files_x86.unwrap()@ + nodejs_suffix(),
            ]);
        }
    }
    r
}

} // verus!
