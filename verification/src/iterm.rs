//! Imported terminal profiles: the rule that turns the plain fields read
//! from the preferences file into a profile entry. Reading the preferences
//! file itself happens outside this crate.

use vstd::prelude::*;

use crate::cmdline::opt_view;

verus! {

/// One imported profile: its display name, stable identifier, and optional
/// startup command and working directory.
pub struct ITermProfile {
    pub name: String,
    pub guid: String,
    pub command: Option<String>,
    pub working_directory: Option<String>,
}

/// The mathematical value of one profile.
#[verifier::ext_equal]
pub ghost struct ITermProfileView {
    pub name: Seq<char>,
    pub guid: Seq<char>,
    pub command: Option<Seq<char>>,
    pub working_directory: Option<Seq<char>>,
}

impl View for ITermProfile {
    type V = ITermProfileView;

    open spec fn view(&self) -> ITermProfileView {
        ITermProfileView {
            name: self.name@,
            guid: self.guid@,
            command: opt_view(self.command),
            working_directory: opt_view(self.working_directory),
        }
    }
}

/// An optional field kept only when non-empty.
pub open spec fn spec_nonempty_opt(v: Option<Seq<char>>) -> Option<Seq<char>> {
    match v {
        Some(s) => if s.len() > 0 {
            Some(s)
        } else {
            None
        },
        None => None,
    }
}

/// The profile a bookmark's plain fields yield, if any: a missing name
/// reads `Unnamed`, empty commands and directories are dropped, and a
/// bookmark without an identifier yields nothing.
pub open spec fn spec_profile_of_fields(
    name: Option<Seq<char>>,
    guid: Option<Seq<char>>,
    command: Option<Seq<char>>,
    working_directory: Option<Seq<char>>,
) -> Option<ITermProfileView> {
    let name2 = match name {
        Some(n) => n,
        None => "Unnamed"@,
    };
    let guid2 = match guid {
        Some(g) => g,
        None => Seq::<char>::empty(),
    };
    if guid2.len() > 0 {
        Some(
            ITermProfileView {
                name: name2,
                guid: guid2,
                command: spec_nonempty_opt(command),
                working_directory: spec_nonempty_opt(working_directory),
            },
        )
    } else {
        None
    }
}

fn nonempty_opt(v: Option<String>) -> (r: Option<String>)
    ensures
        opt_view(r) == spec_nonempty_opt(opt_view(v)),
{
    match v {
        Some(s) => {
            if s.as_str().unicode_len() > 0 {
                Some(s)
            } else {
                None
            }
        }
        None => None,
    }
}

/// Builds a profile from the plain fields of one bookmark.
pub fn iterm_profile_from_fields(
    name: Option<String>,
    guid: Option<String>,
    command: Option<String>,
    working_directory: Option<String>,
) -> (r: Option<ITermProfile>)
    ensures
        (match r {
            Some(p) => Some(p@),
            None => None,
        }) == spec_profile_of_fields(
            opt_view(name),
            opt_view(guid),
            opt_view(command),
            opt_view(working_directory),
        ),
{
    let name2 = match name {
        Some(n) => n,
        None => "Unnamed".to_owned(),
    };
    let guid2 = match guid {
        Some(g) => g,
        None => String::new(),
    };
    if guid2.as_str().unicode_len() > 0 {
        Some(
            ITermProfile {
                name: name2,
                guid: guid2,
                command: nonempty_opt(command),
                working_directory: nonempty_opt(working_directory),
            },
        )
    } else {
        None
    }
}

} // verus!
