//! The feature resolver versions a workspace can ask for.

use vstd::prelude::*;

verus! {

/// Workspace feature resolver version.
#[derive(Debug, Clone, Copy, PartialEq, Eq, Structural)]
pub enum Resolver {
    V1,
    V2,
    V3,
}

impl Resolver {
    /// The text written to the manifest's `resolver` field for this version.
    pub open spec fn spec_name(self) -> Seq<char> {
        match self {
            Resolver::V1 => seq!['1'],
            Resolver::V2 => seq!['2'],
            Resolver::V3 => seq!['3'],
        }
    }

    /// The newest resolver, used when the caller asks for none.
    pub open spec fn spec_newest() -> Resolver {
        Resolver::V3
    }

    /// The version in force when `requested` is what the caller asked for.
    pub open spec fn spec_or_newest(requested: Option<Resolver>) -> Resolver {
        match requested {
            Some(r) => r,
            None => Self::spec_newest(),
        }
    }

    /// The text written to the manifest's `resolver` field for this version.
    pub fn name(&self) -> (s: &'static str)
        ensures
            s@ == self.spec_name(),
    {
        proof {
            reveal_strlit("1");
            reveal_strlit("2");
            reveal_strlit("3");
        }
        match self {
            Resolver::V1 => {
                assert("1"@ =~= seq!['1']);
                "1"
            },
            Resolver::V2 => {
                assert("2"@ =~= seq!['2']);
                "2"
            },
            Resolver::V3 => {
                assert("3"@ =~= seq!['3']);
                "3"
            },
        }
    }

    /// The resolver to record: the requested one, or the newest by default.
    pub fn or_newest(requested: Option<Resolver>) -> (r: Resolver)
        ensures
            r == Self::spec_or_newest(requested),
    {
        match requested {
            Some(r) => r,
            None => Resolver::V3,
        }
    }
}

} // verus!
