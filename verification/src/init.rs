//! The command that initializes a workspace, without its file and process
//! work: from what the caller read to what it is to write.

use crate::discovery::{
    manifest_pattern, member_paths, mentions, relative_path, resolved_roots, spec_manifest_pattern,
};
use crate::document::{holds, no_nodes, parsed_nodes, KeyPath, Node};
use crate::manifest::{
    members_not_array, merged, no_workspace_table, package_path, verdict, Error, Manifest, Merged,
};
use crate::order::{ascending, texts};
use crate::resolver::Resolver;
use vstd::prelude::*;

verus! {

/// Initializes a new cargo workspace.
#[derive(Debug)]
pub struct Init {
    /// Path to the workspace root.
    pub path: String,
    /// Workspace feature resolver version; the newest where none is given.
    pub resolver: Option<Resolver>,
}

/// How a run ended.
#[derive(Debug)]
pub enum Outcome {
    /// The workspace had members already; nothing is to be written.
    AlreadyInitialized,
    /// The manifest to be written, and the members it now lists.
    Initialized { manifest: Manifest, members: Vec<String> },
}

/// The items that a run starts from: those of the manifest that was read,
/// none where there was no manifest, and `None` where its text is no TOML.
pub open spec fn starting_nodes(manifest: Option<&str>) -> Option<Map<KeyPath, Node>> {
    match manifest {
        Some(text) => parsed_nodes(text@),
        None => Some(no_nodes()),
    }
}

/// `member` is the relative path, under the workspace root, of a root that
/// some candidate resolved to; the empty path of the workspace root itself
/// counts only where that root is a package.
pub open spec fn is_discovered(
    outcomes: Seq<Option<String>>,
    workspace_root: Seq<char>,
    is_root_package: bool,
    member: Seq<char>,
) -> bool {
    (is_root_package || member.len() > 0) && exists|root: Seq<char>|
        #[trigger] mentions(outcomes, root) && relative_path(root, workspace_root) == Some(
            member,
        )
}

impl Init {
    /// The pattern that finds every candidate manifest under the path.
    pub fn candidates(&self) -> (pattern: String)
        ensures
            pattern@ == spec_manifest_pattern(self.path@),
    {
        manifest_pattern(self.path.as_str())
    }

    /// Computes what is to be written to the root manifest.
    ///
    /// `manifest` is the text of the root manifest, where there is one;
    /// `workspace_root` is the canonical path of the workspace root; and
    /// `outcomes` holds, for each candidate manifest found under it, the
    /// workspace root that the candidate resolved to, or `None` where it did
    /// not resolve. Such a candidate is passed over.
    pub fn run(&self, manifest: Option<&str>, workspace_root: &str, outcomes: &Vec<Option<String>>) -> (r:
        Result<Outcome, Error>)
        ensures
            match starting_nodes(manifest) {
                None => r matches Err(e) && e is Toml,
                Some(start) => match r {
                    Ok(Outcome::AlreadyInitialized) => verdict(start) is AlreadyInitialized,
                    Ok(Outcome::Initialized { manifest: written, members }) => {
                        &&& verdict(start) is Update
                        &&& ascending(texts(members@))
                        &&& forall|member: Seq<char>|
                            texts(members@).contains(member) <==> is_discovered(
                                outcomes@,
                                workspace_root@,
                                holds(start, package_path()),
                                member,
                            )
                        &&& written.nodes() == merged(
                            start,
                            texts(members@),
                            Resolver::spec_or_newest(self.resolver),
                        )
                    },
                    Err(Error::WorkspaceBadFormat(msg)) => {
                        ||| verdict(start) is NoWorkspaceTable && msg@ == no_workspace_table()
                        ||| verdict(start) is MembersNotArray && msg@ == members_not_array()
                    },
                    Err(Error::Toml(_)) => false,
                },
            },
    {
        let mut document = match manifest {
            Some(text) => match Manifest::parse(text) {
                Ok(document) => document,
                Err(e) => {
                    return Err(e);
                },
            },
            None => Manifest::new(),
        };
        let is_root_package = document.has_package();
        let roots = resolved_roots(outcomes);
        let members = member_paths(&roots, workspace_root, is_root_package);
        proof {
            assert forall|member: Seq<char>|
                texts(members@).contains(member) <==> is_discovered(
                    outcomes@,
                    workspace_root@,
                    is_root_package,
                    member,
                ) by {
                if texts(members@).contains(member) {
                    let i = choose|i: int|
                        0 <= i < texts(roots@).len() && relative_path(
                            #[trigger] texts(roots@)[i],
                            workspace_root@,
                        ) == Some(member);
                    assert(texts(roots@).contains(texts(roots@)[i]));
                    assert(mentions(outcomes@, texts(roots@)[i]));
                }
                if is_discovered(outcomes@, workspace_root@, is_root_package, member) {
                    let root = choose|root: Seq<char>|
                        #[trigger] mentions(outcomes@, root) && relative_path(
                            root,
                            workspace_root@,
                        ) == Some(member);
                    assert(texts(roots@).contains(root));
                    let i = choose|i: int| 0 <= i < texts(roots@).len() && texts(roots@)[i] == root;
                    assert(relative_path(texts(roots@)[i], workspace_root@) == Some(member));
                }
            }
        }
        match document.merge(&members, self.resolver) {
            Ok(Merged::AlreadyInitialized) => Ok(Outcome::AlreadyInitialized),
            Ok(Merged::Updated) => Ok(Outcome::Initialized { manifest: document, members }),
            Err(e) => Err(e),
        }
    }
}

} // verus!
