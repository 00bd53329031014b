//! The root manifest of a workspace and the merge of a member list into it.

use crate::document::{
    array_or_insert, document_nodes, document_text, empty_document, has_item, holds, holds_array,
    holds_table, no_nodes, or_insert, parse_document, parsed_nodes, push_string, render_document,
    string_or_insert, table_or_insert, values_at, Element, KeyPath, Node,
};
use crate::order::texts;
use crate::resolver::Resolver;
use toml_edit::{Document, TomlError};
use vstd::prelude::*;

verus! {

/// Where a manifest says that its directory is itself a package.
pub open spec fn package_path() -> KeyPath {
    seq!["package"@]
}

/// Where a manifest holds its workspace table.
pub open spec fn workspace_path() -> KeyPath {
    seq!["workspace"@]
}

/// Where a manifest lists the members of its workspace.
pub open spec fn members_path() -> KeyPath {
    seq!["workspace"@, "members"@]
}

/// Where a manifest names the feature resolver of its workspace.
pub open spec fn resolver_path() -> KeyPath {
    seq!["workspace"@, "resolver"@]
}

/// The message of the error for a `workspace` entry that is no table.
pub open spec fn no_workspace_table() -> Seq<char> {
    "no workspace table found in workspace Cargo.toml"@
}

/// The message of the error for a `members` entry that is no array.
pub open spec fn members_not_array() -> Seq<char> {
    "members was not an array in workspace Cargo.toml"@
}

/// Why a manifest could not be read or merged into.
#[derive(Debug)]
pub enum Error {
    /// The manifest is not a TOML document.
    Toml(TomlError),
    /// The manifest holds a `workspace` or `members` entry of the wrong shape.
    WorkspaceBadFormat(String),
}

/// What a merge did to a manifest.
#[derive(Debug, Clone, Copy, PartialEq, Eq, Structural)]
pub enum Merged {
    /// The member list was not empty: the manifest was left alone.
    AlreadyInitialized,
    /// The member list was filled in.
    Updated,
}

/// What a merge makes of a manifest, going by its items alone.
pub enum Verdict {
    /// The `workspace` entry is no table.
    NoWorkspaceTable,
    /// The `members` entry is no array.
    MembersNotArray,
    /// The member list holds something already.
    AlreadyInitialized,
    /// The member list is empty or missing, and will be filled in.
    Update,
}

/// The items with a workspace table, added where there was no such key.
pub open spec fn with_workspace(nodes: Map<KeyPath, Node>) -> Map<KeyPath, Node> {
    or_insert(nodes, workspace_path(), Node::Table)
}

/// The items with a resolver, set to `name` where there was no such key.
pub open spec fn with_resolver(nodes: Map<KeyPath, Node>, name: Seq<char>) -> Map<KeyPath, Node> {
    or_insert(nodes, resolver_path(), Node::Text(name))
}

/// The values of a member list that holds `members`: each on a line of its
/// own, indented by four spaces, and a comma and a line break after the
/// last.
pub open spec fn member_entries(members: Seq<Seq<char>>) -> Seq<Element> {
    Seq::new(
        members.len(),
        |i: int|
            Element::Text {
                prefix: Some("\n    "@),
                text: members[i],
                suffix: Some(
                    if i + 1 == members.len() {
                        ",\n"@
                    } else {
                        ""@
                    },
                ),
            },
    )
}

/// What a merge makes of a manifest with these items: a `workspace` entry
/// that is no table and a `members` entry that is no array are errors, a
/// member list that holds something is left alone, and a member list that
/// is empty or missing is filled in.
pub open spec fn verdict(nodes: Map<KeyPath, Node>) -> Verdict {
    if nodes.contains_key(workspace_path()) && !holds_table(nodes, workspace_path()) {
        Verdict::NoWorkspaceTable
    } else if nodes.contains_key(members_path()) && !holds_array(nodes, members_path()) {
        Verdict::MembersNotArray
    } else if nodes.contains_key(members_path()) && values_at(nodes, members_path()).len() > 0 {
        Verdict::AlreadyInitialized
    } else {
        Verdict::Update
    }
}

/// The items of a manifest after a merge of `members` and `resolver` into
/// one that held `nodes`: the same items, unless the member list is to be
/// filled in.
pub open spec fn merged(nodes: Map<KeyPath, Node>, members: Seq<Seq<char>>, resolver: Resolver) -> Map<
    KeyPath,
    Node,
> {
    match verdict(nodes) {
        Verdict::Update => with_resolver(
            with_workspace(nodes).insert(members_path(), Node::Array(member_entries(members))),
            resolver.spec_name(),
        ),
        _ => nodes,
    }
}

/// Whether a merge of `members` leaves a manifest with these items exactly
/// as it was. It does so whenever it has nothing to fill in; and where the
/// member list is empty, if it has no member to add and finds every key
/// that it looks for.
pub open spec fn leaves_alone(nodes: Map<KeyPath, Node>, members: Seq<Seq<char>>) -> bool {
    match verdict(nodes) {
        Verdict::Update => nodes.contains_key(workspace_path()) && nodes.contains_key(
            members_path(),
        ) && nodes.contains_key(resolver_path()) && members.len() == 0,
        _ => true,
    }
}

/// Whether a merge reports `result` for a manifest it judged as `verdict`.
pub open spec fn reports(result: Result<Merged, Error>, verdict: Verdict) -> bool {
    match verdict {
        Verdict::NoWorkspaceTable => result matches Err(Error::WorkspaceBadFormat(msg)) && msg@
            == no_workspace_table(),
        Verdict::MembersNotArray => result matches Err(Error::WorkspaceBadFormat(msg)) && msg@
            == members_not_array(),
        Verdict::AlreadyInitialized => result == Ok::<Merged, Error>(Merged::AlreadyInitialized),
        Verdict::Update => result == Ok::<Merged, Error>(Merged::Updated),
    }
}

/// The root manifest of a workspace, held as an editable document.
#[derive(Debug)]
pub struct Manifest {
    doc: Document,
}

impl Manifest {
    /// The items of the manifest, by their paths of keys.
    pub closed spec fn nodes(&self) -> Map<KeyPath, Node> {
        document_nodes(self.doc)
    }

    /// The text of the manifest.
    pub closed spec fn text(&self) -> Seq<char> {
        document_text(self.doc)
    }

    /// A manifest without any entry.
    pub fn new() -> (m: Manifest)
        ensures
            m.nodes() == no_nodes(),
    {
        Manifest { doc: empty_document() }
    }

    /// Reads a manifest from its text.
    pub fn parse(text: &str) -> (r: Result<Manifest, Error>)
        ensures
            match r {
                Ok(m) => parsed_nodes(text@) == Some(m.nodes()),
                Err(e) => e is Toml && parsed_nodes(text@) is None,
            },
    {
        match parse_document(text) {
            Ok(doc) => Ok(Manifest { doc }),
            Err(e) => Err(Error::Toml(e)),
        }
    }

    /// Whether the manifest has a `package` entry, that is, whether the
    /// root of the workspace is a package of its own.
    pub fn has_package(&self) -> (b: bool)
        ensures
            b == holds(self.nodes(), package_path()),
    {
        has_item(&self.doc, "package")
    }

    /// Merges a member list and a resolver into the manifest.
    ///
    /// A `workspace` table and a `members` array are added where the keys are
    /// missing. A member list that holds something already is left alone, and
    /// so is the rest of the manifest. An empty one is filled with `members`,
    /// and the resolver is set to the requested one, or to the newest, unless
    /// the manifest names one already.
    pub fn merge(&mut self, members: &Vec<String>, resolver: Option<Resolver>) -> (r: Result<
        Merged,
        Error,
    >)
        ensures
            reports(r, verdict(old(self).nodes())),
            final(self).nodes() == merged(
                old(self).nodes(),
                texts(members@),
                Resolver::spec_or_newest(resolver),
            ),
            leaves_alone(old(self).nodes(), texts(members@)) ==> *final(self) == *old(self),
    {
        proof {
            lemma_paths_differ();
            assert(seq!["workspace"@] =~= workspace_path());
            assert(seq!["workspace"@, "members"@] =~= members_path());
            assert(seq!["workspace"@, "resolver"@] =~= resolver_path());
            assert(members_path().take(1) =~= workspace_path());
        }
        if !table_or_insert(&mut self.doc, "workspace") {
            return Err(
                Error::WorkspaceBadFormat(
                    "no workspace table found in workspace Cargo.toml".to_owned(),
                ),
            );
        }
        let len = match array_or_insert(&mut self.doc, "workspace", "members") {
            Some(len) => len,
            None => {
                return Err(
                    Error::WorkspaceBadFormat(
                        "members was not an array in workspace Cargo.toml".to_owned(),
                    ),
                );
            },
        };
        let ghost listed = self.nodes();
        if len != 0 {
            return Ok(Merged::AlreadyInitialized);
        }
        let ghost at_list = self.doc;
        let ghost entries = member_entries(texts(members@));
        let count = members.len();
        let mut i: usize = 0;
        assert(values_at(listed, members_path()) =~= entries.take(0));
        while i < count
            invariant
                i <= count,
                count == members.len(),
                entries == member_entries(texts(members@)),
                holds_table(listed, workspace_path()),
                holds_array(listed, members_path()),
                workspace_path() != members_path(),
                seq!["workspace"@] == workspace_path(),
                seq!["workspace"@, "members"@] == members_path(),
                i == 0 ==> self.doc == at_list,
                self.nodes() == listed.insert(members_path(), Node::Array(entries.take(i as int))),
            decreases count - i,
        {
            let suffix = if i + 1 == count {
                ",\n"
            } else {
                ""
            };
            push_string(
                &mut self.doc,
                "workspace",
                "members",
                members[i].clone(),
                "\n    ",
                suffix,
            );
            assert(entries.take(i as int).push(entries[i as int]) =~= entries.take(i + 1));
            i = i + 1;
        }
        assert(entries.take(count as int) =~= entries);
        string_or_insert(&mut self.doc, "workspace", "resolver", Resolver::or_newest(resolver).name());
        Ok(Merged::Updated)
    }

    /// The text of the manifest, to be written back.
    pub fn render(&self) -> (text: String)
        ensures
            text@ == self.text(),
    {
        render_document(&self.doc)
    }
}

/// The four paths that a merge looks at are different paths.
pub proof fn lemma_paths_differ()
    ensures
        package_path() != workspace_path(),
        package_path() != members_path(),
        package_path() != resolver_path(),
        workspace_path() != members_path(),
        workspace_path() != resolver_path(),
        members_path() != resolver_path(),
{
    reveal_strlit("package");
    reveal_strlit("workspace");
    reveal_strlit("members");
    reveal_strlit("resolver");
    assert(package_path().len() == 1 && workspace_path().len() == 1);
    assert(members_path().len() == 2 && resolver_path().len() == 2);
    assert(package_path()[0].len() == 7 && workspace_path()[0].len() == 9);
    assert(members_path()[1].len() == 7 && resolver_path()[1].len() == 8);
}

/// Merging is idempotent. A manifest that a merge has left alone or filled
/// in is left exactly as it is by the next merge, whatever members and
/// resolver that one brings, once its member list holds something; and
/// where the first merge had no member to add, by a next merge that has
/// none either.
pub proof fn lemma_merge_idempotent(
    nodes: Map<KeyPath, Node>,
    members: Seq<Seq<char>>,
    resolver: Resolver,
    again: Seq<Seq<char>>,
    other: Resolver,
)
    requires
        verdict(nodes) is Update || verdict(nodes) is AlreadyInitialized,
        verdict(nodes) is Update && members.len() == 0 ==> again.len() == 0,
    ensures
        verdict(nodes) is AlreadyInitialized || members.len() > 0 ==> verdict(
            merged(nodes, members, resolver),
        ) is AlreadyInitialized,
        verdict(merged(nodes, members, resolver)) is AlreadyInitialized || verdict(
            merged(nodes, members, resolver),
        ) is Update,
        leaves_alone(merged(nodes, members, resolver), again),
        merged(merged(nodes, members, resolver), again, other) == merged(nodes, members, resolver),
{
    lemma_paths_differ();
    let once = merged(nodes, members, resolver);
    if verdict(nodes) is Update && members.len() == 0 {
        assert(member_entries(again) =~= member_entries(members));
        assert(once.insert(members_path(), Node::Array(member_entries(again))) =~= once);
    }
    assert(merged(once, again, other) =~= once);
}

/// A resolver that the manifest names already is kept, whatever resolver
/// the merge is asked for.
pub proof fn lemma_resolver_kept(
    nodes: Map<KeyPath, Node>,
    members: Seq<Seq<char>>,
    resolver: Resolver,
)
    requires
        nodes.contains_key(resolver_path()),
    ensures
        merged(nodes, members, resolver).contains_key(resolver_path()),
        merged(nodes, members, resolver)[resolver_path()] == nodes[resolver_path()],
{
    lemma_paths_differ();
}

/// A merge touches three items at most: the workspace table, its member
/// list and its resolver. What the manifest holds anywhere else, and so
/// everything outside the workspace table, is there afterwards as it was
/// before; and nothing is added anywhere else.
pub proof fn lemma_rest_kept(
    nodes: Map<KeyPath, Node>,
    members: Seq<Seq<char>>,
    resolver: Resolver,
    path: KeyPath,
)
    requires
        path != workspace_path(),
        path != members_path(),
        path != resolver_path(),
    ensures
        merged(nodes, members, resolver).contains_key(path) == nodes.contains_key(path),
        nodes.contains_key(path) ==> merged(nodes, members, resolver)[path] == nodes[path],
{
}

/// A merge neither adds nor removes the `package` entry.
pub proof fn lemma_package_kept(
    nodes: Map<KeyPath, Node>,
    members: Seq<Seq<char>>,
    resolver: Resolver,
)
    ensures
        holds(merged(nodes, members, resolver), package_path()) == holds(nodes, package_path()),
{
    lemma_paths_differ();
    lemma_rest_kept(nodes, members, resolver, package_path());
}

/// A merge that fills the member list leaves a workspace table, a member
/// list that holds exactly the members merged in, each on its own line, and
/// a resolver: the one asked for, unless the manifest named one before.
pub proof fn lemma_members_listed(
    nodes: Map<KeyPath, Node>,
    members: Seq<Seq<char>>,
    resolver: Resolver,
)
    requires
        verdict(nodes) is Update,
    ensures
        holds_table(merged(nodes, members, resolver), workspace_path()),
        merged(nodes, members, resolver).contains_key(members_path()),
        merged(nodes, members, resolver)[members_path()] == Node::Array(member_entries(members)),
        merged(nodes, members, resolver).contains_key(resolver_path()),
        !nodes.contains_key(resolver_path()) ==> merged(nodes, members, resolver)[resolver_path()]
            == Node::Text(resolver.spec_name()),
{
    lemma_paths_differ();
}

} // verus!
