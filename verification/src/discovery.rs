//! From the manifests found under a workspace root to the member list: the
//! distinct roots they resolve to, each taken relative to the workspace root,
//! in ascending order.

use crate::order::{
    ascending, lemma_ascending_distinct, lemma_precedes_total, lemma_precedes_transitive, precedes,
    text_precedes, texts,
};
use camino::Utf8Path;
use vstd::prelude::*;
use vstd::string::StringExecFns;

verus! {

/// What `Utf8Path::strip_prefix` makes of `path` and `base` on the platform
/// the library is built for: the path that leads from `base` to `path`, or
/// `None` where `base` is not a prefix of `path`, whole components counted.
pub uninterp spec fn relative_path(path: Seq<char>, base: Seq<char>) -> Option<Seq<char>>;

/// `Utf8Path::strip_prefix`, with the error dropped and the path that is
/// left turned into a string. The result is a function of the two paths.
#[verifier::external_body]
pub(crate) fn strip_base(path: &str, base: &str) -> (rel: Option<String>)
    ensures
        option_text(rel) == relative_path(path@, base@),
{
    Utf8Path::new(path).strip_prefix(base).ok().map(ToString::to_string)
}

/// The text of an entry that may be missing.
pub open spec fn option_text(entry: Option<String>) -> Option<Seq<char>> {
    match entry {
        Some(s) => Some(s@),
        None => None,
    }
}

/// Some entry of `list` is there and holds `text`.
pub open spec fn mentions(list: Seq<Option<String>>, text: Seq<char>) -> bool {
    exists|i: int| 0 <= i < list.len() && option_text(#[trigger] list[i]) == Some(text)
}

/// The pattern that matches every manifest at any depth under `root`.
pub open spec fn spec_manifest_pattern(root: Seq<char>) -> Seq<char> {
    root + "/**/Cargo.toml"@
}

/// The distinct roots that the candidates resolved to, each where it first
/// appears among the outcomes. A candidate that did not resolve stands for
/// no root.
pub open spec fn distinct_roots(outcomes: Seq<Option<String>>) -> Seq<Seq<char>>
    decreases outcomes.len(),
{
    if outcomes.len() == 0 {
        Seq::empty()
    } else {
        let earlier = distinct_roots(outcomes.drop_last());
        match outcomes.last() {
            Some(root) => if earlier.contains(root@) {
                earlier
            } else {
                earlier.push(root@)
            },
            None => earlier,
        }
    }
}

/// `member` is listed for these relative paths: it is one of them, and it
/// is not the empty path of the workspace root itself unless that root is a
/// package.
pub open spec fn is_listed(
    relatives: Seq<Option<String>>,
    is_root_package: bool,
    member: Seq<char>,
) -> bool {
    (is_root_package || member.len() > 0) && mentions(relatives, member)
}

/// `member` is a member path: the relative path of one of the roots under
/// the workspace root, the empty path of the root itself counted only where
/// the root is a package.
pub open spec fn is_member(
    roots: Seq<Seq<char>>,
    workspace_root: Seq<char>,
    is_root_package: bool,
    member: Seq<char>,
) -> bool {
    (is_root_package || member.len() > 0) && exists|i: int|
        0 <= i < roots.len() && relative_path(#[trigger] roots[i], workspace_root) == Some(member)
}

/// The pattern that matches every manifest at any depth under `root`.
pub fn manifest_pattern(root: &str) -> (pattern: String)
    ensures
        pattern@ == spec_manifest_pattern(root@),
{
    let mut pattern = root.to_owned();
    pattern.append("/**/Cargo.toml");
    pattern
}

/// Whether `list` holds `item`.
fn holds_text(list: &Vec<String>, item: &String) -> (b: bool)
    ensures
        b == texts(list@).contains(item@),
{
    let mut i: usize = 0;
    while i < list.len()
        invariant
            i <= list.len(),
            forall|k: int| 0 <= k < i ==> (#[trigger] texts(list@)[k]) != item@,
        decreases list.len() - i,
    {
        if list[i] == *item {
            assert(texts(list@)[i as int] == item@);
            return true;
        }
        i = i + 1;
    }
    false
}

/// The distinct roots among the outcomes of resolving each candidate
/// manifest: every root that some candidate resolved to, once, in the order
/// in which the roots first appear. A candidate that did not resolve is
/// passed over.
pub fn resolved_roots(outcomes: &Vec<Option<String>>) -> (roots: Vec<String>)
    ensures
        texts(roots@) == distinct_roots(outcomes@),
        texts(roots@).no_duplicates(),
        forall|root: Seq<char>| texts(roots@).contains(root) <==> mentions(outcomes@, root),
{
    let mut roots: Vec<String> = Vec::new();
    let mut i: usize = 0;
    while i < outcomes.len()
        invariant
            i <= outcomes.len(),
            texts(roots@) == distinct_roots(outcomes@.take(i as int)),
            texts(roots@).no_duplicates(),
            forall|root: Seq<char>|
                texts(roots@).contains(root) <==> mentions(outcomes@.take(i as int), root),
        decreases outcomes.len() - i,
    {
        let ghost before = texts(roots@);
        let ghost seen = outcomes@.take(i as int);
        let ghost next = outcomes@.take(i + 1);
        assert(seen =~= next.drop_last());
        assert(next.last() == outcomes@[i as int]);
        match &outcomes[i] {
            Some(root) => {
                if !holds_text(&roots, root) {
                    roots.push(root.clone());
                    assert(texts(roots@) =~= before.push(root@));
                }
            },
            None => {},
        }
        proof {
            let after = texts(roots@);
            assert forall|r: Seq<char>| after.contains(r) <==> mentions(next, r) by {
                if after.contains(r) {
                    if before.contains(r) {
                        let k = choose|k: int|
                            0 <= k < seen.len() && option_text(#[trigger] seen[k]) == Some(r);
                        assert(next[k] == seen[k]);
                    } else {
                        assert(option_text(next[i as int]) == Some(r));
                    }
                }
                if mentions(next, r) {
                    let k = choose|k: int|
                        0 <= k < next.len() && option_text(#[trigger] next[k]) == Some(r);
                    if k < i {
                        assert(seen[k] == next[k]);
                        assert(before.contains(r));
                    }
                    if before.contains(r) {
                        let j = choose|j: int| 0 <= j < before.len() && before[j] == r;
                        assert(after[j] == r);
                    } else {
                        assert(after[before.len() as int] == r);
                    }
                }
            }
        }
        i = i + 1;
    }
    assert(outcomes@.take(i as int) =~= outcomes@);
    roots
}

/// The relative path of each root under the workspace root, in the order of
/// the roots; `None` for a root that does not lie under it.
pub fn relative_paths(roots: &Vec<String>, workspace_root: &str) -> (relatives: Vec<
    Option<String>,
>)
    ensures
        relatives.len() == roots.len(),
        forall|i: int|
            0 <= i < roots.len() ==> option_text(#[trigger] relatives[i]) == relative_path(
                roots[i]@,
                workspace_root@,
            ),
{
    let mut relatives: Vec<Option<String>> = Vec::new();
    let mut i: usize = 0;
    while i < roots.len()
        invariant
            i <= roots.len(),
            relatives.len() == i,
            forall|k: int|
                0 <= k < i ==> option_text(#[trigger] relatives[k]) == relative_path(
                    roots[k]@,
                    workspace_root@,
                ),
        decreases roots.len() - i,
    {
        relatives.push(strip_base(roots[i].as_str(), workspace_root));
        i = i + 1;
    }
    relatives
}

/// Puts `item` into a list in ascending order, unless the list holds it
/// already.
fn insert_ascending(list: &mut Vec<String>, item: String)
    requires
        ascending(texts(old(list)@)),
    ensures
        ascending(texts(final(list)@)),
        forall|s: Seq<char>|
            texts(final(list)@).contains(s) <==> (texts(old(list)@).contains(s) || s == item@),
{
    let ghost before = texts(list@);
    let mut i: usize = 0;
    while i < list.len() && text_precedes(list[i].as_str(), item.as_str())
        invariant
            i <= list.len(),
            *list == *old(list),
            before == texts(list@),
            forall|k: int| 0 <= k < i ==> precedes(#[trigger] before[k], item@),
        decreases list.len() - i,
    {
        assert(before[i as int] == list@[i as int]@);
        i = i + 1;
    }
    if i < list.len() {
        assert(before[i as int] == list@[i as int]@);
    }
    if i < list.len() && list[i] == item {
        assert forall|s: Seq<char>| before.contains(s) || s == item@ implies before.contains(s) by {
            assert(before[i as int] == item@);
        }
        return ;
    }
    proof {
        if i < list.len() {
            lemma_precedes_total(before[i as int], item@);
            assert forall|k: int| i <= k < before.len() implies precedes(
                item@,
                #[trigger] before[k],
            ) by {
                if k > i {
                    lemma_precedes_transitive(item@, before[i as int], before[k]);
                }
            }
        }
    }
    list.insert(i, item);
    proof {
        let after = texts(list@);
        assert(after =~= before.insert(i as int, item@));
        assert forall|a: int, b: int| 0 <= a < b < after.len() implies precedes(
            after[a],
            after[b],
        ) by {
            if b < i {
                assert(after[a] == before[a] && after[b] == before[b]);
            } else if b == i {
                assert(after[a] == before[a]);
            } else if a < i {
                assert(after[a] == before[a] && after[b] == before[b - 1]);
                if b - 1 == i {
                    lemma_precedes_transitive(before[a], item@, before[b - 1]);
                }
            } else if a == i {
                assert(after[b] == before[b - 1]);
            } else {
                assert(after[a] == before[a - 1] && after[b] == before[b - 1]);
            }
        }
        assert forall|s: Seq<char>| after.contains(s) <==> (before.contains(s) || s
            == item@) by {
            if after.contains(s) {
                let k = choose|k: int| 0 <= k < after.len() && after[k] == s;
                if k < i {
                    assert(before[k] == s);
                } else if k > i {
                    assert(before[k - 1] == s);
                }
            }
            if before.contains(s) {
                let k = choose|k: int| 0 <= k < before.len() && before[k] == s;
                if k < i {
                    assert(after[k] == s);
                } else {
                    assert(after[k + 1] == s);
                }
            }
            if s == item@ {
                assert(after[i as int] == s);
            }
        }
    }
}

/// The member list made of the relative paths of the roots: every path that
/// is there, once, in ascending order. The empty path, which is that of the
/// workspace root itself, is listed only where the root is a package.
pub fn member_list(relatives: &Vec<Option<String>>, is_root_package: bool) -> (members: Vec<String>)
    ensures
        ascending(texts(members@)),
        forall|member: Seq<char>|
            texts(members@).contains(member) <==> is_listed(relatives@, is_root_package, member),
        !is_root_package ==> !texts(members@).contains(Seq::<char>::empty()),
        is_root_package ==> (texts(members@).contains(Seq::<char>::empty()) <==> mentions(
            relatives@,
            Seq::<char>::empty(),
        )),
{
    let mut members: Vec<String> = Vec::new();
    let mut i: usize = 0;
    while i < relatives.len()
        invariant
            i <= relatives.len(),
            ascending(texts(members@)),
            forall|member: Seq<char>|
                texts(members@).contains(member) <==> is_listed(
                    relatives@.take(i as int),
                    is_root_package,
                    member,
                ),
        decreases relatives.len() - i,
    {
        let ghost seen = relatives@.take(i as int);
        let ghost next = relatives@.take(i + 1);
        let ghost found = option_text(relatives@[i as int]);
        proof {
            assert(next[i as int] == relatives@[i as int]);
            assert forall|m: Seq<char>|
                mentions(next, m) <==> (mentions(seen, m) || found == Some(m)) by {
                if mentions(next, m) {
                    let k = choose|k: int|
                        0 <= k < next.len() && option_text(#[trigger] next[k]) == Some(m);
                    if k < i {
                        assert(seen[k] == next[k]);
                    }
                }
                if mentions(seen, m) {
                    let k = choose|k: int|
                        0 <= k < seen.len() && option_text(#[trigger] seen[k]) == Some(m);
                    assert(seen[k] == next[k]);
                }
            }
        }
        match &relatives[i] {
            Some(member) => {
                if is_root_package || !member.as_str().is_empty() {
                    insert_ascending(&mut members, member.clone());
                }
            },
            None => {},
        }
        i = i + 1;
    }
    assert(relatives@.take(i as int) =~= relatives@);
    assert(Seq::<char>::empty().len() == 0);
    members
}

/// The member list of a workspace: the relative path of every root that
/// lies under the workspace root, each once, in ascending order. The root
/// itself, whose relative path is empty, is listed only where it is a
/// package.
pub fn member_paths(roots: &Vec<String>, workspace_root: &str, is_root_package: bool) -> (members:
    Vec<String>)
    ensures
        ascending(texts(members@)),
        forall|member: Seq<char>|
            texts(members@).contains(member) <==> is_member(
                texts(roots@),
                workspace_root@,
                is_root_package,
                member,
            ),
        !is_root_package ==> !texts(members@).contains(Seq::<char>::empty()),
        is_root_package ==> (texts(members@).contains(Seq::<char>::empty()) <==> exists|i: int|
            0 <= i < roots.len() && relative_path(#[trigger] texts(roots@)[i], workspace_root@)
                == Some(Seq::<char>::empty())),
{
    let relatives = relative_paths(roots, workspace_root);
    let members = member_list(&relatives, is_root_package);
    proof {
        assert forall|m: Seq<char>|
            mentions(relatives@, m) <==> exists|i: int|
                0 <= i < roots.len() && relative_path(
                    #[trigger] texts(roots@)[i],
                    workspace_root@,
                ) == Some(m) by {
            if mentions(relatives@, m) {
                let k = choose|k: int|
                    0 <= k < relatives@.len() && option_text(#[trigger] relatives@[k]) == Some(m);
                assert(relative_path(texts(roots@)[k], workspace_root@) == Some(m));
            }
            if exists|i: int|
                0 <= i < roots.len() && relative_path(
                    #[trigger] texts(roots@)[i],
                    workspace_root@,
                ) == Some(m) {
                let k = choose|i: int|
                    0 <= i < roots.len() && relative_path(
                        #[trigger] texts(roots@)[i],
                        workspace_root@,
                    ) == Some(m);
                assert(option_text(relatives@[k]) == Some(m));
            }
        }
    }
    members
}

/// Every root has its own member. Where the roots are distinct, each lies
/// under the workspace root at a relative path of its own, and the
/// workspace root is among them only if it is a package, the member list
/// has exactly one entry for each root, and each entry is the relative path
/// of a root.
pub proof fn lemma_one_member_per_root(
    roots: Seq<Seq<char>>,
    workspace_root: Seq<char>,
    is_root_package: bool,
    members: Seq<Seq<char>>,
)
    requires
        roots.no_duplicates(),
        forall|i: int|
            0 <= i < roots.len() ==> relative_path(#[trigger] roots[i], workspace_root) is Some,
        forall|i: int, j: int|
            0 <= i < j < roots.len() ==> relative_path(#[trigger] roots[i], workspace_root)
                != relative_path(#[trigger] roots[j], workspace_root),
        !is_root_package ==> forall|i: int|
            0 <= i < roots.len() ==> relative_path(#[trigger] roots[i], workspace_root) != Some(
                Seq::<char>::empty(),
            ),
        ascending(members),
        forall|member: Seq<char>|
            members.contains(member) <==> is_member(
                roots,
                workspace_root,
                is_root_package,
                member,
            ),
    ensures
        members.len() == roots.len(),
        members.no_duplicates(),
        forall|j: int|
            0 <= j < members.len() ==> is_member(
                roots,
                workspace_root,
                is_root_package,
                #[trigger] members[j],
            ),
{
    let relatives = Seq::new(roots.len(), |i: int| relative_path(roots[i], workspace_root)->0);
    lemma_ascending_distinct(members);
    assert(relatives.no_duplicates()) by {
        assert forall|i: int, j: int|
            0 <= i < relatives.len() && 0 <= j < relatives.len() && i != j implies relatives[i]
            != relatives[j] by {
            if i < j {
                assert(relative_path(roots[i], workspace_root) != relative_path(
                    roots[j],
                    workspace_root,
                ));
            } else {
                assert(relative_path(roots[j], workspace_root) != relative_path(
                    roots[i],
                    workspace_root,
                ));
            }
        }
    }
    assert(relatives.to_set() =~= members.to_set()) by {
        assert forall|m: Seq<char>| relatives.contains(m) <==> members.contains(m) by {
            if relatives.contains(m) {
                let i = choose|i: int| 0 <= i < relatives.len() && relatives[i] == m;
                assert(relative_path(roots[i], workspace_root) == Some(m));
                if !is_root_package && m.len() == 0 {
                    assert(m =~= Seq::<char>::empty());
                }
                assert(is_member(roots, workspace_root, is_root_package, m));
            }
            if members.contains(m) {
                let i = choose|i: int|
                    0 <= i < roots.len() && relative_path(#[trigger] roots[i], workspace_root)
                        == Some(m);
                assert(relatives[i] == m);
            }
        }
    }
    relatives.unique_seq_to_set();
    members.unique_seq_to_set();
    assert forall|j: int| 0 <= j < members.len() implies is_member(
        roots,
        workspace_root,
        is_root_package,
        #[trigger] members[j],
    ) by {
        assert(members.contains(members[j]));
    }
}

} // verus!
