//! Merging a fetched kubeconfig document into the shared local one: for each
//! of clusters, contexts and users, entries sharing a name with a fetched
//! entry are replaced and the fetched entries appended (upsert-by-name,
//! last-write-wins). The shared document's `current_context` and preferences
//! are never touched, and entries with other names keep their place and
//! contents.

use vstd::prelude::*;

use crate::kube::{
    entries_model, ClusterInfo, ClusterModel, ContextInfo, ContextModel, KubeConfig, KubeModel,
    UserInfo, UserModel,
};
use crate::text::str_eq;
use vstd::string::StringExecFns;

verus! {

// ─── The merge, on models ────────────────────────────────────────────────────

/// Some entry of `s` carries the name `n` (under projection `name`).
pub open spec fn named_in<T>(s: Seq<T>, name: spec_fn(T) -> Seq<char>, n: Seq<char>) -> bool {
    exists|i: int| 0 <= i < s.len() && name(s[i]) == n
}

/// Upsert-by-name: the shared entries whose names the fetched document does
/// not carry, in their original order, followed by all fetched entries.
pub open spec fn merge_entries<T>(
    shared: Seq<T>,
    fetched: Seq<T>,
    name: spec_fn(T) -> Seq<char>,
) -> Seq<T> {
    shared.filter(|e: T| !named_in(fetched, name, name(e))) + fetched
}

/// Name projections of the three entry kinds.
pub open spec fn cluster_name() -> spec_fn(ClusterModel) -> Seq<char> {
    |c: ClusterModel| c.name
}

pub open spec fn context_name() -> spec_fn(ContextModel) -> Seq<char> {
    |c: ContextModel| c.name
}

pub open spec fn user_name() -> spec_fn(UserModel) -> Seq<char> {
    |u: UserModel| u.name
}

/// The shared document after a fetched document is merged into it.
pub open spec fn merge_model(s: KubeModel, f: KubeModel) -> KubeModel {
    KubeModel {
        api_version: s.api_version,
        kind: s.kind,
        current_context: s.current_context,
        clusters: merge_entries(s.clusters, f.clusters, cluster_name()),
        contexts: merge_entries(s.contexts, f.contexts, context_name()),
        users: merge_entries(s.users, f.users, user_name()),
        preferences: s.preferences,
    }
}

// ─── Filter lemmas ───────────────────────────────────────────────────────────

/// Filtering past a pushed element keeps it exactly when it satisfies the
/// predicate.
pub proof fn lemma_filter_push<T>(s: Seq<T>, x: T, p: spec_fn(T) -> bool)
    ensures
        s.push(x).filter(p) == if p(x) {
            s.filter(p).push(x)
        } else {
            s.filter(p)
        },
{
    reveal(Seq::filter);
    assert(s.push(x).drop_last() =~= s);
    assert(s.push(x).last() == x);
}

/// A sequence none of whose elements satisfies the predicate filters to empty.
pub proof fn lemma_filter_none<T>(s: Seq<T>, p: spec_fn(T) -> bool)
    requires
        forall|i: int| 0 <= i < s.len() ==> !p(#[trigger] s[i]),
    ensures
        s.filter(p) == Seq::<T>::empty(),
    decreases s.len(),
{
    reveal(Seq::filter);
    if s.len() == 0 {
        assert(s.filter(p) =~= Seq::<T>::empty());
    } else {
        let t = s.drop_last();
        assert(forall|i: int| 0 <= i < t.len() ==> !p(#[trigger] t[i]));
        lemma_filter_none(t, p);
        assert(!p(s.last()));
    }
}

/// Filtering by `q` after filtering by a weaker predicate `p` equals
/// filtering by `q` alone.
pub proof fn lemma_filter_subsumed<T>(s: Seq<T>, p: spec_fn(T) -> bool, q: spec_fn(T) -> bool)
    requires
        forall|x: T| #[trigger] q(x) ==> p(x),
    ensures
        s.filter(p).filter(q) == s.filter(q),
    decreases s.len(),
{
    reveal(Seq::filter);
    if s.len() == 0 {
    } else {
        let t = s.drop_last();
        let x = s.last();
        lemma_filter_subsumed(t, p, q);
        if p(x) {
            assert(s.filter(p) == t.filter(p).push(x));
            lemma_filter_push(t.filter(p), x, q);
        } else {
            assert(!q(x));
            assert(s.filter(p) == t.filter(p));
        }
    }
}

/// Two mutually exclusive filters compose to nothing.
pub proof fn lemma_filter_excluded<T>(s: Seq<T>, p: spec_fn(T) -> bool, q: spec_fn(T) -> bool)
    requires
        forall|x: T| #[trigger] q(x) ==> !p(x),
    ensures
        s.filter(p).filter(q) == Seq::<T>::empty(),
{
    assert forall|i: int| 0 <= i < s.filter(p).len() implies !q(#[trigger] s.filter(p)[i]) by {
        s.lemma_filter_pred(p, i);
    }
    lemma_filter_none(s.filter(p), q);
}

// ─── Laws of the merge ───────────────────────────────────────────────────────

/// Merging the same fetched entries twice gives what one merge gives.
pub proof fn lemma_merge_entries_idempotent<T>(
    sh: Seq<T>,
    fe: Seq<T>,
    name: spec_fn(T) -> Seq<char>,
)
    ensures
        merge_entries(merge_entries(sh, fe, name), fe, name) == merge_entries(sh, fe, name),
{
    let p = |e: T| !named_in(fe, name, name(e));
    Seq::filter_distributes_over_add(sh.filter(p), fe, p);
    lemma_filter_subsumed(sh, p, p);
    assert forall|i: int| 0 <= i < fe.len() implies !p(#[trigger] fe[i]) by {
        assert(named_in(fe, name, name(fe[i])));
    }
    lemma_filter_none(fe, p);
    assert(merge_entries(merge_entries(sh, fe, name), fe, name) =~= merge_entries(sh, fe, name));
}

/// What the merge holds under each name: the fetched entries of that name
/// when the fetched document carries it, else the shared entries of that
/// name, unchanged.
pub proof fn lemma_merge_entries_named<T>(
    sh: Seq<T>,
    fe: Seq<T>,
    name: spec_fn(T) -> Seq<char>,
    n: Seq<char>,
)
    ensures
        merge_entries(sh, fe, name).filter(|e: T| name(e) == n) == if named_in(fe, name, n) {
            fe.filter(|e: T| name(e) == n)
        } else {
            sh.filter(|e: T| name(e) == n)
        },
{
    let p = |e: T| !named_in(fe, name, name(e));
    let q = |e: T| name(e) == n;
    Seq::filter_distributes_over_add(sh.filter(p), fe, q);
    if named_in(fe, name, n) {
        assert forall|x: T| #[trigger] q(x) implies !p(x) by {
            if name(x) == n {
                assert(named_in(fe, name, name(x)));
            }
        }
        lemma_filter_excluded(sh, p, q);
        assert(merge_entries(sh, fe, name).filter(q) =~= fe.filter(q));
    } else {
        assert forall|x: T| #[trigger] q(x) implies p(x) by {
            if name(x) == n {
                assert(!named_in(fe, name, name(x)));
            }
        }
        lemma_filter_subsumed(sh, p, q);
        assert forall|i: int| 0 <= i < fe.len() implies !q(#[trigger] fe[i]) by {
            if name(fe[i]) == n {
                assert(named_in(fe, name, n));
            }
        }
        lemma_filter_none(fe, q);
        assert(merge_entries(sh, fe, name).filter(q) =~= sh.filter(q));
    }
}

/// Law: merging the same fetched document into the shared one twice leaves
/// exactly what one merge leaves — the second merge's values win and no entry
/// is duplicated.
pub proof fn lemma_merge_idempotent(s: KubeModel, f: KubeModel)
    ensures
        merge_model(merge_model(s, f), f) == merge_model(s, f),
{
    lemma_merge_entries_idempotent(s.clusters, f.clusters, cluster_name());
    lemma_merge_entries_idempotent(s.contexts, f.contexts, context_name());
    lemma_merge_entries_idempotent(s.users, f.users, user_name());
    assert(merge_model(merge_model(s, f), f) =~= merge_model(s, f));
}

/// Law: a later merge of another document leaves every entry whose name that
/// document does not carry untouched — in particular, merging server B's
/// document after server A's leaves A's entries exactly as A's merge wrote
/// them.
pub proof fn lemma_merge_preserves_other_names(m: KubeModel, b: KubeModel, n: Seq<char>)
    requires
        !named_in(b.clusters, cluster_name(), n),
        !named_in(b.contexts, context_name(), n),
        !named_in(b.users, user_name(), n),
    ensures
        merge_model(m, b).clusters.filter(|e: ClusterModel| cluster_name()(e) == n)
            == m.clusters.filter(|e: ClusterModel| cluster_name()(e) == n),
        merge_model(m, b).contexts.filter(|e: ContextModel| context_name()(e) == n)
            == m.contexts.filter(|e: ContextModel| context_name()(e) == n),
        merge_model(m, b).users.filter(|e: UserModel| user_name()(e) == n) == m.users.filter(
            |e: UserModel| user_name()(e) == n,
        ),
{
    lemma_merge_entries_named(m.clusters, b.clusters, cluster_name(), n);
    lemma_merge_entries_named(m.contexts, b.contexts, context_name(), n);
    lemma_merge_entries_named(m.users, b.users, user_name(), n);
}

/// A name that a nonempty filter selects is carried by the sequence.
proof fn lemma_filtered_name_present<T>(s: Seq<T>, name: spec_fn(T) -> Seq<char>, n: Seq<char>)
    requires
        s.filter(|e: T| name(e) == n).len() > 0,
    ensures
        named_in(s, name, n),
{
    if !named_in(s, name, n) {
        assert forall|i: int| 0 <= i < s.len() implies !((|e: T| name(e) == n)(
            #[trigger] s[i],
        )) by {
            if name(s[i]) == n {
                assert(named_in(s, name, n));
            }
        }
        lemma_filter_none(s, |e: T| name(e) == n);
    }
}

/// Law: when the fetched document carries exactly one entry of a name — as
/// every rewritten document does for its unique name — the merged document
/// carries exactly one entry of that name for each of clusters, contexts and
/// users: the fetched one, whatever the shared document held before.
pub proof fn lemma_merge_unique_name(s: KubeModel, f: KubeModel, n: Seq<char>)
    requires
        f.clusters.filter(|e: ClusterModel| cluster_name()(e) == n).len() == 1,
        f.contexts.filter(|e: ContextModel| context_name()(e) == n).len() == 1,
        f.users.filter(|e: UserModel| user_name()(e) == n).len() == 1,
    ensures
        merge_model(s, f).clusters.filter(|e: ClusterModel| cluster_name()(e) == n) == f.clusters
            .filter(|e: ClusterModel| cluster_name()(e) == n),
        merge_model(s, f).clusters.filter(|e: ClusterModel| cluster_name()(e) == n).len() == 1,
        merge_model(s, f).contexts.filter(|e: ContextModel| context_name()(e) == n) == f.contexts
            .filter(|e: ContextModel| context_name()(e) == n),
        merge_model(s, f).contexts.filter(|e: ContextModel| context_name()(e) == n).len() == 1,
        merge_model(s, f).users.filter(|e: UserModel| user_name()(e) == n) == f.users.filter(
            |e: UserModel| user_name()(e) == n,
        ),
        merge_model(s, f).users.filter(|e: UserModel| user_name()(e) == n).len() == 1,
{
    lemma_filtered_name_present(f.clusters, cluster_name(), n);
    lemma_filtered_name_present(f.contexts, context_name(), n);
    lemma_filtered_name_present(f.users, user_name(), n);
    lemma_merge_entries_named(s.clusters, f.clusters, cluster_name(), n);
    lemma_merge_entries_named(s.contexts, f.contexts, context_name(), n);
    lemma_merge_entries_named(s.users, f.users, user_name(), n);
}

// ─── The merge, executable ───────────────────────────────────────────────────

/// Whether any cluster entry carries `name`.
fn cluster_name_present(entries: &Vec<ClusterInfo>, name: &str) -> (b: bool)
    ensures
        b == named_in(entries_model(entries@), cluster_name(), name@),
{
    let ghost m = entries_model(entries@);
    let mut i: usize = 0;
    while i < entries.len()
        invariant
            m == entries_model(entries@),
            i <= entries@.len(),
            forall|k: int| 0 <= k < i ==> cluster_name()(#[trigger] m[k]) != name@,
        decreases entries@.len() - i,
    {
        if str_eq(entries[i].name.as_str(), name) {
            proof {
                assert(m[i as int] == entries@[i as int]@);
                assert(cluster_name()(m[i as int]) == name@);
            }
            return true;
        }
        proof {
            assert(m[i as int] == entries@[i as int]@);
        }
        i = i + 1;
    }
    proof {
        if named_in(m, cluster_name(), name@) {
            let w = choose|w: int| 0 <= w < m.len() && cluster_name()(m[w]) == name@;
            assert(cluster_name()(m[w]) != name@);
        }
    }
    false
}

/// Whether any context entry carries `name`.
fn context_name_present(entries: &Vec<ContextInfo>, name: &str) -> (b: bool)
    ensures
        b == named_in(entries_model(entries@), context_name(), name@),
{
    let ghost m = entries_model(entries@);
    let mut i: usize = 0;
    while i < entries.len()
        invariant
            m == entries_model(entries@),
            i <= entries@.len(),
            forall|k: int| 0 <= k < i ==> context_name()(#[trigger] m[k]) != name@,
        decreases entries@.len() - i,
    {
        if str_eq(entries[i].name.as_str(), name) {
            proof {
                assert(m[i as int] == entries@[i as int]@);
                assert(context_name()(m[i as int]) == name@);
            }
            return true;
        }
        proof {
            assert(m[i as int] == entries@[i as int]@);
        }
        i = i + 1;
    }
    proof {
        if named_in(m, context_name(), name@) {
            let w = choose|w: int| 0 <= w < m.len() && context_name()(m[w]) == name@;
            assert(context_name()(m[w]) != name@);
        }
    }
    false
}

/// Whether any user entry carries `name`.
fn user_name_present(entries: &Vec<UserInfo>, name: &str) -> (b: bool)
    ensures
        b == named_in(entries_model(entries@), user_name(), name@),
{
    let ghost m = entries_model(entries@);
    let mut i: usize = 0;
    while i < entries.len()
        invariant
            m == entries_model(entries@),
            i <= entries@.len(),
            forall|k: int| 0 <= k < i ==> user_name()(#[trigger] m[k]) != name@,
        decreases entries@.len() - i,
    {
        if str_eq(entries[i].name.as_str(), name) {
            proof {
                assert(m[i as int] == entries@[i as int]@);
                assert(user_name()(m[i as int]) == name@);
            }
            return true;
        }
        proof {
            assert(m[i as int] == entries@[i as int]@);
        }
        i = i + 1;
    }
    proof {
        if named_in(m, user_name(), name@) {
            let w = choose|w: int| 0 <= w < m.len() && user_name()(m[w]) == name@;
            assert(user_name()(m[w]) != name@);
        }
    }
    false
}

/// Upsert the fetched cluster entries into the shared list.
fn merge_clusters(shared: &mut Vec<ClusterInfo>, fetched: &Vec<ClusterInfo>)
    ensures
        entries_model(final(shared)@) == merge_entries(
            entries_model(old(shared)@),
            entries_model(fetched@),
            cluster_name(),
        ),
{
    let ghost sm = entries_model(shared@);
    let ghost fm = entries_model(fetched@);
    let ghost p = |e: ClusterModel| !named_in(fm, cluster_name(), cluster_name()(e));
    let mut kept: Vec<ClusterInfo> = Vec::new();
    let mut i: usize = 0;
    while i < shared.len()
        invariant
            sm == entries_model(shared@),
            sm == entries_model(old(shared)@),
            fm == entries_model(fetched@),
            p == (|e: ClusterModel| !named_in(fm, cluster_name(), cluster_name()(e))),
            i <= shared@.len(),
            entries_model(kept@) == sm.subrange(0, i as int).filter(p),
        decreases shared@.len() - i,
    {
        let ghost pre = sm.subrange(0, i as int);
        proof {
            assert(sm[i as int] == shared@[i as int]@);
            assert(sm.subrange(0, i + 1 as int) =~= pre.push(sm[i as int]));
            lemma_filter_push(pre, sm[i as int], p);
        }
        if !cluster_name_present(fetched, shared[i].name.as_str()) {
            kept.push(shared[i].duplicate());
            assert(entries_model(kept@) =~= pre.filter(p).push(sm[i as int]));
        }
        i = i + 1;
    }
    proof {
        assert(sm.subrange(0, sm.len() as int) =~= sm);
    }
    let mut j: usize = 0;
    while j < fetched.len()
        invariant
            fm == entries_model(fetched@),
            sm == entries_model(old(shared)@),
            p == (|e: ClusterModel| !named_in(fm, cluster_name(), cluster_name()(e))),
            j <= fetched@.len(),
            entries_model(kept@) == sm.filter(p) + fm.subrange(0, j as int),
        decreases fetched@.len() - j,
    {
        let ghost k0 = entries_model(kept@);
        kept.push(fetched[j].duplicate());
        proof {
            assert(fm[j as int] == fetched@[j as int]@);
            assert(entries_model(kept@) =~= k0.push(fm[j as int]));
            assert(fm.subrange(0, j + 1 as int) =~= fm.subrange(0, j as int).push(fm[j as int]));
            assert((sm.filter(p) + fm.subrange(0, j as int)).push(fm[j as int]) =~= sm.filter(p)
                + fm.subrange(0, j as int).push(fm[j as int]));
            assert(entries_model(kept@) =~= sm.filter(p) + fm.subrange(0, j + 1 as int));
        }
        j = j + 1;
    }
    proof {
        assert(fm.subrange(0, fm.len() as int) =~= fm);
        assert(entries_model(kept@) =~= merge_entries(sm, fm, cluster_name()));
    }
    *shared = kept;
}

/// Upsert the fetched context entries into the shared list.
fn merge_contexts(shared: &mut Vec<ContextInfo>, fetched: &Vec<ContextInfo>)
    ensures
        entries_model(final(shared)@) == merge_entries(
            entries_model(old(shared)@),
            entries_model(fetched@),
            context_name(),
        ),
{
    let ghost sm = entries_model(shared@);
    let ghost fm = entries_model(fetched@);
    let ghost p = |e: ContextModel| !named_in(fm, context_name(), context_name()(e));
    let mut kept: Vec<ContextInfo> = Vec::new();
    let mut i: usize = 0;
    while i < shared.len()
        invariant
            sm == entries_model(shared@),
            sm == entries_model(old(shared)@),
            fm == entries_model(fetched@),
            p == (|e: ContextModel| !named_in(fm, context_name(), context_name()(e))),
            i <= shared@.len(),
            entries_model(kept@) == sm.subrange(0, i as int).filter(p),
        decreases shared@.len() - i,
    {
        let ghost pre = sm.subrange(0, i as int);
        proof {
            assert(sm[i as int] == shared@[i as int]@);
            assert(sm.subrange(0, i + 1 as int) =~= pre.push(sm[i as int]));
            lemma_filter_push(pre, sm[i as int], p);
        }
        if !context_name_present(fetched, shared[i].name.as_str()) {
            kept.push(shared[i].duplicate());
            assert(entries_model(kept@) =~= pre.filter(p).push(sm[i as int]));
        }
        i = i + 1;
    }
    proof {
        assert(sm.subrange(0, sm.len() as int) =~= sm);
    }
    let mut j: usize = 0;
    while j < fetched.len()
        invariant
            fm == entries_model(fetched@),
            sm == entries_model(old(shared)@),
            p == (|e: ContextModel| !named_in(fm, context_name(), context_name()(e))),
            j <= fetched@.len(),
            entries_model(kept@) == sm.filter(p) + fm.subrange(0, j as int),
        decreases fetched@.len() - j,
    {
        let ghost k0 = entries_model(kept@);
        kept.push(fetched[j].duplicate());
        proof {
            assert(fm[j as int] == fetched@[j as int]@);
            assert(entries_model(kept@) =~= k0.push(fm[j as int]));
            assert(fm.subrange(0, j + 1 as int) =~= fm.subrange(0, j as int).push(fm[j as int]));
            assert((sm.filter(p) + fm.subrange(0, j as int)).push(fm[j as int]) =~= sm.filter(p)
                + fm.subrange(0, j as int).push(fm[j as int]));
            assert(entries_model(kept@) =~= sm.filter(p) + fm.subrange(0, j + 1 as int));
        }
        j = j + 1;
    }
    proof {
        assert(fm.subrange(0, fm.len() as int) =~= fm);
        assert(entries_model(kept@) =~= merge_entries(sm, fm, context_name()));
    }
    *shared = kept;
}

/// Upsert the fetched user entries into the shared list.
fn merge_users(shared: &mut Vec<UserInfo>, fetched: &Vec<UserInfo>)
    ensures
        entries_model(final(shared)@) == merge_entries(
            entries_model(old(shared)@),
            entries_model(fetched@),
            user_name(),
        ),
{
    let ghost sm = entries_model(shared@);
    let ghost fm = entries_model(fetched@);
    let ghost p = |e: UserModel| !named_in(fm, user_name(), user_name()(e));
    let mut kept: Vec<UserInfo> = Vec::new();
    let mut i: usize = 0;
    while i < shared.len()
        invariant
            sm == entries_model(shared@),
            sm == entries_model(old(shared)@),
            fm == entries_model(fetched@),
            p == (|e: UserModel| !named_in(fm, user_name(), user_name()(e))),
            i <= shared@.len(),
            entries_model(kept@) == sm.subrange(0, i as int).filter(p),
        decreases shared@.len() - i,
    {
        let ghost pre = sm.subrange(0, i as int);
        proof {
            assert(sm[i as int] == shared@[i as int]@);
            assert(sm.subrange(0, i + 1 as int) =~= pre.push(sm[i as int]));
            lemma_filter_push(pre, sm[i as int], p);
        }
        if !user_name_present(fetched, shared[i].name.as_str()) {
            kept.push(shared[i].duplicate());
            assert(entries_model(kept@) =~= pre.filter(p).push(sm[i as int]));
        }
        i = i + 1;
    }
    proof {
        assert(sm.subrange(0, sm.len() as int) =~= sm);
    }
    let mut j: usize = 0;
    while j < fetched.len()
        invariant
            fm == entries_model(fetched@),
            sm == entries_model(old(shared)@),
            p == (|e: UserModel| !named_in(fm, user_name(), user_name()(e))),
            j <= fetched@.len(),
            entries_model(kept@) == sm.filter(p) + fm.subrange(0, j as int),
        decreases fetched@.len() - j,
    {
        let ghost k0 = entries_model(kept@);
        kept.push(fetched[j].duplicate());
        proof {
            assert(fm[j as int] == fetched@[j as int]@);
            assert(entries_model(kept@) =~= k0.push(fm[j as int]));
            assert(fm.subrange(0, j + 1 as int) =~= fm.subrange(0, j as int).push(fm[j as int]));
            assert((sm.filter(p) + fm.subrange(0, j as int)).push(fm[j as int]) =~= sm.filter(p)
                + fm.subrange(0, j as int).push(fm[j as int]));
            assert(entries_model(kept@) =~= sm.filter(p) + fm.subrange(0, j + 1 as int));
        }
        j = j + 1;
    }
    proof {
        assert(fm.subrange(0, fm.len() as int) =~= fm);
        assert(entries_model(kept@) =~= merge_entries(sm, fm, user_name()));
    }
    *shared = kept;
}

/// Merge a fetched document into the shared one: upsert-by-name on clusters,
/// contexts and users; the shared document's `current_context`, preferences
/// and header fields stay as they were.
pub fn merge_documents(shared: &mut KubeConfig, fetched: &KubeConfig)
    ensures
        final(shared)@ == merge_model(old(shared)@, fetched@),
{
    merge_clusters(&mut shared.clusters, &fetched.clusters);
    merge_contexts(&mut shared.contexts, &fetched.contexts);
    merge_users(&mut shared.users, &fetched.users);
    assert(shared@ =~= merge_model(old(shared)@, fetched@));
}

/// The empty skeleton the shared document starts from when none exists yet.
pub fn empty_kubeconfig() -> (r: KubeConfig)
    ensures
        r@.api_version == "v1"@,
        r@.kind == "Config"@,
        r@.current_context == Seq::<char>::empty(),
        r@.clusters == Seq::<ClusterModel>::empty(),
        r@.contexts == Seq::<ContextModel>::empty(),
        r@.users == Seq::<UserModel>::empty(),
        r@.preferences == Seq::<(Seq<char>, Seq<char>)>::empty(),
{
    let r = KubeConfig {
        api_version: String::from_str("v1"),
        kind: String::from_str("Config"),
        current_context: String::new(),
        clusters: Vec::new(),
        contexts: Vec::new(),
        users: Vec::new(),
        preferences: Vec::new(),
    };
    proof {
        assert(r@.clusters =~= Seq::<ClusterModel>::empty());
        assert(r@.contexts =~= Seq::<ContextModel>::empty());
        assert(r@.users =~= Seq::<UserModel>::empty());
        assert(r@.preferences =~= Seq::<(Seq<char>, Seq<char>)>::empty());
    }
    r
}

} // verus!
