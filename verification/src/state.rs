//! Per-server run-state records: the outcome of the last run for each server,
//! merged into whatever was recorded before so that servers left out of a run
//! keep their entries.

use vstd::prelude::*;

use crate::find::{first_where, lemma_first_where_is, lemma_first_where_none};
use crate::text::str_eq;
use vstd::pervasive::VecAdditionalExecFns;

verus! {

/// Terminal classification of one server's run.
#[derive(Clone, Copy, PartialEq, Eq, Structural, Debug)]
pub enum RunStatus {
    Fetched,
    Skipped,
    NoCredential,
    AuthRejected,
    Failed,
}

/// The recorded outcome of one server's last run. The update instant is Unix
/// seconds; the error text is kept only for failures.
pub struct ServerRunState {
    pub status: RunStatus,
    pub last_updated: Option<i64>,
    pub error: Option<String>,
}

/// Model of one record.
#[verifier::ext_equal]
pub struct RunStateModel {
    pub status: RunStatus,
    pub last_updated: Option<i64>,
    pub error: Option<Seq<char>>,
}

impl View for ServerRunState {
    type V = RunStateModel;

    open spec fn view(&self) -> RunStateModel {
        RunStateModel {
            status: self.status,
            last_updated: self.last_updated,
            error: match self.error {
                Some(ref e) => Some(e@),
                None => None,
            },
        }
    }
}

impl ServerRunState {
    /// A structural copy with equal contents.
    pub fn duplicate(&self) -> (r: ServerRunState)
        ensures
            r@ == self@,
    {
        ServerRunState {
            status: self.status,
            last_updated: self.last_updated,
            error: match &self.error {
                Some(e) => Some(e.clone()),
                None => None,
            },
        }
    }
}

/// The model of a name-keyed list of records.
pub open spec fn states_model(v: Seq<(String, ServerRunState)>) -> Seq<
    (Seq<char>, RunStateModel),
> {
    v.map_values(|p: (String, ServerRunState)| (p.0@, p.1@))
}

/// Index of the first record for `name`, or -1.
pub open spec fn state_index(m: Seq<(Seq<char>, RunStateModel)>, name: Seq<char>) -> int {
    first_where(m, |e: (Seq<char>, RunStateModel)| e.0 == name)
}

/// The record for `name`, if one exists.
pub open spec fn state_value(m: Seq<(Seq<char>, RunStateModel)>, name: Seq<char>) -> Option<
    RunStateModel,
> {
    let i = state_index(m, name);
    if i >= 0 {
        Some(m[i].1)
    } else {
        None
    }
}

/// The list after recording `val` under `name`: replace the first record for
/// that name in place, else append one.
pub open spec fn state_upsert(
    m: Seq<(Seq<char>, RunStateModel)>,
    name: Seq<char>,
    val: RunStateModel,
) -> Seq<(Seq<char>, RunStateModel)> {
    let i = state_index(m, name);
    if i >= 0 {
        m.update(i, (name, val))
    } else {
        m.push((name, val))
    }
}

/// The list after recording every update in order.
pub open spec fn state_upsert_all(
    m: Seq<(Seq<char>, RunStateModel)>,
    updates: Seq<(Seq<char>, RunStateModel)>,
) -> Seq<(Seq<char>, RunStateModel)>
    decreases updates.len(),
{
    if updates.len() == 0 {
        m
    } else {
        state_upsert(state_upsert_all(m, updates.drop_last()), updates.last().0, updates.last().1)
    }
}

/// Record `val` under `name`.
pub fn set_state(states: &mut Vec<(String, ServerRunState)>, name: &str, val: ServerRunState)
    ensures
        states_model(final(states)@) == state_upsert(states_model(old(states)@), name@, val@),
{
    let ghost m = states_model(states@);
    let ghost p = |e: (Seq<char>, RunStateModel)| e.0 == name@;
    let mut i: usize = 0;
    while i < states.len()
        invariant
            m == states_model(states@),
            m == states_model(old(states)@),
            p == (|e: (Seq<char>, RunStateModel)| e.0 == name@),
            i <= states@.len(),
            forall|k: int| 0 <= k < i ==> !p(#[trigger] m[k]),
        decreases states@.len() - i,
    {
        if str_eq(states[i].0.as_str(), name) {
            proof {
                assert(m[i as int] == (states@[i as int].0@, states@[i as int].1@));
                assert(p(m[i as int]));
                lemma_first_where_is(m, p, i as int);
            }
            let owned = name.to_owned();
            states.set(i, (owned, val));
            assert(states_model(states@) =~= state_upsert(m, name@, val@));
            return ;
        }
        proof {
            assert(m[i as int] == (states@[i as int].0@, states@[i as int].1@));
            assert(!p(m[i as int]));
        }
        i = i + 1;
    }
    proof {
        lemma_first_where_none(m, p);
    }
    let owned = name.to_owned();
    states.push((owned, val));
    assert(states_model(states@) =~= state_upsert(m, name@, val@));
}

/// Look up the record for `name`.
pub fn get_state<'a>(states: &'a Vec<(String, ServerRunState)>, name: &str) -> (r: Option<
    &'a ServerRunState,
>)
    ensures
        match r {
            Some(v) => state_value(states_model(states@), name@) == Some(v@),
            None => state_value(states_model(states@), name@) is None,
        },
{
    let ghost m = states_model(states@);
    let ghost p = |e: (Seq<char>, RunStateModel)| e.0 == name@;
    let mut i: usize = 0;
    while i < states.len()
        invariant
            m == states_model(states@),
            p == (|e: (Seq<char>, RunStateModel)| e.0 == name@),
            i <= states@.len(),
            forall|k: int| 0 <= k < i ==> !p(#[trigger] m[k]),
        decreases states@.len() - i,
    {
        if str_eq(states[i].0.as_str(), name) {
            proof {
                assert(m[i as int] == (states@[i as int].0@, states@[i as int].1@));
                assert(p(m[i as int]));
                lemma_first_where_is(m, p, i as int);
            }
            return Some(&states[i].1);
        }
        proof {
            assert(m[i as int] == (states@[i as int].0@, states@[i as int].1@));
            assert(!p(m[i as int]));
        }
        i = i + 1;
    }
    proof {
        lemma_first_where_none(m, p);
    }
    None
}

/// Merge a run's updates into the recorded states, in order.
pub fn update_states(
    states: &mut Vec<(String, ServerRunState)>,
    updates: &Vec<(String, ServerRunState)>,
)
    ensures
        states_model(final(states)@) == state_upsert_all(
            states_model(old(states)@),
            states_model(updates@),
        ),
{
    let ghost m0 = states_model(states@);
    let ghost um = states_model(updates@);
    let mut i: usize = 0;
    while i < updates.len()
        invariant
            m0 == states_model(old(states)@),
            um == states_model(updates@),
            i <= updates@.len(),
            states_model(states@) == state_upsert_all(m0, um.subrange(0, i as int)),
        decreases updates@.len() - i,
    {
        let entry = &updates[i];
        set_state(states, entry.0.as_str(), entry.1.duplicate());
        proof {
            let pre = um.subrange(0, i as int);
            let cur = um.subrange(0, i + 1 as int);
            assert(cur.drop_last() =~= pre);
            assert(cur.last() == um[i as int]);
            assert(um[i as int] == (updates@[i as int].0@, updates@[i as int].1@));
            assert(state_upsert_all(m0, cur) == state_upsert(
                state_upsert_all(m0, pre),
                um[i as int].0,
                um[i as int].1,
            ));
        }
        i = i + 1;
    }
    proof {
        assert(um.subrange(0, um.len() as int) =~= um);
    }
}

/// Law: a run's update pass touches no other server's record — the record
/// under any name that the updates do not carry is exactly what it was.
pub proof fn lemma_update_preserves_other_names(
    m: Seq<(Seq<char>, RunStateModel)>,
    updates: Seq<(Seq<char>, RunStateModel)>,
    name: Seq<char>,
)
    requires
        forall|i: int| 0 <= i < updates.len() ==> (#[trigger] updates[i]).0 != name,
    ensures
        state_value(state_upsert_all(m, updates), name) == state_value(m, name),
    decreases updates.len(),
{
    if updates.len() > 0 {
        let pre = updates.drop_last();
        assert(forall|i: int| 0 <= i < pre.len() ==> (#[trigger] pre[i]).0 != name);
        lemma_update_preserves_other_names(m, pre, name);
        let mid = state_upsert_all(m, pre);
        let last = updates.last();
        lemma_upsert_preserves_other(mid, last.0, last.1, name);
    }
}

/// One upsert under a different name leaves the record for `name` unchanged.
proof fn lemma_upsert_preserves_other(
    m: Seq<(Seq<char>, RunStateModel)>,
    upd_name: Seq<char>,
    val: RunStateModel,
    name: Seq<char>,
)
    requires
        upd_name != name,
    ensures
        state_value(state_upsert(m, upd_name, val), name) == state_value(m, name),
{
    let p = |e: (Seq<char>, RunStateModel)| e.0 == name;
    let q = |e: (Seq<char>, RunStateModel)| e.0 == upd_name;
    let m2 = state_upsert(m, upd_name, val);
    let j = state_index(m, upd_name);
    crate::find::lemma_first_where(m, q);
    crate::find::lemma_first_where(m, p);
    let i = state_index(m, name);
    if j >= 0 {
        // Replacement in place at j, which is not a record for `name`.
        assert(m2 =~= m.update(j, (upd_name, val)));
        if i >= 0 {
            assert(p(m2[i]));
            assert(forall|k: int| 0 <= k < i ==> !p(#[trigger] m2[k]));
            lemma_first_where_is(m2, p, i);
        } else {
            assert(forall|k: int| 0 <= k < m2.len() ==> !p(#[trigger] m2[k]));
            lemma_first_where_none(m2, p);
        }
    } else {
        assert(m2 =~= m.push((upd_name, val)));
        if i >= 0 {
            assert(p(m2[i]));
            assert(forall|k: int| 0 <= k < i ==> !p(#[trigger] m2[k]));
            lemma_first_where_is(m2, p, i);
        } else {
            assert(forall|k: int| 0 <= k < m2.len() ==> !p(#[trigger] m2[k]));
            lemma_first_where_none(m2, p);
        }
    }
}

} // verus!
