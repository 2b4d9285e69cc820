//! The home page's decisions: which workspaces the workspace filter shows,
//! and which stored connections a search finds.
use vstd::prelude::*;
use std::collections::HashSet;
use crate::models::{ConnectionType, DbConnectionConfig, StoredConnection, Workspace};
use crate::text::{chars_of, contains_seq, decimal, push_str, str_contains, str_to_owned, to_lowercase, u64_to_decimal, unicode_lowercase};

verus! {

broadcast use vstd::std_specs::hash::group_hash_axioms;

// ---------------------------------------------------------------------------
// Workspace filter
// ---------------------------------------------------------------------------

/// The ids of the stored workspaces.
pub open spec fn workspace_ids(ws: Seq<Workspace>) -> Set<i64> {
    Set::new(|id: i64| exists|i: int| 0 <= i < ws.len() && (#[trigger] ws[i]).id == Some(id))
}

/// How many of the workspaces are stored (have an id).
pub open spec fn stored_count(ws: Seq<Workspace>) -> nat
    decreases ws.len(),
{
    if ws.len() == 0 {
        0
    } else {
        stored_count(ws.drop_last()) + if ws.last().id is Some {
            1nat
        } else {
            0nat
        }
    }
}

/// The selection after `id` is toggled: an empty selection stands for all
/// stored workspaces, which are selected first.
pub open spec fn toggled(selected: Set<i64>, ws: Seq<Workspace>, id: i64) -> Set<i64> {
    let base = if selected.is_empty() {
        workspace_ids(ws)
    } else {
        selected
    };
    if base.contains(id) {
        base.remove(id)
    } else {
        base.insert(id)
    }
}

/// Whether a workspace's section is shown: an empty selection shows all,
/// and a workspace that is not stored is always shown.
pub open spec fn shows_workspace(selected: Set<i64>, w: Workspace) -> bool {
    selected.is_empty() || match w.id {
        Some(id) => selected.contains(id),
        None => true,
    }
}

/// The workspaces selected in the home page's filter; none selected means
/// all are shown.
pub struct WorkspaceFilter {
    ids: HashSet<i64>,
}

impl View for WorkspaceFilter {
    type V = Set<i64>;

    closed spec fn view(&self) -> Set<i64> {
        self.ids@
    }
}

impl WorkspaceFilter {
    /// The selection is finite.
    pub open spec fn wf(&self) -> bool {
        self@.finite()
    }

    pub fn new() -> (r: WorkspaceFilter)
        ensures
            r@ == Set::<i64>::empty(),
            r.wf(),
    {
        WorkspaceFilter { ids: HashSet::new() }
    }

    fn insert_all(&mut self, workspaces: &Vec<Workspace>)
        requires
            old(self).wf(),
        ensures
            final(self)@ == old(self)@.union(workspace_ids(workspaces@)),
            final(self).wf(),
    {
        let mut i: usize = 0;
        while i < workspaces.len()
            invariant
                i <= workspaces@.len(),
                self@ == old(self)@.union(workspace_ids(workspaces@.subrange(0, i as int))),
                self@.finite(),
            decreases workspaces.len() - i,
        {
            let ghost before = self@;
            match workspaces[i].id {
                Some(id) => {
                    self.ids.insert(id);
                },
                None => {},
            }
            proof {
                let pre = workspaces@.subrange(0, i as int);
                let post = workspaces@.subrange(0, i + 1);
                assert forall|x: i64| #[trigger] workspace_ids(post).contains(x) == (workspace_ids(pre).contains(x)
                    || workspaces@[i as int].id == Some(x)) by {
                    if workspace_ids(pre).contains(x) {
                        let k = choose|k: int| 0 <= k < pre.len() && (#[trigger] pre[k]).id == Some(x);
                        assert(post[k] == pre[k]);
                    }
                    if workspaces@[i as int].id == Some(x) {
                        assert(post[i as int] == workspaces@[i as int]);
                    }
                    if workspace_ids(post).contains(x) {
                        let k = choose|k: int| 0 <= k < post.len() && (#[trigger] post[k]).id == Some(x);
                        if k < i {
                            assert(pre[k] == post[k]);
                        }
                    }
                }
                assert(self@ =~= old(self)@.union(workspace_ids(post)));
            }
            i += 1;
        }
        assert(workspaces@.subrange(0, workspaces@.len() as int) =~= workspaces@);
    }

    /// Selects or deselects one workspace; from an empty selection all
    /// stored workspaces are selected first.
    pub fn toggle(&mut self, workspaces: &Vec<Workspace>, workspace_id: i64)
        requires
            old(self).wf(),
        ensures
            final(self).wf(),
            final(self)@ == toggled(old(self)@, workspaces@, workspace_id),
    {
        if self.ids.is_empty() {
            self.insert_all(workspaces);
            assert(self@ =~= workspace_ids(workspaces@));
        }
        if self.ids.contains(&workspace_id) {
            self.ids.remove(&workspace_id);
        } else {
            self.ids.insert(workspace_id);
        }
    }

    /// Selects every stored workspace.
    pub fn select_all(&mut self, workspaces: &Vec<Workspace>)
        requires
            old(self).wf(),
        ensures
            final(self).wf(),
            final(self)@ == workspace_ids(workspaces@),
    {
        self.ids.clear();
        self.insert_all(workspaces);
        assert(self@ =~= workspace_ids(workspaces@));
    }

    /// Clears the selection, which shows every workspace.
    pub fn clear(&mut self)
        requires
            old(self).wf(),
        ensures
            final(self).wf(),
            final(self)@ == Set::<i64>::empty(),
    {
        self.ids.clear();
    }

    /// Forgets a deleted workspace.
    pub fn remove_workspace(&mut self, workspace_id: i64)
        requires
            old(self).wf(),
        ensures
            final(self).wf(),
            final(self)@ == old(self)@.remove(workspace_id),
    {
        self.ids.remove(&workspace_id);
        assert(self@ =~= old(self)@.remove(workspace_id));
    }

    /// Whether the filter counts as selecting all: nothing selected, or as
    /// many selected as there are stored workspaces.
    pub fn is_all_selected(&self, workspaces: &Vec<Workspace>) -> (r: bool)
        ensures
            r == (self@.is_empty() || self@.len() == stored_count(workspaces@)),
    {
        if self.ids.is_empty() {
            return true;
        }
        let mut n: usize = 0;
        let mut i: usize = 0;
        while i < workspaces.len()
            invariant
                i <= workspaces@.len(),
                n == stored_count(workspaces@.subrange(0, i as int)),
                n <= i,
            decreases workspaces.len() - i,
        {
            proof {
                assert(workspaces@.subrange(0, i + 1).drop_last() =~= workspaces@.subrange(0, i as int));
            }
            if workspaces[i].id.is_some() {
                n += 1;
            }
            i += 1;
        }
        assert(workspaces@.subrange(0, workspaces@.len() as int) =~= workspaces@);
        self.ids.len() == n
    }

    /// Whether the workspace's section is shown.
    pub fn shows(&self, workspace: &Workspace) -> (r: bool)
        ensures
            r == shows_workspace(self@, *workspace),
    {
        if self.ids.is_empty() {
            return true;
        }
        match workspace.id {
            Some(id) => self.ids.contains(&id),
            None => true,
        }
    }
}

/// Toggling a workspace twice gives back the selection, unless the first
/// toggle emptied it (an empty selection stands for all).
pub proof fn law_toggle_twice(selected: Set<i64>, ws: Seq<Workspace>, id: i64)
    requires
        !selected.is_empty(),
        !toggled(selected, ws, id).is_empty(),
    ensures
        toggled(toggled(selected, ws, id), ws, id) == selected,
{
    if selected.contains(id) {
        assert(selected.remove(id).insert(id) =~= selected);
    } else {
        assert(selected.insert(id).remove(id) =~= selected);
    }
}

/// After every workspace is selected, each stored workspace's section is
/// shown; with nothing selected every section is shown.
pub proof fn law_select_all_shows_each(ws: Seq<Workspace>, i: int)
    requires
        0 <= i < ws.len(),
    ensures
        shows_workspace(workspace_ids(ws), ws[i]),
        shows_workspace(Set::<i64>::empty(), ws[i]),
{
    match ws[i].id {
        Some(id) => {
            assert(workspace_ids(ws).contains(id));
        },
        None => {},
    }
}

// ---------------------------------------------------------------------------
// Saving a workspace
// ---------------------------------------------------------------------------

/// The position of the first workspace with this id, or -1.
pub open spec fn position_of(ws: Seq<Workspace>, id: i64) -> int
    decreases ws.len(),
{
    if ws.len() == 0 {
        -1
    } else if ws[0].id == Some(id) {
        0
    } else {
        let k = position_of(ws.drop_first(), id);
        if k < 0 {
            -1
        } else {
            k + 1
        }
    }
}

proof fn lemma_position_of(ws: Seq<Workspace>, id: i64)
    ensures
        position_of(ws, id) < ws.len(),
        position_of(ws, id) >= 0 ==> ws[position_of(ws, id)].id == Some(id),
    decreases ws.len(),
{
    if ws.len() > 0 && ws[0].id != Some(id) {
        lemma_position_of(ws.drop_first(), id);
    }
}

fn find_workspace(workspaces: &Vec<Workspace>, id: i64) -> (r: Option<usize>)
    ensures
        match r {
            Some(k) => position_of(workspaces@, id) == k as int && k < workspaces@.len(),
            None => position_of(workspaces@, id) < 0,
        },
{
    let ghost ws = workspaces@;
    let mut i: usize = 0;
    assert(ws.subrange(0, ws.len() as int) =~= ws);
    while i < workspaces.len()
        invariant
            i <= ws.len(),
            ws == workspaces@,
            forall|j: int| 0 <= j < i ==> (#[trigger] ws[j]).id != Some(id),
            position_of(ws, id) == (if position_of(ws.subrange(i as int, ws.len() as int), id) < 0 {
                -1
            } else {
                position_of(ws.subrange(i as int, ws.len() as int), id) + i
            }),
        decreases workspaces.len() - i,
    {
        let ghost rest = ws.subrange(i as int, ws.len() as int);
        assert(rest[0] == ws[i as int]);
        if workspaces[i].id == Some(id) {
            proof {
                lemma_position_of(ws, id);
            }
            return Some(i);
        }
        assert(rest.drop_first() =~= ws.subrange(i + 1, ws.len() as int));
        i += 1;
    }
    None
}

/// The workspace the form saves under `name`: the one being edited, if it
/// is in the list, renamed; else a new workspace.
pub fn workspace_to_save(workspaces: &Vec<Workspace>, editing_id: Option<i64>, name: String) -> (r: Workspace)
    ensures
        r.name == name,
        match editing_id {
            Some(id) => {
                let k = position_of(workspaces@, id);
                if k >= 0 {
                    r == (Workspace { name, ..workspaces@[k] })
                } else {
                    r == (Workspace { name, id: None, color: None, icon: None, created_at: None, updated_at: None })
                }
            },
            None => r == (Workspace { name, id: None, color: None, icon: None, created_at: None, updated_at: None }),
        },
{
    match editing_id {
        Some(id) => match find_workspace(workspaces, id) {
            Some(k) => {
                let w = &workspaces[k];
                Workspace {
                    id: w.id,
                    name,
                    color: match &w.color {
                        Some(c) => Some(c.clone()),
                        None => None,
                    },
                    icon: match &w.icon {
                        Some(c) => Some(c.clone()),
                        None => None,
                    },
                    created_at: w.created_at,
                    updated_at: w.updated_at,
                }
            },
            None => Workspace::new(name),
        },
        None => Workspace::new(name),
    }
}

/// The workspace list once `saved` is stored: it replaces the edited
/// workspace where that is in the list, or is added at the end when it
/// is new.
pub fn apply_saved_workspace(workspaces: &mut Vec<Workspace>, editing_id: Option<i64>, saved: Workspace)
    ensures
        match editing_id {
            Some(id) => {
                let k = position_of(old(workspaces)@, id);
                if k >= 0 {
                    final(workspaces)@ == old(workspaces)@.update(k, saved)
                } else {
                    final(workspaces)@ == old(workspaces)@
                }
            },
            None => final(workspaces)@ == old(workspaces)@.push(saved),
        },
{
    match editing_id {
        Some(id) => match find_workspace(workspaces, id) {
            Some(k) => {
                workspaces.set(k, saved);
            },
            None => {},
        },
        None => {
            workspaces.push(saved);
        },
    }
}

// ---------------------------------------------------------------------------
// Connection search
// ---------------------------------------------------------------------------

/// `user@host:port`, as the search reads a database connection.
pub open spec fn connection_address(p: DbConnectionConfig) -> Seq<char> {
    p.username@ + "@"@ + p.host@ + ":"@ + decimal(p.port as nat)
}

/// Whether a search for `query` finds the connection: an empty query finds
/// all; else the lower-cased name, or for a database connection whose
/// params read as `params`, its lower-cased host, user, database or
/// address, or its port, contains the query.
pub open spec fn connection_matches(conn: StoredConnection, params: Option<DbConnectionConfig>, query: Seq<char>) -> bool {
    query.len() == 0 || contains_seq(unicode_lowercase(conn.name@), query) || (conn.connection_type
        == ConnectionType::Database && match params {
        Some(p) => {
            ||| contains_seq(unicode_lowercase(p.host@), query)
            ||| contains_seq(decimal(p.port as nat), query)
            ||| contains_seq(unicode_lowercase(p.username@), query)
            ||| match p.database {
                Some(d) => contains_seq(unicode_lowercase(d@), query),
                None => false,
            }
            ||| contains_seq(unicode_lowercase(connection_address(p)), query)
        },
        None => false,
    })
}

fn lower_contains(s: &str, query: &str) -> (r: bool)
    ensures
        r == contains_seq(unicode_lowercase(s@), query@),
{
    let l = to_lowercase(s);
    str_contains(l.as_str(), query)
}

/// Whether a search for `query` finds the connection; `params` is the
/// configuration its params text reads as, if it reads.
pub fn match_connection(conn: &StoredConnection, params: &Option<DbConnectionConfig>, query: &str) -> (r: bool)
    ensures
        r == connection_matches(*conn, *params, query@),
{
    if chars_of(query).len() == 0 {
        return true;
    }
    if lower_contains(conn.name.as_str(), query) {
        return true;
    }
    if conn.connection_type != ConnectionType::Database {
        return false;
    }
    match params {
        None => false,
        Some(p) => {
            if lower_contains(p.host.as_str(), query) {
                return true;
            }
            let port = u64_to_decimal(p.port as u64);
            if str_contains(port.as_str(), query) {
                return true;
            }
            if lower_contains(p.username.as_str(), query) {
                return true;
            }
            match &p.database {
                Some(d) => {
                    if lower_contains(d.as_str(), query) {
                        return true;
                    }
                },
                None => {},
            }
            let mut address = p.username.clone();
            push_str(&mut address, "@");
            push_str(&mut address, p.host.as_str());
            push_str(&mut address, ":");
            push_str(&mut address, port.as_str());
            assert(address@ =~= connection_address(*p));
            lower_contains(address.as_str(), query)
        },
    }
}

} // verus!
