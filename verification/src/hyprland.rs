use vstd::prelude::*;

verus! {

/// A monitor as `hyprctl monitors -j` reports it.
#[derive(Debug)]
pub struct HyprMonitor {
    pub name: String,
    pub active_workspace: WorkspaceRef,
}

/// A reference to a workspace by its id.
#[derive(Clone, Copy, Debug, PartialEq, Eq, Structural)]
pub struct WorkspaceRef {
    pub id: i64,
}

/// A window as `hyprctl clients -j` reports it.
#[derive(Debug)]
pub struct HyprClient {
    pub address: String,
    pub title: String,
    pub class: String,
    pub workspace: WorkspaceRef,
    pub mapped: bool,
    pub hidden: bool,
}

impl Clone for HyprClient {
    fn clone(&self) -> (r: Self)
        ensures
            r == *self,
    {
        HyprClient {
            address: self.address.clone(),
            title: self.title.clone(),
            class: self.class.clone(),
            workspace: self.workspace,
            mapped: self.mapped,
            hidden: self.hidden,
        }
    }
}

/// The focused window as `hyprctl activewindow -j` reports it.
#[derive(Debug)]
pub struct ActiveWindow {
    pub address: String,
}

/// The active workspace of the first monitor in `ms` called `name`.
pub open spec fn spec_active_workspace(ms: Seq<HyprMonitor>, name: Seq<char>) -> Option<i64>
    decreases ms.len(),
{
    if ms.len() == 0 {
        None
    } else if ms[0].name@ == name {
        Some(ms[0].active_workspace.id)
    } else {
        spec_active_workspace(ms.drop_first(), name)
    }
}

/// Get the active workspace ID on the monitor called `name`
pub fn get_active_workspace(monitors: &Vec<HyprMonitor>, name: &str) -> (r: Option<i64>)
    ensures
        r == spec_active_workspace(monitors@, name@),
{
    let key = name.to_owned();
    let mut i: usize = 0;
    assert(monitors@.skip(0) =~= monitors@);
    while i < monitors.len()
        invariant
            i <= monitors@.len(),
            key@ == name@,
            spec_active_workspace(monitors@, name@) == spec_active_workspace(
                monitors@.skip(i as int),
                name@,
            ),
        decreases monitors.len() - i,
    {
        assert(monitors@.skip(i as int)[0] == monitors@[i as int]);
        if monitors[i].name == key {
            return Some(monitors[i].active_workspace.id);
        }
        assert(monitors@.skip(i as int).drop_first() =~= monitors@.skip(i + 1));
        i = i + 1;
    }
    None
}

/// A monitor with its focus flag, as `hyprctl monitors -j` reports it.
#[derive(Clone, Debug)]
pub struct MonitorFocus {
    pub name: String,
    pub focused: bool,
}

/// A workspace with the layout it uses, as `hyprctl workspaces -j` reports it.
#[derive(Clone, Debug)]
pub struct WorkspaceInfo {
    pub id: i64,
    pub layout: Option<String>,
}

/// The name of the first focused monitor in `ms`.
pub open spec fn spec_focused_name(ms: Seq<MonitorFocus>) -> Option<Seq<char>>
    decreases ms.len(),
{
    if ms.len() == 0 {
        None
    } else if ms[0].focused {
        Some(ms[0].name@)
    } else {
        spec_focused_name(ms.drop_first())
    }
}

/// Name of the focused monitor
pub fn get_focused_monitor_name(monitors: &Vec<MonitorFocus>) -> (r: Option<String>)
    ensures
        match r {
            Some(name) => spec_focused_name(monitors@) == Some(name@),
            None => spec_focused_name(monitors@) is None,
        },
{
    let mut i: usize = 0;
    assert(monitors@.skip(0) =~= monitors@);
    while i < monitors.len()
        invariant
            i <= monitors@.len(),
            spec_focused_name(monitors@) == spec_focused_name(monitors@.skip(i as int)),
        decreases monitors.len() - i,
    {
        assert(monitors@.skip(i as int)[0] == monitors@[i as int]);
        if monitors[i].focused {
            return Some(monitors[i].name.clone());
        }
        assert(monitors@.skip(i as int).drop_first() =~= monitors@.skip(i + 1));
        i = i + 1;
    }
    None
}

/// The layout of the first workspace in `ws` with id `id`, where it reports one.
pub open spec fn spec_workspace_layout(ws: Seq<WorkspaceInfo>, id: i64) -> Option<Seq<char>>
    decreases ws.len(),
{
    if ws.len() == 0 {
        None
    } else if ws[0].id == id {
        match ws[0].layout {
            Some(l) => Some(l@),
            None => None,
        }
    } else {
        spec_workspace_layout(ws.drop_first(), id)
    }
}

/// Layout name of a workspace
pub fn get_workspace_layout(workspaces: &Vec<WorkspaceInfo>, workspace_id: i64) -> (r: Option<String>)
    ensures
        match r {
            Some(l) => spec_workspace_layout(workspaces@, workspace_id) == Some(l@),
            None => spec_workspace_layout(workspaces@, workspace_id) is None,
        },
{
    let mut i: usize = 0;
    assert(workspaces@.skip(0) =~= workspaces@);
    while i < workspaces.len()
        invariant
            i <= workspaces@.len(),
            spec_workspace_layout(workspaces@, workspace_id) == spec_workspace_layout(
                workspaces@.skip(i as int),
                workspace_id,
            ),
        decreases workspaces.len() - i,
    {
        assert(workspaces@.skip(i as int)[0] == workspaces@[i as int]);
        if workspaces[i].id == workspace_id {
            return match &workspaces[i].layout {
                Some(l) => Some(l.clone()),
                None => None,
            };
        }
        assert(workspaces@.skip(i as int).drop_first() =~= workspaces@.skip(i + 1));
        i = i + 1;
    }
    None
}

/// The active workspace of the monitor the overlay follows: the configured one when
/// `configured` is not empty, else the focused one (`focused`), else none.
pub fn get_configured_active_workspace(
    monitors: &Vec<HyprMonitor>,
    configured: &str,
    focused: Option<String>,
) -> (r: Option<i64>)
    ensures
        r == (if configured@.len() > 0 {
            spec_active_workspace(monitors@, configured@)
        } else {
            match focused {
                Some(name) => spec_active_workspace(monitors@, name@),
                None => None,
            }
        }),
{
    if !configured.is_empty() {
        return get_active_workspace(monitors, configured);
    }
    match focused {
        Some(name) => get_active_workspace(monitors, name.as_str()),
        None => None,
    }
}

/// The active workspace of a named monitor is found exactly when a monitor has that name,
/// and it is the active workspace of the first such monitor.
pub proof fn lemma_active_workspace_first_match(ms: Seq<HyprMonitor>, name: Seq<char>)
    ensures
        spec_active_workspace(ms, name) is None <==> forall|i: int| 0 <= i < ms.len() ==> (#[trigger] ms[i]).name@ != name,
        spec_active_workspace(ms, name) is Some ==> exists|i: int|
            0 <= i < ms.len() && (#[trigger] ms[i]).name@ == name && spec_active_workspace(ms, name)
                == Some(ms[i].active_workspace.id) && forall|j: int| 0 <= j < i ==> ms[j].name@ != name,
    decreases ms.len(),
{
    if ms.len() > 0 {
        let rest = ms.drop_first();
        lemma_active_workspace_first_match(rest, name);
        if ms[0].name@ == name {
            assert(ms[0].name@ == name);
        } else {
            assert forall|i: int| 0 <= i < rest.len() implies rest[i] == ms[i + 1] by {}
            if spec_active_workspace(rest, name) is Some {
                let k = choose|k: int|
                    0 <= k < rest.len() && (#[trigger] rest[k]).name@ == name && spec_active_workspace(rest, name)
                        == Some(rest[k].active_workspace.id) && forall|j: int| 0 <= j < k ==> rest[j].name@ != name;
                assert(ms[k + 1] == rest[k]);
                assert forall|j: int| 0 <= j < k + 1 implies ms[j].name@ != name by {
                    if j > 0 {
                        assert(ms[j] == rest[j - 1]);
                    }
                }
            } else {
                assert forall|i: int| 0 <= i < ms.len() implies (#[trigger] ms[i]).name@ != name by {
                    if i > 0 {
                        assert(ms[i] == rest[i - 1]);
                    }
                }
            }
        }
    }
}

/// The focused monitor's name is found exactly when some monitor is focused, and it is the
/// name of the first focused one.
pub proof fn lemma_focused_first_match(ms: Seq<MonitorFocus>)
    ensures
        spec_focused_name(ms) is None <==> forall|i: int| 0 <= i < ms.len() ==> !(#[trigger] ms[i]).focused,
        spec_focused_name(ms) is Some ==> exists|i: int|
            0 <= i < ms.len() && (#[trigger] ms[i]).focused && spec_focused_name(ms) == Some(ms[i].name@)
                && forall|j: int| 0 <= j < i ==> !ms[j].focused,
    decreases ms.len(),
{
    if ms.len() > 0 {
        let rest = ms.drop_first();
        lemma_focused_first_match(rest);
        if !ms[0].focused {
            if spec_focused_name(rest) is Some {
                let k = choose|k: int|
                    0 <= k < rest.len() && (#[trigger] rest[k]).focused && spec_focused_name(rest) == Some(
                        rest[k].name@,
                    ) && forall|j: int| 0 <= j < k ==> !rest[j].focused;
                assert(ms[k + 1] == rest[k]);
                assert forall|j: int| 0 <= j < k + 1 implies !ms[j].focused by {
                    if j > 0 {
                        assert(ms[j] == rest[j - 1]);
                    }
                }
            } else {
                assert forall|i: int| 0 <= i < ms.len() implies !(#[trigger] ms[i]).focused by {
                    if i > 0 {
                        assert(ms[i] == rest[i - 1]);
                    }
                }
            }
        }
    }
}

/// A workspace's layout is the layout reported for the first workspace with that id; with
/// no such workspace there is none.
pub proof fn lemma_workspace_layout_first_match(ws: Seq<WorkspaceInfo>, id: i64)
    ensures
        (forall|i: int| 0 <= i < ws.len() ==> (#[trigger] ws[i]).id != id) ==> spec_workspace_layout(ws, id) is None,
        forall|i: int|
            0 <= i < ws.len() && (#[trigger] ws[i]).id == id && (forall|j: int| 0 <= j < i ==> ws[j].id != id)
                ==> spec_workspace_layout(ws, id) == match ws[i].layout {
                Some(l) => Some(l@),
                None => None,
            },
    decreases ws.len(),
{
    if ws.len() > 0 {
        let rest = ws.drop_first();
        lemma_workspace_layout_first_match(rest, id);
        assert forall|i: int| 0 <= i < rest.len() implies rest[i] == ws[i + 1] by {}
        assert forall|i: int|
            0 <= i < ws.len() && (#[trigger] ws[i]).id == id && (forall|j: int| 0 <= j < i ==> ws[j].id != id)
                implies spec_workspace_layout(ws, id) == match ws[i].layout {
                Some(l) => Some(l@),
                None => None,
            } by {
            if i > 0 {
                assert(ws[0].id != id);
                assert(rest[i - 1] == ws[i]);
                assert forall|j: int| 0 <= j < i - 1 implies rest[j].id != id by {
                    assert(rest[j] == ws[j + 1]);
                }
            }
        }
    }
}

/// Name of the `DP-1` monitor connector.
pub open spec fn dp1_name() -> Seq<char> {
    seq!['D', 'P', '-', '1']
}

/// Get the active workspace ID on DP-1
pub fn get_dp1_active_workspace(monitors: &Vec<HyprMonitor>) -> (r: Option<i64>)
    ensures
        r == spec_active_workspace(monitors@, dp1_name()),
{
    proof {
        reveal_strlit("DP-1");
    }
    let name = "DP-1";
    assert(name@ =~= dp1_name());
    get_active_workspace(monitors, name)
}

/// Whether `c` is listed for workspace `ws`: it is on it, mapped and not hidden.
pub open spec fn is_listed(c: HyprClient, ws: i64) -> bool {
    c.workspace.id == ws && c.mapped && !c.hidden
}

/// The clients of `clients` listed for workspace `ws`, in their order.
pub open spec fn listed_clients(clients: Seq<HyprClient>, ws: i64) -> Seq<HyprClient> {
    clients.filter(|c: HyprClient| is_listed(c, ws))
}

/// Get all visible clients on a given workspace, in the order given
pub fn get_workspace_clients(clients: Vec<HyprClient>, workspace_id: i64) -> (r: Vec<HyprClient>)
    ensures
        r@ == listed_clients(clients@, workspace_id),
{
    let mut r: Vec<HyprClient> = Vec::new();
    let mut i: usize = 0;
    assert(clients@.take(0) =~= Seq::<HyprClient>::empty());
    while i < clients.len()
        invariant
            i <= clients@.len(),
            r@ == listed_clients(clients@.take(i as int), workspace_id),
        decreases clients.len() - i,
    {
        reveal_with_fuel(Seq::<_>::filter, 1);
        let c = &clients[i];
        assert(clients@.take(i + 1).drop_last() =~= clients@.take(i as int));
        assert(clients@.take(i + 1).last() == clients@[i as int]);
        let ghost s = clients@.take(i + 1);
        assert(s.len() > 0);
        if c.workspace.id == workspace_id && c.mapped && !c.hidden {
            assert(is_listed(s.last(), workspace_id));
            assert(listed_clients(s, workspace_id) == listed_clients(s.drop_last(), workspace_id).push(
                s.last(),
            ));
            r.push(c.clone());
        } else {
            assert(!is_listed(s.last(), workspace_id));
            assert(listed_clients(s, workspace_id) == listed_clients(s.drop_last(), workspace_id));
        }
        i = i + 1;
    }
    assert(clients@.take(clients@.len() as int) =~= clients@);
    r
}

/// Every listed client is on the workspace, mapped and not hidden; every such client of
/// the input is listed; and the listed clients keep their order.
pub proof fn lemma_workspace_clients(clients: Seq<HyprClient>, ws: i64)
    ensures
        forall|i: int|
            0 <= i < listed_clients(clients, ws).len() ==> is_listed(
                #[trigger] listed_clients(clients, ws)[i],
                ws,
            ),
        forall|i: int|
            0 <= i < clients.len() && is_listed(clients[i], ws) ==> listed_clients(
                clients,
                ws,
            ).contains(#[trigger] clients[i]),
        listed_clients(clients, ws).len() <= clients.len(),
{
    broadcast use vstd::seq_lib::group_filter_ensures;

}

} // verus!
