use vstd::prelude::*;
use vstd::string::StrSliceExecFns;
use vstd::string::StringExecFns;

use crate::config::Config;
use crate::config::EffectiveConfig;
use crate::config::Layout;
use crate::config::OverflowStyle;
use crate::config::Position;
use crate::hyprland::HyprClient;

verus! {

// ---------------------------------------------------------------------------------------
// Title truncation
// ---------------------------------------------------------------------------------------

/// Whether a title can be cut to `max_title_chars` characters: a limit of 0 leaves no room
/// for the ellipsis, which only matters for a title that is not empty.
pub open spec fn truncation_defined(title: Seq<char>, max_title_chars: int) -> bool {
    max_title_chars != 0 || title.len() == 0
}

/// A title longer than `max_title_chars` characters keeps its first `max_title_chars - 1`
/// characters followed by `…`; any other title (and any title under a negative limit) is
/// kept whole.
pub open spec fn spec_truncate_title(title: Seq<char>, max_title_chars: int) -> Seq<char> {
    if max_title_chars >= 0 && title.len() > max_title_chars {
        title.take(max_title_chars - 1).push('\u{2026}')
    } else {
        title
    }
}

/// Character-based truncation of a window title.
pub fn truncate_title(title: &str, max_title_chars: i32) -> (r: String)
    requires
        truncation_defined(title@, max_title_chars as int),
    ensures
        r@ == spec_truncate_title(title@, max_title_chars as int),
{
    let n = title.unicode_len();
    if max_title_chars >= 0 && n > max_title_chars as usize {
        let keep = (max_title_chars - 1) as usize;
        let mut t = String::from_str(title.substring_char(0, keep));
        proof {
            reveal_strlit("\u{2026}");
        }
        t.append("\u{2026}");
        assert(t@ =~= title@.take(max_title_chars - 1).push('\u{2026}'));
        t
    } else {
        String::from_str(title)
    }
}

/// A truncated title never has more than `max_title_chars` characters, keeps the title's
/// beginning, and a title that fits is left unchanged.
pub proof fn lemma_truncated_title_fits(title: Seq<char>, max_title_chars: int)
    requires
        max_title_chars >= 1,
    ensures
        spec_truncate_title(title, max_title_chars).len() <= max_title_chars,
        title.len() <= max_title_chars ==> spec_truncate_title(title, max_title_chars) == title,
        title.len() > max_title_chars ==> spec_truncate_title(title, max_title_chars).take(
            max_title_chars - 1,
        ) =~= title.take(max_title_chars - 1),
        title.len() > max_title_chars ==> spec_truncate_title(title, max_title_chars).last()
            == '\u{2026}',
{
}

// ---------------------------------------------------------------------------------------
// Window placement
// ---------------------------------------------------------------------------------------

/// Where and how the overlay window is placed on a monitor: it is anchored to the edge
/// `anchor` only, `margin` pixels from it (all other edges unanchored, margin 0), its rows are
/// stacked along `orientation`, and it asks for the given default size (-1: natural size).
#[derive(Clone, Copy, Debug, PartialEq, Eq, Structural)]
pub struct LayoutPlan {
    pub anchor: Position,
    pub margin: i32,
    pub orientation: Layout,
    pub default_width: i32,
    pub default_height: i32,
}

/// The width of a vertical overlay: `max_element_width` caps `width` when it is set (> 0).
pub open spec fn spec_window_width(e: EffectiveConfig) -> i32 {
    if e.max_element_width > 0 {
        if e.max_element_width < e.width {
            e.max_element_width
        } else {
            e.width
        }
    } else {
        e.width
    }
}

pub open spec fn spec_layout_plan(e: EffectiveConfig) -> LayoutPlan {
    LayoutPlan {
        anchor: e.position,
        margin: e.margin,
        orientation: e.layout,
        default_width: match e.layout {
            Layout::Vertical => spec_window_width(e),
            Layout::Horizontal => -1i32,
        },
        default_height: -1i32,
    }
}

/// Reconfigure anchors, margins, and container orientation for the given settings
pub fn layout_plan(effective: &EffectiveConfig) -> (r: LayoutPlan)
    ensures
        r == spec_layout_plan(*effective),
{
    let win_width = if effective.max_element_width > 0 {
        if effective.max_element_width < effective.width {
            effective.max_element_width
        } else {
            effective.width
        }
    } else {
        effective.width
    };
    let default_width = match effective.layout {
        Layout::Vertical => win_width,
        Layout::Horizontal => -1,
    };
    LayoutPlan {
        anchor: effective.position,
        margin: effective.margin,
        orientation: effective.layout,
        default_width,
        default_height: -1,
    }
}

/// A vertical overlay is never wider than the configured width, and never wider than a
/// set `max_element_width`.
pub proof fn lemma_window_width_bounded(e: EffectiveConfig)
    ensures
        spec_window_width(e) <= e.width,
        e.max_element_width > 0 ==> spec_window_width(e) <= e.max_element_width,
        e.max_element_width <= 0 ==> spec_window_width(e) == e.width,
{
}

// ---------------------------------------------------------------------------------------
// Rows
// ---------------------------------------------------------------------------------------

/// How a row shows its title.
#[derive(Clone, Copy, Debug, PartialEq, Eq, Structural)]
pub enum TitleStyle {
    /// A label that fills the row and ends in `…` where it does not fit.
    Ellipsized,
    /// A title that scrolls back and forth at the given speed (pixels per second).
    Scrolling(i32),
    /// The character-truncated title; in a vertical overlay the label is at most the given
    /// number of characters wide.
    Clipped(Option<i32>),
}

/// What one row of the overlay shows.
#[derive(Clone, Debug)]
pub struct RowPlan {
    /// Window class, from which the icon is resolved.
    pub class: String,
    /// The title text the row shows.
    pub title: String,
    /// Whether the row is the focused window (highlighted).
    pub is_active: bool,
    pub style: TitleStyle,
}

pub open spec fn spec_title_style(config: Config, e: EffectiveConfig) -> TitleStyle {
    if e.max_element_width > 0 {
        match config.overflow_style {
            OverflowStyle::Truncate => TitleStyle::Ellipsized,
            OverflowStyle::Scroll => TitleStyle::Scrolling(config.scroll_speed),
        }
    } else {
        TitleStyle::Clipped(
            match e.layout {
                Layout::Vertical => Some(config.max_title_chars),
                Layout::Horizontal => None,
            },
        )
    }
}

pub open spec fn spec_row_title(config: Config, e: EffectiveConfig, title: Seq<char>) -> Seq<char> {
    if e.max_element_width > 0 {
        title
    } else {
        spec_truncate_title(title, config.max_title_chars as int)
    }
}

/// Whether the rows of `clients` can be planned: character truncation must be defined
/// for every title it applies to.
pub open spec fn rows_defined(config: Config, e: EffectiveConfig, clients: Seq<HyprClient>) -> bool {
    e.max_element_width <= 0 ==> forall|i: int|
        0 <= i < clients.len() ==> truncation_defined(
            #[trigger] clients[i].title@,
            config.max_title_chars as int,
        )
}

/// Whether `plan_rows` is defined on these clients.
pub fn rows_are_defined(config: &Config, effective: &EffectiveConfig, clients: &Vec<HyprClient>) -> (r:
    bool)
    ensures
        r == rows_defined(*config, *effective, clients@),
{
    if effective.max_element_width > 0 || config.max_title_chars != 0 {
        return true;
    }
    let mut i: usize = 0;
    while i < clients.len()
        invariant
            i <= clients@.len(),
            config.max_title_chars == 0,
            effective.max_element_width <= 0,
            forall|k: int|
                0 <= k < i ==> truncation_defined(
                    #[trigger] clients@[k].title@,
                    config.max_title_chars as int,
                ),
        decreases clients.len() - i,
    {
        if !clients[i].title.as_str().is_empty() {
            assert(!truncation_defined(clients@[i as int].title@, config.max_title_chars as int));
            return false;
        }
        i = i + 1;
    }
    true
}

/// The row for `client` matches its specification.
pub open spec fn row_matches(
    row: RowPlan,
    config: Config,
    e: EffectiveConfig,
    client: HyprClient,
    active: Seq<char>,
) -> bool {
    &&& row.class@ == client.class@
    &&& row.title@ == spec_row_title(config, e, client.title@)
    &&& row.is_active == (client.address@ == active)
    &&& row.style == spec_title_style(config, e)
}

fn title_style(config: &Config, e: &EffectiveConfig) -> (r: TitleStyle)
    ensures
        r == spec_title_style(*config, *e),
{
    if e.max_element_width > 0 {
        match config.overflow_style {
            OverflowStyle::Truncate => TitleStyle::Ellipsized,
            OverflowStyle::Scroll => TitleStyle::Scrolling(config.scroll_speed),
        }
    } else {
        TitleStyle::Clipped(
            match e.layout {
                Layout::Vertical => Some(config.max_title_chars),
                Layout::Horizontal => None,
            },
        )
    }
}

/// One row per client, in order, with the focused window marked.
pub fn plan_rows(
    config: &Config,
    effective: &EffectiveConfig,
    clients: &Vec<HyprClient>,
    active_addr: &String,
) -> (r: Vec<RowPlan>)
    requires
        rows_defined(*config, *effective, clients@),
    ensures
        r@.len() == clients@.len(),
        forall|i: int|
            0 <= i < r@.len() ==> row_matches(
                #[trigger] r@[i],
                *config,
                *effective,
                clients@[i],
                active_addr@,
            ),
{
    let style = title_style(config, effective);
    let mut rows: Vec<RowPlan> = Vec::new();
    let mut i: usize = 0;
    while i < clients.len()
        invariant
            i <= clients@.len(),
            rows@.len() == i,
            rows_defined(*config, *effective, clients@),
            style == spec_title_style(*config, *effective),
            forall|k: int|
                0 <= k < i ==> row_matches(
                    #[trigger] rows@[k],
                    *config,
                    *effective,
                    clients@[k],
                    active_addr@,
                ),
        decreases clients.len() - i,
    {
        let client = &clients[i];
        let title = if effective.max_element_width > 0 {
            client.title.clone()
        } else {
            assert(truncation_defined(clients@[i as int].title@, config.max_title_chars as int));
            truncate_title(client.title.as_str(), config.max_title_chars)
        };
        let is_active = client.address == *active_addr;
        rows.push(RowPlan { class: client.class.clone(), title, is_active, style });
        i = i + 1;
    }
    rows
}

/// The overlay goes where the settings say: anchored to the configured edge, at the
/// configured margin, stacking along the configured layout; a vertical overlay is as wide as
/// `width`, or `max_element_width` when that is set and smaller; a horizontal one takes its
/// natural size.
pub proof fn lemma_layout_plan_follows_settings(e: EffectiveConfig)
    ensures
        spec_layout_plan(e).anchor == e.position,
        spec_layout_plan(e).margin == e.margin,
        spec_layout_plan(e).orientation == e.layout,
        spec_layout_plan(e).default_height == -1,
        e.layout == Layout::Horizontal ==> spec_layout_plan(e).default_width == -1,
        e.layout == Layout::Vertical ==> {
            let w = spec_layout_plan(e).default_width;
            &&& w <= e.width
            &&& (w == e.width || w == e.max_element_width)
            &&& (e.max_element_width > 0 ==> w <= e.max_element_width)
            &&& (e.max_element_width > 0 && e.max_element_width < e.width ==> w == e.max_element_width)
            &&& (e.max_element_width <= 0 ==> w == e.width)
        },
{
}

/// What a row shows as its title. Without `max_element_width` the title is cut by
/// characters in either layout: a title of at most `max_title_chars` characters is shown
/// whole, a longer one as exactly `max_title_chars` characters, its first
/// `max_title_chars - 1` followed by `…` (a negative limit never cuts); a vertical row is at
/// most `max_title_chars` characters wide. With `max_element_width` the whole title is
/// shown, ellipsized or scrolling as `overflow_style` says. The focused window's row is
/// the one marked active.
pub proof fn lemma_row_titles(
    config: Config,
    e: EffectiveConfig,
    client: HyprClient,
    active: Seq<char>,
    row: RowPlan,
)
    requires
        row_matches(row, config, e, client, active),
    ensures
        row.is_active <==> client.address@ == active,
        row.class@ == client.class@,
        e.max_element_width > 0 ==> row.title@ == client.title@,
        e.max_element_width > 0 && config.overflow_style == OverflowStyle::Truncate ==> row.style
            == TitleStyle::Ellipsized,
        e.max_element_width > 0 && config.overflow_style == OverflowStyle::Scroll ==> row.style
            == TitleStyle::Scrolling(config.scroll_speed),
        e.max_element_width <= 0 && e.layout == Layout::Vertical ==> row.style == TitleStyle::Clipped(
            Some(config.max_title_chars),
        ),
        e.max_element_width <= 0 && e.layout == Layout::Horizontal ==> row.style
            == TitleStyle::Clipped(None),
        e.max_element_width <= 0 && (config.max_title_chars < 0 || client.title@.len()
            <= config.max_title_chars) ==> row.title@ == client.title@,
        e.max_element_width <= 0 && 1 <= config.max_title_chars < client.title@.len() ==> {
            &&& row.title@.len() == config.max_title_chars
            &&& row.title@.take(config.max_title_chars - 1) == client.title@.take(
                config.max_title_chars - 1,
            )
            &&& row.title@.last() == '\u{2026}'
        },
{
    if e.max_element_width <= 0 && 1 <= config.max_title_chars < client.title@.len() {
        let m = config.max_title_chars as int;
        assert(row.title@ == client.title@.take(m - 1).push('\u{2026}'));
        assert(row.title@.take(m - 1) =~= client.title@.take(m - 1));
    }
}

// ---------------------------------------------------------------------------------------
// Change detection
// ---------------------------------------------------------------------------------------

/// One shown row as remembered for change detection.
#[derive(Clone, Debug)]
pub struct WindowEntry {
    pub address: String,
    pub title: String,
    pub is_active: bool,
}

pub open spec fn entry_view(e: WindowEntry) -> (Seq<char>, Seq<char>, bool) {
    (e.address@, e.title@, e.is_active)
}

/// Snapshot of window list state for change detection: (address, title, is_active) per
/// client, in order.
pub open spec fn snapshot(clients: Seq<HyprClient>, active: Seq<char>) -> Seq<
    (Seq<char>, Seq<char>, bool),
> {
    Seq::new(
        clients.len(),
        |i: int| (clients[i].address@, clients[i].title@, clients[i].address@ == active),
    )
}

/// Two client lists count as the same window list exactly when they have the same length
/// and, position by position, the same address, the same title and the same focus.
pub proof fn lemma_snapshot_compares_rows(
    c1: Seq<HyprClient>,
    a1: Seq<char>,
    c2: Seq<HyprClient>,
    a2: Seq<char>,
)
    ensures
        snapshot(c1, a1) == snapshot(c2, a2) <==> (c1.len() == c2.len() && forall|i: int|
            0 <= i < c1.len() ==> (#[trigger] c1[i]).address@ == c2[i].address@ && c1[i].title@
                == c2[i].title@ && (c1[i].address@ == a1) == (c2[i].address@ == a2)),
{
    let s1 = snapshot(c1, a1);
    let s2 = snapshot(c2, a2);
    if s1 == s2 {
        assert(s1.len() == c1.len() && s2.len() == c2.len());
        assert forall|i: int| 0 <= i < c1.len() implies (#[trigger] c1[i]).address@ == c2[i].address@
            && c1[i].title@ == c2[i].title@ && (c1[i].address@ == a1) == (c2[i].address@ == a2) by {
            assert(s1[i] == s2[i]);
        }
    }
    if c1.len() == c2.len() && forall|i: int|
        0 <= i < c1.len() ==> (#[trigger] c1[i]).address@ == c2[i].address@ && c1[i].title@
            == c2[i].title@ && (c1[i].address@ == a1) == (c2[i].address@ == a2) {
        assert(s1 =~= s2);
    }
}

/// The window list last shown, for change detection.
#[derive(Clone, Debug)]
pub struct WindowListState {
    entries: Vec<WindowEntry>,
}

impl WindowListState {
    pub closed spec fn view(self) -> Seq<(Seq<char>, Seq<char>, bool)> {
        self.entries@.map_values(|e: WindowEntry| entry_view(e))
    }

    /// Nothing shown yet.
    pub fn new() -> (r: Self)
        ensures
            r.view() == Seq::<(Seq<char>, Seq<char>, bool)>::empty(),
    {
        let r = WindowListState { entries: Vec::new() };
        assert(r.view() =~= Seq::<(Seq<char>, Seq<char>, bool)>::empty());
        r
    }

    /// Forget the shown list (the overlay was emptied).
    pub fn clear(&mut self)
        ensures
            final(self).view() == Seq::<(Seq<char>, Seq<char>, bool)>::empty(),
    {
        self.entries = Vec::new();
        assert(self.view() =~= Seq::<(Seq<char>, Seq<char>, bool)>::empty());
    }

    fn same_as(&self, clients: &Vec<HyprClient>, active_addr: &String) -> (r: bool)
        ensures
            r == (self.view() == snapshot(clients@, active_addr@)),
    {
        let ghost snap = snapshot(clients@, active_addr@);
        if self.entries.len() != clients.len() {
            assert(self.view().len() != snap.len());
            return false;
        }
        let mut i: usize = 0;
        while i < clients.len()
            invariant
                i <= clients@.len(),
                self.entries@.len() == clients@.len(),
                snap == snapshot(clients@, active_addr@),
                forall|k: int| 0 <= k < i ==> self.view()[k] == #[trigger] snap[k],
            decreases clients.len() - i,
        {
            let e = &self.entries[i];
            let c = &clients[i];
            let same = e.address == c.address && e.title == c.title && e.is_active == (c.address
                == *active_addr);
            if !same {
                assert(self.view()[i as int] != snap[i as int]);
                return false;
            }
            i = i + 1;
        }
        assert(self.view() =~= snap);
        true
    }

    /// Check if window list has changed since last populate, and remember the new list
    pub fn window_list_changed(&mut self, clients: &Vec<HyprClient>, active_addr: &String) -> (r:
        bool)
        ensures
            r == (old(self).view() != snapshot(clients@, active_addr@)),
            final(self).view() == snapshot(clients@, active_addr@),
    {
        if self.same_as(clients, active_addr) {
            return false;
        }
        let mut entries: Vec<WindowEntry> = Vec::new();
        let mut i: usize = 0;
        while i < clients.len()
            invariant
                i <= clients@.len(),
                entries@.len() == i,
                forall|k: int|
                    0 <= k < i ==> entry_view(#[trigger] entries@[k]) == snapshot(
                        clients@,
                        active_addr@,
                    )[k],
            decreases clients.len() - i,
        {
            let c = &clients[i];
            entries.push(
                WindowEntry {
                    address: c.address.clone(),
                    title: c.title.clone(),
                    is_active: c.address == *active_addr,
                },
            );
            i = i + 1;
        }
        self.entries = entries;
        assert(self.view() =~= snapshot(clients@, active_addr@));
        true
    }
}

/// Once the remembered list is cleared (the overlay was hidden or emptied), any non-empty
/// window list counts as a change, so the next fill rebuilds the rows; and a list equal to
/// the remembered one never does.
pub proof fn lemma_change_detection(clients: Seq<HyprClient>, active: Seq<char>)
    ensures
        clients.len() > 0 ==> Seq::<(Seq<char>, Seq<char>, bool)>::empty() != snapshot(clients, active),
        clients.len() == 0 ==> Seq::<(Seq<char>, Seq<char>, bool)>::empty() == snapshot(clients, active),
{
    if clients.len() > 0 {
        assert(snapshot(clients, active).len() > 0);
    } else {
        assert(snapshot(clients, active) =~= Seq::<(Seq<char>, Seq<char>, bool)>::empty());
    }
}

// ---------------------------------------------------------------------------------------
// Showing and refreshing
// ---------------------------------------------------------------------------------------

/// The next outside step while filling the overlay.
#[derive(Clone, Copy, Debug, PartialEq, Eq, Structural)]
pub enum PopulateStep {
    /// Empty the overlay: there is nothing to list.
    Clear,
    /// Look up the layout of this workspace, then call `populate_layout`.
    FetchLayout(i64),
    /// Look up the clients of this workspace and the focused window, then call
    /// `populate_clients`.
    FetchClients(i64),
}

/// The overlay's state apart from its widgets: settings, the monitor it is on, and the
/// window list it shows.
#[derive(Clone, Debug)]
pub struct OverlayState {
    pub config: Config,
    pub current_monitor: String,
    pub shown: WindowListState,
}

pub open spec fn scrolling_name() -> Seq<char> {
    "scrolling"@
}

impl OverlayState {
    pub fn new(config: Config) -> (r: Self)
        ensures
            r.config == config,
            r.current_monitor@ == Seq::<char>::empty(),
            r.shown.view() == Seq::<(Seq<char>, Seq<char>, bool)>::empty(),
    {
        OverlayState { config, current_monitor: String::new(), shown: WindowListState::new() }
    }

    /// Determine which monitor to show on: the configured one when set, else the focused
    /// one (`focused`), else none (empty name).
    pub fn resolve_monitor(&self, focused: Option<String>) -> (r: String)
        ensures
            r@ == (if self.config.monitor@.len() > 0 {
                self.config.monitor@
            } else {
                match focused {
                    Some(name) => name@,
                    None => Seq::<char>::empty(),
                }
            }),
    {
        if self.config.monitor.as_str().unicode_len() > 0 {
            return self.config.monitor.clone();
        }
        match focused {
            Some(name) => name,
            None => String::new(),
        }
    }

    /// Move to monitor `name`; reports whether it differs from the current one.
    pub fn select_monitor(&mut self, name: String) -> (r: bool)
        ensures
            r == (old(self).current_monitor@ != name@),
            final(self).current_monitor@ == name@,
            final(self).config == old(self).config,
            final(self).shown == old(self).shown,
    {
        let changed = !(self.current_monitor == name);
        self.current_monitor = name;
        changed
    }

    /// Placement of the overlay on the current monitor.
    pub fn current_layout(&self) -> (r: LayoutPlan)
        ensures
            r == spec_layout_plan(self.config.spec_effective_for(self.current_monitor@)),
    {
        let effective = self.config.effective_for(self.current_monitor.as_str());
        layout_plan(&effective)
    }

    /// First step of filling the overlay, given the active workspace (`None` where it is
    /// unknown): with no workspace the overlay is cleared, else the layout is checked when
    /// only scrolling workspaces are shown, else the clients are fetched.
    pub fn populate_workspace(&mut self, workspace: Option<i64>) -> (r: PopulateStep)
        ensures
            final(self).config == old(self).config,
            final(self).current_monitor == old(self).current_monitor,
            match workspace {
                None => r == PopulateStep::Clear && final(self).shown.view() == Seq::<
                    (Seq<char>, Seq<char>, bool),
                >::empty(),
                Some(id) => final(self).shown == old(self).shown && r == (if old(self).config.scrolling_only {
                    PopulateStep::FetchLayout(id)
                } else {
                    PopulateStep::FetchClients(id)
                }),
            },
    {
        match workspace {
            None => {
                self.shown.clear();
                PopulateStep::Clear
            },
            Some(id) => {
                if self.config.scrolling_only {
                    PopulateStep::FetchLayout(id)
                } else {
                    PopulateStep::FetchClients(id)
                }
            },
        }
    }

    /// Scrolling-only filter: a workspace whose layout is not `scrolling` (or unknown) is
    /// not listed and the overlay is cleared; else the clients are fetched.
    pub fn populate_layout(&mut self, workspace_id: i64, layout: Option<String>) -> (r: PopulateStep)
        ensures
            final(self).config == old(self).config,
            final(self).current_monitor == old(self).current_monitor,
            (layout matches Some(l) && l@ == scrolling_name()) ==> r == PopulateStep::FetchClients(
                workspace_id,
            ) && final(self).shown == old(self).shown,
            !(layout matches Some(l) && l@ == scrolling_name()) ==> r == PopulateStep::Clear
                && final(self).shown.view() == Seq::<(Seq<char>, Seq<char>, bool)>::empty(),
    {
        let name = match layout {
            Some(l) => l,
            None => String::new(),
        };
        let scrolling = String::from_str("scrolling");
        proof {
            reveal_strlit("scrolling");
        }
        if name == scrolling {
            assert(scrolling_name().len() > 0);
            PopulateStep::FetchClients(workspace_id)
        } else {
            self.shown.clear();
            PopulateStep::Clear
        }
    }

    /// Last step of filling the overlay: `None` when the list is unchanged since last
    /// time (the rows stay, keeping their animations), else the rows to build.
    pub fn populate_clients(&mut self, clients: &Vec<HyprClient>, active: Option<String>) -> (r:
        Option<Vec<RowPlan>>)
        requires
            rows_defined(
                old(self).config,
                old(self).config.spec_effective_for(old(self).current_monitor@),
                clients@,
            ),
        ensures
            final(self).config == old(self).config,
            final(self).current_monitor == old(self).current_monitor,
            ({
                let active_addr = match active {
                    Some(a) => a@,
                    None => Seq::<char>::empty(),
                };
                let e = old(self).config.spec_effective_for(old(self).current_monitor@);
                &&& final(self).shown.view() == snapshot(clients@, active_addr)
                &&& (r is None <==> old(self).shown.view() == snapshot(clients@, active_addr))
                &&& (r is None ==> final(self).shown.view() == old(self).shown.view())
                &&& (r matches Some(rows) ==> rows@.len() == clients@.len() && forall|i: int|
                    0 <= i < rows@.len() ==> row_matches(
                        #[trigger] rows@[i],
                        old(self).config,
                        e,
                        clients@[i],
                        active_addr,
                    ))
            }),
    {
        let active_addr = match active {
            Some(a) => a,
            None => String::new(),
        };
        if !self.shown.window_list_changed(clients, &active_addr) {
            return None;
        }
        let effective = self.config.effective_for(self.current_monitor.as_str());
        Some(plan_rows(&self.config, &effective, clients, &active_addr))
    }
}

// ---------------------------------------------------------------------------------------
// Showing and hiding while Super is held
// ---------------------------------------------------------------------------------------

/// What the Super-key poll does next.
#[derive(Clone, Copy, Debug, PartialEq, Eq, Structural)]
pub enum PollAction {
    /// Poll again after the interval.
    KeepPolling,
    /// Stop polling (the overlay is already hidden).
    Stop,
    /// Hide the overlay and stop polling (Super was released).
    HideAndStop,
}

/// Interval of the Super-key poll while the overlay is visible, in milliseconds.
pub const POLL_INTERVAL_MS: u64 = 50;

/// Interval of the list refresh while the overlay is visible, in milliseconds.
pub const REFRESH_INTERVAL_MS: u64 = 200;

/// One Super-key poll: a hidden overlay ends the poll, a released Super key hides the
/// overlay and ends it, a held one keeps polling.
pub fn poll_decision(visible: bool, super_pressed: bool) -> (r: PollAction)
    ensures
        r == (if !visible {
            PollAction::Stop
        } else if !super_pressed {
            PollAction::HideAndStop
        } else {
            PollAction::KeepPolling
        }),
{
    if !visible {
        PollAction::Stop
    } else if !super_pressed {
        PollAction::HideAndStop
    } else {
        PollAction::KeepPolling
    }
}

/// Whether a show request is acted on: it is skipped when keyboards can be read and Super
/// is already released by the time it arrives.
pub fn accept_show_signal(keyboards_found: bool, super_pressed: bool) -> (r: bool)
    ensures
        r == (!keyboards_found || super_pressed),
{
    !keyboards_found || super_pressed
}

/// Whether the overlay polls the Super key after showing: only when keyboards can be read.
pub fn polls_super_key(keyboards_found: bool) -> (r: bool)
    ensures
        r == keyboards_found,
{
    keyboards_found
}

/// Visibility after showing: only show if there are rows to display, so an overlay
/// whose fill came back empty (for instance on a non-scrolling workspace) is not visible.
pub fn visible_after_show(has_rows: bool) -> (r: bool)
    ensures
        r == has_rows,
{
    has_rows
}

/// Visibility after a refresh: an overlay whose list came back empty (for instance a
/// non-scrolling workspace) is hidden.
pub fn visible_after_refresh(has_rows: bool, was_visible: bool) -> (r: bool)
    ensures
        r == (has_rows && was_visible),
{
    has_rows && was_visible
}

/// What the refresh timer does: refill while the overlay is visible, else stop.
pub fn refresh_continues(visible: bool) -> (r: bool)
    ensures
        r == visible,
{
    visible
}

// ---------------------------------------------------------------------------------------
// Scrolling titles
// ---------------------------------------------------------------------------------------

/// Interval of the title scroll timer, in milliseconds (30 frames per second).
pub const SCROLL_INTERVAL_MS: u64 = 33;

/// Ticks a scrolling title rests at each end (1.5 s at 30 frames per second).
pub const PAUSE_TICKS: u32 = 45;

/// Phase of a scrolling title.
#[derive(Clone, Copy, Debug, PartialEq, Eq, Structural)]
pub enum ScrollPhase {
    WaitingForLayout,
    PauseStart,
    Scrolling,
    PauseEnd,
    Resetting,
}

/// What one timer tick asks of the title widgets: whether the timer keeps running, and
/// the new left margin of the scrolled text and visibility of the two fade overlays
/// (`None`: unchanged).
#[derive(Clone, Copy, Debug, PartialEq, Eq, Structural)]
pub struct ScrollFrame {
    pub keep_running: bool,
    pub margin_start: Option<i32>,
    pub fade_left: Option<bool>,
    pub fade_right: Option<bool>,
}

/// State of one scrolling title: it waits until laid out, measures how far the text
/// overflows, then cycles pause, scroll to the end, pause, jump back.
#[derive(Clone, Copy, Debug, PartialEq, Eq, Structural)]
pub struct ScrollAnimator {
    pub phase: ScrollPhase,
    pub overflow: i32,
    pub offset: i32,
    pub ticks: u32,
    pub px_per_tick: i32,
}

/// Pixels scrolled per tick: the speed (pixels per second) over the frame rate (30), at
/// least 1.
pub open spec fn spec_px_per_tick(scroll_speed: int) -> int {
    if scroll_speed >= 30 {
        scroll_speed / 30
    } else {
        1
    }
}

pub open spec fn frame(
    keep_running: bool,
    margin_start: Option<i32>,
    fade_left: Option<bool>,
    fade_right: Option<bool>,
) -> ScrollFrame {
    ScrollFrame { keep_running, margin_start, fade_left, fade_right }
}

impl ScrollAnimator {
    /// The animator's invariant: the offset stays within the overflow, which is positive
    /// once measured, and pauses are shorter than `PAUSE_TICKS`.
    pub open spec fn wf(self) -> bool {
        &&& self.px_per_tick >= 1
        &&& 0 <= self.offset <= self.overflow
        &&& self.ticks < PAUSE_TICKS
        &&& self.phase == ScrollPhase::WaitingForLayout ==> self.overflow == 0 && self.offset == 0
            && self.ticks == 0
        &&& self.phase != ScrollPhase::WaitingForLayout ==> self.overflow >= 1
    }

    /// Whether a tick with these measurements is defined: the overflow and the next offset
    /// must fit in an `i32`.
    pub open spec fn tick_defined(self, available: int, natural: int) -> bool {
        &&& (self.phase == ScrollPhase::WaitingForLayout && available > 0) ==> natural - available
            >= i32::MIN
        &&& self.phase == ScrollPhase::Scrolling ==> self.offset + self.px_per_tick <= i32::MAX
    }

    /// The state after one tick and what it asks of the widgets.
    pub open spec fn next(self, available: int, natural: int) -> (ScrollAnimator, ScrollFrame) {
        match self.phase {
            ScrollPhase::WaitingForLayout => {
                if available <= 0 {
                    (self, frame(true, None, None, None))
                } else if natural - available <= 0 {
                    (self, frame(false, None, None, None))
                } else {
                    (
                        ScrollAnimator {
                            phase: ScrollPhase::PauseStart,
                            overflow: (natural - available) as i32,
                            ..self
                        },
                        frame(true, None, None, Some(true)),
                    )
                }
            },
            ScrollPhase::PauseStart => {
                if self.ticks + 1 >= PAUSE_TICKS {
                    (
                        ScrollAnimator { phase: ScrollPhase::Scrolling, ticks: 0, ..self },
                        frame(true, None, None, None),
                    )
                } else {
                    (
                        ScrollAnimator { ticks: (self.ticks + 1) as u32, ..self },
                        frame(true, None, None, None),
                    )
                }
            },
            ScrollPhase::Scrolling => {
                let o = if self.offset + self.px_per_tick < self.overflow {
                    self.offset + self.px_per_tick
                } else {
                    self.overflow as int
                };
                let f = frame(true, Some((-o) as i32), Some(o > 0), Some(o < self.overflow));
                if o >= self.overflow {
                    (
                        ScrollAnimator {
                            phase: ScrollPhase::PauseEnd,
                            offset: o as i32,
                            ticks: 0,
                            ..self
                        },
                        f,
                    )
                } else {
                    (ScrollAnimator { offset: o as i32, ..self }, f)
                }
            },
            ScrollPhase::PauseEnd => {
                if self.ticks + 1 >= PAUSE_TICKS {
                    (
                        ScrollAnimator { phase: ScrollPhase::Resetting, ticks: 0, ..self },
                        frame(true, None, None, None),
                    )
                } else {
                    (
                        ScrollAnimator { ticks: (self.ticks + 1) as u32, ..self },
                        frame(true, None, None, None),
                    )
                }
            },
            ScrollPhase::Resetting => {
                (
                    ScrollAnimator { phase: ScrollPhase::PauseStart, offset: 0, ..self },
                    frame(true, Some(0), Some(false), Some(true)),
                )
            },
        }
    }

    /// A title scroller for the given speed (pixels per second), waiting for layout.
    pub fn new(scroll_speed: i32) -> (r: Self)
        ensures
            r.wf(),
            r.phase == ScrollPhase::WaitingForLayout,
            r.px_per_tick == spec_px_per_tick(scroll_speed as int),
    {
        let px_per_tick = if scroll_speed >= 30 {
            scroll_speed / 30
        } else {
            1
        };
        ScrollAnimator {
            phase: ScrollPhase::WaitingForLayout,
            overflow: 0,
            offset: 0,
            ticks: 0,
            px_per_tick,
        }
    }

    /// Whether `tick` may be called with these measurements.
    pub fn can_tick(&self, available: i32, natural: i32) -> (r: bool)
        ensures
            r == self.tick_defined(available as int, natural as int),
    {
        let waiting_ok = match self.phase {
            ScrollPhase::WaitingForLayout => available <= 0 || natural as i64 - available as i64
                >= i32::MIN as i64,
            _ => true,
        };
        let scrolling_ok = match self.phase {
            ScrollPhase::Scrolling => self.offset as i64 + self.px_per_tick as i64 <= i32::MAX as i64,
            _ => true,
        };
        waiting_ok && scrolling_ok
    }

    /// One timer tick: `available` is the width allotted to the title and `natural` the
    /// width the text wants (both only read while waiting for layout).
    pub fn tick(&mut self, available: i32, natural: i32) -> (r: ScrollFrame)
        requires
            old(self).wf(),
            old(self).tick_defined(available as int, natural as int),
        ensures
            (*final(self), r) == old(self).next(available as int, natural as int),
            final(self).wf(),
    {
        match self.phase {
            ScrollPhase::WaitingForLayout => {
                if available <= 0 {
                    return ScrollFrame {
                        keep_running: true,
                        margin_start: None,
                        fade_left: None,
                        fade_right: None,
                    };
                }
                let ov = natural - available;
                if ov <= 0 {
                    return ScrollFrame {
                        keep_running: false,
                        margin_start: None,
                        fade_left: None,
                        fade_right: None,
                    };
                }
                self.overflow = ov;
                self.phase = ScrollPhase::PauseStart;
                ScrollFrame {
                    keep_running: true,
                    margin_start: None,
                    fade_left: None,
                    fade_right: Some(true),
                }
            },
            ScrollPhase::PauseStart => {
                self.ticks = self.ticks + 1;
                if self.ticks >= PAUSE_TICKS {
                    self.ticks = 0;
                    self.phase = ScrollPhase::Scrolling;
                }
                ScrollFrame { keep_running: true, margin_start: None, fade_left: None, fade_right: None }
            },
            ScrollPhase::Scrolling => {
                let max_scroll = self.overflow;
                let next = self.offset + self.px_per_tick;
                self.offset = if next < max_scroll {
                    next
                } else {
                    max_scroll
                };
                let f = ScrollFrame {
                    keep_running: true,
                    margin_start: Some(-self.offset),
                    fade_left: Some(self.offset > 0),
                    fade_right: Some(self.offset < max_scroll),
                };
                if self.offset >= max_scroll {
                    self.phase = ScrollPhase::PauseEnd;
                    self.ticks = 0;
                }
                f
            },
            ScrollPhase::PauseEnd => {
                self.ticks = self.ticks + 1;
                if self.ticks >= PAUSE_TICKS {
                    self.ticks = 0;
                    self.phase = ScrollPhase::Resetting;
                }
                ScrollFrame { keep_running: true, margin_start: None, fade_left: None, fade_right: None }
            },
            ScrollPhase::Resetting => {
                self.offset = 0;
                self.phase = ScrollPhase::PauseStart;
                ScrollFrame {
                    keep_running: true,
                    margin_start: Some(0),
                    fade_left: Some(false),
                    fade_right: Some(true),
                }
            },
        }
    }
}

impl ScrollAnimator {
    /// One firing of the title timer. A cancelled animation, or one whose widgets have left
    /// the window, stops without touching the widgets or the state; otherwise it is `tick`.
    pub fn timer_tick(&mut self, cancelled: bool, widgets_present: bool, available: i32, natural: i32) -> (r:
        ScrollFrame)
        requires
            old(self).wf(),
            !cancelled && widgets_present ==> old(self).tick_defined(available as int, natural as int),
        ensures
            (cancelled || !widgets_present) ==> r == frame(false, None, None, None) && *final(self)
                == *old(self),
            !(cancelled || !widgets_present) ==> (*final(self), r) == old(self).next(
                available as int,
                natural as int,
            ),
            final(self).wf(),
    {
        if cancelled || !widgets_present {
            return ScrollFrame {
                keep_running: false,
                margin_start: None,
                fade_left: None,
                fade_right: None,
            };
        }
        self.tick(available, natural)
    }
}

/// The state after `n` timer ticks that keep running (measurements only matter while
/// waiting for layout, so none are given).
pub open spec fn run(a: ScrollAnimator, n: nat) -> ScrollAnimator
    decreases n,
{
    if n == 0 {
        a
    } else {
        run(a.next(0, 0).0, (n - 1) as nat)
    }
}

/// Ticks a scroll from offset `o` takes to reach `overflow` at `px` pixels per tick.
pub open spec fn scroll_ticks(o: int, overflow: int, px: int) -> nat
    decreases overflow - o,
{
    if px >= 1 && o + px < overflow {
        1 + scroll_ticks(o + px, overflow, px)
    } else {
        1
    }
}

pub proof fn lemma_run_split(a: ScrollAnimator, m: nat, n: nat)
    ensures
        run(a, m + n) == run(run(a, m), n),
    decreases m,
{
    if m > 0 {
        lemma_run_split(a.next(0, 0).0, (m - 1) as nat, n);
        assert((m + n - 1) as nat == ((m - 1) as nat + n) as nat);
    }
}

proof fn lemma_scroll_ticks_bound(o: int, overflow: int, px: int)
    requires
        px >= 1,
        o < overflow,
    ensures
        scroll_ticks(o, overflow, px) <= overflow - o,
    decreases overflow - o,
{
    if o + px < overflow {
        lemma_scroll_ticks_bound(o + px, overflow, px);
    }
}

/// A pause that has counted `t` ticks ends after `PAUSE_TICKS - t` more ticks, with the
/// offset unchanged.
proof fn lemma_pause_run(a: ScrollAnimator)
    requires
        a.wf(),
        a.phase == ScrollPhase::PauseStart || a.phase == ScrollPhase::PauseEnd,
    ensures
        ({
            let b = run(a, (PAUSE_TICKS - a.ticks) as nat);
            &&& b.wf()
            &&& b.ticks == 0
            &&& b.offset == a.offset
            &&& b.overflow == a.overflow
            &&& b.px_per_tick == a.px_per_tick
            &&& (if a.phase == ScrollPhase::PauseStart {
                b.phase == ScrollPhase::Scrolling
            } else {
                b.phase == ScrollPhase::Resetting
            })
        }),
    decreases PAUSE_TICKS - a.ticks,
{
    let b = a.next(0, 0).0;
    if a.ticks + 1 < PAUSE_TICKS {
        lemma_pause_run(b);
        assert((PAUSE_TICKS - a.ticks - 1) as nat == (PAUSE_TICKS - b.ticks) as nat);
    } else {
        assert(run(b, 0) == b);
    }
}

/// A scroll from any offset reaches the end after `scroll_ticks` ticks, pausing there.
proof fn lemma_scroll_run(a: ScrollAnimator)
    requires
        a.wf(),
        a.phase == ScrollPhase::Scrolling,
    ensures
        ({
            let b = run(a, scroll_ticks(a.offset as int, a.overflow as int, a.px_per_tick as int));
            &&& b.wf()
            &&& b.phase == ScrollPhase::PauseEnd
            &&& b.offset == a.overflow
            &&& b.ticks == 0
            &&& b.overflow == a.overflow
            &&& b.px_per_tick == a.px_per_tick
        }),
    decreases a.overflow - a.offset,
{
    let b = a.next(0, 0).0;
    if a.offset + a.px_per_tick < a.overflow {
        lemma_scroll_run(b);
        assert(scroll_ticks(a.offset as int, a.overflow as int, a.px_per_tick as int) == 1
            + scroll_ticks(b.offset as int, b.overflow as int, b.px_per_tick as int));
    } else {
        assert(run(b, 0) == b);
    }
}

/// The whole scroll cycle: from the start of the first pause, the text reaches the end of
/// its overflow within `PAUSE_TICKS + overflow` ticks (every scrolling tick advances at least
/// one pixel), and `PAUSE_TICKS + 1` ticks later it is back at the start, paused, with
/// the offset inside `0..=overflow` throughout.
pub proof fn lemma_scroll_cycle(a: ScrollAnimator)
    requires
        a.wf(),
        a.phase == ScrollPhase::PauseStart,
        a.ticks == 0,
        a.offset == 0,
    ensures
        ({
            let n = PAUSE_TICKS + scroll_ticks(0, a.overflow as int, a.px_per_tick as int);
            &&& n <= PAUSE_TICKS + a.overflow
            &&& run(a, n as nat).phase == ScrollPhase::PauseEnd
            &&& run(a, n as nat).offset == a.overflow
            &&& run(a, (n + PAUSE_TICKS + 1) as nat).phase == ScrollPhase::PauseStart
            &&& run(a, (n + PAUSE_TICKS + 1) as nat).offset == 0
            &&& run(a, (n + PAUSE_TICKS + 1) as nat).ticks == 0
            &&& forall|k: nat| #[trigger] run(a, k).wf()
        }),
{
    let m = scroll_ticks(0, a.overflow as int, a.px_per_tick as int);
    lemma_scroll_ticks_bound(0, a.overflow as int, a.px_per_tick as int);
    lemma_pause_run(a);
    let s = run(a, PAUSE_TICKS as nat);
    lemma_scroll_run(s);
    lemma_run_split(a, PAUSE_TICKS as nat, m);
    let e = run(s, m);
    lemma_pause_run(e);
    lemma_run_split(a, (PAUSE_TICKS + m) as nat, PAUSE_TICKS as nat);
    let r = run(e, PAUSE_TICKS as nat);
    lemma_run_split(a, (PAUSE_TICKS + m + PAUSE_TICKS) as nat, 1);
    assert(run(r, 1) == run(r.next(0, 0).0, 0));
    assert forall|k: nat| #[trigger] run(a, k).wf() by {
        lemma_run_keeps_wf(a, k);
    }
}

/// Running any number of ticks keeps the animator's invariant.
pub proof fn lemma_run_keeps_wf(a: ScrollAnimator, k: nat)
    requires
        a.wf(),
    ensures
        run(a, k).wf(),
    decreases k,
{
    if k > 0 {
        lemma_tick_keeps_offset_in_range(a, 0, 0);
        lemma_run_keeps_wf(a.next(0, 0).0, (k - 1) as nat);
    }
}

/// A title that fits once laid out stops the timer at its first measured tick, changing
/// neither the widgets nor the state.
pub proof fn lemma_fitting_title_stops(a: ScrollAnimator, available: int, natural: int)
    requires
        a.wf(),
        a.phase == ScrollPhase::WaitingForLayout,
        available > 0,
        natural <= available,
    ensures
        a.next(available, natural) == (a, frame(false, None, None, None)),
{
}

/// Every tick keeps the animator's invariant: the scroll offset never leaves
/// `0..=overflow`, and the margin it sets is the negated offset.
pub proof fn lemma_tick_keeps_offset_in_range(a: ScrollAnimator, available: int, natural: int)
    requires
        a.wf(),
        i32::MIN <= available <= i32::MAX,
        i32::MIN <= natural <= i32::MAX,
    ensures
        a.next(available, natural).0.wf(),
        0 <= a.next(available, natural).0.offset <= a.next(available, natural).0.overflow,
        a.next(available, natural).1.margin_start matches Some(m) ==> m == -a.next(
            available,
            natural,
        ).0.offset,
{
}

/// While scrolling, each tick moves the text forward by `px_per_tick` until it reaches the
/// end, where it stops exactly at the overflow and pauses.
pub proof fn lemma_scrolling_progresses(a: ScrollAnimator, available: int, natural: int)
    requires
        a.wf(),
        a.tick_defined(available, natural),
        a.phase == ScrollPhase::Scrolling,
    ensures
        ({
            let b = a.next(available, natural).0;
            ||| (b.phase == ScrollPhase::Scrolling && b.offset == a.offset + a.px_per_tick && b.offset
                < b.overflow)
            ||| (b.phase == ScrollPhase::PauseEnd && b.offset == a.overflow && b.ticks == 0)
        }),
{
}

/// A pause lasts `PAUSE_TICKS` ticks: a tick that does not end it adds one to the count.
pub proof fn lemma_pause_counts(a: ScrollAnimator, available: int, natural: int)
    requires
        a.wf(),
        a.phase == ScrollPhase::PauseStart || a.phase == ScrollPhase::PauseEnd,
    ensures
        ({
            let b = a.next(available, natural).0;
            &&& a.ticks + 1 < PAUSE_TICKS ==> b.phase == a.phase && b.ticks == a.ticks + 1
            &&& a.ticks + 1 >= PAUSE_TICKS ==> b.ticks == 0 && (if a.phase == ScrollPhase::PauseStart {
                b.phase == ScrollPhase::Scrolling
            } else {
                b.phase == ScrollPhase::Resetting
            })
            &&& b.offset == a.offset
        }),
{
}

/// After the end pause the text jumps back to the start, showing the right fade only.
pub proof fn lemma_reset_returns_to_start(a: ScrollAnimator, available: int, natural: int)
    requires
        a.wf(),
        a.phase == ScrollPhase::Resetting,
    ensures
        a.next(available, natural).0.offset == 0,
        a.next(available, natural).0.phase == ScrollPhase::PauseStart,
        a.next(available, natural).1 == frame(true, Some(0), Some(false), Some(true)),
{
}

} // verus!
