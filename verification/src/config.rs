use vstd::prelude::*;

verus! {

/// Screen edge the overlay is anchored to.
#[derive(Clone, Copy, Debug, PartialEq, Eq, Structural)]
pub enum Position {
    Right,
    Left,
    Top,
    Bottom,
}

impl Default for Position {
    fn default() -> (r: Self)
        ensures
            r == Position::Right,
    {
        Position::Right
    }
}

/// Direction in which the window rows are stacked.
#[derive(Clone, Copy, Debug, PartialEq, Eq, Structural)]
pub enum Layout {
    Vertical,
    Horizontal,
}

impl Default for Layout {
    fn default() -> (r: Self)
        ensures
            r == Layout::Vertical,
    {
        Layout::Vertical
    }
}

/// How a title wider than the row is presented.
#[derive(Clone, Copy, Debug, PartialEq, Eq, Structural)]
pub enum OverflowStyle {
    Truncate,
    Scroll,
}

impl Default for OverflowStyle {
    fn default() -> (r: Self)
        ensures
            r == OverflowStyle::Truncate,
    {
        OverflowStyle::Truncate
    }
}

/// Per-monitor settings; a field that is `None` falls back to the global value.
#[derive(Clone, Copy, Debug, PartialEq, Eq, Structural)]
pub struct MonitorOverride {
    pub position: Option<Position>,
    pub layout: Option<Layout>,
    pub margin: Option<i32>,
    pub width: Option<i32>,
    pub max_element_width: Option<i32>,
}

impl Default for MonitorOverride {
    fn default() -> (r: Self)
        ensures
            r.position is None,
            r.layout is None,
            r.margin is None,
            r.width is None,
            r.max_element_width is None,
    {
        MonitorOverride {
            position: None,
            layout: None,
            margin: None,
            width: None,
            max_element_width: None,
        }
    }
}

/// Resolved config for a specific monitor (global defaults + per-monitor overrides merged)
#[derive(Clone, Copy, Debug, PartialEq, Eq, Structural)]
pub struct EffectiveConfig {
    pub position: Position,
    pub layout: Layout,
    pub margin: i32,
    pub width: i32,
    pub max_element_width: i32,
}

/// The per-monitor overrides, keyed by monitor (connector) name; no name occurs twice.
#[derive(Debug)]
pub struct MonitorOverrides {
    entries: Vec<(String, MonitorOverride)>,
}

/// The value held in `o`, or `d` where `o` is `None`.
pub open spec fn or_else<T>(o: Option<T>, d: T) -> T {
    match o {
        Some(v) => v,
        None => d,
    }
}

impl MonitorOverrides {
    #[verifier::type_invariant]
    closed spec fn keys_distinct(self) -> bool {
        forall|i: int, j: int|
            0 <= i < self.entries.len() && 0 <= j < self.entries.len() && i != j
                ==> #[trigger] self.entries[i].0@ != #[trigger] self.entries[j].0@
    }

    closed spec fn has_key_at(self, k: Seq<char>, i: int) -> bool {
        0 <= i < self.entries.len() && self.entries[i].0@ == k
    }

    /// The overrides as a map from monitor name to its override.
    pub closed spec fn view(self) -> Map<Seq<char>, MonitorOverride> {
        Map::new(
            |k: Seq<char>| exists|i: int| #[trigger] self.has_key_at(k, i),
            |k: Seq<char>| self.entries[choose|i: int| #[trigger] self.has_key_at(k, i)].1,
        )
    }

    proof fn lemma_view_at(self, i: int)
        requires
            self.keys_distinct(),
            0 <= i < self.entries.len(),
        ensures
            self.view().contains_key(self.entries[i].0@),
            self.view()[self.entries[i].0@] == self.entries[i].1,
    {
        let k = self.entries[i].0@;
        assert(self.has_key_at(k, i));
        let j = choose|j: int| #[trigger] self.has_key_at(k, j);
        assert(self.has_key_at(k, j));
        if j != i {
            assert(self.entries[i].0@ != self.entries[j].0@);
        }
    }

    /// An empty set of overrides.
    pub fn new() -> (r: Self)
        ensures
            r.view() == Map::<Seq<char>, MonitorOverride>::empty(),
    {
        let r = MonitorOverrides { entries: Vec::new() };
        assert(r.view() =~= Map::<Seq<char>, MonitorOverride>::empty());
        r
    }

    /// Index of the entry named `name`, if there is one.
    fn position_of(&self, name: &String) -> (r: Option<usize>)
        ensures
            match r {
                Some(i) => self.has_key_at(name@, i as int),
                None => forall|i: int| 0 <= i < self.entries.len() ==> !#[trigger] self.has_key_at(name@, i),
            },
    {
        let mut i: usize = 0;
        while i < self.entries.len()
            invariant
                i <= self.entries.len(),
                forall|j: int| 0 <= j < i ==> !#[trigger] self.has_key_at(name@, j),
            decreases self.entries.len() - i,
        {
            if self.entries[i].0 == *name {
                return Some(i);
            }
            i = i + 1;
        }
        None
    }

    /// Every monitor name with its override, each name once.
    pub fn to_vec(&self) -> (r: Vec<(String, MonitorOverride)>)
        ensures
            forall|i: int|
                0 <= i < r@.len() ==> self.view().contains_key(#[trigger] r@[i].0@)
                    && self.view()[r@[i].0@] == r@[i].1,
            forall|k: Seq<char>|
                #[trigger] self.view().contains_key(k) ==> exists|i: int|
                    0 <= i < r@.len() && r@[i].0@ == k,
            forall|i: int, j: int|
                0 <= i < r@.len() && 0 <= j < r@.len() && i != j ==> #[trigger] r@[i].0@
                    != #[trigger] r@[j].0@,
    {
        proof {
            use_type_invariant(self);
        }
        let mut r: Vec<(String, MonitorOverride)> = Vec::new();
        let mut i: usize = 0;
        while i < self.entries.len()
            invariant
                i <= self.entries.len(),
                r@ == self.entries@.take(i as int),
            decreases self.entries.len() - i,
        {
            let name = self.entries[i].0.clone();
            r.push((name, self.entries[i].1));
            assert(r@ =~= self.entries@.take(i + 1));
            i = i + 1;
        }
        assert(r@ =~= self.entries@);
        assert forall|i: int| 0 <= i < r@.len() implies self.view().contains_key(#[trigger] r@[i].0@)
            && self.view()[r@[i].0@] == r@[i].1 by {
            self.lemma_view_at(i);
        }
        assert forall|k: Seq<char>| #[trigger] self.view().contains_key(k) implies exists|i: int|
            0 <= i < r@.len() && r@[i].0@ == k by {
            let i = choose|i: int| #[trigger] self.has_key_at(k, i);
            assert(r@[i].0@ == k);
        }
        r
    }

    /// The override for `name`, if any.
    pub fn get(&self, name: &str) -> (r: Option<MonitorOverride>)
        ensures
            r == (if self.view().contains_key(name@) {
                Some(self.view()[name@])
            } else {
                None::<MonitorOverride>
            }),
    {
        proof {
            use_type_invariant(self);
        }
        let key = name.to_owned();
        match self.position_of(&key) {
            Some(i) => {
                proof {
                    self.lemma_view_at(i as int);
                }
                Some(self.entries[i].1)
            },
            None => {
                assert(!self.view().contains_key(name@));
                None
            },
        }
    }

    /// Sets the override for `name`, replacing any earlier one.
    pub fn insert(&mut self, name: String, value: MonitorOverride)
        ensures
            final(self).view() == old(self).view().insert(name@, value),
    {
        proof {
            use_type_invariant(&*self);
        }
        let ghost old_self = *self;
        let pos = self.position_of(&name);
        let ghost key = name@;
        match pos {
            Some(i) => {
                let mut entries = Vec::new();
                std::mem::swap(&mut entries, &mut self.entries);
                entries.set(i, (name, value));
                let ghost new_entries = entries@;
                assert forall|a: int, b: int|
                    0 <= a < new_entries.len() && 0 <= b < new_entries.len() && a != b
                        implies #[trigger] new_entries[a].0@ != #[trigger] new_entries[b].0@ by {
                    if a != i as int && b != i as int {
                        assert(old_self.entries[a].0@ != old_self.entries[b].0@);
                    } else if a == i as int {
                        assert(old_self.entries[i as int].0@ != old_self.entries[b].0@);
                    } else {
                        assert(old_self.entries[a].0@ != old_self.entries[i as int].0@);
                    }
                }
                self.entries = entries;
                proof {
                    let nv = self.view();
                    let ov = old_self.view().insert(key, value);
                    assert forall|k: Seq<char>| nv.contains_key(k) <==> ov.contains_key(k) by {
                        if nv.contains_key(k) {
                            let j = choose|j: int| #[trigger] self.has_key_at(k, j);
                            if j != i as int {
                                assert(old_self.has_key_at(k, j));
                            }
                        }
                        if ov.contains_key(k) && k != key {
                            let j = choose|j: int| #[trigger] old_self.has_key_at(k, j);
                            assert(self.has_key_at(k, j));
                        }
                        if k == key {
                            assert(self.has_key_at(k, i as int));
                        }
                    }
                    assert forall|k: Seq<char>| #[trigger] nv.contains_key(k) implies nv[k] == ov[k] by {
                        let j = choose|j: int| #[trigger] self.has_key_at(k, j);
                        self.lemma_view_at(j);
                        if j != i as int {
                            assert(old_self.has_key_at(k, j));
                            old_self.lemma_view_at(j);
                        }
                    }
                    assert(nv =~= ov);
                }
            },
            None => {
                let mut entries = Vec::new();
                std::mem::swap(&mut entries, &mut self.entries);
                entries.push((name, value));
                let ghost new_entries = entries@;
                assert forall|a: int, b: int|
                    0 <= a < new_entries.len() && 0 <= b < new_entries.len() && a != b
                        implies #[trigger] new_entries[a].0@ != #[trigger] new_entries[b].0@ by {
                    let n = old_self.entries.len() as int;
                    if a != n && b != n {
                        assert(old_self.entries[a].0@ != old_self.entries[b].0@);
                    } else if a == n {
                        assert(!old_self.has_key_at(key, b));
                    } else {
                        assert(!old_self.has_key_at(key, a));
                    }
                }
                self.entries = entries;
                proof {
                    let nv = self.view();
                    let ov = old_self.view().insert(key, value);
                    let n = old_self.entries.len() as int;
                    assert forall|k: Seq<char>| nv.contains_key(k) <==> ov.contains_key(k) by {
                        if nv.contains_key(k) {
                            let j = choose|j: int| #[trigger] self.has_key_at(k, j);
                            if j != n {
                                assert(old_self.has_key_at(k, j));
                            }
                        }
                        if ov.contains_key(k) && k != key {
                            let j = choose|j: int| #[trigger] old_self.has_key_at(k, j);
                            assert(self.has_key_at(k, j));
                        }
                        if k == key {
                            assert(self.has_key_at(k, n));
                        }
                    }
                    assert forall|k: Seq<char>| #[trigger] nv.contains_key(k) implies nv[k] == ov[k] by {
                        let j = choose|j: int| #[trigger] self.has_key_at(k, j);
                        self.lemma_view_at(j);
                        if j != n {
                            assert(old_self.has_key_at(k, j));
                            old_self.lemma_view_at(j);
                        }
                    }
                    assert(nv =~= ov);
                }
            },
        }
    }
}

impl Clone for MonitorOverrides {
    fn clone(&self) -> (r: Self)
        ensures
            r.view() == self.view(),
    {
        proof {
            use_type_invariant(self);
        }
        let mut entries: Vec<(String, MonitorOverride)> = Vec::new();
        let mut i: usize = 0;
        while i < self.entries.len()
            invariant
                i <= self.entries.len(),
                entries@ == self.entries@.take(i as int),
            decreases self.entries.len() - i,
        {
            let name = self.entries[i].0.clone();
            entries.push((name, self.entries[i].1));
            assert(entries@ =~= self.entries@.take(i + 1));
            i = i + 1;
        }
        assert(entries@ =~= self.entries@);
        let r = MonitorOverrides { entries };
        assert forall|k: Seq<char>, j: int| r.has_key_at(k, j) == self.has_key_at(k, j) by {}
        assert(r.view() =~= self.view());
        r
    }
}

/// The overlay's settings. `opacity` holds the background opacity as the decimal
/// text that is written into the stylesheet.
#[derive(Clone, Debug)]
pub struct Config {
    pub monitor: String,
    pub position: Position,
    pub layout: Layout,
    pub margin: i32,
    pub width: i32,
    pub icon_size: i32,
    pub font_family: String,
    pub font_size: i32,
    pub opacity: String,
    pub scrolling_only: bool,
    pub max_title_chars: i32,
    pub max_element_width: i32,
    pub overflow_style: OverflowStyle,
    pub scroll_speed: i32,
    pub monitors: MonitorOverrides,
}

impl Default for Config {
    fn default() -> (r: Self)
        ensures
            r.monitor@ == Seq::<char>::empty(),
            r.position == Position::Right,
            r.layout == Layout::Vertical,
            r.margin == 20,
            r.width == 320,
            r.icon_size == 24,
            r.font_family@ == "monospace"@,
            r.font_size == 14,
            r.opacity@ == "0.92"@,
            r.scrolling_only,
            r.max_title_chars == 50,
            r.max_element_width == 0,
            r.overflow_style == OverflowStyle::Truncate,
            r.scroll_speed == 40,
            r.monitors.view() == Map::<Seq<char>, MonitorOverride>::empty(),
    {
        Config {
            monitor: String::new(),
            position: Position::Right,
            layout: Layout::Vertical,
            margin: 20,
            width: 320,
            icon_size: 24,
            font_family: String::from_str("monospace"),
            font_size: 14,
            opacity: String::from_str("0.92"),
            scrolling_only: true,
            max_title_chars: 50,
            max_element_width: 0,
            overflow_style: OverflowStyle::Truncate,
            scroll_speed: 40,
            monitors: MonitorOverrides::new(),
        }
    }
}

impl Config {
    /// The settings that hold on `monitor`: each field is the monitor's override where it
    /// sets one, else the global value.
    pub open spec fn spec_effective_for(self, monitor: Seq<char>) -> EffectiveConfig {
        if self.monitors.view().contains_key(monitor) {
            let o = self.monitors.view()[monitor];
            EffectiveConfig {
                position: or_else(o.position, self.position),
                layout: or_else(o.layout, self.layout),
                margin: or_else(o.margin, self.margin),
                width: or_else(o.width, self.width),
                max_element_width: or_else(o.max_element_width, self.max_element_width),
            }
        } else {
            EffectiveConfig {
                position: self.position,
                layout: self.layout,
                margin: self.margin,
                width: self.width,
                max_element_width: self.max_element_width,
            }
        }
    }

    pub fn effective_for(&self, monitor: &str) -> (r: EffectiveConfig)
        ensures
            r == self.spec_effective_for(monitor@),
    {
        let overrides = self.monitors.get(monitor);
        match overrides {
            Some(o) => EffectiveConfig {
                position: match o.position {
                    Some(p) => p,
                    None => self.position,
                },
                layout: match o.layout {
                    Some(l) => l,
                    None => self.layout,
                },
                margin: match o.margin {
                    Some(m) => m,
                    None => self.margin,
                },
                width: match o.width {
                    Some(w) => w,
                    None => self.width,
                },
                max_element_width: match o.max_element_width {
                    Some(w) => w,
                    None => self.max_element_width,
                },
            },
            None => EffectiveConfig {
                position: self.position,
                layout: self.layout,
                margin: self.margin,
                width: self.width,
                max_element_width: self.max_element_width,
            },
        }
    }
}

/// A monitor without an override gets exactly the global settings.
pub proof fn lemma_effective_without_override(config: Config, monitor: Seq<char>)
    requires
        !config.monitors.view().contains_key(monitor),
    ensures
        config.spec_effective_for(monitor).position == config.position,
        config.spec_effective_for(monitor).layout == config.layout,
        config.spec_effective_for(monitor).margin == config.margin,
        config.spec_effective_for(monitor).width == config.width,
        config.spec_effective_for(monitor).max_element_width == config.max_element_width,
{
}

/// A value set in a monitor's override always wins over the global value, and a value
/// it leaves unset is the global one.
pub proof fn lemma_override_wins(config: Config, monitor: Seq<char>)
    requires
        config.monitors.view().contains_key(monitor),
    ensures
        ({
            let o = config.monitors.view()[monitor];
            let e = config.spec_effective_for(monitor);
            &&& (o.position matches Some(p) ==> e.position == p)
            &&& (o.position is None ==> e.position == config.position)
            &&& (o.layout matches Some(l) ==> e.layout == l)
            &&& (o.layout is None ==> e.layout == config.layout)
            &&& (o.margin matches Some(m) ==> e.margin == m)
            &&& (o.margin is None ==> e.margin == config.margin)
            &&& (o.width matches Some(w) ==> e.width == w)
            &&& (o.width is None ==> e.width == config.width)
            &&& (o.max_element_width matches Some(w) ==> e.max_element_width == w)
            &&& (o.max_element_width is None ==> e.max_element_width == config.max_element_width)
        }),
{
}

/// Setting a monitor's override and reading it back gives what was set, and leaves
/// every other monitor's override as it was.
pub proof fn lemma_override_read_back(
    before: MonitorOverrides,
    after: MonitorOverrides,
    name: Seq<char>,
    value: MonitorOverride,
    other: Seq<char>,
)
    requires
        after.view() == before.view().insert(name, value),
        other != name,
    ensures
        after.view().contains_key(name),
        after.view()[name] == value,
        after.view().contains_key(other) == before.view().contains_key(other),
        before.view().contains_key(other) ==> after.view()[other] == before.view()[other],
{
}

} // verus!
