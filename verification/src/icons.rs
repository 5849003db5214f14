use vstd::prelude::*;
use vstd::string::StringExecFns;

use crate::text::chars_of;
use crate::text::slice_text;

verus! {

/// What `str::to_lowercase` returns for a text: its Unicode lowercase mapping.
pub uninterp spec fn lowercase(s: Seq<char>) -> Seq<char>;

/// Calls `str::to_lowercase`. The result is the Unicode lowercase mapping of `s`, which the
/// contract names (`lowercase`) without spelling out: that mapping takes the Unicode
/// tables to state.
#[verifier::external_body]
fn to_lowercase(s: &str) -> (r: String)
    ensures
        r@ == lowercase(s@),
{
    s.to_lowercase()
}

/// The part of `s` after its last `.` (all of `s` where it has none), as
/// `s.rsplit('.').next()` gives it.
pub open spec fn last_segment(s: Seq<char>) -> Seq<char>
    decreases s.len(),
{
    if s.len() == 0 {
        s
    } else if s.last() == '.' {
        Seq::empty()
    } else {
        last_segment(s.drop_last()).push(s.last())
    }
}

/// The last segment holds no `.`, and the class is some text that is empty or ends in `.`,
/// followed by the last segment.
pub proof fn lemma_last_segment(s: Seq<char>)
    ensures
        forall|i: int| 0 <= i < last_segment(s).len() ==> #[trigger] last_segment(s)[i] != '.',
        last_segment(s).len() <= s.len(),
        s.subrange(s.len() - last_segment(s).len(), s.len() as int) == last_segment(s),
        last_segment(s).len() < s.len() ==> s[s.len() - last_segment(s).len() - 1] == '.',
    decreases s.len(),
{
    if s.len() > 0 && s.last() != '.' {
        let p = s.drop_last();
        lemma_last_segment(p);
        let l = last_segment(p);
        assert(last_segment(s) == l.push(s.last()));
        assert(s.subrange(s.len() - l.len() - 1, s.len() as int) =~= p.subrange(
            p.len() - l.len(),
            p.len() as int,
        ).push(s.last()));
        if l.len() < p.len() {
            assert(s[s.len() - l.len() - 2] == p[p.len() - l.len() - 1]);
        }
    } else if s.len() > 0 {
        assert(s.subrange(s.len() as int, s.len() as int) =~= last_segment(s));
    }
}

/// Where an icon name is looked for.
#[derive(Clone, Copy, Debug, PartialEq, Eq, Structural)]
pub enum ProbeKind {
    /// A desktop file ID whose `Icon=` entry gives the name.
    DesktopFile,
    /// An icon name looked up in the icon theme.
    ThemeIcon,
}

/// One lookup to try while resolving a window's icon.
#[derive(Clone, Debug)]
pub struct IconProbe {
    pub kind: ProbeKind,
    pub name: String,
}

/// What a lookup found.
#[derive(Clone, Debug)]
pub enum ProbeOutcome {
    /// Nothing usable.
    Missing,
    /// The desktop file exists and names this icon.
    DesktopIcon(String),
    /// The icon theme has the probed name.
    InTheme,
}

pub open spec fn desktop_suffix() -> Seq<char> {
    ".desktop"@
}

/// The lookups, in order: the class as desktop ID, the lowercased class as desktop ID, the
/// lowercased last dot-segment as desktop ID and as theme icon, the lowercased class as
/// theme icon.
pub open spec fn spec_icon_probes(class: Seq<char>) -> Seq<(ProbeKind, Seq<char>)> {
    let lower = lowercase(class);
    let last_lower = lowercase(last_segment(class));
    seq![
        (ProbeKind::DesktopFile, class + desktop_suffix()),
        (ProbeKind::DesktopFile, lower + desktop_suffix()),
        (ProbeKind::DesktopFile, last_lower + desktop_suffix()),
        (ProbeKind::ThemeIcon, last_lower),
        (ProbeKind::ThemeIcon, lower),
    ]
}

fn last_segment_of(class: &str) -> (r: String)
    ensures
        r@ == last_segment(class@),
{
    let cs = chars_of(class);
    let n = cs.len();
    let mut j = n;
    assert(cs@.subrange(n as int, n as int) =~= Seq::<char>::empty());
    assert(cs@.take(n as int) =~= cs@);
    while j > 0 && cs[j - 1] != '.'
        invariant
            j <= n,
            n == cs@.len(),
            last_segment(cs@) == last_segment(cs@.take(j as int)) + cs@.subrange(j as int, n as int),
        decreases j,
    {
        let ghost t = cs@.take(j as int);
        assert(t.drop_last() =~= cs@.take(j - 1));
        assert(t.last() == cs@[j - 1]);
        assert(cs@.subrange(j - 1, n as int) =~= seq![cs@[j - 1]] + cs@.subrange(j as int, n as int));
        assert(last_segment(t) == last_segment(cs@.take(j - 1)).push(cs@[j - 1]));
        assert(last_segment(t) + cs@.subrange(j as int, n as int) =~= last_segment(cs@.take(j - 1))
            + cs@.subrange(j - 1, n as int));
        j = j - 1;
    }
    proof {
        if j > 0 {
            assert(cs@.take(j as int).last() == cs@[j - 1]);
        }
        assert(last_segment(cs@.take(j as int)) =~= Seq::<char>::empty());
        assert(last_segment(cs@) =~= cs@.subrange(j as int, n as int));
    }
    slice_text(class, &cs, j, n)
}

fn with_desktop_suffix(s: &str) -> (r: String)
    ensures
        r@ == s@ + desktop_suffix(),
{
    let mut r = String::from_str(s);
    r.append(".desktop");
    r
}

/// The lookups to try for a window class, in order.
pub fn icon_probes(class: &str) -> (r: Vec<IconProbe>)
    ensures
        r@.len() == spec_icon_probes(class@).len(),
        forall|i: int|
            0 <= i < r@.len() ==> (#[trigger] r@[i]).kind == spec_icon_probes(class@)[i].0
                && r@[i].name@ == spec_icon_probes(class@)[i].1,
{
    let lower = to_lowercase(class);
    let last = last_segment_of(class);
    let last_lower = to_lowercase(last.as_str());
    let mut r: Vec<IconProbe> = Vec::new();
    r.push(IconProbe { kind: ProbeKind::DesktopFile, name: with_desktop_suffix(class) });
    r.push(IconProbe { kind: ProbeKind::DesktopFile, name: with_desktop_suffix(lower.as_str()) });
    r.push(
        IconProbe { kind: ProbeKind::DesktopFile, name: with_desktop_suffix(last_lower.as_str()) },
    );
    r.push(IconProbe { kind: ProbeKind::ThemeIcon, name: String::from_str(last_lower.as_str()) });
    r.push(IconProbe { kind: ProbeKind::ThemeIcon, name: lower });
    r
}

/// The icon name a lookup yields, if it found one.
pub open spec fn outcome_icon(probe: (ProbeKind, Seq<char>), outcome: ProbeOutcome) -> Option<
    Seq<char>,
> {
    match outcome {
        ProbeOutcome::Missing => None,
        ProbeOutcome::DesktopIcon(name) => Some(name@),
        ProbeOutcome::InTheme => Some(probe.1),
    }
}

pub open spec fn fallback_icon() -> Seq<char> {
    "application-x-executable"@
}

/// The icon of the first lookup that found one, or the generic executable icon.
pub open spec fn first_found_icon(
    probes: Seq<(ProbeKind, Seq<char>)>,
    outcomes: Seq<ProbeOutcome>,
) -> Seq<char>
    decreases outcomes.len(),
{
    if outcomes.len() == 0 || probes.len() == 0 {
        fallback_icon()
    } else {
        match outcome_icon(probes[0], outcomes[0]) {
            Some(name) => name,
            None => first_found_icon(probes.drop_first(), outcomes.drop_first()),
        }
    }
}

/// The lookups are, in order: `CLASS.desktop`, `lowercase(CLASS).desktop`,
/// `lowercase(LAST).desktop`, the theme icon `lowercase(LAST)`, the theme icon
/// `lowercase(CLASS)`, where LAST is the class after its last `.`.
pub proof fn lemma_probe_order(class: Seq<char>)
    ensures
        spec_icon_probes(class).len() == 5,
        spec_icon_probes(class)[0] == (ProbeKind::DesktopFile, class + ".desktop"@),
        spec_icon_probes(class)[1] == (ProbeKind::DesktopFile, lowercase(class) + ".desktop"@),
        spec_icon_probes(class)[2] == (
            ProbeKind::DesktopFile,
            lowercase(last_segment(class)) + ".desktop"@,
        ),
        spec_icon_probes(class)[3] == (ProbeKind::ThemeIcon, lowercase(last_segment(class))),
        spec_icon_probes(class)[4] == (ProbeKind::ThemeIcon, lowercase(class)),
{
}

/// The first lookup that found something decides the icon: a desktop file gives the icon it
/// names, a theme hit gives the name looked up; lookups before it found nothing and
/// lookups after it are not consulted.
pub proof fn lemma_first_success_decides(
    probes: Seq<(ProbeKind, Seq<char>)>,
    outcomes: Seq<ProbeOutcome>,
    i: int,
)
    requires
        0 <= i < probes.len(),
        0 <= i < outcomes.len(),
        forall|j: int| 0 <= j < i ==> #[trigger] outcomes[j] is Missing,
        !(outcomes[i] is Missing),
    ensures
        outcomes[i] matches ProbeOutcome::DesktopIcon(name) ==> first_found_icon(probes, outcomes)
            == name@,
        outcomes[i] is InTheme ==> first_found_icon(probes, outcomes) == probes[i].1,
    decreases i,
{
    if i > 0 {
        assert(outcomes[0] is Missing);
        assert forall|j: int| 0 <= j < i - 1 implies #[trigger] outcomes.drop_first()[j] is Missing by {
            assert(outcomes.drop_first()[j] == outcomes[j + 1]);
        }
        lemma_first_success_decides(probes.drop_first(), outcomes.drop_first(), i - 1);
    }
}

/// When no lookup found anything, the icon is the generic `application-x-executable`.
pub proof fn lemma_nothing_found_falls_back(probes: Seq<(ProbeKind, Seq<char>)>, outcomes: Seq<ProbeOutcome>)
    requires
        forall|j: int| 0 <= j < outcomes.len() ==> #[trigger] outcomes[j] is Missing,
    ensures
        first_found_icon(probes, outcomes) == "application-x-executable"@,
    decreases outcomes.len(),
{
    if outcomes.len() > 0 && probes.len() > 0 {
        assert(outcomes[0] is Missing);
        assert forall|j: int| 0 <= j < outcomes.len() - 1 implies #[trigger] outcomes.drop_first()[j] is Missing by {
            assert(outcomes.drop_first()[j] == outcomes[j + 1]);
        }
        lemma_nothing_found_falls_back(probes.drop_first(), outcomes.drop_first());
    }
}

/// Resolve an icon name from a window class string, given what the lookups of
/// `icon_probes(class)` found, in order (a lookup after the first success need not be made).
pub fn resolve_icon(class: &str, outcomes: &Vec<ProbeOutcome>) -> (r: String)
    ensures
        r@ == first_found_icon(spec_icon_probes(class@), outcomes@),
{
    let probes = icon_probes(class);
    let ghost sp = spec_icon_probes(class@);
    let mut i: usize = 0;
    assert(sp.skip(0) =~= sp);
    assert(outcomes@.skip(0) =~= outcomes@);
    while i < outcomes.len() && i < probes.len()
        invariant
            i <= outcomes@.len(),
            i <= probes@.len(),
            sp == spec_icon_probes(class@),
            probes@.len() == sp.len(),
            forall|k: int|
                0 <= k < probes@.len() ==> (#[trigger] probes@[k]).kind == sp[k].0
                    && probes@[k].name@ == sp[k].1,
            first_found_icon(sp, outcomes@) == first_found_icon(
                sp.skip(i as int),
                outcomes@.skip(i as int),
            ),
        decreases outcomes.len() - i,
    {
        assert(sp.skip(i as int)[0] == sp[i as int]);
        assert(outcomes@.skip(i as int)[0] == outcomes@[i as int]);
        let ghost rest_p = sp.skip(i as int);
        let ghost rest_o = outcomes@.skip(i as int);
        assert(rest_p.len() > 0 && rest_o.len() > 0);
        match &outcomes[i] {
            ProbeOutcome::DesktopIcon(name) => {
                assert(outcome_icon(rest_p[0], rest_o[0]) == Some(name@));
                return name.clone();
            },
            ProbeOutcome::InTheme => {
                assert(outcome_icon(rest_p[0], rest_o[0]) == Some(probes@[i as int].name@));
                return probes[i].name.clone();
            },
            ProbeOutcome::Missing => {},
        }
        assert(sp.skip(i as int).drop_first() =~= sp.skip(i + 1));
        assert(outcomes@.skip(i as int).drop_first() =~= outcomes@.skip(i + 1));
        i = i + 1;
    }
    String::from_str("application-x-executable")
}

} // verus!
