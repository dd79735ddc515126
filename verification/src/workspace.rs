//! The workspace's tab list and the keys of its launcher and settings overlays.
use crate::i18n::{language_ids, languages};
use crate::text::{chars_of, str_eq, strings_view};
use crate::theme::{theme_ids, themes};
use vstd::prelude::*;

verus! {

/// The tabs of the workspace, by id, and the active one.
pub struct Tabs {
    ids: Vec<usize>,
    active: usize,
    next_id: usize,
}

impl Tabs {
    /// The ids of the tabs, in order.
    pub closed spec fn ids(self) -> Seq<usize> {
        self.ids@
    }

    pub closed spec fn active_spec(self) -> usize {
        self.active
    }

    pub closed spec fn next_id_spec(self) -> usize {
        self.next_id
    }

    /// The active tab is a tab, or 0 where there is none; ids are given in
    /// increasing order and stay below the next id, so each id names one tab.
    pub closed spec fn wf(self) -> bool {
        &&& (self.ids@.len() == 0 ==> self.active == 0)
        &&& (self.ids@.len() > 0 ==> self.active < self.ids@.len())
        &&& forall|i: int, j: int|
            0 <= i < j < self.ids@.len() ==> #[trigger] self.ids@[i] < #[trigger] self.ids@[j]
        &&& forall|i: int| 0 <= i < self.ids@.len() ==> #[trigger] self.ids@[i] < self.next_id
    }

    pub fn new() -> (t: Self)
        ensures
            t.wf(),
            t.ids().len() == 0,
            t.active_spec() == 0,
            t.next_id_spec() == 1,
    {
        Tabs { ids: Vec::new(), active: 0, next_id: 1 }
    }

    pub fn len(&self) -> (n: usize)
        ensures
            n == self.ids().len(),
    {
        self.ids.len()
    }

    pub fn active(&self) -> (a: usize)
        ensures
            a == self.active_spec(),
    {
        self.active
    }

    /// The id that the next tab gets.
    pub fn next_id(&self) -> (n: usize)
        ensures
            n == self.next_id_spec(),
    {
        self.next_id
    }

    /// The id of tab `index`.
    pub fn id(&self, index: usize) -> (id: usize)
        requires
            index < self.ids().len(),
        ensures
            id == self.ids()[index as int],
    {
        self.ids[index]
    }

    /// Add a tab after the others and make it active; it gets the next id.
    pub fn open(&mut self) -> (id: usize)
        requires
            old(self).wf(),
            old(self).next_id_spec() < usize::MAX,
        ensures
            final(self).wf(),
            id == old(self).next_id_spec(),
            final(self).ids() == old(self).ids().push(id),
            final(self).active_spec() == old(self).ids().len(),
            final(self).next_id_spec() == old(self).next_id_spec() + 1,
    {
        let id = self.next_id;
        self.ids.push(id);
        self.next_id = self.next_id + 1;
        self.active = self.ids.len() - 1;
        id
    }

    /// Make tab `index` active, where there is such a tab.
    pub fn activate(&mut self, index: usize) -> (changed: bool)
        requires
            old(self).wf(),
        ensures
            final(self).wf(),
            changed == (index < old(self).ids().len()),
            final(self).ids() == old(self).ids(),
            final(self).next_id_spec() == old(self).next_id_spec(),
            final(self).active_spec() == (if changed {
                index
            } else {
                old(self).active_spec()
            }),
    {
        if index < self.ids.len() {
            self.active = index;
            true
        } else {
            false
        }
    }

    /// Close tab `index`, where there is such a tab. A tab before the active
    /// one moves the active index back with its tab; closing the active tab
    /// activates the tab after it, or the new last one.
    pub fn close(&mut self, index: usize) -> (closed: bool)
        requires
            old(self).wf(),
        ensures
            final(self).wf(),
            closed == (index < old(self).ids().len()),
            final(self).next_id_spec() == old(self).next_id_spec(),
            closed ==> final(self).ids() == old(self).ids().remove(index as int),
            !closed ==> final(self).ids() == old(self).ids() && final(self).active_spec() == old(
                self,
            ).active_spec(),
            closed ==> final(self).active_spec() == ({
                let a = if index < old(self).active_spec() {
                    old(self).active_spec() - 1
                } else {
                    old(self).active_spec() as int
                };
                let last = if old(self).ids().len() >= 2 {
                    old(self).ids().len() - 2
                } else {
                    0
                };
                if a < last {
                    a
                } else {
                    last
                }
            }),
    {
        if index >= self.ids.len() {
            return false;
        }
        let ghost before = self.ids@;
        self.ids.remove(index);
        if index < self.active {
            self.active = self.active - 1;
        }
        let last = if self.ids.len() >= 1 {
            self.ids.len() - 1
        } else {
            0
        };
        if self.active > last {
            self.active = last;
        }
        assert forall|i: int, j: int|
            0 <= i < j < self.ids@.len() implies #[trigger] self.ids@[i] < #[trigger] self.ids@[j] by {
            let oi = if i < index { i } else { i + 1 };
            let oj = if j < index { j } else { j + 1 };
            assert(self.ids@[i] == before[oi]);
            assert(self.ids@[j] == before[oj]);
            assert(before[oi] < before[oj]);
        }
        assert forall|i: int| 0 <= i < self.ids@.len() implies #[trigger] self.ids@[i]
            < self.next_id by {
            let oi = if i < index { i } else { i + 1 };
            assert(self.ids@[i] == before[oi]);
        }
        true
    }

    /// Activate the next tab, after the last the first.
    pub fn next(&mut self)
        requires
            old(self).wf(),
        ensures
            final(self).wf(),
            final(self).ids() == old(self).ids(),
            final(self).next_id_spec() == old(self).next_id_spec(),
            final(self).active_spec() == (if old(self).ids().len() > 0 {
                ((old(self).active_spec() + 1) % (old(self).ids().len() as int)) as usize
            } else {
                old(self).active_spec()
            }),
    {
        if self.ids.len() > 0 {
            self.active = (self.active + 1) % self.ids.len();
        }
    }

    /// Activate the previous tab, before the first the last.
    pub fn previous(&mut self)
        requires
            old(self).wf(),
        ensures
            final(self).wf(),
            final(self).ids() == old(self).ids(),
            final(self).next_id_spec() == old(self).next_id_spec(),
            final(self).active_spec() == (if old(self).ids().len() > 0 {
                ((old(self).active_spec() + old(self).ids().len() - 1) % (
                old(self).ids().len() as int)) as usize
            } else {
                old(self).active_spec()
            }),
    {
        if self.ids.len() > 0 {
            self.active = if self.active == 0 {
                self.ids.len() - 1
            } else {
                self.active - 1
            };
            proof {
                let n = self.ids@.len() as int;
                let a = old(self).active as int;
                if a == 0 {
                    assert((a + n - 1) % n == n - 1) by (nonlinear_arith)
                        requires
                            a == 0,
                            n > 0,
                    ;
                } else {
                    assert((a + n - 1) % n == a - 1) by (nonlinear_arith)
                        requires
                            0 < a < n,
                    ;
                }
            }
        }
    }
}

/// Switching to the next tab and back returns to the tab one started from.
pub proof fn lemma_next_then_previous(active: int, count: int)
    requires
        0 <= active < count,
    ensures
        ((active + 1) % count + count - 1) % count == active,
        ((active + count - 1) % count + 1) % count == active,
{
    if active + 1 < count {
        assert((active + 1) % count == active + 1) by (nonlinear_arith)
            requires
                0 <= active + 1 < count,
        ;
        assert((active + 1 + count - 1) % count == active) by (nonlinear_arith)
            requires
                0 <= active < count,
        ;
    } else {
        assert((active + 1) % count == 0) by (nonlinear_arith)
            requires
                active + 1 == count,
                count > 0,
        ;
        assert((0 + count - 1) % count == active) by (nonlinear_arith)
            requires
                active + 1 == count,
                count > 0,
        ;
    }
    if active > 0 {
        assert((active + count - 1) % count == active - 1) by (nonlinear_arith)
            requires
                0 < active < count,
        ;
        assert((active - 1 + 1) % count == active) by (nonlinear_arith)
            requires
                0 < active < count,
        ;
    } else {
        assert((active + count - 1) % count == count - 1) by (nonlinear_arith)
            requires
                active == 0,
                count > 0,
        ;
        assert((count - 1 + 1) % count == 0) by (nonlinear_arith)
            requires
                count > 0,
        ;
    }
}

/// Closing the tab that was just opened gives back the tabs as they were.
pub proof fn lemma_close_undoes_open(ids: Seq<usize>, id: usize)
    ensures
        ids.push(id).remove(ids.len() as int) == ids,
{
    assert(ids.push(id).remove(ids.len() as int) =~= ids);
}

/// Position of `x` in `s`, or 0 where it does not occur.
pub open spec fn position_or_first(s: Seq<Seq<char>>, x: Seq<char>) -> int {
    if exists|i: int| 0 <= i < s.len() && s[i] == x {
        choose|i: int| 0 <= i < s.len() && s[i] == x && forall|j: int| 0 <= j < i ==> s[j] != x
    } else {
        0
    }
}

/// The entry after `current` in `s`, the first after the last; the second
/// where `current` is not in `s`.
pub open spec fn next_in(s: Seq<Seq<char>>, current: Seq<char>) -> Seq<char> {
    s[(position_or_first(s, current) + 1) % (s.len() as int)]
}

fn position_of(list: &Vec<(&'static str, &'static str)>, x: &str) -> (p: usize)
    ensures
        p < list.len() || (list.len() == 0 && p == 0),
        p as int == position_or_first(list@.map_values(|e: (&'static str, &'static str)| e.0@), x@),
{
    let ghost s = list@.map_values(|e: (&'static str, &'static str)| e.0@);
    let mut i: usize = 0;
    while i < list.len()
        invariant
            i <= list.len(),
            s == list@.map_values(|e: (&'static str, &'static str)| e.0@),
            forall|j: int| 0 <= j < i ==> s[j] != x@,
        decreases list.len() - i,
    {
        if str_eq(list[i].0, x) {
            assert(s[i as int] == x@);
            proof {
                let c = choose|k: int| 0 <= k < s.len() && s[k] == x@ && forall|j: int| 0 <= j < k ==> s[j] != x@;
                if c < i {
                    assert(s[c] != x@);
                }
                if c > i {
                    assert(s[i as int] != x@);
                }
            }
            return i;
        }
        i = i + 1;
    }
    0
}

/// The skin after `current`, as the settings' F6 key cycles them.
pub fn next_theme(current: &str) -> (t: &'static str)
    ensures
        t@ == next_in(theme_ids(), current@),
{
    let list = themes();
    assert(list@.map_values(|e: (&'static str, &'static str)| e.0@) =~= theme_ids());
    let p = position_of(&list, current);
    list[(p + 1) % list.len()].0
}

/// The language setting after `current`, as the settings' F7 key cycles them.
pub fn next_language(current: &str) -> (l: &'static str)
    ensures
        l@ == next_in(language_ids(), current@),
{
    let list = languages();
    assert(list@.map_values(|e: (&'static str, &'static str)| e.0@) =~= language_ids());
    let p = position_of(&list, current);
    list[(p + 1) % list.len()].0
}

/// The profile that a new tab opens: the one whose id is the default shell, or the first.
pub fn default_profile(ids: &Vec<String>, default_shell: &str) -> (i: usize)
    ensures
        i as int == position_or_first(strings_view(ids@), default_shell@),
{
    let ghost s = strings_view(ids@);
    let mut i: usize = 0;
    while i < ids.len()
        invariant
            i <= ids.len(),
            s == strings_view(ids@),
            forall|j: int| 0 <= j < i ==> s[j] != default_shell@,
        decreases ids.len() - i,
    {
        if str_eq(ids[i].as_str(), default_shell) {
            assert(s[i as int] == default_shell@);
            proof {
                let c = choose|k: int|
                    0 <= k < s.len() && s[k] == default_shell@ && forall|j: int| 0 <= j < k ==> s[j] != default_shell@;
                if c < i {
                    assert(s[c] != default_shell@);
                }
                if c > i {
                    assert(s[i as int] != default_shell@);
                }
            }
            return i;
        }
        i = i + 1;
    }
    0
}

/// The pages of the settings overlay.
#[derive(Clone, Copy, Debug, PartialEq, Eq, Structural)]
pub enum SettingsPage {
    Appearance,
    Terminal,
    About,
}

/// What the workspace does after a key in an overlay.
#[derive(Clone, Copy, Debug, PartialEq, Eq, Structural)]
pub enum OverlayAction {
    /// Nothing beyond the overlay's own state.
    Stay,
    /// Focus the active tab again.
    FocusActive,
    /// Open a tab with the profile at this index.
    OpenProfile(usize),
    /// Switch to the next skin.
    NextTheme,
    /// Switch to the next language.
    NextLanguage,
}

/// The overlays after a key, and what the workspace does.
pub open spec fn overlay_key_spec(o: Overlays, key: Seq<char>, profiles: usize) -> (
    Overlays,
    Option<OverlayAction>,
) {
    if !(o.launcher || o.settings) {
        (o, None)
    } else if key == "escape"@ {
        (Overlays { launcher: false, settings: false, ..o }, Some(OverlayAction::FocusActive))
    } else if key == "down"@ && o.launcher && profiles > 0 {
        (
            Overlays {
                launcher_index: ((o.launcher_index + 1) % (profiles as int)) as usize,
                ..o
            },
            Some(OverlayAction::Stay),
        )
    } else if key == "up"@ && o.launcher && profiles > 0 {
        (
            Overlays {
                launcher_index: ((o.launcher_index + profiles - 1) % (profiles as int)) as usize,
                ..o
            },
            Some(OverlayAction::Stay),
        )
    } else if key == "enter"@ && o.launcher {
        (o, Some(OverlayAction::OpenProfile(o.launcher_index)))
    } else if key == "f6"@ && o.settings {
        (o, Some(OverlayAction::NextTheme))
    } else if key == "f7"@ && o.settings {
        (o, Some(OverlayAction::NextLanguage))
    } else {
        (o, Some(OverlayAction::Stay))
    }
}

/// The launcher and settings overlays of the workspace.
#[derive(Clone, Copy, Debug, PartialEq, Eq, Structural)]
pub struct Overlays {
    pub launcher: bool,
    pub settings: bool,
    pub settings_page: SettingsPage,
    pub launcher_index: usize,
}

impl Overlays {
    pub fn new() -> (o: Self)
        ensures
            !o.launcher && !o.settings && o.settings_page == SettingsPage::Appearance
                && o.launcher_index == 0,
    {
        Overlays {
            launcher: false,
            settings: false,
            settings_page: SettingsPage::Appearance,
            launcher_index: 0,
        }
    }

    /// Toggle the settings overlay, which always opens on its first page;
    /// closing it focuses the active tab again.
    pub fn toggle_settings(&mut self) -> (a: OverlayAction)
        ensures
            final(self).settings == !old(self).settings,
            !final(self).launcher,
            final(self).launcher_index == old(self).launcher_index,
            final(self).settings ==> final(self).settings_page == SettingsPage::Appearance,
            !final(self).settings ==> final(self).settings_page == old(self).settings_page,
            a == (if final(self).settings {
                OverlayAction::Stay
            } else {
                OverlayAction::FocusActive
            }),
    {
        self.settings = !self.settings;
        self.launcher = false;
        if self.settings {
            self.settings_page = SettingsPage::Appearance;
            OverlayAction::Stay
        } else {
            OverlayAction::FocusActive
        }
    }

    /// Handle a key while an overlay is open; `None` where none is (the key
    /// then goes on to the terminal). Escape closes the overlays, Up and Down
    /// move through the launcher's `profiles`, Enter opens the selected one,
    /// and in the settings F6 and F7 switch skin and language.
    pub fn key(&mut self, key: &str, profiles: usize) -> (a: Option<OverlayAction>)
        ensures
            (*final(self), a) == overlay_key_spec(*old(self), key@, profiles),
{
        proof {
            reveal_strlit("escape");
            reveal_strlit("down");
            reveal_strlit("up");
            reveal_strlit("enter");
            reveal_strlit("f6");
            reveal_strlit("f7");
            assert("escape"@.len() == 6 && "down"@.len() == 4 && "up"@.len() == 2
                && "enter"@.len() == 5 && "f6"@.len() == 2 && "f7"@.len() == 2);
            assert("up"@[0] == 'u' && "f6"@[0] == 'f' && "f7"@[0] == 'f' && "f6"@[1] == '6'
                && "f7"@[1] == '7');
        }
        if !(self.launcher || self.settings) {
            return None;
        }
        let k = chars_of(key);
        if crate::text::chars_equal(&k, "escape") {
            self.launcher = false;
            self.settings = false;
            return Some(OverlayAction::FocusActive);
        }
        if crate::text::chars_equal(&k, "down") && self.launcher && profiles > 0 {
            self.launcher_index = ((self.launcher_index as u128 + 1) % (profiles as u128)) as usize;
            return Some(OverlayAction::Stay);
        }
        if crate::text::chars_equal(&k, "up") && self.launcher && profiles > 0 {
            self.launcher_index = ((self.launcher_index as u128 + profiles as u128 - 1) % (
            profiles as u128)) as usize;
            return Some(OverlayAction::Stay);
        }
        if crate::text::chars_equal(&k, "enter") && self.launcher {
            return Some(OverlayAction::OpenProfile(self.launcher_index));
        }
        if crate::text::chars_equal(&k, "f6") && self.settings {
            return Some(OverlayAction::NextTheme);
        }
        if crate::text::chars_equal(&k, "f7") && self.settings {
            return Some(OverlayAction::NextLanguage);
        }
        Some(OverlayAction::Stay)
    }
}

} // verus!
