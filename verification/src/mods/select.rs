use vstd::prelude::*;
use crate::menu::SelectedState;
use super::types::{
    ModId,
    ModConfig,
    ModListEntry,
    SelectedMod,
    EntryView,
    PickView,
    IdView,
    entry_views,
    pick_of,
};

verus! {

/// The picks a vector holds, as a set.
pub open spec fn pick_set(v: Seq<SelectedMod>) -> Set<PickView> {
    Set::new(|x: PickView| exists|i: int| 0 <= i < v.len() && v[i]@ == x)
}

/// No pick occurs twice.
pub open spec fn distinct_picks(v: Seq<SelectedMod>) -> bool {
    forall|i: int, j: int| 0 <= i < j < v.len() ==> (#[trigger] v[i])@ != (#[trigger] v[j])@
}

/// The picks that stand for the entries from `lo` to `hi`, both included.
pub open spec fn range_picks(list: Seq<EntryView>, lo: int, hi: int) -> Set<PickView> {
    Set::new(|x: PickView| exists|i: int| lo <= i <= hi && 0 <= i < list.len() && pick_of(list[i]) == x)
}

/// The row of the first entry a pick stands for, looking from `i` on; 0 when
/// there is none.
pub open spec fn pick_index_from(list: Seq<EntryView>, m: PickView, i: int) -> int
    decreases list.len() - i,
{
    if i < 0 || i >= list.len() {
        0
    } else if pick_of(list[i]) == m {
        i
    } else {
        pick_index_from(list, m, i + 1)
    }
}

pub open spec fn pick_index(list: Seq<EntryView>, m: PickView) -> int {
    pick_index_from(list, m, 0)
}

/// The selection part of the mod list screen: the list in display order,
/// the picked mods, those picked by the last shift-click, and the row the
/// last plain click landed on.
#[derive(Debug)]
pub struct MenuEditMods {
    pub sorted_mods_list: Vec<ModListEntry>,
    pub selected_mods: Vec<SelectedMod>,
    pub shift_selected_mods: Vec<SelectedMod>,
    pub selected_state: SelectedState,
    pub list_shift_index: Option<usize>,
    /// Whether a menu (the mod list's submenu, or the one over a right
    /// clicked mod) is open.
    pub modal_open: bool,
}

impl MenuEditMods {
    /// The picks hold no repeats, and the row of the last click, when there
    /// is one, is a row of the list (or the first row of an empty list).
    pub open spec fn wf(&self) -> bool {
        &&& distinct_picks(self.selected_mods@)
        &&& distinct_picks(self.shift_selected_mods@)
        &&& match self.list_shift_index {
            Some(si) => si < self.sorted_mods_list.len() || si == 0,
            None => true,
        }
    }
}

/// The selection after a click on the mod list: the picks, those of the
/// shift-click, and the row of the last plain click.
pub open spec fn select_spec(
    list: Seq<EntryView>,
    sel: Set<PickView>,
    shift_sel: Set<PickView>,
    shift_index: Option<usize>,
    m: PickView,
    ctrl: bool,
    shift: bool,
) -> (Set<PickView>, Set<PickView>, Option<usize>) {
    let sel1 = if !ctrl && !shift && sel != Set::<PickView>::empty().insert(m) {
        Set::<PickView>::empty()
    } else {
        sel
    };
    let sh1 = if ctrl { Set::<PickView>::empty() } else { shift_sel };
    let idx = pick_index(list, m);
    match shift_index {
        Some(si) if shift && si != idx => {
            let lo = if idx < si { idx } else { si as int };
            let hi = if idx < si { si as int } else { idx };
            let base = sel1.difference(sh1);
            let r = range_picks(list, lo, hi);
            (base.union(r), r.difference(base), shift_index)
        },
        _ => (
            if sel1.contains(m) { sel1.remove(m) } else { sel1.insert(m) },
            sh1,
            Some(idx as usize),
        ),
    }
}

/// Whether the vector holds the pick.
fn has_pick(v: &Vec<SelectedMod>, m: &SelectedMod) -> (r: bool)
    ensures
        r == pick_set(v@).contains(m@),
{
    let mut i: usize = 0;
    while i < v.len()
        invariant
            0 <= i <= v.len(),
            forall|j: int| 0 <= j < i ==> (#[trigger] v@[j])@ != m@,
        decreases v.len() - i,
    {
        if v[i].same_as(m) {
            return true;
        }
        i += 1;
    }
    false
}

/// Adds the pick unless it is there; says whether it was added.
fn add_pick(v: &mut Vec<SelectedMod>, m: SelectedMod) -> (r: bool)
    requires
        distinct_picks(old(v)@),
    ensures
        distinct_picks(final(v)@),
        pick_set(final(v)@) == pick_set(old(v)@).insert(m@),
        r == !pick_set(old(v)@).contains(m@),
{
    if has_pick(v, &m) {
        proof {
            assert(pick_set(v@) =~= pick_set(v@).insert(m@));
        }
        false
    } else {
        let ghost before = v@;
        let ghost mv = m@;
        v.push(m);
        proof {
            assert(v@ == before.push(v@[before.len() as int]));
            assert(pick_set(v@) =~= pick_set(before).insert(mv)) by {
                assert forall|x: PickView| pick_set(v@).contains(x) implies pick_set(before).insert(mv).contains(x) by {
                    let i = choose|i: int| 0 <= i < v@.len() && v@[i]@ == x;
                    if i < before.len() {
                        assert(before[i]@ == x);
                    }
                }
                assert forall|x: PickView| pick_set(before).insert(mv).contains(x) implies pick_set(v@).contains(x) by {
                    if x == mv {
                        assert(v@[before.len() as int]@ == x);
                    } else {
                        let i = choose|i: int| 0 <= i < before.len() && before[i]@ == x;
                        assert(v@[i]@ == x);
                    }
                }
            }
            assert forall|i: int, j: int| 0 <= i < j < v@.len() implies (#[trigger] v@[i])@ != (#[trigger] v@[j])@ by {
                if j == before.len() {
                    assert(before[i]@ != mv) by {
                        if before[i]@ == mv {
                            assert(pick_set(before).contains(mv));
                        }
                    }
                } else {
                    assert(before[i] == v@[i] && before[j] == v@[j]);
                }
            }
        }
        true
    }
}

/// Keeps the picks that `drop` does not hold.
fn drop_picks(v: &mut Vec<SelectedMod>, drop: &Vec<SelectedMod>)
    requires
        distinct_picks(old(v)@),
    ensures
        distinct_picks(final(v)@),
        pick_set(final(v)@) == pick_set(old(v)@).difference(pick_set(drop@)),
{
    let ghost start = v@;
    let mut kept: Vec<SelectedMod> = Vec::new();
    let mut i: usize = 0;
    while i < v.len()
        invariant
            0 <= i <= v.len(),
            v@ == start,
            distinct_picks(start),
            distinct_picks(kept@),
            forall|x: PickView| #[trigger] pick_set(kept@).contains(x) <==> (exists|j: int|
                0 <= j < i && start[j]@ == x) && !pick_set(drop@).contains(x),
        decreases v.len() - i,
    {
        if !has_pick(drop, &v[i]) {
            let ghost before = kept@;
            let c = v[i].clone();
            kept.push(c);
            proof {
                assert forall|x: PickView| #[trigger] pick_set(kept@).contains(x) <==> (exists|j: int|
                    0 <= j < i + 1 && start[j]@ == x) && !pick_set(drop@).contains(x) by {
                    if pick_set(kept@).contains(x) {
                        let k = choose|k: int| 0 <= k < kept@.len() && kept@[k]@ == x;
                        if k < before.len() {
                            assert(before[k]@ == x);
                            assert(pick_set(before).contains(x));
                        } else {
                            assert(start[i as int]@ == x);
                        }
                    }
                    if (exists|j: int| 0 <= j < i + 1 && start[j]@ == x) && !pick_set(drop@).contains(x) {
                        let j = choose|j: int| 0 <= j < i + 1 && start[j]@ == x;
                        if j < i {
                            assert(pick_set(before).contains(x));
                            let k = choose|k: int| 0 <= k < before.len() && before[k]@ == x;
                            assert(kept@[k]@ == x);
                        } else {
                            assert(kept@[before.len() as int]@ == x);
                        }
                    }
                }
                assert forall|a: int, b: int| 0 <= a < b < kept@.len() implies (#[trigger] kept@[a])@ != (#[trigger] kept@[b])@ by {
                    if b == before.len() {
                        if kept@[a]@ == kept@[b]@ {
                            assert(before[a]@ == start[i as int]@);
                            assert(pick_set(before).contains(start[i as int]@));
                            let j = choose|j: int| 0 <= j < i && start[j]@ == start[i as int]@;
                            assert(start[j]@ != start[i as int]@);
                        }
                    } else {
                        assert(before[a] == kept@[a] && before[b] == kept@[b]);
                    }
                }
            }
        } else {
            proof {
                assert forall|x: PickView| #[trigger] pick_set(kept@).contains(x) <==> (exists|j: int|
                    0 <= j < i + 1 && start[j]@ == x) && !pick_set(drop@).contains(x) by {
                    if (exists|j: int| 0 <= j < i + 1 && start[j]@ == x) && !pick_set(drop@).contains(x) {
                        let j = choose|j: int| 0 <= j < i + 1 && start[j]@ == x;
                        if j == i {
                            assert(pick_set(drop@).contains(x));
                        }
                        assert(exists|j: int| 0 <= j < i && start[j]@ == x);
                    }
                }
            }
        }
        i += 1;
    }
    *v = kept;
    proof {
        assert(pick_set(v@) =~= pick_set(start).difference(pick_set(drop@)));
    }
}

/// Takes the pick out.
fn remove_pick(v: &mut Vec<SelectedMod>, m: &SelectedMod)
    requires
        distinct_picks(old(v)@),
    ensures
        distinct_picks(final(v)@),
        pick_set(final(v)@) == pick_set(old(v)@).remove(m@),
{
    let single: Vec<SelectedMod> = vec![m.clone()];
    drop_picks(v, &single);
    proof {
        assert(pick_set(single@) =~= Set::<PickView>::empty().insert(m@)) by {
            assert(single@[0]@ == m@);
        }
        assert(pick_set(v@) =~= pick_set(old(v)@).remove(m@));
    }
}

/// Whether the pick is a downloaded mod with this id.
pub open spec fn is_pick_of_id(p: PickView, id: IdView) -> bool {
    match p {
        PickView::Downloaded { id: i, .. } => i == id,
        PickView::Local { .. } => false,
    }
}

/// The ids of the picked downloaded mods, in order.
pub open spec fn picked_ids(v: Seq<PickView>) -> Seq<IdView>
    decreases v.len(),
{
    if v.len() == 0 {
        Seq::empty()
    } else {
        match v.last() {
            PickView::Downloaded { id, .. } => picked_ids(v.drop_last()).push(id),
            PickView::Local { .. } => picked_ids(v.drop_last()),
        }
    }
}

/// The file names of the picked local jars, in order.
pub open spec fn picked_files(v: Seq<PickView>) -> Seq<Seq<char>>
    decreases v.len(),
{
    if v.len() == 0 {
        Seq::empty()
    } else {
        match v.last() {
            PickView::Local { file_name } => picked_files(v.drop_last()).push(file_name),
            PickView::Downloaded { .. } => picked_files(v.drop_last()),
        }
    }
}

proof fn lemma_range_step(list: Seq<EntryView>, lo: int, i: int)
    requires
        lo <= i < list.len(),
        0 <= lo,
    ensures
        range_picks(list, lo, i) == range_picks(list, lo, i - 1).insert(pick_of(list[i])),
{
    assert(range_picks(list, lo, i) =~= range_picks(list, lo, i - 1).insert(pick_of(list[i])));
}

impl MenuEditMods {
    /// The row of the first entry the pick stands for; 0 when there is none.
    pub fn index(&self, m: &SelectedMod) -> (r: usize)
        ensures
            r == pick_index(entry_views(self.sorted_mods_list@), m@),
            r < self.sorted_mods_list.len() || r == 0,
    {
        let ghost list = entry_views(self.sorted_mods_list@);
        let mut i: usize = 0;
        while i < self.sorted_mods_list.len()
            invariant
                0 <= i <= self.sorted_mods_list.len(),
                list == entry_views(self.sorted_mods_list@),
                pick_index_from(list, m@, 0) == pick_index_from(list, m@, i as int),
            decreases self.sorted_mods_list.len() - i,
        {
            if m.is_entry(&self.sorted_mods_list[i]) {
                return i;
            }
            i += 1;
        }
        0
    }

    /// A click on a mod of the list. A plain click picks that mod alone, or
    /// unpicks it if it was the only pick; a control-click adds or removes
    /// it; a shift-click picks the rows from the last plain click to this
    /// one, replacing the rows of the previous shift-click.
    pub fn select_mod(&mut self, selected_mod: SelectedMod, pressed_ctrl: bool, pressed_shift: bool)
        requires
            old(self).wf(),
        ensures
            final(self).wf(),
            final(self).sorted_mods_list@ == old(self).sorted_mods_list@,
            final(self).selected_state == old(self).selected_state,
            !final(self).modal_open,
            (pick_set(final(self).selected_mods@), pick_set(final(self).shift_selected_mods@), final(self).list_shift_index)
                == select_spec(
                entry_views(old(self).sorted_mods_list@),
                pick_set(old(self).selected_mods@),
                pick_set(old(self).shift_selected_mods@),
                old(self).list_shift_index,
                selected_mod@,
                pressed_ctrl,
                pressed_shift,
            ),
    {
        self.modal_open = false;
        let ghost list = entry_views(self.sorted_mods_list@);
        let ghost m = selected_mod@;
        let ghost sel0 = pick_set(self.selected_mods@);
        if pressed_ctrl {
            self.shift_selected_mods = Vec::new();
            proof {
                assert(pick_set(self.shift_selected_mods@) =~= Set::<PickView>::empty());
            }
        } else if !pressed_shift {
            let single = self.selected_mods.len() == 1 && self.selected_mods[0].same_as(&selected_mod);
            proof {
                let v = self.selected_mods@;
                if single {
                    assert(sel0 =~= Set::<PickView>::empty().insert(m)) by {
                        assert(v[0]@ == m);
                    }
                } else if sel0 == Set::<PickView>::empty().insert(m) {
                    assert(sel0.contains(m));
                    let k = choose|k: int| 0 <= k < v.len() && v[k]@ == m;
                    if v.len() > 1 {
                        let other = if k == 0 { 1int } else { 0int };
                        assert(sel0.contains(v[other]@));
                        assert(v[other]@ == m);
                    }
                    assert(v[0]@ == m);
                }
            }
            if !single {
                self.selected_mods = Vec::new();
                proof {
                    assert(pick_set(self.selected_mods@) =~= Set::<PickView>::empty());
                }
            }
        }
        let idx = self.index(&selected_mod);
        let ghost sel1 = pick_set(self.selected_mods@);
        let ghost sh1 = pick_set(self.shift_selected_mods@);
        match self.list_shift_index {
            Some(shift_idx) if pressed_shift && shift_idx != idx => {
                drop_picks(&mut self.selected_mods, &self.shift_selected_mods);
                self.shift_selected_mods = Vec::new();
                let lo = if idx < shift_idx { idx } else { shift_idx };
                let hi = if idx < shift_idx { shift_idx } else { idx };
                let ghost base = sel1.difference(sh1);
                proof {
                    assert(range_picks(list, lo as int, lo - 1) =~= Set::<PickView>::empty());
                    assert(pick_set(self.selected_mods@) =~= base.union(range_picks(list, lo as int, lo - 1)));
                    assert(pick_set(self.shift_selected_mods@) =~= range_picks(list, lo as int, lo - 1).difference(base));
                }
                let mut i = lo;
                while i <= hi
                    invariant
                        lo <= i <= hi + 1,
                        hi < self.sorted_mods_list.len(),
                        list == entry_views(self.sorted_mods_list@),
                        self.sorted_mods_list@ == old(self).sorted_mods_list@,
                        self.list_shift_index == old(self).list_shift_index,
                        self.selected_state == old(self).selected_state,
                        !self.modal_open,
                        old(self).wf(),
                        distinct_picks(self.selected_mods@),
                        distinct_picks(self.shift_selected_mods@),
                        pick_set(self.selected_mods@) == base.union(range_picks(list, lo as int, i - 1)),
                        pick_set(self.shift_selected_mods@) == range_picks(list, lo as int, i - 1).difference(base),
                    decreases hi + 1 - i,
                {
                    let current_mod = SelectedMod::from_entry(self.sorted_mods_list[i].clone());
                    proof {
                        lemma_range_step(list, lo as int, i as int);
                        assert(current_mod@ == pick_of(list[i as int]));
                    }
                    let ghost before_sh = pick_set(self.shift_selected_mods@);
                    let copy = current_mod.clone();
                    if add_pick(&mut self.selected_mods, current_mod) {
                        add_pick(&mut self.shift_selected_mods, copy);
                    }
                    proof {
                        assert(pick_set(self.selected_mods@) =~= base.union(range_picks(list, lo as int, i as int)));
                        assert(pick_set(self.shift_selected_mods@) =~= range_picks(list, lo as int, i as int).difference(base));
                    }
                    i += 1;
                }
            },
            _ => {
                self.list_shift_index = Some(idx);
                if has_pick(&self.selected_mods, &selected_mod) {
                    remove_pick(&mut self.selected_mods, &selected_mod);
                } else {
                    add_pick(&mut self.selected_mods, selected_mod);
                }
            },
        }
    }

    /// Sets the summary of how much of the list is picked.
    pub fn update_selected_state(&mut self)
        ensures
            final(self).selected_state == (if old(self).selected_mods.len() == 0 {
                SelectedState::Empty
            } else if old(self).selected_mods.len() == old(self).sorted_mods_list.len() {
                SelectedState::All
            } else {
                SelectedState::Partial
            }),
            final(self).sorted_mods_list@ == old(self).sorted_mods_list@,
            final(self).selected_mods@ == old(self).selected_mods@,
            final(self).shift_selected_mods@ == old(self).shift_selected_mods@,
            final(self).list_shift_index == old(self).list_shift_index,
            final(self).modal_open == old(self).modal_open,
    {
        self.selected_state = SelectedState::of_counts(self.selected_mods.len(), self.sorted_mods_list.len());
    }

    /// Whether a downloaded mod with this id is picked.
    pub fn is_selected(&self, clicked_id: &ModId) -> (r: bool)
        ensures
            r == exists|i: int| 0 <= i < self.selected_mods@.len() && is_pick_of_id((#[trigger] self.selected_mods@[i])@, clicked_id@),
    {
        let mut i: usize = 0;
        while i < self.selected_mods.len()
            invariant
                0 <= i <= self.selected_mods.len(),
                forall|j: int| 0 <= j < i ==> !is_pick_of_id((#[trigger] self.selected_mods@[j])@, clicked_id@),
            decreases self.selected_mods.len() - i,
        {
            if let SelectedMod::Downloaded { id, .. } = &self.selected_mods[i] {
                if id.same_as(clicked_id) {
                    return true;
                }
            }
            i += 1;
        }
        false
    }

    /// The ids of the picked downloaded mods and the file names of the picked
    /// local jars.
    pub fn get_kinds_of_ids(&self) -> (r: (Vec<ModId>, Vec<String>))
        ensures
            Seq::new(r.0@.len(), |i: int| r.0@[i]@) == picked_ids(Seq::new(self.selected_mods@.len(), |i: int| self.selected_mods@[i]@)),
            Seq::new(r.1@.len(), |i: int| r.1@[i]@) == picked_files(Seq::new(self.selected_mods@.len(), |i: int| self.selected_mods@[i]@)),
    {
        let ghost all = Seq::new(self.selected_mods@.len(), |i: int| self.selected_mods@[i]@);
        let mut ids: Vec<ModId> = Vec::new();
        let mut files: Vec<String> = Vec::new();
        let mut i: usize = 0;
        proof {
            assert(all.take(0) =~= Seq::<PickView>::empty());
            assert(Seq::new(ids@.len(), |i: int| ids@[i]@) =~= Seq::<IdView>::empty());
            assert(Seq::new(files@.len(), |i: int| files@[i]@) =~= Seq::<Seq<char>>::empty());
        }
        while i < self.selected_mods.len()
            invariant
                0 <= i <= self.selected_mods.len(),
                all == Seq::new(self.selected_mods@.len(), |i: int| self.selected_mods@[i]@),
                Seq::new(ids@.len(), |i: int| ids@[i]@) == picked_ids(all.take(i as int)),
                Seq::new(files@.len(), |i: int| files@[i]@) == picked_files(all.take(i as int)),
            decreases self.selected_mods.len() - i,
        {
            proof {
                assert(all.take(i + 1).drop_last() =~= all.take(i as int));
                assert(all.take(i + 1).last() == all[i as int]);
            }
            let ghost ids0 = Seq::new(ids@.len(), |i: int| ids@[i]@);
            let ghost files0 = Seq::new(files@.len(), |i: int| files@[i]@);
            match &self.selected_mods[i] {
                SelectedMod::Downloaded { id, .. } => {
                    ids.push(id.clone());
                    assert(Seq::new(ids@.len(), |i: int| ids@[i]@) =~= ids0.push(all[i as int]->Downloaded_id));
                },
                SelectedMod::Local { file_name } => {
                    files.push(file_name.clone());
                    assert(Seq::new(files@.len(), |i: int| files@[i]@) =~= files0.push(all[i as int]->Local_file_name));
                },
            }
            i += 1;
        }
        proof {
            assert(all.take(i as int) =~= all);
        }
        (ids, files)
    }
}

/// The picks of "select all": every downloaded mod the user installed, and
/// every local jar.
pub open spec fn all_picks(d: Seq<(ModId, ModConfig)>, l: Seq<String>) -> Set<PickView> {
    Set::new(
        |x: PickView|
            (exists|i: int|
                0 <= i < d.len() && d[i].1.manually_installed && x == (PickView::Downloaded {
                    name: d[i].1.name@,
                    id: d[i].0@,
                })) || (exists|j: int| 0 <= j < l.len() && x == (PickView::Local { file_name: l[j]@ })),
    )
}

impl MenuEditMods {
    /// "Select all": unpicks everything when all is picked, and otherwise
    /// picks every mod the user installed and every local jar.
    pub fn select_all(&mut self, downloaded_mods: &Vec<(ModId, ModConfig)>, locally_installed_mods: &Vec<String>)
        requires
            old(self).wf(),
        ensures
            final(self).wf(),
            final(self).sorted_mods_list@ == old(self).sorted_mods_list@,
            final(self).shift_selected_mods@ == old(self).shift_selected_mods@,
            final(self).modal_open == old(self).modal_open,
            final(self).list_shift_index == old(self).list_shift_index,
            old(self).selected_state == SelectedState::All ==> (final(self).selected_mods@.len() == 0
                && final(self).selected_state == SelectedState::Empty),
            old(self).selected_state != SelectedState::All ==> (pick_set(final(self).selected_mods@) == all_picks(
                downloaded_mods@,
                locally_installed_mods@,
            ) && final(self).selected_state == SelectedState::All),
    {
        if self.selected_state == SelectedState::All {
            self.selected_mods = Vec::new();
            self.selected_state = SelectedState::Empty;
            return;
        }
        self.selected_mods = all_pick_list(downloaded_mods, locally_installed_mods);
        self.selected_state = SelectedState::All;
    }

    /// A pick made sure of, as when a mod is opened from elsewhere: that
    /// mod alone is picked, and its row becomes the row of the last click.
    pub fn select_ensure(&mut self, selected_mod: SelectedMod)
        requires
            old(self).wf(),
        ensures
            final(self).wf(),
            final(self).list_shift_index == Some(pick_index(entry_views(old(self).sorted_mods_list@), selected_mod@) as usize),
            final(self).shift_selected_mods@.len() == 0,
            final(self).selected_mods@ == seq![selected_mod],
            final(self).selected_state == (if old(self).sorted_mods_list.len() == 1 {
                SelectedState::All
            } else {
                SelectedState::Partial
            }),
            final(self).sorted_mods_list@ == old(self).sorted_mods_list@,
            final(self).modal_open == old(self).modal_open,
    {
        let i = self.index(&selected_mod);
        self.list_shift_index = Some(i);
        self.shift_selected_mods = Vec::new();
        self.selected_mods = vec![selected_mod];
        proof {
            assert(distinct_picks(self.selected_mods@));
            assert(distinct_picks(self.shift_selected_mods@));
        }
        self.update_selected_state();
    }

    /// The mods the export screen starts with: the picks, or, when nothing
    /// is picked, every mod the user installed and every local jar.
    pub fn export_selection(&self, downloaded_mods: &Vec<(ModId, ModConfig)>, locally_installed_mods: &Vec<String>) -> (r: Vec<SelectedMod>)
        ensures
            self.selected_mods@.len() > 0 ==> r@ == self.selected_mods@,
            self.selected_mods@.len() == 0 ==> distinct_picks(r@) && pick_set(r@) == all_picks(
                downloaded_mods@,
                locally_installed_mods@,
            ),
    {
        if self.selected_mods.len() == 0 {
            all_pick_list(downloaded_mods, locally_installed_mods)
        } else {
            clone_picks(&self.selected_mods)
        }
    }
}

/// A copy of a list of picks.
fn clone_picks(v: &Vec<SelectedMod>) -> (r: Vec<SelectedMod>)
    ensures
        r@ == v@,
{
    let mut out: Vec<SelectedMod> = Vec::new();
    let mut i: usize = 0;
    while i < v.len()
        invariant
            0 <= i <= v.len(),
            out@.len() == i,
            forall|k: int| 0 <= k < i ==> #[trigger] out@[k] == v@[k],
        decreases v.len() - i,
    {
        out.push(v[i].clone());
        i += 1;
    }
    proof {
        assert(out@ =~= v@);
    }
    out
}

/// Every mod the user installed, then every local jar, each picked once.
fn all_pick_list(downloaded_mods: &Vec<(ModId, ModConfig)>, locally_installed_mods: &Vec<String>) -> (picked: Vec<SelectedMod>)
    ensures
        distinct_picks(picked@),
        pick_set(picked@) == all_picks(downloaded_mods@, locally_installed_mods@),
{
    let ghost d = downloaded_mods@;
    let ghost l = locally_installed_mods@;
    let mut picked: Vec<SelectedMod> = Vec::new();
    let mut i: usize = 0;
    while i < downloaded_mods.len()
        invariant
            0 <= i <= downloaded_mods.len(),
            d == downloaded_mods@,
            distinct_picks(picked@),
            forall|x: PickView| #[trigger] pick_set(picked@).contains(x) <==> exists|k: int|
                0 <= k < i && d[k].1.manually_installed && x == (PickView::Downloaded { name: d[k].1.name@, id: d[k].0@ }),
        decreases downloaded_mods.len() - i,
    {
        let (id, config) = &downloaded_mods[i];
        if config.manually_installed {
            let p = SelectedMod::Downloaded { name: config.name.clone(), id: id.clone() };
            add_pick(&mut picked, p);
        }
        proof {
            assert forall|x: PickView| #[trigger] pick_set(picked@).contains(x) <==> exists|k: int|
                0 <= k < i + 1 && d[k].1.manually_installed && x == (PickView::Downloaded { name: d[k].1.name@, id: d[k].0@ }) by {
                if exists|k: int| 0 <= k < i + 1 && d[k].1.manually_installed && x == (PickView::Downloaded { name: d[k].1.name@, id: d[k].0@ }) {
                    let k = choose|k: int| 0 <= k < i + 1 && d[k].1.manually_installed && x == (PickView::Downloaded { name: d[k].1.name@, id: d[k].0@ });
                    if k < i {
                        assert(exists|k2: int| 0 <= k2 < i && d[k2].1.manually_installed && x == (PickView::Downloaded { name: d[k2].1.name@, id: d[k2].0@ }));
                    }
                }
            }
        }
        i += 1;
    }
    let mut j: usize = 0;
    while j < locally_installed_mods.len()
        invariant
            0 <= j <= locally_installed_mods.len(),
            d == downloaded_mods@,
            l == locally_installed_mods@,
            distinct_picks(picked@),
            forall|x: PickView| #[trigger] pick_set(picked@).contains(x) <==> (exists|k: int|
                0 <= k < d.len() && d[k].1.manually_installed && x == (PickView::Downloaded { name: d[k].1.name@, id: d[k].0@ }))
                || (exists|k: int| 0 <= k < j && x == (PickView::Local { file_name: l[k]@ })),
        decreases locally_installed_mods.len() - j,
    {
        let p = SelectedMod::Local { file_name: locally_installed_mods[j].clone() };
        add_pick(&mut picked, p);
        proof {
            assert forall|x: PickView| #[trigger] pick_set(picked@).contains(x) <==> (exists|k: int|
                0 <= k < d.len() && d[k].1.manually_installed && x == (PickView::Downloaded { name: d[k].1.name@, id: d[k].0@ }))
                || (exists|k: int| 0 <= k < j + 1 && x == (PickView::Local { file_name: l[k]@ })) by {
                if exists|k: int| 0 <= k < j + 1 && x == (PickView::Local { file_name: l[k]@ }) {
                    let k = choose|k: int| 0 <= k < j + 1 && x == (PickView::Local { file_name: l[k]@ });
                    if k < j {
                        assert(exists|k2: int| 0 <= k2 < j && x == (PickView::Local { file_name: l[k2]@ }));
                    }
                }
            }
        }
        j += 1;
    }
    proof {
        assert(pick_set(picked@) =~= all_picks(d, l));
    }
    picked
}

/// A plain click picks the clicked mod alone, unless it was already the only
/// pick, in which case nothing stays picked.
pub proof fn law_plain_click_picks_alone(
    list: Seq<EntryView>,
    sel: Set<PickView>,
    shift_sel: Set<PickView>,
    shift_index: Option<usize>,
    m: PickView,
)
    ensures
        sel != Set::<PickView>::empty().insert(m) ==> select_spec(list, sel, shift_sel, shift_index, m, false, false).0
            == Set::<PickView>::empty().insert(m),
        sel == Set::<PickView>::empty().insert(m) ==> select_spec(list, sel, shift_sel, shift_index, m, false, false).0
            == Set::<PickView>::empty(),
        select_spec(list, sel, shift_sel, shift_index, m, false, false).2 == Some(pick_index(list, m) as usize),
{
    let e = Set::<PickView>::empty();
    assert(e.insert(m).remove(m) =~= e);
    assert(e.insert(m) =~= e.insert(m));
}

/// Control-clicking the same mod twice leaves the picks as they were.
pub proof fn law_ctrl_click_twice(
    list: Seq<EntryView>,
    sel: Set<PickView>,
    shift_sel: Set<PickView>,
    shift_index: Option<usize>,
    m: PickView,
)
    ensures
        ({
            let once = select_spec(list, sel, shift_sel, shift_index, m, true, false);
            let twice = select_spec(list, once.0, once.1, once.2, m, true, false);
            twice.0 == sel
        }),
{
    let once = select_spec(list, sel, shift_sel, shift_index, m, true, false);
    if sel.contains(m) {
        assert(sel.remove(m).insert(m) =~= sel);
    } else {
        assert(sel.insert(m).remove(m) =~= sel);
    }
}

/// After a shift-click, every row from the last plain click to the clicked
/// one is picked, and the picks made before it that the previous
/// shift-click did not add stay picked.
pub proof fn law_shift_click_picks_range(
    list: Seq<EntryView>,
    sel: Set<PickView>,
    shift_sel: Set<PickView>,
    si: usize,
    m: PickView,
    ctrl: bool,
    i: int,
    x: PickView,
)
    requires
        si != pick_index(list, m),
        0 <= i < list.len(),
        (pick_index(list, m) <= i <= si) || (si <= i <= pick_index(list, m)),
    ensures
        select_spec(list, sel, shift_sel, Some(si), m, ctrl, true).0.contains(pick_of(list[i])),
        !ctrl && sel.contains(x) && !shift_sel.contains(x) ==> select_spec(list, sel, shift_sel, Some(si), m, ctrl, true).0.contains(x),
{
    let idx = pick_index(list, m);
    let lo = if idx < si { idx } else { si as int };
    let hi = if idx < si { si as int } else { idx };
    assert(range_picks(list, lo, hi).contains(pick_of(list[i])));
}

/// Whether a mod with an update is checked for updating: the first record
/// of it in the mod index is enabled, or it has none.
pub open spec fn update_enabled_from(index: Seq<(ModId, ModConfig)>, id: IdView, i: int) -> bool
    decreases index.len() - i,
{
    if i < 0 || i >= index.len() {
        true
    } else if index[i].0@ == id {
        index[i].1.enabled
    } else {
        update_enabled_from(index, id, i + 1)
    }
}

/// Whether a mod with an update starts checked for updating.
pub open spec fn update_enabled(index: Seq<(ModId, ModConfig)>, id: IdView) -> bool {
    update_enabled_from(index, id, 0)
}

fn is_update_enabled(index: &Vec<(ModId, ModConfig)>, id: &ModId) -> (r: bool)
    ensures
        r == update_enabled(index@, id@),
{
    let mut i: usize = 0;
    while i < index.len()
        invariant
            0 <= i <= index.len(),
            update_enabled(index@, id@) == update_enabled_from(index@, id@, i as int),
        decreases index.len() - i,
    {
        if index[i].0.same_as(id) {
            return index[i].1.enabled;
        }
        i += 1;
    }
    true
}

/// The rows of the update list from the mods that have an update, each
/// with its title and whether it starts checked: mods the user disabled
/// start unchecked.
pub fn update_rows(updates: Vec<(ModId, String)>, index: &Vec<(ModId, ModConfig)>) -> (rows: Vec<(ModId, String, bool)>)
    ensures
        rows@.len() == updates@.len(),
        forall|k: int| 0 <= k < rows@.len() ==> (#[trigger] rows@[k]).0 == updates@[k].0 && rows@[k].1 == updates@[k].1
            && rows@[k].2 == update_enabled(index@, updates@[k].0@),
{
    let mut rows: Vec<(ModId, String, bool)> = Vec::new();
    let mut i: usize = 0;
    while i < updates.len()
        invariant
            0 <= i <= updates.len(),
            rows@.len() == i,
            forall|k: int| 0 <= k < i ==> (#[trigger] rows@[k]).0 == updates@[k].0 && rows@[k].1 == updates@[k].1
                && rows@[k].2 == update_enabled(index@, updates@[k].0@),
        decreases updates.len() - i,
    {
        let (id, title) = &updates[i];
        let enabled = is_update_enabled(index, id);
        rows.push((id.clone(), title.clone(), enabled));
        i += 1;
    }
    rows
}

/// Checks or unchecks one row of the update list; a row past the end is
/// ignored.
pub fn toggle_update_row(rows: &mut Vec<(ModId, String, bool)>, idx: usize, t: bool)
    ensures
        idx < old(rows)@.len() ==> final(rows)@ == old(rows)@.update(idx as int, (old(rows)@[idx as int].0, old(rows)@[idx as int].1, t)),
        idx >= old(rows)@.len() ==> final(rows)@ == old(rows)@,
{
    if idx < rows.len() {
        let (id, title, _) = &rows[idx];
        let row = (id.clone(), title.clone(), t);
        rows.set(idx, row);
    }
}

/// The mod whose right-click menu is open after a right click: clicking the
/// mod whose menu is open closes it; any other mod gets the menu.
pub fn right_click_target(open: Option<ModId>, clicked: ModId) -> (r: Option<ModId>)
    ensures
        r == (match open {
            Some(o) => if o@ == clicked@ { None } else { Some(clicked) },
            None => Some(clicked),
        }),
{
    match open {
        Some(o) => if o.same_as(&clicked) { None } else { Some(clicked) },
        None => Some(clicked),
    }
}

} // verus!
