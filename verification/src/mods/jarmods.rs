use vstd::prelude::*;
use crate::menu::SelectedState;
use crate::text::{str_eq, string_of};
use vstd::seq_lib::{to_multiset_insert, to_multiset_remove};

verus! {

/// A jar mod patched into the game jar, in load order.
#[derive(Debug)]
pub struct JarMod {
    pub filename: String,
    pub enabled: bool,
}

/// The jar mods of an instance.
#[derive(Debug)]
pub struct JarMods {
    pub mods: Vec<JarMod>,
}

/// The jar mod screen: the mods, and which of them are picked, by file name.
#[derive(Debug)]
pub struct MenuEditJarMods {
    pub jarmods: JarMods,
    pub selected_state: SelectedState,
    pub selected_mods: Vec<String>,
    pub drag_and_drop_hovered: bool,
}

impl View for JarMod {
    type V = (Seq<char>, bool);

    open spec fn view(&self) -> (Seq<char>, bool) {
        (self.filename@, self.enabled)
    }
}

/// The values of the jar mods.
pub open spec fn jar_views(s: Seq<JarMod>) -> Seq<(Seq<char>, bool)> {
    Seq::new(s.len(), |i: int| s[i]@)
}

/// The names a vector holds, as a set.
pub open spec fn name_set(v: Seq<String>) -> Set<Seq<char>> {
    Set::new(|x: Seq<char>| exists|i: int| 0 <= i < v.len() && v[i]@ == x)
}

pub open spec fn distinct_names(v: Seq<String>) -> bool {
    forall|i: int, j: int| 0 <= i < j < v.len() ==> (#[trigger] v[i])@ != (#[trigger] v[j])@
}

/// The jar mod at `k` is the first one with its file name.
pub open spec fn first_of_name(m: Seq<(Seq<char>, bool)>, k: int) -> bool {
    forall|j: int| 0 <= j < k ==> (#[trigger] m[j]).0 != m[k].0
}

/// The rows, in increasing order among the first `n`, of the first jar mod
/// of each picked name.
pub open spec fn picked_rows(m: Seq<(Seq<char>, bool)>, sel: Set<Seq<char>>, n: int) -> Seq<int>
    decreases n,
{
    if n <= 0 {
        Seq::empty()
    } else if sel.contains(m[n - 1].0) && first_of_name(m, n - 1) {
        picked_rows(m, sel, n - 1).push(n - 1)
    } else {
        picked_rows(m, sel, n - 1)
    }
}

/// Moving the jar mod at `i` one place up, when it is not the first.
pub open spec fn step_up(m: Seq<(Seq<char>, bool)>, i: int) -> Seq<(Seq<char>, bool)> {
    if 0 < i < m.len() {
        m.remove(i).insert(i - 1, m[i])
    } else {
        m
    }
}

/// Moving the jar mod at `i` one place down, when it is not the last.
pub open spec fn step_down(m: Seq<(Seq<char>, bool)>, i: int) -> Seq<(Seq<char>, bool)> {
    if 0 <= i && i + 1 < m.len() {
        m.remove(i).insert(i + 1, m[i])
    } else {
        m
    }
}

/// Moving up the rows in increasing order.
pub open spec fn move_rows_up(m: Seq<(Seq<char>, bool)>, rows: Seq<int>) -> Seq<(Seq<char>, bool)>
    decreases rows.len(),
{
    if rows.len() == 0 {
        m
    } else {
        step_up(move_rows_up(m, rows.drop_last()), rows.last())
    }
}

/// Moving down the rows in decreasing order.
pub open spec fn move_rows_down(m: Seq<(Seq<char>, bool)>, rows: Seq<int>) -> Seq<(Seq<char>, bool)>
    decreases rows.len(),
{
    if rows.len() == 0 {
        m
    } else {
        move_rows_down(step_down(m, rows.last()), rows.drop_last())
    }
}

pub(crate) fn has_name(v: &Vec<String>, name: &String) -> (r: bool)
    ensures
        r == name_set(v@).contains(name@),
{
    let mut i: usize = 0;
    while i < v.len()
        invariant
            0 <= i <= v.len(),
            forall|j: int| 0 <= j < i ==> (#[trigger] v@[j])@ != name@,
        decreases v.len() - i,
    {
        if v[i] == *name {
            return true;
        }
        i += 1;
    }
    false
}

/// Whether the jar mod at `k` is the first with its name.
fn is_first_of_name(mods: &Vec<JarMod>, k: usize) -> (r: bool)
    requires
        k < mods.len(),
    ensures
        r == first_of_name(jar_views(mods@), k as int),
{
    let mut j: usize = 0;
    while j < k
        invariant
            0 <= j <= k < mods.len(),
            forall|i: int| 0 <= i < j ==> (#[trigger] jar_views(mods@)[i]).0 != jar_views(mods@)[k as int].0,
        decreases k - j,
    {
        if mods[j].filename == mods[k].filename {
            proof {
                assert(jar_views(mods@)[j as int].0 == jar_views(mods@)[k as int].0);
            }
            return false;
        }
        j += 1;
    }
    true
}

impl MenuEditJarMods {
    /// The picked names hold no repeats.
    pub open spec fn wf(&self) -> bool {
        distinct_names(self.selected_mods@)
    }

    /// The rows of the first jar mod of each picked name, in increasing
    /// order.
    fn selected_rows(&self) -> (r: Vec<usize>)
        ensures
            Seq::new(r@.len(), |i: int| r@[i] as int) == picked_rows(
                jar_views(self.jarmods.mods@),
                name_set(self.selected_mods@),
                self.jarmods.mods@.len() as int,
            ),
            forall|i: int| 0 <= i < r@.len() ==> #[trigger] r@[i] < self.jarmods.mods@.len(),
    {
        let ghost m = jar_views(self.jarmods.mods@);
        let ghost sel = name_set(self.selected_mods@);
        let mut rows: Vec<usize> = Vec::new();
        let mut k: usize = 0;
        proof {
            assert(Seq::new(rows@.len(), |i: int| rows@[i] as int) =~= Seq::<int>::empty());
        }
        while k < self.jarmods.mods.len()
            invariant
                0 <= k <= self.jarmods.mods.len(),
                m == jar_views(self.jarmods.mods@),
                sel == name_set(self.selected_mods@),
                Seq::new(rows@.len(), |i: int| rows@[i] as int) == picked_rows(m, sel, k as int),
                forall|i: int| 0 <= i < rows@.len() ==> #[trigger] rows@[i] < k,
            decreases self.jarmods.mods.len() - k,
        {
            let ghost before = Seq::new(rows@.len(), |i: int| rows@[i] as int);
            if has_name(&self.selected_mods, &self.jarmods.mods[k].filename) && is_first_of_name(&self.jarmods.mods, k) {
                rows.push(k);
                proof {
                    assert(Seq::new(rows@.len(), |i: int| rows@[i] as int) =~= before.push(k as int));
                }
            }
            k += 1;
        }
        rows
    }

    /// Moves the picked jar mods one place up (or down), the block of picked
    /// ones moving together; a picked mod already at the top (or bottom)
    /// stays, and a picked mod next to it may pass it.
    pub fn move_up_or_down(&mut self, down: bool)
        ensures
            final(self).selected_mods@ == old(self).selected_mods@,
            final(self).selected_state == old(self).selected_state,
            ({
                let m = jar_views(old(self).jarmods.mods@);
                let rows = picked_rows(m, name_set(old(self).selected_mods@), m.len() as int);
                jar_views(final(self).jarmods.mods@) == if down {
                    move_rows_down(m, rows)
                } else {
                    move_rows_up(m, rows)
                }
            }),
    {
        let rows = self.selected_rows();
        let ghost m0 = jar_views(self.jarmods.mods@);
        let ghost rs = Seq::new(rows@.len(), |i: int| rows@[i] as int);
        let n = self.jarmods.mods.len();
        if !down {
            let mut k: usize = 0;
            proof {
                assert(rs.take(0) =~= Seq::<int>::empty());
            }
            while k < rows.len()
                invariant
                    0 <= k <= rows.len(),
                    rs == Seq::new(rows@.len(), |i: int| rows@[i] as int),
                    n == self.jarmods.mods.len(),
                    forall|i: int| 0 <= i < rows@.len() ==> #[trigger] rows@[i] < n,
                    jar_views(self.jarmods.mods@) == move_rows_up(m0, rs.take(k as int)),
                    self.selected_mods@ == old(self).selected_mods@,
                    self.selected_state == old(self).selected_state,
                decreases rows.len() - k,
            {
                let i = rows[k];
                let ghost before = self.jarmods.mods@;
                if i > 0 {
                    let removed = self.jarmods.mods.remove(i);
                    self.jarmods.mods.insert(i - 1, removed);
                    proof {
                        assert(jar_views(self.jarmods.mods@) =~= step_up(jar_views(before), i as int));
                    }
                }
                proof {
                    assert(rs.take(k + 1).drop_last() =~= rs.take(k as int));
                    assert(rs.take(k + 1).last() == i as int);
                }
                k += 1;
            }
            proof {
                assert(rs.take(k as int) =~= rs);
            }
        } else {
            let mut k: usize = rows.len();
            proof {
                assert(rs.take(k as int) =~= rs);
            }
            while k > 0
                invariant
                    0 <= k <= rows.len(),
                    rs == Seq::new(rows@.len(), |i: int| rows@[i] as int),
                    n == self.jarmods.mods.len(),
                    forall|i: int| 0 <= i < rows@.len() ==> #[trigger] rows@[i] < n,
                    move_rows_down(m0, rs) == move_rows_down(jar_views(self.jarmods.mods@), rs.take(k as int)),
                    self.selected_mods@ == old(self).selected_mods@,
                    self.selected_state == old(self).selected_state,
                decreases k,
            {
                k -= 1;
                let i = rows[k];
                let ghost before = self.jarmods.mods@;
                if i + 1 < n {
                    let removed = self.jarmods.mods.remove(i);
                    self.jarmods.mods.insert(i + 1, removed);
                    proof {
                        assert(jar_views(self.jarmods.mods@) =~= step_down(jar_views(before), i as int));
                    }
                }
                proof {
                    assert(rs.take(k + 1).drop_last() =~= rs.take(k as int));
                    assert(rs.take(k + 1).last() == i as int);
                }
            }
            proof {
                assert(rs.take(0) =~= Seq::<int>::empty());
            }
        }
    }
}

/// The jar mods with the first of each picked name switched on or off.
pub open spec fn toggled(m: Seq<(Seq<char>, bool)>, sel: Set<Seq<char>>) -> Seq<(Seq<char>, bool)> {
    Seq::new(
        m.len(),
        |k: int|
            if sel.contains(m[k].0) && first_of_name(m, k) {
                (m[k].0, !m[k].1)
            } else {
                m[k]
            },
    )
}

/// The first `n` jar mods without the first of each picked name.
pub open spec fn kept_after_delete(m: Seq<(Seq<char>, bool)>, sel: Set<Seq<char>>, n: int) -> Seq<(Seq<char>, bool)>
    decreases n,
{
    if n <= 0 {
        Seq::empty()
    } else if sel.contains(m[n - 1].0) && first_of_name(m, n - 1) {
        kept_after_delete(m, sel, n - 1)
    } else {
        kept_after_delete(m, sel, n - 1).push(m[n - 1])
    }
}

impl Clone for JarMod {
    fn clone(&self) -> (r: Self)
        ensures
            r == *self,
    {
        JarMod { filename: self.filename.clone(), enabled: self.enabled }
    }
}

/// Adds the name unless it is there.
pub(crate) fn add_name(v: &mut Vec<String>, name: String)
    requires
        distinct_names(old(v)@),
    ensures
        distinct_names(final(v)@),
        name_set(final(v)@) == name_set(old(v)@).insert(name@),
{
    if has_name(v, &name) {
        proof {
            assert(name_set(v@) =~= name_set(v@).insert(name@));
        }
    } else {
        let ghost before = v@;
        let ghost nv = name@;
        v.push(name);
        proof {
            assert(name_set(v@) =~= name_set(before).insert(nv)) by {
                assert forall|x: Seq<char>| name_set(v@).contains(x) implies name_set(before).insert(nv).contains(x) by {
                    let i = choose|i: int| 0 <= i < v@.len() && v@[i]@ == x;
                    if i < before.len() {
                        assert(before[i]@ == x);
                    }
                }
                assert forall|x: Seq<char>| name_set(before).insert(nv).contains(x) implies name_set(v@).contains(x) by {
                    if x == nv {
                        assert(v@[before.len() as int]@ == x);
                    } else {
                        let i = choose|i: int| 0 <= i < before.len() && before[i]@ == x;
                        assert(v@[i]@ == x);
                    }
                }
            }
            assert forall|i: int, j: int| 0 <= i < j < v@.len() implies (#[trigger] v@[i])@ != (#[trigger] v@[j])@ by {
                if j == before.len() {
                    if before[i]@ == nv {
                        assert(name_set(before).contains(nv));
                    }
                } else {
                    assert(before[i] == v@[i] && before[j] == v@[j]);
                }
            }
        }
    }
}

/// Takes the name out.
pub(crate) fn remove_name(v: &mut Vec<String>, name: &String)
    requires
        distinct_names(old(v)@),
    ensures
        distinct_names(final(v)@),
        name_set(final(v)@) == name_set(old(v)@).remove(name@),
{
    let mut i: usize = 0;
    while i < v.len()
        invariant
            0 <= i <= v.len(),
            v@ == old(v)@,
            distinct_names(v@),
            forall|j: int| 0 <= j < i ==> (#[trigger] v@[j])@ != name@,
        decreases v.len() - i,
    {
        if v[i] == *name {
            let ghost before = v@;
            v.remove(i);
            proof {
                assert(v@ == before.remove(i as int));
                assert(name_set(v@) =~= name_set(before).remove(name@)) by {
                    assert forall|x: Seq<char>| name_set(v@).contains(x) implies name_set(before).remove(name@).contains(x) by {
                        let k = choose|k: int| 0 <= k < v@.len() && v@[k]@ == x;
                        if k < i {
                            assert(before[k]@ == x);
                        } else {
                            assert(before[k + 1]@ == x);
                            assert(before[k + 1] == v@[k]);
                            assert(i < k + 1);
                            assert(before[i as int]@ != before[k + 1]@);
                        }
                    }
                    assert forall|x: Seq<char>| name_set(before).remove(name@).contains(x) implies name_set(v@).contains(x) by {
                        let k = choose|k: int| 0 <= k < before.len() && before[k]@ == x;
                        if k < i {
                            assert(v@[k]@ == x);
                        } else {
                            assert(k != i);
                            assert(v@[k - 1]@ == x);
                        }
                    }
                }
                assert forall|a: int, b: int| 0 <= a < b < v@.len() implies (#[trigger] v@[a])@ != (#[trigger] v@[b])@ by {
                    let a0 = if a < i { a } else { a + 1 };
                    let b0 = if b < i { b } else { b + 1 };
                    assert(v@[a] == before[a0] && v@[b] == before[b0]);
                    assert(a0 < b0);
                    assert(before[a0]@ != before[b0]@);
                }
            }
            return;
        }
        i += 1;
    }
    proof {
        assert(name_set(v@) =~= name_set(v@).remove(name@));
    }
}

impl MenuEditJarMods {
    /// "Select all": unpicks everything when all is picked, and otherwise
    /// picks every jar mod.
    pub fn select_all(&mut self)
        requires
            old(self).wf(),
        ensures
            final(self).wf(),
            jar_views(final(self).jarmods.mods@) == jar_views(old(self).jarmods.mods@),
            old(self).selected_state == SelectedState::All ==> (final(self).selected_mods@.len() == 0
                && final(self).selected_state == SelectedState::Empty),
            old(self).selected_state != SelectedState::All ==> (name_set(final(self).selected_mods@) == Set::new(
                |x: Seq<char>|
                    exists|k: int|
                        0 <= k < old(self).jarmods.mods@.len() && (#[trigger] old(self).jarmods.mods@[k]).filename@ == x,
            ) && final(self).selected_state == SelectedState::All),
    {
        if self.selected_state == SelectedState::All {
            self.selected_mods = Vec::new();
            self.selected_state = SelectedState::Empty;
            return;
        }
        let mut names: Vec<String> = Vec::new();
        let mut k: usize = 0;
        while k < self.jarmods.mods.len()
            invariant
                0 <= k <= self.jarmods.mods.len(),
                self.jarmods.mods@ == old(self).jarmods.mods@,
                distinct_names(names@),
                forall|x: Seq<char>| #[trigger] name_set(names@).contains(x) <==> exists|j: int|
                    0 <= j < k && (#[trigger] self.jarmods.mods@[j]).filename@ == x,
            decreases self.jarmods.mods.len() - k,
        {
            add_name(&mut names, self.jarmods.mods[k].filename.clone());
            proof {
                assert forall|x: Seq<char>| #[trigger] name_set(names@).contains(x) <==> exists|j: int|
                    0 <= j < k + 1 && (#[trigger] self.jarmods.mods@[j]).filename@ == x by {
                    if exists|j: int| 0 <= j < k + 1 && (#[trigger] self.jarmods.mods@[j]).filename@ == x {
                        let j = choose|j: int| 0 <= j < k + 1 && (#[trigger] self.jarmods.mods@[j]).filename@ == x;
                        if j < k {
                            assert(exists|j2: int| 0 <= j2 < k && (#[trigger] self.jarmods.mods@[j2]).filename@ == x);
                        }
                    }
                }
            }
            k += 1;
        }
        self.selected_mods = names;
        self.selected_state = SelectedState::All;
        proof {
            assert(name_set(self.selected_mods@) =~= Set::new(
                |x: Seq<char>|
                    exists|k: int|
                        0 <= k < old(self).jarmods.mods@.len() && (#[trigger] old(self).jarmods.mods@[k]).filename@ == x,
            ));
        }
    }

    /// Switches on or off the picked jar mods (the first of each picked
    /// name).
    pub fn toggle_selected(&mut self)
        ensures
            jar_views(final(self).jarmods.mods@) == toggled(jar_views(old(self).jarmods.mods@), name_set(old(self).selected_mods@)),
            final(self).selected_mods@ == old(self).selected_mods@,
            final(self).selected_state == old(self).selected_state,
    {
        let ghost m0 = jar_views(self.jarmods.mods@);
        let ghost sel = name_set(self.selected_mods@);
        let n = self.jarmods.mods.len();
        let mut k: usize = 0;
        while k < n
            invariant
                0 <= k <= n,
                n == self.jarmods.mods.len(),
                m0.len() == n,
                sel == name_set(self.selected_mods@),
                self.selected_mods@ == old(self).selected_mods@,
                self.selected_state == old(self).selected_state,
                forall|j: int| 0 <= j < n ==> (#[trigger] jar_views(self.jarmods.mods@)[j]).0 == m0[j].0,
                forall|j: int| 0 <= j < k ==> #[trigger] jar_views(self.jarmods.mods@)[j] == toggled(m0, sel)[j],
                forall|j: int| k <= j < n ==> #[trigger] jar_views(self.jarmods.mods@)[j] == m0[j],
            decreases n - k,
        {
            let flip = has_name(&self.selected_mods, &self.jarmods.mods[k].filename) && is_first_of_name(&self.jarmods.mods, k);
            proof {
                let cur = jar_views(self.jarmods.mods@);
                assert(cur[k as int].0 == m0[k as int].0);
                if first_of_name(cur, k as int) {
                    assert forall|j: int| 0 <= j < k implies (#[trigger] m0[j]).0 != m0[k as int].0 by {
                        assert(cur[j].0 == m0[j].0);
                        assert(cur[j].0 != cur[k as int].0);
                    }
                }
                if first_of_name(m0, k as int) {
                    assert forall|j: int| 0 <= j < k implies (#[trigger] cur[j]).0 != cur[k as int].0 by {
                        assert(cur[j].0 == m0[j].0);
                        assert(m0[j].0 != m0[k as int].0);
                    }
                }
            }
            if flip {
                let ghost before = self.jarmods.mods@;
                let mut jm = self.jarmods.mods[k].clone();
                jm.enabled = !jm.enabled;
                self.jarmods.mods.set(k, jm);
                proof {
                    assert(self.jarmods.mods@ == before.update(k as int, self.jarmods.mods@[k as int]));
                    assert(jar_views(self.jarmods.mods@) =~= jar_views(before).update(k as int, (m0[k as int].0, !m0[k as int].1)));
                }
            }
            k += 1;
        }
        proof {
            assert(jar_views(self.jarmods.mods@) =~= toggled(m0, sel));
        }
    }

    /// Takes the picked jar mods (the first of each picked name) out of the
    /// list and unpicks everything; gives the picked names, whose files are
    /// to be deleted.
    pub fn delete_selected(&mut self) -> (r: Vec<String>)
        ensures
            jar_views(final(self).jarmods.mods@) == kept_after_delete(
                jar_views(old(self).jarmods.mods@),
                name_set(old(self).selected_mods@),
                old(self).jarmods.mods@.len() as int,
            ),
            r@ == old(self).selected_mods@,
            final(self).selected_mods@.len() == 0,
            final(self).selected_state == old(self).selected_state,
    {
        let ghost m0 = jar_views(self.jarmods.mods@);
        let ghost sel = name_set(self.selected_mods@);
        let mut kept: Vec<JarMod> = Vec::new();
        let mut k: usize = 0;
        proof {
            assert(jar_views(kept@) =~= Seq::<(Seq<char>, bool)>::empty());
        }
        while k < self.jarmods.mods.len()
            invariant
                0 <= k <= self.jarmods.mods.len(),
                m0 == jar_views(self.jarmods.mods@),
                sel == name_set(self.selected_mods@),
                jar_views(kept@) == kept_after_delete(m0, sel, k as int),
            decreases self.jarmods.mods.len() - k,
        {
            if !(has_name(&self.selected_mods, &self.jarmods.mods[k].filename) && is_first_of_name(&self.jarmods.mods, k)) {
                let ghost before = kept@;
                kept.push(self.jarmods.mods[k].clone());
                proof {
                    assert(jar_views(kept@) =~= jar_views(before).push(m0[k as int]));
                }
            }
            k += 1;
        }
        self.jarmods.mods = kept;
        let mut names: Vec<String> = Vec::new();
        std::mem::swap(&mut names, &mut self.selected_mods);
        names
    }

    /// Ticks or unticks the box of a jar mod.
    pub fn toggle_checkbox(&mut self, name: String, enable: bool)
        requires
            old(self).wf(),
        ensures
            final(self).wf(),
            jar_views(final(self).jarmods.mods@) == jar_views(old(self).jarmods.mods@),
            enable ==> name_set(final(self).selected_mods@) == name_set(old(self).selected_mods@).insert(name@)
                && final(self).selected_state == SelectedState::Partial,
            !enable ==> name_set(final(self).selected_mods@) == name_set(old(self).selected_mods@).remove(name@)
                && final(self).selected_state == (if final(self).selected_mods@.len() == 0 {
                SelectedState::Empty
            } else {
                SelectedState::Partial
            }),
    {
        if enable {
            add_name(&mut self.selected_mods, name);
            self.selected_state = SelectedState::Partial;
        } else {
            remove_name(&mut self.selected_mods, &name);
            self.selected_state = if self.selected_mods.len() == 0 {
                SelectedState::Empty
            } else {
                SelectedState::Partial
            };
        }
    }
}

proof fn lemma_step_up_multiset(m: Seq<(Seq<char>, bool)>, i: int)
    ensures
        step_up(m, i).to_multiset() == m.to_multiset(),
{
    if 0 < i < m.len() {
        to_multiset_remove(m, i);
        to_multiset_insert(m.remove(i), i - 1, m[i]);
        assert(m.to_multiset().remove(m[i]).insert(m[i]) =~= m.to_multiset()) by {
            broadcast use vstd::multiset::group_multiset_axioms, vstd::seq_lib::to_multiset_contains;
            assert(m.contains(m[i]));
        }
    }
}

proof fn lemma_step_down_multiset(m: Seq<(Seq<char>, bool)>, i: int)
    ensures
        step_down(m, i).to_multiset() == m.to_multiset(),
{
    if 0 <= i && i + 1 < m.len() {
        to_multiset_remove(m, i);
        to_multiset_insert(m.remove(i), i + 1, m[i]);
        assert(m.to_multiset().remove(m[i]).insert(m[i]) =~= m.to_multiset()) by {
            broadcast use vstd::multiset::group_multiset_axioms, vstd::seq_lib::to_multiset_contains;
            assert(m.contains(m[i]));
        }
    }
}

/// Moving picked jar mods up or down keeps every jar mod, each as often as
/// before; it only reorders them.
pub proof fn law_move_keeps_jarmods(m: Seq<(Seq<char>, bool)>, rows: Seq<int>)
    ensures
        move_rows_up(m, rows).to_multiset() == m.to_multiset(),
        move_rows_down(m, rows).to_multiset() == m.to_multiset(),
        move_rows_up(m, rows).len() == m.len(),
        move_rows_down(m, rows).len() == m.len(),
    decreases rows.len(),
{
    if rows.len() > 0 {
        law_move_keeps_jarmods(m, rows.drop_last());
        lemma_step_up_multiset(move_rows_up(m, rows.drop_last()), rows.last());
        lemma_step_down_multiset(m, rows.last());
        law_move_keeps_jarmods(step_down(m, rows.last()), rows.drop_last());
    }
}

/// Switching the picked jar mods twice leaves every jar mod as it was.
pub proof fn law_toggle_twice(m: Seq<(Seq<char>, bool)>, sel: Set<Seq<char>>)
    ensures
        toggled(toggled(m, sel), sel) == m,
{
    let t = toggled(m, sel);
    assert forall|k: int| 0 <= k < m.len() implies first_of_name(t, k) == first_of_name(m, k) by {
        if first_of_name(t, k) {
            assert forall|j: int| 0 <= j < k implies (#[trigger] m[j]).0 != m[k].0 by {
                assert(t[j].0 == m[j].0);
                assert(t[j].0 != t[k].0);
            }
        }
        if first_of_name(m, k) {
            assert forall|j: int| 0 <= j < k implies (#[trigger] t[j]).0 != t[k].0 by {
                assert(t[j].0 == m[j].0);
            }
        }
    }
    assert(toggled(t, sel) =~= m);
}


/// Whether a jar mod of that file name is in the list.
pub open spec fn has_jar(s: Seq<(Seq<char>, bool)>, name: Seq<char>) -> bool {
    exists|i: int| 0 <= i < s.len() && #[trigger] s[i].0 == name
}

impl JarMods {
    /// Takes in a jar file dropped on the window (once it is copied into the
    /// instance): it joins the end of the list, enabled, unless a jar mod of
    /// that name is there already.
    pub fn add_dropped(&mut self, filename: &str)
        ensures
            jar_views(final(self).mods@) == (if has_jar(jar_views(old(self).mods@), filename@) {
                jar_views(old(self).mods@)
            } else {
                jar_views(old(self).mods@).push((filename@, true))
            }),
    {
        let ghost before = jar_views(self.mods@);
        let mut i: usize = 0;
        while i < self.mods.len()
            invariant
                0 <= i <= self.mods.len(),
                before == jar_views(self.mods@),
                self.mods@ == old(self).mods@,
                forall|j: int| 0 <= j < i ==> (#[trigger] before[j]).0 != filename@,
            decreases self.mods.len() - i,
        {
            if str_eq(self.mods[i].filename.as_str(), filename) {
                proof {
                    assert(before[i as int].0 == filename@);
                }
                return;
            }
            i += 1;
        }
        self.mods.push(JarMod { filename: string_of(filename), enabled: true });
        proof {
            assert(!has_jar(before, filename@));
            assert(jar_views(self.mods@) =~= before.push((filename@, true)));
        }
    }
}

} // verus!
