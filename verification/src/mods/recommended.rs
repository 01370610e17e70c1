use vstd::prelude::*;

verus! {

/// The recommended mods offered for an instance, each with whether it is
/// ticked for download.
#[derive(Debug)]
pub struct RecommendedPicks<M> {
    pub mods: Vec<(bool, M)>,
}

/// The rows, among the first `n`, of the ticked mods, in order.
pub open spec fn ticked_rows<M>(s: Seq<(bool, M)>, n: int) -> Seq<int>
    decreases n,
{
    if n <= 0 {
        Seq::empty()
    } else if s[n - 1].0 {
        ticked_rows(s, n - 1).push(n - 1)
    } else {
        ticked_rows(s, n - 1)
    }
}

impl<M> RecommendedPicks<M> {
    /// Ticks or unticks the mod at a row; a row past the end changes
    /// nothing.
    pub fn toggle(&mut self, index: usize, on: bool)
        ensures
            index < old(self).mods@.len() ==> final(self).mods@ == old(self).mods@.update(
                index as int,
                (on, old(self).mods@[index as int].1),
            ),
            index >= old(self).mods@.len() ==> final(self).mods@ == old(self).mods@,
    {
        if index < self.mods.len() {
            let (_, m) = self.mods.remove(index);
            self.mods.insert(index, (on, m));
            proof {
                assert(self.mods@ =~= old(self).mods@.update(index as int, (on, old(self).mods@[index as int].1)));
            }
        }
    }

    /// The rows of the ticked mods, in order: those to download.
    pub fn ticked(&self) -> (r: Vec<usize>)
        ensures
            r@.len() == ticked_rows(self.mods@, self.mods@.len() as int).len(),
            forall|j: int|
                0 <= j < r@.len() ==> r@[j] as int == #[trigger] ticked_rows(self.mods@, self.mods@.len() as int)[j],
    {
        let mut r: Vec<usize> = Vec::new();
        let mut i: usize = 0;
        while i < self.mods.len()
            invariant
                0 <= i <= self.mods.len(),
                r@.len() == ticked_rows(self.mods@, i as int).len(),
                forall|j: int| 0 <= j < r@.len() ==> r@[j] as int == #[trigger] ticked_rows(self.mods@, i as int)[j],
            decreases self.mods.len() - i,
        {
            if self.mods[i].0 {
                r.push(i);
            }
            i += 1;
        }
        r
    }
}

/// Every row the download takes is a ticked mod, and every ticked mod is
/// taken, each once, in the order of the list.
pub proof fn law_ticked_rows_are_the_ticked_mods<M>(s: Seq<(bool, M)>, n: int)
    requires
        0 <= n <= s.len(),
    ensures
        forall|j: int| 0 <= j < ticked_rows(s, n).len() ==> 0 <= #[trigger] ticked_rows(s, n)[j] < n && s[ticked_rows(s, n)[j]].0,
        forall|j: int, k: int| 0 <= j < k < ticked_rows(s, n).len() ==> ticked_rows(s, n)[j] < ticked_rows(s, n)[k],
        forall|i: int| 0 <= i < n && #[trigger] s[i].0 ==> ticked_rows(s, n).contains(i),
    decreases n,
{
    if n > 0 {
        law_ticked_rows_are_the_ticked_mods(s, n - 1);
        let prev = ticked_rows(s, n - 1);
        if s[n - 1].0 {
            assert(ticked_rows(s, n) == prev.push(n - 1));
            assert forall|i: int| 0 <= i < n && #[trigger] s[i].0 implies ticked_rows(s, n).contains(i) by {
                if i == n - 1 {
                    assert(ticked_rows(s, n)[prev.len() as int] == i);
                } else {
                    let k = choose|k: int| 0 <= k < prev.len() && prev[k] == i;
                    assert(ticked_rows(s, n)[k] == i);
                }
            }
        }
    }
}

} // verus!
