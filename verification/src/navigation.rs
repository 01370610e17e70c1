use vstd::prelude::*;
use crate::text::str_eq;

verus! {

/// The outcome of an arrow key on a flat list of instances.
#[derive(Debug, Clone, Copy, PartialEq, Eq, Structural)]
pub struct ListMove {
    /// The row to scroll to.
    pub idx: usize,
    /// The row whose instance becomes selected, if the selection changes.
    pub select: Option<usize>,
    /// Whether the selection moved (and the view must follow).
    pub did_scroll: bool,
}

/// The row of the first instance of that name, if any.
pub open spec fn row_of(list: Seq<String>, name: Seq<char>) -> Option<int> {
    if exists|i: int| 0 <= i < list.len() && list[i]@ == name {
        Some(choose|i: int| 0 <= i < list.len() && list[i]@ == name && forall|j: int| 0 <= j < i ==> list[j]@ != name)
    } else {
        None
    }
}

/// The outcome of an arrow key on a flat list of instances.
pub open spec fn key_move(list: Seq<String>, selected: Option<Seq<char>>, down: bool) -> ListMove {
    match selected {
        None => ListMove { idx: 0, select: if list.len() > 0 { Some(0usize) } else { None }, did_scroll: true },
        Some(s) => match row_of(list, s) {
            None => ListMove { idx: 0, select: None, did_scroll: false },
            Some(i) => if down {
                if i + 1 < list.len() {
                    ListMove { idx: (i + 1) as usize, select: Some((i + 1) as usize), did_scroll: true }
                } else {
                    ListMove { idx: i as usize, select: None, did_scroll: false }
                }
            } else if i > 0 {
                ListMove { idx: (i - 1) as usize, select: Some((i - 1) as usize), did_scroll: true }
            } else {
                ListMove { idx: 0, select: None, did_scroll: false }
            },
        },
    }
}

/// Moves the selection in a flat list of instances one row down or up.
/// Without a selection, the first instance is selected; at the ends of the
/// list the selection stays; a selection not in the list stays, with the
/// view at the top.
pub fn key_change_selection(list: &Vec<String>, selected: Option<&str>, down: bool) -> (r: ListMove)
    ensures
        r == key_move(list@, match selected { Some(x) => Some(x@), None => None }, down),
{
    match selected {
        None => ListMove { idx: 0, select: if list.len() > 0 { Some(0) } else { None }, did_scroll: true },
        Some(s) => {
            let mut i: usize = 0;
            while i < list.len()
                invariant
                    0 <= i <= list.len(),
                    selected == Some(s),
                    forall|j: int| 0 <= j < i ==> (#[trigger] list@[j])@ != s@,
                decreases list.len() - i,
            {
                if str_eq(list[i].as_str(), s) {
                    proof {
                        assert(list@[i as int]@ == s@);
                        let k = choose|k: int| 0 <= k < list@.len() && list@[k]@ == s@ && forall|j: int| 0 <= j < k ==> list@[j]@ != s@;
                        if k < i {
                            assert(list@[k]@ != s@);
                        }
                        if k > i {
                            assert(list@[i as int]@ != s@);
                        }
                        assert(row_of(list@, s@) == Some(i as int));
                    }
                    if down {
                        if i + 1 < list.len() {
                            return ListMove { idx: i + 1, select: Some(i + 1), did_scroll: true };
                        }
                        return ListMove { idx: i, select: None, did_scroll: false };
                    } else if i > 0 {
                        return ListMove { idx: i - 1, select: Some(i - 1), did_scroll: true };
                    }
                    return ListMove { idx: 0, select: None, did_scroll: false };
                }
                i += 1;
            }
            ListMove { idx: 0, select: None, did_scroll: false }
        },
    }
}

/// In a list without repeated names, moving down from a row that is not the
/// last and then up from the newly selected instance comes back to the row
/// one started from.
pub proof fn law_down_then_up(list: Seq<String>, i: int)
    requires
        0 <= i,
        i + 1 < list.len(),
        list.len() <= usize::MAX,
        forall|a: int, b: int| 0 <= a < b < list.len() ==> (#[trigger] list[a])@ != (#[trigger] list[b])@,
    ensures
        key_move(list, Some(list[i]@), true).select == Some((i + 1) as usize),
        key_move(list, Some(list[i + 1]@), false).select == Some(i as usize),
{
    assert forall|k: int| 0 <= k < list.len() && (#[trigger] list[k])@ == list[i]@ implies k == i by {
        if k != i {
            if k < i {
                assert(list[k]@ != list[i]@);
            } else {
                assert(list[i]@ != list[k]@);
            }
        }
    }
    assert forall|k: int| 0 <= k < list.len() && (#[trigger] list[k])@ == list[i + 1]@ implies k == i + 1 by {
        if k != i + 1 {
            if k < i + 1 {
                assert(list[k]@ != list[i + 1]@);
            } else {
                assert(list[i + 1]@ != list[k]@);
            }
        }
    }
    assert(row_of(list, list[i]@) == Some(i));
    assert(row_of(list, list[i + 1]@) == Some(i + 1));
}

} // verus!
