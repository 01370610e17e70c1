use vstd::prelude::*;
use super::types::SDragLocation;
use super::drag_drop::loc_view;

verus! {

impl SDragLocation {
    /// Whether two drop locations are the same target and side.
    pub fn same_as(&self, other: &SDragLocation) -> (r: bool)
        ensures
            r == (self@ == other@),
    {
        self.sel.same_as(&other.sel) && self.offset == other.offset
    }
}

/// Where a drag points after the pointer enters (or leaves) a drop location:
/// the location entered, or nothing once the pointer leaves the location it
/// pointed at; leaving another location changes nothing.
pub fn drag_hover(dragged_to: &mut Option<SDragLocation>, location: SDragLocation, entered: bool)
    ensures
        entered ==> loc_view(*final(dragged_to)) == Some(location@),
        !entered ==> (if loc_view(*old(dragged_to)) == Some(location@) {
            *final(dragged_to) is None
        } else {
            *final(dragged_to) == *old(dragged_to)
        }),
{
    if entered {
        *dragged_to = Some(location);
    } else {
        let same = match dragged_to {
            Some(d) => d.same_as(&location),
            None => false,
        };
        if same {
            *dragged_to = None;
        }
    }
}

} // verus!
