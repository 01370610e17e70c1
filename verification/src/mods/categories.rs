use vstd::prelude::*;
use crate::mods::jarmods::{add_name, distinct_names, has_name, name_set, remove_name};
use crate::text::string_of;

verus! {

/// The set with `x` taken out when it is there, else put in.
pub open spec fn toggled(s: Set<Seq<char>>, x: Seq<char>) -> Set<Seq<char>> {
    if s.contains(x) {
        s.remove(x)
    } else {
        s.insert(x)
    }
}

/// The mod categories picked for a store search.
pub struct ModCategoryState {
    /// The slugs of the picked categories, each once.
    pub selected: Vec<String>,
    /// Whether a mod must be in all the picked categories rather than in any
    /// of them.
    pub use_all: bool,
}

impl ModCategoryState {
    pub open spec fn wf(&self) -> bool {
        distinct_names(self.selected@)
    }

    /// Drops the picked categories.
    pub fn reset(&mut self)
        ensures
            final(self).wf(),
            name_set(final(self).selected@) == Set::<Seq<char>>::empty(),
            final(self).use_all == old(self).use_all,
    {
        self.selected = Vec::new();
        proof {
            assert(name_set(self.selected@) =~= Set::<Seq<char>>::empty());
        }
    }

    /// Picks the category with this slug, or drops it when it was picked.
    pub fn toggle(&mut self, slug: &str)
        requires
            old(self).wf(),
        ensures
            final(self).wf(),
            name_set(final(self).selected@) == toggled(name_set(old(self).selected@), slug@),
            final(self).use_all == old(self).use_all,
    {
        let s = string_of(slug);
        if has_name(&self.selected, &s) {
            remove_name(&mut self.selected, &s);
        } else {
            add_name(&mut self.selected, s);
        }
    }
}

impl Default for ModCategoryState {
    /// Nothing picked, and a mod must be in all the picked categories.
    fn default() -> (r: Self)
        ensures
            r.wf(),
            name_set(r.selected@) == Set::<Seq<char>>::empty(),
            r.use_all,
    {
        let r = ModCategoryState { selected: Vec::new(), use_all: true };
        proof {
            assert(name_set(r.selected@) =~= Set::<Seq<char>>::empty());
        }
        r
    }
}

/// Toggling a category twice leaves the picked categories as they were.
pub proof fn law_category_toggle_twice(s: Set<Seq<char>>, x: Seq<char>)
    ensures
        toggled(toggled(s, x), x) == s,
{
    if s.contains(x) {
        assert(s.remove(x).insert(x) =~= s);
    } else {
        assert(s.insert(x).remove(x) =~= s);
    }
}

} // verus!
