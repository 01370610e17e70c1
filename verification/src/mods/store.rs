use vstd::prelude::*;
use crate::text::concat;

verus! {

/// The mod store a search goes to.
#[derive(Debug, Clone, Copy, PartialEq, Eq, Structural)]
pub enum StoreBackend {
    Modrinth,
    Curseforge,
}

/// A page of search results: the mods found, where in the whole result list
/// the page starts, whether no page follows it, which store answered, and
/// when the search was started (a stamp that grows with time).
#[derive(Debug)]
pub struct SearchPage<M> {
    pub mods: Vec<M>,
    pub offset: usize,
    pub reached_end: bool,
    pub backend: StoreBackend,
    pub start_time: u64,
}

/// What the mod store screen keeps of its searches: the results shown, when
/// the search they came from was started, the store searched, and whether a
/// following page is being loaded or none is left.
#[derive(Debug)]
pub struct StoreSearch<M> {
    pub results: Option<SearchPage<M>>,
    pub latest_load: u64,
    pub backend: StoreBackend,
    pub is_loading_continuation: bool,
    pub has_continuation_ended: bool,
}

/// Whether a page answers a search newer than the one shown, from the store
/// now searched (else it is stale and dropped).
pub open spec fn is_fresh<M>(s: StoreSearch<M>, page: SearchPage<M>) -> bool {
    page.start_time > s.latest_load && page.backend == s.backend
}

/// Whether a fresh page continues the shown results rather than replacing
/// them.
pub open spec fn continues<M>(s: StoreSearch<M>, page: SearchPage<M>) -> bool {
    s.results is Some && page.offset > 0
}

impl<M> StoreSearch<M> {
    /// Takes in a page of search results. A stale page changes only the
    /// loading marks. A fresh page that continues the shown results adds its
    /// mods after theirs; any other fresh page replaces them, and then the
    /// result is true (the list is scrolled back to its top).
    pub fn search_result(&mut self, page: SearchPage<M>) -> (replaced: bool)
        ensures
            !final(self).is_loading_continuation,
            final(self).has_continuation_ended == page.reached_end,
            final(self).backend == old(self).backend,
            !is_fresh(*old(self), page) ==> !replaced && final(self).results == old(self).results
                && final(self).latest_load == old(self).latest_load,
            is_fresh(*old(self), page) ==> final(self).latest_load == page.start_time,
            is_fresh(*old(self), page) && continues(*old(self), page) ==> !replaced && (match (
                final(self).results,
                old(self).results,
            ) {
                (Some(n), Some(o)) => n.mods@ == o.mods@ + page.mods@ && n.offset == o.offset && n.reached_end
                    == o.reached_end && n.backend == o.backend && n.start_time == o.start_time,
                _ => false,
            }),
            is_fresh(*old(self), page) && !continues(*old(self), page) ==> replaced && final(self).results == Some(
                page,
            ),
    {
        self.is_loading_continuation = false;
        self.has_continuation_ended = page.reached_end;
        if page.start_time > self.latest_load && page.backend == self.backend {
            self.latest_load = page.start_time;
            if page.offset > 0 && self.results.is_some() {
                let mut page = page;
                match &mut self.results {
                    Some(results) => {
                        results.mods.append(&mut page.mods);
                    },
                    None => {},
                }
                false
            } else {
                self.results = Some(page);
                true
            }
        } else {
            false
        }
    }

    /// Switches to another store (or another kind of search): the shown
    /// results are dropped, and a new search starts from the first page.
    pub fn change_backend(&mut self, backend: StoreBackend)
        ensures
            final(self).backend == backend,
            final(self).results is None,
            final(self).latest_load == old(self).latest_load,
            final(self).is_loading_continuation == old(self).is_loading_continuation,
            final(self).has_continuation_ended == old(self).has_continuation_ended,
    {
        self.backend = backend;
        self.results = None;
    }

    /// After the result list is scrolled: when it went past the point where
    /// more should load, no page is loading and pages are left, the next page
    /// is asked for, from the place after the shown mods (the start when
    /// none are shown). With no results shown, pages count as left.
    pub fn scrolled(&mut self, past_load_point: bool) -> (next_offset: Option<usize>)
        requires
            old(self).results matches Some(r) ==> r.offset + r.mods@.len() <= usize::MAX,
        ensures
            final(self).results == old(self).results,
            final(self).latest_load == old(self).latest_load,
            final(self).backend == old(self).backend,
            final(self).has_continuation_ended == (old(self).has_continuation_ended && old(self).results is Some),
            ({
                let ended = old(self).has_continuation_ended && old(self).results is Some;
                let asks = past_load_point && !old(self).is_loading_continuation && !ended;
                &&& asks ==> next_offset == Some(
                    match old(self).results {
                        Some(r) => (r.offset + r.mods@.len()) as usize,
                        None => 0usize,
                    },
                )
                &&& !asks ==> next_offset is None
                &&& final(self).is_loading_continuation == (old(self).is_loading_continuation || asks)
            }),
    {
        if self.results.is_none() {
            self.has_continuation_ended = false;
        }
        if past_load_point && !self.is_loading_continuation && !self.has_continuation_ended {
            self.is_loading_continuation = true;
            let offset = match &self.results {
                Some(r) => r.offset + r.mods.len(),
                None => 0,
            };
            Some(offset)
        } else {
            None
        }
    }
}

/// The start of a project's page address in a store.
pub open spec fn store_site(backend: StoreBackend) -> Seq<char> {
    match backend {
        StoreBackend::Modrinth => "https://modrinth.com/"@,
        StoreBackend::Curseforge => "https://www.curseforge.com/minecraft/"@,
    }
}

/// The address of a project's page in its store: the store's site, the kind
/// of project, a slash and the project's short name.
pub fn project_page_url(backend: StoreBackend, project_type: &str, internal_name: &str) -> (r: String)
    ensures
        r@ == store_site(backend) + project_type@ + "/"@ + internal_name@,
{
    let site = match backend {
        StoreBackend::Modrinth => "https://modrinth.com/",
        StoreBackend::Curseforge => "https://www.curseforge.com/minecraft/",
    };
    let a = concat(site, project_type);
    let b = concat(a.as_str(), "/");
    concat(b.as_str(), internal_name)
}

} // verus!
