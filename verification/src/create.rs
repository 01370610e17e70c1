use vstd::prelude::*;
use crate::text::{
    contains_text, has_substring, lowercase, occurs_at, strip_suffix, strip_suffix_spec, to_lowercase, trim, trimmed,
};

verus! {

/// A game version offered when creating an instance. `kind` is the tag the
/// version list gives it (release, snapshot, ...), which the kind filter
/// goes by.
#[derive(Debug)]
pub struct VersionEntry {
    pub name: String,
    pub supports_server: bool,
    pub kind: u32,
}

/// Whether the version is listed under the current filters: it fits the
/// kind of instance being made, its kind is picked, and its name holds the
/// search text, ignoring case and surrounding whitespace (an empty search
/// holds every name).
pub open spec fn shown(e: VersionEntry, is_server: bool, kinds: Seq<u32>, search: Seq<char>) -> bool {
    &&& e.supports_server || !is_server
    &&& kinds.contains(e.kind)
    &&& trimmed(search).len() == 0 || has_substring(lowercase(trimmed(e.name@)), lowercase(trimmed(search)))
}

/// A build of a version made to run on LWJGL 3 (its name ends in
/// "-lwjgl3"), which searches rank below the plain version.
pub open spec fn is_lwjgl3_build(name: Seq<char>) -> bool {
    strip_suffix_spec(name, "-lwjgl3"@) is Some
}

/// The first version, from `i` on, named exactly `t`.
pub open spec fn first_named(l: Seq<VersionEntry>, t: Seq<char>, i: int) -> Option<int>
    decreases l.len() - i,
{
    if i < 0 || i >= l.len() {
        None
    } else if l[i].name@ == t {
        Some(i)
    } else {
        first_named(l, t, i + 1)
    }
}

/// The first listed version from `i` on, leaving out the LWJGL 3 builds
/// when `skip_lwjgl3` holds.
pub open spec fn first_shown(
    l: Seq<VersionEntry>,
    is_server: bool,
    kinds: Seq<u32>,
    search: Seq<char>,
    skip_lwjgl3: bool,
    i: int,
) -> Option<int>
    decreases l.len() - i,
{
    if i < 0 || i >= l.len() {
        None
    } else if shown(l[i], is_server, kinds, search) && !(skip_lwjgl3 && is_lwjgl3_build(l[i].name@)) {
        Some(i)
    } else {
        first_shown(l, is_server, kinds, search, skip_lwjgl3, i + 1)
    }
}

/// The version a search picks: one named exactly as the search (filters
/// aside), else the first listed one that is no LWJGL 3 build, else the first
/// listed one.
pub open spec fn search_pick(l: Seq<VersionEntry>, is_server: bool, kinds: Seq<u32>, search: Seq<char>) -> Option<int> {
    match first_named(l, trimmed(search), 0) {
        Some(i) => Some(i),
        None => match first_shown(l, is_server, kinds, search, true, 0) {
            Some(i) => Some(i),
            None => first_shown(l, is_server, kinds, search, false, 0),
        },
    }
}

fn has_kind(kinds: &Vec<u32>, k: u32) -> (r: bool)
    ensures
        r == kinds@.contains(k),
{
    let mut i: usize = 0;
    while i < kinds.len()
        invariant
            0 <= i <= kinds.len(),
            forall|j: int| 0 <= j < i ==> kinds@[j] != k,
        decreases kinds.len() - i,
    {
        if kinds[i] == k {
            return true;
        }
        i += 1;
    }
    false
}

fn is_shown(e: &VersionEntry, is_server: bool, kinds: &Vec<u32>, search: &str) -> (r: bool)
    ensures
        r == shown(*e, is_server, kinds@, search@),
{
    if !(e.supports_server || !is_server) {
        return false;
    }
    if !has_kind(kinds, e.kind) {
        return false;
    }
    let t = trim(search);
    if t.as_str().unicode_len() == 0 {
        return true;
    }
    let name = to_lowercase(trim(e.name.as_str()).as_str());
    let pattern = to_lowercase(t.as_str());
    search_hits_lowered(name.as_str(), pattern.as_str())
}

/// Whether a version name, trimmed and lowercased, holds the search text,
/// trimmed and lowercased.
pub fn search_hits_lowered(name: &str, pattern: &str) -> (r: bool)
    ensures
        r == has_substring(name@, pattern@),
{
    contains_text(name, pattern)
}

fn find_named(l: &Vec<VersionEntry>, t: &str) -> (r: Option<usize>)
    ensures
        match r {
            Some(i) => first_named(l@, t@, 0) == Some(i as int),
            None => first_named(l@, t@, 0) is None,
        },
{
    let mut i: usize = 0;
    while i < l.len()
        invariant
            0 <= i <= l.len(),
            first_named(l@, t@, 0) == first_named(l@, t@, i as int),
        decreases l.len() - i,
    {
        if l[i].name.as_str().unicode_len() == t.unicode_len() && occurs_at(l[i].name.as_str(), t, 0) {
            proof {
                assert(l@[i as int].name@.subrange(0, t@.len() as int) =~= l@[i as int].name@);
            }
            return Some(i);
        }
        proof {
            if l@[i as int].name@ == t@ {
                assert(l@[i as int].name@.subrange(0, t@.len() as int) =~= l@[i as int].name@);
            }
        }
        i += 1;
    }
    None
}

fn find_shown(l: &Vec<VersionEntry>, is_server: bool, kinds: &Vec<u32>, search: &str, skip_lwjgl3: bool) -> (r: Option<
    usize,
>)
    ensures
        match r {
            Some(i) => first_shown(l@, is_server, kinds@, search@, skip_lwjgl3, 0) == Some(i as int),
            None => first_shown(l@, is_server, kinds@, search@, skip_lwjgl3, 0) is None,
        },
{
    let mut i: usize = 0;
    while i < l.len()
        invariant
            0 <= i <= l.len(),
            first_shown(l@, is_server, kinds@, search@, skip_lwjgl3, 0) == first_shown(
                l@,
                is_server,
                kinds@,
                search@,
                skip_lwjgl3,
                i as int,
            ),
        decreases l.len() - i,
    {
        if is_shown(&l[i], is_server, kinds, search) && !(skip_lwjgl3 && strip_suffix(
            l[i].name.as_str(),
            "-lwjgl3",
        ).is_some()) {
            return Some(i);
        }
        i += 1;
    }
    None
}

/// The version a search of the version list picks (see `search_pick`), by
/// its place in the list; none leaves the chosen version as it was.
pub fn search_versions(list: &Vec<VersionEntry>, is_server: bool, kinds: &Vec<u32>, search: &str) -> (r: Option<
    usize,
>)
    ensures
        match r {
            Some(i) => search_pick(list@, is_server, kinds@, search@) == Some(i as int),
            None => search_pick(list@, is_server, kinds@, search@) is None,
        },
{
    let t = trim(search);
    match find_named(list, t.as_str()) {
        Some(i) => Some(i),
        None => match find_shown(list, is_server, kinds, search, true) {
            Some(i) => Some(i),
            None => find_shown(list, is_server, kinds, search, false),
        },
    }
}

/// The kind filter after a kind is clicked: a picked kind is dropped unless
/// it is the last one, any other is picked.
pub open spec fn kind_toggled(s: Set<u32>, k: u32) -> Set<u32> {
    if s.contains(k) {
        if s.len() > 1 {
            s.remove(k)
        } else {
            s
        }
    } else {
        s.insert(k)
    }
}

/// Clicks a kind in the filter of the version list (see `kind_toggled`).
pub fn toggle_kind(selected: &mut Vec<u32>, kind: u32)
    requires
        old(selected)@.no_duplicates(),
    ensures
        final(selected)@.no_duplicates(),
        final(selected)@.to_set() == kind_toggled(old(selected)@.to_set(), kind),
{
    proof {
        selected@.unique_seq_to_set();
    }
    let ghost before = selected@;
    let mut i: usize = 0;
    while i < selected.len()
        invariant
            0 <= i <= selected.len(),
            selected@ == before,
            before == old(selected)@,
            before.no_duplicates(),
            before.len() == before.to_set().len(),
            forall|j: int| 0 <= j < i ==> selected@[j] != kind,
        decreases selected.len() - i,
    {
        if selected[i] == kind {
            if selected.len() > 1 {
                selected.remove(i);
                proof {
                    assert(selected@ == before.remove(i as int));
                    assert(selected@.to_set() =~= before.to_set().remove(kind)) by {
                        assert forall|x: u32| #[trigger] selected@.contains(x) implies before.contains(x) && x != kind by {
                            let k = choose|k: int| 0 <= k < selected@.len() && selected@[k] == x;
                            let kk = if k < i { k } else { k + 1 };
                            assert(before[kk] == x);
                            assert(kk != i);
                            assert(before[i as int] == kind);
                            assert(before[kk] != before[i as int]);
                        }
                        assert forall|x: u32| before.contains(x) && x != kind implies #[trigger] selected@.contains(x) by {
                            let k = choose|k: int| 0 <= k < before.len() && before[k] == x;
                            if k < i {
                                assert(selected@[k] == x);
                            } else {
                                assert(k != i);
                                assert(selected@[k - 1] == x);
                            }
                        }
                    }
                    assert(before.to_set().contains(kind)) by {
                        assert(before[i as int] == kind);
                    }
                    assert(selected@.no_duplicates()) by {
                        assert forall|p: int, q: int|
                            0 <= p < selected@.len() && 0 <= q < selected@.len() && p != q implies selected@[p]
                            != selected@[q] by {
                            let pp = if p < i { p } else { p + 1 };
                            let qq = if q < i { q } else { q + 1 };
                            assert(selected@[p] == before[pp]);
                            assert(selected@[q] == before[qq]);
                            assert(pp != qq);
                            assert(before[pp] != before[qq]);
                        }
                    }
                }
            } else {
                proof {
                    assert(before.to_set().contains(kind)) by {
                        assert(before[i as int] == kind);
                    }
                    assert(before.to_set().len() <= 1);
                }
            }
            return;
        }
        i += 1;
    }
    selected.push(kind);
    proof {
        assert(selected@ == before.push(kind));
        assert(!before.contains(kind));
        assert(selected@.to_set() =~= before.to_set().insert(kind)) by {
            assert forall|x: u32| #[trigger] selected@.contains(x) implies before.contains(x) || x == kind by {
                let k = choose|k: int| 0 <= k < selected@.len() && selected@[k] == x;
                if k < before.len() {
                    assert(before[k] == x);
                }
            }
            assert forall|x: u32| before.contains(x) || x == kind implies #[trigger] selected@.contains(x) by {
                if x == kind {
                    assert(selected@[before.len() as int] == x);
                } else {
                    let k = choose|k: int| 0 <= k < before.len() && before[k] == x;
                    assert(selected@[k] == x);
                }
            }
        }
    }
}

/// The kind filter of the version list never becomes empty.
pub proof fn law_kind_filter_never_empty(s: Set<u32>, k: u32)
    requires
        s.finite(),
        s.len() > 0,
    ensures
        kind_toggled(s, k).len() > 0,
{
    if s.contains(k) {
        if s.len() > 1 {
            assert(s.remove(k).len() == s.len() - 1);
        }
    } else {
        assert(s.insert(k).len() == s.len() + 1);
    }
}


/// A version of a picked kind that fits the kind of instance is listed when
/// its name, trimmed and in lower case, holds the search text, trimmed and
/// in lower case, at any place `k` of it, not only at its start.
pub proof fn law_search_finds_text_anywhere(e: VersionEntry, is_server: bool, kinds: Seq<u32>, search: Seq<char>, k: int)
    requires
        e.supports_server || !is_server,
        kinds.contains(e.kind),
        0 <= k,
        k + lowercase(trimmed(search)).len() <= lowercase(trimmed(e.name@)).len(),
        lowercase(trimmed(e.name@)).subrange(k, k + lowercase(trimmed(search)).len()) == lowercase(trimmed(search)),
    ensures
        shown(e, is_server, kinds, search),
{
    let n = lowercase(trimmed(e.name@));
    let p = lowercase(trimmed(search));
    assert(n.subrange(k, k + p.len()) == p);
}

proof fn lemma_first_shown_found(l: Seq<VersionEntry>, is_server: bool, kinds: Seq<u32>, search: Seq<char>, i: int, j: int)
    requires
        0 <= i <= j < l.len(),
        shown(l[j], is_server, kinds, search),
    ensures
        first_shown(l, is_server, kinds, search, false, i) is Some,
    decreases j - i,
{
    if i < j && !shown(l[i], is_server, kinds, search) {
        lemma_first_shown_found(l, is_server, kinds, search, i + 1, j);
    }
}

/// A search picks a version whenever some version of the list is listed.
pub proof fn law_search_picks_when_listed(l: Seq<VersionEntry>, is_server: bool, kinds: Seq<u32>, search: Seq<char>, j: int)
    requires
        0 <= j < l.len(),
        shown(l[j], is_server, kinds, search),
    ensures
        search_pick(l, is_server, kinds, search) is Some,
{
    lemma_first_shown_found(l, is_server, kinds, search, 0, j);
}


/// A listed version fits the kind of instance, is of a picked kind, and,
/// unless the search is blank, holds the search text somewhere in its name
/// (both trimmed and in lower case).
pub proof fn law_listed_versions_match(e: VersionEntry, is_server: bool, kinds: Seq<u32>, search: Seq<char>)
    requires
        shown(e, is_server, kinds, search),
    ensures
        e.supports_server || !is_server,
        kinds.contains(e.kind),
        trimmed(search).len() == 0 || exists|k: int|
            0 <= k && k + lowercase(trimmed(search)).len() <= lowercase(trimmed(e.name@)).len() && #[trigger] lowercase(
                trimmed(e.name@),
            ).subrange(k, k + lowercase(trimmed(search)).len()) == lowercase(trimmed(search)),
{
}

} // verus!
