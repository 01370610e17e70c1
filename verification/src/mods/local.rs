use vstd::prelude::*;
use crate::text::{concat, strip_suffix, strip_suffix_spec};

verus! {

/// A file name with a mod's extension: ".jar", or ".disabled" for a mod
/// switched off, after a non-empty stem (a name that is only the extension
/// has none).
pub open spec fn has_mod_extension(name: Seq<char>) -> bool {
    (strip_suffix_spec(name, ".jar"@) matches Some(x) && x.len() > 0) || (strip_suffix_spec(name, ".disabled"@) matches Some(
        x,
    ) && x.len() > 0)
}

/// The file names the mod index owns, which are not local mods: each file,
/// and the same file switched off.
pub open spec fn blacklist_of(files: Seq<String>) -> Seq<Seq<char>>
    decreases files.len(),
{
    if files.len() == 0 {
        Seq::empty()
    } else {
        blacklist_of(files.drop_last()) + seq![files.last()@, files.last()@ + ".disabled"@]
    }
}

/// The file names the mod index owns: each of its files, and the same file
/// switched off.
pub fn mod_file_blacklist(files: &Vec<String>) -> (r: Vec<String>)
    ensures
        Seq::new(r@.len(), |i: int| r@[i]@) == blacklist_of(files@),
{
    let mut out: Vec<String> = Vec::new();
    let mut i: usize = 0;
    proof {
        assert(files@.take(0) =~= Seq::<String>::empty());
        assert(Seq::new(out@.len(), |i: int| out@[i]@) =~= Seq::<Seq<char>>::empty());
    }
    while i < files.len()
        invariant
            0 <= i <= files.len(),
            Seq::new(out@.len(), |i: int| out@[i]@) == blacklist_of(files@.take(i as int)),
        decreases files.len() - i,
    {
        let ghost before = Seq::new(out@.len(), |i: int| out@[i]@);
        out.push(files[i].clone());
        out.push(concat(files[i].as_str(), ".disabled"));
        proof {
            assert(files@.take(i + 1).drop_last() =~= files@.take(i as int));
            assert(files@.take(i + 1).last() == files@[i as int]);
            assert(Seq::new(out@.len(), |i: int| out@[i]@) =~= before + seq![files@[i as int]@, files@[i as int]@ + ".disabled"@]);
        }
        i += 1;
    }
    proof {
        assert(files@.take(i as int) =~= files@);
    }
    out
}

/// Whether a file of the mods folder is a local mod: it has a mod's
/// extension and the mod index does not own it.
pub fn is_local_mod_file(file_name: &str, blacklist: &Vec<String>) -> (r: bool)
    ensures
        r == (has_mod_extension(file_name@) && !(exists|i: int| 0 <= i < blacklist@.len() && blacklist@[i]@ == file_name@)),
{
    let mut i: usize = 0;
    while i < blacklist.len()
        invariant
            0 <= i <= blacklist.len(),
            forall|j: int| 0 <= j < i ==> (#[trigger] blacklist@[j])@ != file_name@,
        decreases blacklist.len() - i,
    {
        if crate::text::str_eq(blacklist[i].as_str(), file_name) {
            return false;
        }
        i += 1;
    }
    let jar = match strip_suffix(file_name, ".jar") {
        Some(x) => x.as_str().unicode_len() > 0,
        None => false,
    };
    let disabled = match strip_suffix(file_name, ".disabled") {
        Some(x) => x.as_str().unicode_len() > 0,
        None => false,
    };
    jar || disabled
}

} // verus!
