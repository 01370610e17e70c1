use vstd::prelude::*;
use crate::autosave::AutoSave;
use crate::menu::AutoSaveKind;
use crate::text::str_eq;

verus! {

/// The menu entry that adds a JAR from a file.
pub const ADD_JAR_NAME: &'static str = "+ Add JAR";

/// The menu entry that removes the chosen JAR.
pub const REMOVE_JAR_NAME: &'static str = "- Remove Selected";

/// The menu entry that opens the folder of custom JARs.
pub const OPEN_FOLDER_JAR_NAME: &'static str = "> Open Folder";

/// The menu entry that runs the instance without a custom JAR.
pub const NONE_JAR_NAME: &'static str = "(None)";

/// What picking an entry of the custom JAR menu leaves to the caller.
#[derive(Debug)]
pub enum JarMenuAction {
    Nothing,
    /// Ask for a JAR file to add.
    PickFile,
    /// Delete the JAR file of this name from the folder of custom JARs.
    DeleteFile(String),
    /// Open the folder of custom JARs.
    OpenFolder,
}

/// The names without any that equals `k`, in their order.
pub open spec fn drop_all(s: Seq<String>, k: Seq<char>) -> Seq<String>
    decreases s.len(),
{
    if s.len() == 0 {
        s
    } else if s.last()@ == k {
        drop_all(s.drop_last(), k)
    } else {
        drop_all(s.drop_last(), k).push(s.last())
    }
}

/// Whether a name equal to `k` is among the names.
pub open spec fn has_name(s: Seq<String>, k: Seq<char>) -> bool {
    exists|i: int| 0 <= i < s.len() && #[trigger] s[i]@ == k
}

fn contains_name(v: &Vec<String>, k: &str) -> (r: bool)
    ensures
        r == has_name(v@, k@),
{
    let mut i: usize = 0;
    while i < v.len()
        invariant
            0 <= i <= v.len(),
            forall|j: int| 0 <= j < i ==> (#[trigger] v@[j])@ != k@,
        decreases v.len() - i,
    {
        if str_eq(v[i].as_str(), k) {
            return true;
        }
        i += 1;
    }
    false
}

/// Takes out every name equal to `k`.
fn remove_all(v: &mut Vec<String>, k: &str)
    ensures
        final(v)@ == drop_all(old(v)@, k@),
{
    let ghost orig = v@;
    let ghost mut j: int = 0;
    let mut i: usize = 0;
    proof {
        assert(orig.take(0) =~= Seq::<String>::empty());
        assert(v@.take(0) =~= drop_all(orig.take(0), k@));
        assert(v@.skip(0) =~= orig.skip(0));
    }
    while i < v.len()
        invariant
            0 <= i <= v.len(),
            0 <= j <= orig.len(),
            v@.len() == i + (orig.len() - j),
            v@.take(i as int) == drop_all(orig.take(j), k@),
            v@.skip(i as int) == orig.skip(j),
        decreases v.len() - i,
    {
        proof {
            assert(v@[i as int] == v@.skip(i as int)[0]);
            assert(orig[j] == orig.skip(j)[0]);
            assert(orig.take(j + 1).drop_last() =~= orig.take(j));
            assert(orig.take(j + 1).last() == orig[j]);
        }
        if str_eq(v[i].as_str(), k) {
            let ghost before = v@;
            v.remove(i);
            proof {
                assert(v@.take(i as int) =~= before.take(i as int));
                assert(v@.skip(i as int) =~= before.skip(i as int + 1));
                assert(before.skip(i as int + 1) =~= orig.skip(j + 1)) by {
                    assert(before.skip(i as int).skip(1) =~= before.skip(i as int + 1));
                    assert(orig.skip(j).skip(1) =~= orig.skip(j + 1));
                }
                j = j + 1;
            }
        } else {
            proof {
                assert(v@.take(i as int + 1) =~= v@.take(i as int).push(v@[i as int]));
                assert(v@.skip(i as int + 1) =~= orig.skip(j + 1)) by {
                    assert(v@.skip(i as int).skip(1) =~= v@.skip(i as int + 1));
                    assert(orig.skip(j).skip(1) =~= orig.skip(j + 1));
                }
                j = j + 1;
            }
            i += 1;
        }
    }
    proof {
        assert(orig.take(j) =~= orig);
        assert(v@.take(i as int) =~= v@);
    }
}

/// What picking an entry of the custom JAR menu does to the chosen JAR and
/// the list of JARs (none until it is loaded). The entry that adds a JAR
/// asks for a file; the one that removes the chosen JAR takes it out of the
/// list and unchooses it, and asks for its file to be deleted (only when a
/// JAR is chosen and the list is loaded); the "none" entry unchooses the JAR;
/// the one that opens the folder asks for that; any other entry is the name
/// of the JAR to choose.
pub fn custom_jar_picked(chosen: &mut Option<String>, choices: &mut Option<Vec<String>>, path: String) -> (r:
    JarMenuAction)
    ensures
        path@ == ADD_JAR_NAME@ ==> r is PickFile && *final(chosen) == *old(chosen) && *final(choices) == *old(
            choices,
        ),
        path@ == REMOVE_JAR_NAME@ ==> match (*old(chosen), *old(choices)) {
            (Some(jar), Some(list)) => (r matches JarMenuAction::DeleteFile(n) && n == jar) && *final(chosen) is None
                && (*final(choices) matches Some(l) && l@ == drop_all(list@, jar@)),
            _ => r is Nothing && *final(chosen) == *old(chosen) && *final(choices) == *old(choices),
        },
        path@ == NONE_JAR_NAME@ ==> r is Nothing && *final(chosen) is None && *final(choices) == *old(choices),
        path@ == OPEN_FOLDER_JAR_NAME@ ==> r is OpenFolder && *final(chosen) == *old(chosen) && *final(choices)
            == *old(choices),
        !(path@ == ADD_JAR_NAME@ || path@ == REMOVE_JAR_NAME@ || path@ == NONE_JAR_NAME@ || path@
            == OPEN_FOLDER_JAR_NAME@) ==> r is Nothing && *final(chosen) == Some(path) && *final(choices) == *old(
            choices,
        ),
{
    proof {
        reveal_strlit("+ Add JAR");
        reveal_strlit("- Remove Selected");
        reveal_strlit("> Open Folder");
        reveal_strlit("(None)");
        assert(ADD_JAR_NAME@[0] != REMOVE_JAR_NAME@[0]);
        assert(ADD_JAR_NAME@[0] != NONE_JAR_NAME@[0]);
        assert(ADD_JAR_NAME@[0] != OPEN_FOLDER_JAR_NAME@[0]);
        assert(REMOVE_JAR_NAME@[0] != NONE_JAR_NAME@[0]);
        assert(REMOVE_JAR_NAME@[0] != OPEN_FOLDER_JAR_NAME@[0]);
        assert(NONE_JAR_NAME@[0] != OPEN_FOLDER_JAR_NAME@[0]);
    }
    if str_eq(path.as_str(), ADD_JAR_NAME) {
        return JarMenuAction::PickFile;
    }
    if str_eq(path.as_str(), REMOVE_JAR_NAME) {
        if chosen.is_some() && choices.is_some() {
            let jar = chosen.take().unwrap();
            match choices {
                Some(list) => remove_all(list, jar.as_str()),
                None => {},
            }
            return JarMenuAction::DeleteFile(jar);
        }
        return JarMenuAction::Nothing;
    }
    if str_eq(path.as_str(), NONE_JAR_NAME) {
        *chosen = None;
        return JarMenuAction::Nothing;
    }
    if str_eq(path.as_str(), OPEN_FOLDER_JAR_NAME) {
        return JarMenuAction::OpenFolder;
    }
    *chosen = Some(path);
    JarMenuAction::Nothing
}

/// Takes in a fresh list of the custom JARs: a chosen JAR that is no longer
/// in it is unchosen, and the instance's configuration marked changed.
pub fn custom_jars_loaded(
    chosen: &mut Option<String>,
    choices: &mut Option<Vec<String>>,
    autosave: &mut AutoSave,
    loaded: Vec<String>,
)
    ensures
        *final(choices) == Some(loaded),
        match *old(chosen) {
            Some(jar) if !has_name(loaded@, jar@) => *final(chosen) is None && final(autosave)@ == old(
                autosave,
            )@.remove(AutoSaveKind::InstanceConfig),
            _ => *final(chosen) == *old(chosen) && final(autosave)@ == old(autosave)@,
        },
{
    let gone = match chosen {
        Some(jar) => !contains_name(&loaded, jar.as_str()),
        None => false,
    };
    if gone {
        autosave.remove(AutoSaveKind::InstanceConfig);
        *chosen = None;
    }
    *choices = Some(loaded);
}

/// Takes in a JAR added from a file: it joins the list second (after the
/// "none" entry) unless it is there already, and becomes the chosen JAR.
pub fn custom_jar_added(chosen: &mut Option<String>, choices: &mut Vec<String>, file_name: String)
    requires
        old(choices)@.len() >= 1,
    ensures
        *final(chosen) == Some(file_name),
        final(choices)@ == (if has_name(old(choices)@, file_name@) {
            old(choices)@
        } else {
            old(choices)@.insert(1, file_name)
        }),
{
    if !contains_name(choices, file_name.as_str()) {
        choices.insert(1, file_name.clone());
    }
    *chosen = Some(file_name);
}

} // verus!
