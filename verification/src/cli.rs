use vstd::prelude::*;
use crate::text::{lowercase, str_eq, to_lowercase, trim, trimmed};

verus! {

/// A column the command line's instance listing can show.
#[derive(Debug, Clone, Copy, PartialEq, Eq, Structural)]
pub enum PrintCmd {
    Name,
    Version,
    Loader,
}

/// The column a property name asks for, if it names one.
pub open spec fn print_cmd_of(p: Seq<char>) -> Option<PrintCmd> {
    if p == "name"@ {
        Some(PrintCmd::Name)
    } else if p == "version"@ {
        Some(PrintCmd::Version)
    } else if p == "loader"@ {
        Some(PrintCmd::Loader)
    } else {
        None
    }
}

/// The columns asked for by the given property names, in order, skipping
/// unknown ones.
pub open spec fn print_cmds_of(props: Seq<String>) -> Seq<PrintCmd>
    decreases props.len(),
{
    if props.len() == 0 {
        Seq::empty()
    } else {
        match print_cmd_of(props.last()@) {
            Some(c) => print_cmds_of(props.drop_last()).push(c),
            None => print_cmds_of(props.drop_last()),
        }
    }
}

/// The columns of the instance listing: those asked for, or the names alone
/// when none (known) is asked for.
pub fn print_commands(properties: Option<&Vec<String>>) -> (r: Vec<PrintCmd>)
    ensures
        ({
            let asked = match properties {
                Some(p) => print_cmds_of(p@),
                None => Seq::empty(),
            };
            r@ == if asked.len() == 0 { seq![PrintCmd::Name] } else { asked }
        }),
{
    let mut cmds: Vec<PrintCmd> = Vec::new();
    if let Some(props) = properties {
        let mut i: usize = 0;
        proof {
            assert(props@.take(0) =~= Seq::<String>::empty());
        }
        while i < props.len()
            invariant
                0 <= i <= props.len(),
                cmds@ == print_cmds_of(props@.take(i as int)),
            decreases props.len() - i,
        {
            let p = props[i].as_str();
            proof {
                assert(props@.take(i + 1).drop_last() =~= props@.take(i as int));
                assert(props@.take(i + 1).last() == props@[i as int]);
            }
            if str_eq(p, "name") {
                cmds.push(PrintCmd::Name);
            } else if str_eq(p, "version") {
                cmds.push(PrintCmd::Version);
            } else if str_eq(p, "loader") {
                cmds.push(PrintCmd::Loader);
            }
            i += 1;
        }
        proof {
            assert(props@.take(i as int) =~= props@);
        }
    }
    if cmds.len() == 0 {
        cmds.push(PrintCmd::Name);
        proof {
            assert(cmds@ =~= seq![PrintCmd::Name]);
        }
    }
    cmds
}

/// What an answer to a yes/no question means, ignoring case and surrounding
/// whitespace: "y", "yes" or nothing is yes; "n" or "no" is no; anything
/// else asks again (none).
pub open spec fn answer_of(input: Seq<char>) -> Option<bool> {
    lowered_answer(lowercase(trimmed(input)))
}

/// What an answer already trimmed and lowercased means: "y", "yes" or
/// nothing is yes; "n" or "no" is no; anything else asks again (none).
pub open spec fn lowered_answer(a: Seq<char>) -> Option<bool> {
    if a == "y"@ || a == "yes"@ || a.len() == 0 {
        Some(true)
    } else if a == "n"@ || a == "no"@ {
        Some(false)
    } else {
        None
    }
}

/// Reads an answer to a yes/no question (see `answer_of`).
pub fn confirm_answer(input: &str) -> (r: Option<bool>)
    ensures
        r == answer_of(input@),
{
    let t = trim(input);
    let a = to_lowercase(t.as_str());
    answer_of_lowered(a.as_str())
}

/// Reads an answer already trimmed and lowercased (see `lowered_answer`).
pub fn answer_of_lowered(a: &str) -> (r: Option<bool>)
    ensures
        r == lowered_answer(a@),
{
    if str_eq(a, "y") || str_eq(a, "yes") || a.unicode_len() == 0 {
        Some(true)
    } else if str_eq(a, "n") || str_eq(a, "no") {
        Some(false)
    } else {
        None
    }
}

/// A mod loader an instance can run with (vanilla: none).
#[derive(Debug, Clone, Copy, PartialEq, Eq, Structural)]
pub enum Loader {
    Vanilla,
    Fabric,
    Quilt,
    Forge,
    Neoforge,
    OptiFine,
    Paper,
    Liteloader,
    Modloader,
    Rift,
}

/// Whether a loader can be installed on an instance that runs with another.
#[derive(Debug, Clone, Copy, PartialEq, Eq, Structural)]
pub enum LoaderInstallCheck {
    /// The instance already runs with it.
    AlreadyInstalled,
    /// It can be installed.
    Allowed,
    /// Another loader is in the way; it must be uninstalled first.
    OnTopOfOther,
}

/// Whether `wanted` can be installed on an instance running `current`: on
/// vanilla any loader can, and OptiFine and Forge go together either way.
pub open spec fn install_check(current: Loader, wanted: Loader) -> LoaderInstallCheck {
    if current == wanted {
        LoaderInstallCheck::AlreadyInstalled
    } else if current == Loader::Vanilla || (current == Loader::Forge && wanted == Loader::OptiFine) || (current
        == Loader::OptiFine && wanted == Loader::Forge) {
        LoaderInstallCheck::Allowed
    } else {
        LoaderInstallCheck::OnTopOfOther
    }
}

/// Checks whether a loader can be installed (see `install_check`).
pub fn loader_install_check(current: Loader, wanted: Loader) -> (r: LoaderInstallCheck)
    ensures
        r == install_check(current, wanted),
{
    if current == wanted {
        LoaderInstallCheck::AlreadyInstalled
    } else if current == Loader::Vanilla || (current == Loader::Forge && wanted == Loader::OptiFine) || (current
        == Loader::OptiFine && wanted == Loader::Forge) {
        LoaderInstallCheck::Allowed
    } else {
        LoaderInstallCheck::OnTopOfOther
    }
}

/// Installing a loader on top of another is refused, but for OptiFine with
/// Forge: the check is symmetric between those two, and a loader other
/// than vanilla never counts as installable on one of the others.
pub proof fn law_loaders_do_not_stack(a: Loader, b: Loader)
    requires
        a != b,
        a != Loader::Vanilla,
        b != Loader::Vanilla,
    ensures
        install_check(a, b) == install_check(b, a),
        install_check(a, b) == LoaderInstallCheck::Allowed <==> (a == Loader::Forge && b == Loader::OptiFine) || (a
            == Loader::OptiFine && b == Loader::Forge),
{
}


/// On an instance without a loader, every loader can be installed.
pub proof fn law_vanilla_takes_any_loader(wanted: Loader)
    requires
        wanted != Loader::Vanilla,
    ensures
        install_check(Loader::Vanilla, wanted) == LoaderInstallCheck::Allowed,
{
}


/// A loader the instance already runs with is never installed again, and on
/// an instance that runs another loader only OptiFine and Forge go together:
/// any other pair must wait for the first loader to be uninstalled.
pub proof fn law_loaders_in_the_way(current: Loader, wanted: Loader)
    ensures
        install_check(current, current) == LoaderInstallCheck::AlreadyInstalled,
        current != Loader::Vanilla && current != wanted && !(current == Loader::Forge && wanted == Loader::OptiFine)
            && !(current == Loader::OptiFine && wanted == Loader::Forge) ==> install_check(current, wanted)
            == LoaderInstallCheck::OnTopOfOther,
        current == Loader::Forge ==> install_check(current, Loader::OptiFine) == LoaderInstallCheck::Allowed,
        current == Loader::OptiFine ==> install_check(current, Loader::Forge) == LoaderInstallCheck::Allowed,
{
}

} // verus!
