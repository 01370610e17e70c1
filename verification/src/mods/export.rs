use vstd::prelude::*;
use crate::text::{concat, string_of, strip_suffix, strip_suffix_spec};
use super::types::{ModId, SelectedMod, PickView, IdView, pick_views};

verus! {

/// The shown name of a local jar: its file name without ".jar" or ".zip".
pub open spec fn display_file_name(f: Seq<char>) -> Seq<char> {
    match strip_suffix_spec(f, ".jar"@) {
        Some(x) => x,
        None => match strip_suffix_spec(f, ".zip"@) {
            Some(x) => x,
            None => f,
        },
    }
}

/// The lines joined with a newline between each two.
pub open spec fn join_lines(s: Seq<Seq<char>>) -> Seq<char>
    decreases s.len(),
{
    if s.len() == 0 {
        Seq::empty()
    } else if s.len() == 1 {
        s[0]
    } else {
        join_lines(s.drop_last()) + "\n"@ + s.last()
    }
}

/// The line of a picked mod in a plain-text export.
pub open spec fn plain_line(p: PickView) -> Seq<char> {
    match p {
        PickView::Downloaded { name, .. } => name,
        PickView::Local { file_name } => display_file_name(file_name),
    }
}

/// The store page of a mod.
pub open spec fn mod_url(id: IdView) -> Seq<char> {
    match id {
        IdView::Modrinth(m) => "https://modrinth.com/mod/"@ + m,
        IdView::Curseforge(m) => "https://www.curseforge.com/projects/"@ + m,
    }
}

/// The line of a picked mod in a Markdown export: a link to its store page,
/// or the name of a local jar.
pub open spec fn markdown_line(p: PickView) -> Seq<char> {
    match p {
        PickView::Downloaded { name, id } => "- ["@ + name + "]("@ + mod_url(id) + ")"@,
        PickView::Local { file_name } => display_file_name(file_name),
    }
}

pub open spec fn plain_text(s: Seq<PickView>) -> Seq<char> {
    join_lines(Seq::new(s.len(), |i: int| plain_line(s[i])))
}

pub open spec fn markdown_text(s: Seq<PickView>) -> Seq<char> {
    join_lines(Seq::new(s.len(), |i: int| markdown_line(s[i])))
}

/// The shown name of a local jar: its file name without ".jar" or ".zip".
pub fn display_name(file_name: &str) -> (r: String)
    ensures
        r@ == display_file_name(file_name@),
{
    match strip_suffix(file_name, ".jar") {
        Some(x) => x,
        None => match strip_suffix(file_name, ".zip") {
            Some(x) => x,
            None => string_of(file_name),
        },
    }
}

fn join(lines: &Vec<String>) -> (r: String)
    ensures
        r@ == join_lines(Seq::new(lines@.len(), |i: int| lines@[i]@)),
{
    let ghost ls = Seq::new(lines@.len(), |i: int| lines@[i]@);
    let mut out = String::new();
    let mut i: usize = 0;
    proof {
        assert(ls.take(0) =~= Seq::<Seq<char>>::empty());
    }
    while i < lines.len()
        invariant
            0 <= i <= lines.len(),
            ls == Seq::new(lines@.len(), |i: int| lines@[i]@),
            out@ == join_lines(ls.take(i as int)),
        decreases lines.len() - i,
    {
        proof {
            assert(ls.take(i + 1).drop_last() =~= ls.take(i as int));
            assert(ls.take(i + 1).last() == lines@[i as int]@);
        }
        if i == 0 {
            out = lines[i].clone();
            proof {
                assert(ls.take(1).len() == 1);
            }
        } else {
            let with_sep = concat(out.as_str(), "\n");
            out = concat(with_sep.as_str(), lines[i].as_str());
        }
        i += 1;
    }
    proof {
        assert(ls.take(i as int) =~= ls);
    }
    out
}

/// The picked mods as plain text, one per line: the mod's name, or the
/// shown name of a local jar.
pub fn export_mods_plain_text(selected_mods: &Vec<SelectedMod>) -> (r: String)
    ensures
        r@ == plain_text(pick_views(selected_mods@)),
{
    let mut lines: Vec<String> = Vec::new();
    let mut i: usize = 0;
    while i < selected_mods.len()
        invariant
            0 <= i <= selected_mods.len(),
            lines@.len() == i,
            forall|j: int| 0 <= j < i ==> #[trigger] lines@[j]@ == plain_line(selected_mods@[j]@),
        decreases selected_mods.len() - i,
    {
        let line = match &selected_mods[i] {
            SelectedMod::Downloaded { name, .. } => name.clone(),
            SelectedMod::Local { file_name } => display_name(file_name.as_str()),
        };
        lines.push(line);
        i += 1;
    }
    let r = join(&lines);
    proof {
        assert(Seq::new(lines@.len(), |i: int| lines@[i]@) =~= Seq::new(
            pick_views(selected_mods@).len(),
            |i: int| plain_line(pick_views(selected_mods@)[i]),
        ));
    }
    r
}

fn url_of(id: &ModId) -> (r: String)
    ensures
        r@ == mod_url(id@),
{
    match id {
        ModId::Modrinth(m) => concat("https://modrinth.com/mod/", m.as_str()),
        ModId::Curseforge(m) => concat("https://www.curseforge.com/projects/", m.as_str()),
    }
}

/// The picked mods as a Markdown list: a link to the store page of each
/// downloaded mod, and the shown name of each local jar.
pub fn export_mods_markdown(selected_mods: &Vec<SelectedMod>) -> (r: String)
    ensures
        r@ == markdown_text(pick_views(selected_mods@)),
{
    let mut lines: Vec<String> = Vec::new();
    let mut i: usize = 0;
    while i < selected_mods.len()
        invariant
            0 <= i <= selected_mods.len(),
            lines@.len() == i,
            forall|j: int| 0 <= j < i ==> #[trigger] lines@[j]@ == markdown_line(selected_mods@[j]@),
        decreases selected_mods.len() - i,
    {
        let line = match &selected_mods[i] {
            SelectedMod::Downloaded { name, id } => {
                let a = concat("- [", name.as_str());
                let b = concat(a.as_str(), "](");
                let u = url_of(id);
                let c = concat(b.as_str(), u.as_str());
                concat(c.as_str(), ")")
            },
            SelectedMod::Local { file_name } => display_name(file_name.as_str()),
        };
        lines.push(line);
        i += 1;
    }
    let r = join(&lines);
    proof {
        assert(Seq::new(lines@.len(), |i: int| lines@[i]@) =~= Seq::new(
            pick_views(selected_mods@).len(),
            |i: int| markdown_line(pick_views(selected_mods@)[i]),
        ));
    }
    r
}

} // verus!
