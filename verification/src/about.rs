use vstd::prelude::*;
use crate::text::concat;

verus! {

/// The launcher's chat server.
pub const DISCORD: &'static str = "https://discord.gg/bWqRaSXar5";

/// The launcher's source repository.
pub const GITHUB: &'static str = "https://github.com/Mrmayman/quantumlauncher";

/// The long description of the command line help, with the website's
/// address.
pub open spec fn long_about_text(website: Seq<char>) -> Seq<char> {
    "\nQuantumLauncher: A simple, powerful Minecraft launcher\n\nWebsite: "@ + website + "\nGithub : "@ + GITHUB@
        + "\nDiscord: "@ + DISCORD@
}

/// The long description of the command line help.
pub fn long_about(website: &str) -> (r: String)
    ensures
        r@ == long_about_text(website@),
{
    let a = concat("\nQuantumLauncher: A simple, powerful Minecraft launcher\n\nWebsite: ", website);
    let b = concat(a.as_str(), "\nGithub : ");
    let c = concat(b.as_str(), GITHUB);
    let d = concat(c.as_str(), "\nDiscord: ");
    concat(d.as_str(), DISCORD)
}

} // verus!
