use vstd::prelude::*;
use crate::text::{char_is_whitespace, is_whitespace_char, string_of};

verus! {

/// The answer of the log paste service to an upload.
#[derive(Debug)]
pub struct MclogsResponse {
    pub success: bool,
    pub url: Option<String>,
    pub error: Option<String>,
}

/// One entry of the metadata sent with a log.
#[derive(Debug)]
pub struct LogMetadata {
    pub key: String,
    pub value: String,
    pub label: String,
}

/// A log with nothing but whitespace, which the service is not sent.
pub open spec fn blank(s: Seq<char>) -> bool {
    forall|i: int| 0 <= i < s.len() ==> is_whitespace_char(#[trigger] s[i])
}

/// The outcome of an upload, from the service's answer: the link to the
/// paste, or the reason it failed.
pub open spec fn response_outcome(r: MclogsResponse) -> Result<Seq<char>, Seq<char>> {
    if r.success {
        match r.url {
            Some(u) => Ok(u@),
            None => Err("No URL in response"@),
        }
    } else {
        match r.error {
            Some(e) => Err(e@),
            None => Err("Unknown error"@),
        }
    }
}

pub open spec fn outcome_view(r: Result<String, String>) -> Result<Seq<char>, Seq<char>> {
    match r {
        Ok(s) => Ok(s@),
        Err(s) => Err(s@),
    }
}

impl MclogsResponse {
    /// The link to the paste, or the reason the upload failed.
    pub fn into_result(self) -> (r: Result<String, String>)
        ensures
            outcome_view(r) == response_outcome(self),
    {
        if self.success {
            match self.url {
                Some(u) => Ok(u),
                None => Err(string_of("No URL in response")),
            }
        } else {
            match self.error {
                Some(e) => Err(e),
                None => Err(string_of("Unknown error")),
            }
        }
    }
}

/// Refuses a log that holds nothing but whitespace.
pub fn check_log_content(content: &str) -> (r: Result<(), String>)
    ensures
        blank(content@) ==> (r matches Err(e) && e@ == "Cannot upload empty log"@),
        !blank(content@) ==> r is Ok,
{
    let n = content.unicode_len();
    let mut i: usize = 0;
    while i < n
        invariant
            0 <= i <= n,
            n == content@.len(),
            forall|j: int| 0 <= j < i ==> is_whitespace_char(#[trigger] content@[j]),
        decreases n - i,
    {
        if !char_is_whitespace(content.get_char(i)) {
            return Ok(());
        }
        i += 1;
    }
    Err(string_of("Cannot upload empty log"))
}

/// The metadata sent with a log: the game version, and the mod loader
/// unless the instance has none.
pub fn log_metadata(version_id: String, loader: Option<String>) -> (r: Vec<LogMetadata>)
    ensures
        r@.len() == if loader is Some { 2int } else { 1int },
        r@[0].key@ == "version"@,
        r@[0].value@ == version_id@,
        r@[0].label@ == "Minecraft version"@,
        loader matches Some(l) ==> (r@[1].key@ == "loader"@ && r@[1].value@ == l@ && r@[1].label@ == "Mod Loader"@),
{
    let mut v: Vec<LogMetadata> = Vec::new();
    v.push(LogMetadata { key: string_of("version"), value: version_id, label: string_of("Minecraft version") });
    if let Some(l) = loader {
        v.push(LogMetadata { key: string_of("loader"), value: l, label: string_of("Mod Loader") });
    }
    v
}

} // verus!
