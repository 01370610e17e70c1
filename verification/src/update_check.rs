use vstd::prelude::*;
use crate::format::decimal;
use crate::text::{concat, string_of, strip_suffix, strip_suffix_spec};

verus! {

/// `semver::Version`, carried opaque.
#[verifier::external_type_specification]
#[verifier::external_body]
pub struct ExSemverVersion(semver::Version);

/// `semver::Error`, the reason a text is no SemVer version, carried opaque.
#[verifier::external_type_specification]
#[verifier::external_body]
pub struct ExSemverError(semver::Error);

/// A downloadable file of a release.
#[derive(Debug)]
pub struct GithubAsset {
    pub name: String,
    pub browser_download_url: String,
}

/// A release of the launcher on its repository, newest first in the list.
#[derive(Debug)]
pub struct GithubRelease {
    pub tag_name: String,
    pub assets: Vec<GithubAsset>,
}

/// What an update check found.
#[derive(Debug)]
pub enum UpdateCheckInfo {
    UpToDate,
    NewVersion { url: String },
}

/// Why an update check or install gave up.
#[derive(Debug)]
pub enum UpdateError {
    SemverError(semver::Error),
    UnsupportedOS,
    UnsupportedArchitecture,
    NoReleases,
    NoMatchingDownloadFound,
    UnknownFileExtension(String),
    AheadOfLatestVersion,
}

/// How the newest release compares with the running launcher.
#[derive(Debug, Clone, Copy, PartialEq, Eq, Structural)]
pub enum VersionOrder {
    Older,
    Same,
    Newer,
}

/// The archive an update comes in.
#[derive(Debug, Clone, Copy, PartialEq, Eq, Structural)]
pub enum ArchiveKind {
    TarGz,
    Zip,
}

/// Whether `semver::Version::parse` accepts the text.
pub uninterp spec fn semver_parses(s: Seq<char>) -> bool;

/// Whether `char::is_numeric` holds of the character.
pub uninterp spec fn is_numeric_char(c: char) -> bool;

/// A SemVer version together with the text it stands for: the text it was
/// read from, or, for one made of three numbers, those numbers joined by dots.
/// Its fields are private and only `parse_version` and `version_new` make
/// one, so the version is always the one `semver` reads from the text, which
/// the contract of `compare_versions` relies on.
pub struct SemVer {
    text: Ghost<Seq<char>>,
    version: semver::Version,
}

impl View for SemVer {
    type V = Seq<char>;

    closed spec fn view(&self) -> Seq<char> {
        self.text@
    }
}

/// How `semver` orders the versions it reads from the two texts (the order
/// of `semver::Version`: major, minor, patch, pre-release, build metadata).
pub uninterp spec fn semver_order(a: Seq<char>, b: Seq<char>) -> VersionOrder;

/// Three numbers joined by dots, as a version is written.
pub open spec fn triple_text(major: u64, minor: u64, patch: u64) -> Seq<char> {
    decimal(major as nat) + "."@ + decimal(minor as nat) + "."@ + decimal(patch as nat)
}

/// Calls `semver::Version::parse`. Claimed: it succeeds exactly on the texts
/// `semver_parses` names, and the version it gives stands for the text read.
#[verifier::external_body]
fn parse_version(s: &str) -> (r: Result<SemVer, semver::Error>)
    ensures
        r is Ok == semver_parses(s@),
        r matches Ok(v) ==> v@ == s@,
{
    match semver::Version::parse(s) {
        Ok(version) => Ok(SemVer { text: Ghost(s@), version }),
        Err(e) => Err(e),
    }
}

/// Calls `semver::Version::new`. Claimed: the version stands for the three
/// numbers joined by dots; `semver::Version::parse` reads that text as the
/// same version (empty pre-release and build metadata).
#[verifier::external_body]
fn version_new(major: u64, minor: u64, patch: u64) -> (r: SemVer)
    ensures
        r@ == triple_text(major, minor, patch),
{
    SemVer { text: Ghost(triple_text(major, minor, patch)), version: semver::Version::new(major, minor, patch) }
}

/// Calls the `Ord::cmp` of `semver::Version`. Claimed: the outcome is
/// `semver_order` of the texts the two versions stand for.
#[verifier::external_body]
fn compare_versions(a: &SemVer, b: &SemVer) -> (r: VersionOrder)
    ensures
        r == semver_order(a@, b@),
{
    match a.version.cmp(&b.version) {
        std::cmp::Ordering::Less => VersionOrder::Older,
        std::cmp::Ordering::Equal => VersionOrder::Same,
        std::cmp::Ordering::Greater => VersionOrder::Newer,
    }
}

impl SemVer {
    /// Reads a SemVer version from its text.
    pub fn parse(s: &str) -> (r: Result<SemVer, semver::Error>)
        ensures
            r is Ok == semver_parses(s@),
            r matches Ok(v) ==> v@ == s@,
    {
        parse_version(s)
    }
}

/// Calls `char::is_numeric`. Claimed: its result is `is_numeric_char`, and,
/// as its documentation (the Unicode number categories) gives, ASCII digits
/// are numeric while ASCII letters, '-' and '.' are not.
#[verifier::external_body]
fn char_is_numeric(c: char) -> (r: bool)
    ensures
        r == is_numeric_char(c),
        '0' <= c <= '9' ==> r,
        ('a' <= c <= 'z' || 'A' <= c <= 'Z' || c == '-' || c == '.') ==> !r,
{
    c.is_numeric()
}

/// How many times the character occurs.
pub open spec fn count_char(s: Seq<char>, c: char) -> nat
    decreases s.len(),
{
    if s.len() == 0 {
        0
    } else {
        count_char(s.drop_last(), c) + if s.last() == c { 1nat } else { 0nat }
    }
}

/// A release tag as a version: without a leading 'v', and with ".0" added
/// when it has only two parts ("v0.2" gives "0.2.0").
pub open spec fn tag_version(t: Seq<char>) -> Seq<char> {
    let v = if t.len() > 0 && t[0] == 'v' { t.subrange(1, t.len() as int) } else { t };
    if count_char(v, '.') == 1 { v + ".0"@ } else { v }
}

/// The text without its trailing numeric characters.
pub open spec fn trim_numeric_end(s: Seq<char>) -> Seq<char>
    decreases s.len(),
{
    if s.len() > 0 && is_numeric_char(s.last()) {
        trim_numeric_end(s.drop_last())
    } else {
        s
    }
}

/// A withdrawn release: its version ends with "-D" and maybe a number.
pub open spec fn is_withdrawn(v: Seq<char>) -> bool {
    strip_suffix_spec(trim_numeric_end(v), "-D"@) is Some
}

/// The first release, from `i` on, that is not withdrawn, with its version.
pub open spec fn latest_from(tags: Seq<Seq<char>>, i: int) -> Option<(int, Seq<char>)>
    decreases tags.len() - i,
{
    if i < 0 || i >= tags.len() {
        None
    } else if is_withdrawn(tag_version(tags[i])) {
        latest_from(tags, i + 1)
    } else {
        Some((i, tag_version(tags[i])))
    }
}

pub open spec fn release_tags(r: Seq<GithubRelease>) -> Seq<Seq<char>> {
    Seq::new(r.len(), |i: int| r[i].tag_name@)
}

/// The name an asset is matched with: '-' read as '_'.
pub open spec fn underscored(s: Seq<char>) -> Seq<char> {
    Seq::new(s.len(), |i: int| if s[i] == '-' { '_' } else { s[i] })
}

pub open spec fn starts_with(s: Seq<char>, p: Seq<char>) -> bool {
    p.len() <= s.len() && s.subrange(0, p.len() as int) == p
}

/// The file name prefix of the launcher build for a platform.
pub open spec fn asset_prefix(os: Seq<char>, arch: Seq<char>) -> Seq<char> {
    "quantum_launcher_"@ + os + "_"@ + arch + "."@
}

/// The first asset, from `i` on, that is the build for the platform.
pub open spec fn matching_asset_from(assets: Seq<GithubAsset>, prefix: Seq<char>, i: int) -> Option<int>
    decreases assets.len() - i,
{
    if i < 0 || i >= assets.len() {
        None
    } else if starts_with(underscored(assets[i].name@), prefix) {
        Some(i)
    } else {
        matching_asset_from(assets, prefix, i + 1)
    }
}

/// What an update check answers, given how the newest release compares with
/// the running launcher, and the platform (none when unsupported).
pub open spec fn decision(
    order: VersionOrder,
    release: GithubRelease,
    arch: Option<Seq<char>>,
    os: Option<Seq<char>>,
) -> Result<Option<Seq<char>>, UpdateError> {
    match order {
        VersionOrder::Older => Err(UpdateError::AheadOfLatestVersion),
        VersionOrder::Same => Ok(None),
        VersionOrder::Newer => match arch {
            None => Err(UpdateError::UnsupportedArchitecture),
            Some(a) => match os {
                None => Err(UpdateError::UnsupportedOS),
                Some(o) => match matching_asset_from(release.assets@, asset_prefix(o, a), 0) {
                    Some(k) => Ok(Some(release.assets@[k].browser_download_url@)),
                    None => Err(UpdateError::NoMatchingDownloadFound),
                },
            },
        },
    }
}

/// The value of a check's answer: none when up to date, else the url.
pub open spec fn info_view(r: Result<UpdateCheckInfo, UpdateError>) -> Result<Option<Seq<char>>, UpdateError> {
    match r {
        Ok(UpdateCheckInfo::UpToDate) => Ok(None),
        Ok(UpdateCheckInfo::NewVersion { url }) => Ok(Some(url@)),
        Err(e) => Err(e),
    }
}

/// Whether two errors are the same kind, with the same text where they
/// carry one.
pub open spec fn same_error(a: UpdateError, b: UpdateError) -> bool {
    match (a, b) {
        (UpdateError::SemverError(_), UpdateError::SemverError(_)) => true,
        (UpdateError::UnknownFileExtension(x), UpdateError::UnknownFileExtension(y)) => x@ == y@,
        _ => a == b,
    }
}

/// The characters of an optional string.
pub open spec fn opt_str(o: Option<&str>) -> Option<Seq<char>> {
    match o {
        Some(s) => Some(s@),
        None => None,
    }
}

/// An answer of a check is the wanted one: the same url, or the same error.
pub open spec fn answers(r: Result<UpdateCheckInfo, UpdateError>, want: Result<Option<Seq<char>>, UpdateError>) -> bool {
    match (info_view(r), want) {
        (Ok(x), Ok(y)) => x == y,
        (Err(e1), Err(e2)) => same_error(e1, e2),
        _ => false,
    }
}

/// The version of a release tag.
pub fn tag_to_version(tag: &str) -> (r: String)
    ensures
        r@ == tag_version(tag@),
{
    let n = tag.unicode_len();
    let v = if n > 0 && tag.get_char(0) == 'v' {
        string_of(tag.substring_char(1, n))
    } else {
        string_of(tag)
    };
    let m = v.as_str().unicode_len();
    let mut dots: usize = 0;
    let mut i: usize = 0;
    while i < m
        invariant
            0 <= i <= m,
            m == v@.len(),
            dots == count_char(v@.take(i as int), '.'),
            dots <= i,
        decreases m - i,
    {
        proof {
            assert(v@.take(i + 1).drop_last() =~= v@.take(i as int));
        }
        if v.as_str().get_char(i) == '.' {
            dots += 1;
        }
        i += 1;
    }
    proof {
        assert(v@.take(m as int) =~= v@);
    }
    if dots == 1 {
        concat(v.as_str(), ".0")
    } else {
        v
    }
}

/// Whether a version marks a withdrawn release.
pub fn is_withdrawn_version(version: &str) -> (r: bool)
    ensures
        r == is_withdrawn(version@),
{
    let mut n = version.unicode_len();
    proof {
        assert(version@.take(n as int) =~= version@);
    }
    while n > 0 && char_is_numeric(version.get_char(n - 1))
        invariant
            n <= version@.len(),
            trim_numeric_end(version@) == trim_numeric_end(version@.take(n as int)),
        decreases n,
    {
        proof {
            assert(version@.take(n as int).drop_last() =~= version@.take(n - 1));
            assert(version@.take(n as int).last() == version@[n - 1]);
        }
        n -= 1;
    }
    proof {
        if n > 0 {
            assert(version@.take(n as int).last() == version@[n - 1]);
        }
        assert(trim_numeric_end(version@.take(n as int)) == version@.take(n as int));
    }
    let trimmed = version.substring_char(0, n);
    proof {
        assert(trimmed@ =~= version@.take(n as int));
    }
    strip_suffix(trimmed, "-D").is_some()
}

proof fn lemma_latest_from_range(tags: Seq<Seq<char>>, j: int)
    ensures
        latest_from(tags, j) matches Some((i, v)) ==> (0 <= j <= i < tags.len() && v == tag_version(tags[i])),
    decreases tags.len() - j,
{
    if 0 <= j < tags.len() {
        lemma_latest_from_range(tags, j + 1);
    }
}

/// The newest release that is not withdrawn, with its version.
pub fn latest_release(releases: &Vec<GithubRelease>) -> (r: Option<(usize, String)>)
    ensures
        match r {
            Some((i, v)) => latest_from(release_tags(releases@), 0) == Some((i as int, v@)) && i < releases.len(),
            None => latest_from(release_tags(releases@), 0) is None,
        },
{
    proof {
        lemma_latest_from_range(release_tags(releases@), 0);
    }
    let ghost tags = release_tags(releases@);
    let mut i: usize = 0;
    while i < releases.len()
        invariant
            0 <= i <= releases.len(),
            tags == release_tags(releases@),
            latest_from(tags, 0) == latest_from(tags, i as int),
        decreases releases.len() - i,
    {
        let version = tag_to_version(releases[i].tag_name.as_str());
        if !is_withdrawn_version(version.as_str()) {
            return Some((i, version));
        }
        i += 1;
    }
    None
}

fn underscore(s: &str) -> (r: String)
    ensures
        r@ == underscored(s@),
{
    let n = s.unicode_len();
    let mut out = String::new();
    let mut i: usize = 0;
    while i < n
        invariant
            0 <= i <= n,
            n == s@.len(),
            out@ == underscored(s@.take(i as int)),
        decreases n - i,
    {
        let c = s.get_char(i);
        let d = if c == '-' { "_" } else { s.substring_char(i, i + 1) };
        proof {
            reveal_strlit("_");
            assert(underscored(s@.take(i + 1)) =~= underscored(s@.take(i as int)) + d@);
        }
        out.append(d);
        i += 1;
    }
    proof {
        assert(s@.take(n as int) =~= s@);
    }
    out
}

fn has_prefix(s: &str, p: &str) -> (r: bool)
    ensures
        r == starts_with(s@, p@),
{
    let n = s.unicode_len();
    let m = p.unicode_len();
    if m > n {
        return false;
    }
    let mut k: usize = 0;
    while k < m
        invariant
            0 <= k <= m <= n,
            n == s@.len(),
            m == p@.len(),
            forall|j: int| 0 <= j < k ==> s@[j] == #[trigger] p@[j],
        decreases m - k,
    {
        if s.get_char(k) != p.get_char(k) {
            proof {
                assert(s@.subrange(0, m as int)[k as int] != p@[k as int]);
            }
            return false;
        }
        k += 1;
    }
    proof {
        assert(s@.subrange(0, m as int) =~= p@);
    }
    true
}

/// What an update check answers, given how the newest release compares with
/// the running launcher and the platform's names (none when the launcher
/// has no builds for it).
pub fn update_decision(
    order: VersionOrder,
    release: &GithubRelease,
    arch: Option<&str>,
    os: Option<&str>,
) -> (r: Result<UpdateCheckInfo, UpdateError>)
    ensures
        ({
            let want = decision(
                order,
                *release,
                opt_str(arch),
                opt_str(os),
            );
            answers(r, want)
        }),
{
    match order {
        VersionOrder::Older => Err(UpdateError::AheadOfLatestVersion),
        VersionOrder::Same => Ok(UpdateCheckInfo::UpToDate),
        VersionOrder::Newer => {
            let a = match arch {
                Some(a) => a,
                None => return Err(UpdateError::UnsupportedArchitecture),
            };
            let o = match os {
                Some(o) => o,
                None => return Err(UpdateError::UnsupportedOS),
            };
            let p1 = concat("quantum_launcher_", o);
            let p2 = concat(p1.as_str(), "_");
            let p3 = concat(p2.as_str(), a);
            let prefix = concat(p3.as_str(), ".");
            let ghost assets = release.assets@;
            let mut k: usize = 0;
            while k < release.assets.len()
                invariant
                    0 <= k <= release.assets.len(),
                    assets == release.assets@,
                    prefix@ == asset_prefix(o@, a@),
                    opt_str(arch) == Some(a@),
                    opt_str(os) == Some(o@),
                    order == VersionOrder::Newer,
                    matching_asset_from(assets, prefix@, 0) == matching_asset_from(assets, prefix@, k as int),
                decreases release.assets.len() - k,
            {
                let name = underscore(release.assets[k].name.as_str());
                if has_prefix(name.as_str(), prefix.as_str()) {
                    let url = release.assets[k].browser_download_url.clone();
                    proof {
                        assert(matching_asset_from(assets, prefix@, k as int) == Some(k as int));
                        assert(opt_str(arch) == Some(a@));
                        assert(opt_str(os) == Some(o@));
                        assert(url@ == release.assets@[k as int].browser_download_url@);
                    }
                    return Ok(UpdateCheckInfo::NewVersion { url });
                }
                k += 1;
            }
            Err(UpdateError::NoMatchingDownloadFound)
        },
    }
}

/// Checks the releases (newest first) for an update of the launcher running
/// `current`, on a platform with the given names (none when unsupported).
/// There is no release to go by when every one is withdrawn; the newest
/// version must be valid SemVer; past that the answer is `update_decision`'s
/// for how `semver` orders that version against `current`.
pub fn check_releases(
    releases: &Vec<GithubRelease>,
    current: &SemVer,
    arch: Option<&str>,
    os: Option<&str>,
) -> (r: Result<UpdateCheckInfo, UpdateError>)
    ensures
        match latest_from(release_tags(releases@), 0) {
            None => r matches Err(UpdateError::NoReleases),
            Some((i, _)) if !(0 <= i < releases@.len()) => false,
            Some((i, v)) => if !semver_parses(v) {
                r matches Err(UpdateError::SemverError(_))
            } else {
                answers(r, decision(semver_order(v, current@), releases@[i], opt_str(arch), opt_str(os)))
            },
        },
{
    let (i, version) = match latest_release(releases) {
        Some(x) => x,
        None => return Err(UpdateError::NoReleases),
    };
    let parsed = match parse_version(version.as_str()) {
        Ok(v) => v,
        Err(e) => return Err(UpdateError::SemverError(e)),
    };
    let order = compare_versions(&parsed, current);
    update_decision(order, &releases[i], arch, os)
}

/// The archive an update url points to, by its extension.
pub fn archive_kind(url: &str) -> (r: Result<ArchiveKind, UpdateError>)
    ensures
        strip_suffix_spec(url@, ".tar.gz"@) is Some ==> r == Ok::<ArchiveKind, UpdateError>(ArchiveKind::TarGz),
        strip_suffix_spec(url@, ".tar.gz"@) is None && strip_suffix_spec(url@, ".zip"@) is Some ==> r
            == Ok::<ArchiveKind, UpdateError>(ArchiveKind::Zip),
        strip_suffix_spec(url@, ".tar.gz"@) is None && strip_suffix_spec(url@, ".zip"@) is None ==> (r matches Err(
            UpdateError::UnknownFileExtension(u),
        ) && u@ == url@),
{
    if strip_suffix(url, ".tar.gz").is_some() {
        Ok(ArchiveKind::TarGz)
    } else if strip_suffix(url, ".zip").is_some() {
        Ok(ArchiveKind::Zip)
    } else {
        Err(UpdateError::UnknownFileExtension(string_of(url)))
    }
}

/// `s` without a leading "v".
pub open spec fn without_v(s: Seq<char>) -> Seq<char> {
    if s.len() > 0 && s[0] == 'v' { s.subrange(1, s.len() as int) } else { s }
}

/// Whether the Java 8 that older launchers installed must be fetched again
/// after an upgrade: the previous launcher version (with or without a leading
/// "v") is at most 0.4.2, on Windows and macOS only. A version that is not
/// valid SemVer is an error.
pub fn needs_java8_reset(version: &str, windows_or_macos: bool) -> (r: Result<bool, semver::Error>)
    ensures
        r is Err <==> !semver_parses(without_v(version@)),
        r matches Ok(b) ==> b == (windows_or_macos && semver_order(without_v(version@), triple_text(0, 4, 2))
            != VersionOrder::Newer),
{
    let n = version.unicode_len();
    let v = if n > 0 && version.get_char(0) == 'v' { version.substring_char(1, n) } else { version };
    proof {
        assert(v@ == without_v(version@));
    }
    let parsed = match parse_version(v) {
        Ok(p) => p,
        Err(e) => return Err(e),
    };
    if !windows_or_macos {
        return Ok(false);
    }
    let order = compare_versions(&parsed, &version_new(0, 4, 2));
    Ok(order != VersionOrder::Newer)
}

} // verus!
