//! Application updates: release URLs, version comparison and the choice of
//! the download for this platform.
use vstd::prelude::*;
use crate::text::{push_str, seq_contains, str_contains};

verus! {

/// `text` is a version that semver's parser accepts.
pub uninterp spec fn semver_valid(text: Seq<char>) -> bool;

/// The version written `latest` has higher precedence than the one written
/// `current`, in semver's ordering.
pub uninterp spec fn semver_newer(latest: Seq<char>, current: Seq<char>) -> bool;

/// Relies on `semver::Version::parse`, which accepts exactly the texts of
/// semantic versions, and on semver's ordering of `Version` (major, minor,
/// patch, pre-release, then build metadata); both depend on the texts alone.
#[verifier::external_body]
fn compare_versions(latest: &str, current: &str) -> (r: Option<bool>)
    ensures
        r is Some <==> (semver_valid(latest@) && semver_valid(current@)),
        r is Some ==> r->Some_0 == semver_newer(latest@, current@),
{
    match (semver::Version::parse(latest), semver::Version::parse(current)) {
        (Ok(a), Ok(b)) => Some(a > b),
        _ => None,
    }
}

/// The lower-case form of a text, as `str::to_lowercase` gives it.
pub uninterp spec fn lower_of(s: Seq<char>) -> Seq<char>;

/// Relies on `str::to_lowercase`: the result depends on the characters alone.
#[verifier::external_body]
fn lowercase(s: &str) -> (r: String)
    ensures
        r@ == lower_of(s@),
{
    s.to_lowercase()
}

/// Why an update could not be described.
#[derive(Clone, Copy, Debug, PartialEq, Eq, Structural)]
pub enum UpdateError {
    InvalidVersion,
    NoSuitableAsset,
}

/// The operating system a download is chosen for.
#[derive(Clone, Copy, Debug, PartialEq, Eq, Structural)]
pub enum TargetOs {
    Windows,
    Linux,
    MacOs,
}

/// A downloadable file of a release.
pub struct ReleaseAsset {
    pub name: String,
    pub browser_download_url: String,
}

/// What a release offers compared with the running version.
pub struct UpdateInfo {
    pub current_version: String,
    pub latest_version: String,
    pub update_available: bool,
    pub download_url: String,
    pub release_notes: String,
}

/// The words that mark an asset as built for `os`.
pub open spec fn platform_keywords(os: TargetOs) -> Seq<Seq<char>> {
    match os {
        TargetOs::Windows => seq!["windows"@, "win32"@, "win64"@, "x86_64"@, "amd64"@],
        TargetOs::Linux => seq!["linux"@, "x86_64"@, "amd64"@],
        TargetOs::MacOs => seq!["macos"@, "darwin"@, "osx"@, "x86_64"@, "amd64"@],
    }
}

fn keywords(os: TargetOs) -> (r: Vec<&'static str>)
    ensures
        r@.map_values(|k: &str| k@) == platform_keywords(os),
{
    let r = match os {
        TargetOs::Windows => vec!["windows", "win32", "win64", "x86_64", "amd64"],
        TargetOs::Linux => vec!["linux", "x86_64", "amd64"],
        TargetOs::MacOs => vec!["macos", "darwin", "osx", "x86_64", "amd64"],
    };
    assert(r@.map_values(|k: &str| k@) =~= platform_keywords(os));
    r
}

/// `name` holds one of `words`.
pub open spec fn mentions_any(name: Seq<char>, words: Seq<Seq<char>>) -> bool {
    exists|k: int| 0 <= k < words.len() && seq_contains(name, #[trigger] words[k])
}

/// The asset to download among those with the (lower-cased) names `names`:
/// the first that mentions a keyword of `os`, else the first of all.
pub open spec fn chosen_asset(names: Seq<Seq<char>>, os: TargetOs) -> Option<int> {
    let kws = platform_keywords(os);
    if exists|i: int| 0 <= i < names.len() && mentions_any(names[i], kws) {
        Some(choose|i: int| 0 <= i < names.len() && mentions_any(names[i], kws)
            && forall|j: int| 0 <= j < i ==> !mentions_any(names[j], kws))
    } else if names.len() > 0 {
        Some(0)
    } else {
        None
    }
}

fn mentions(name: &str, words: &Vec<&'static str>) -> (r: bool)
    ensures
        r == mentions_any(name@, words@.map_values(|k: &str| k@)),
{
    let ghost ws = words@.map_values(|k: &str| k@);
    let mut k: usize = 0;
    while k < words.len()
        invariant
            k <= words@.len(),
            ws == words@.map_values(|k: &str| k@),
            forall|j: int| 0 <= j < k ==> !seq_contains(name@, #[trigger] ws[j]),
        decreases words@.len() - k,
    {
        if str_contains(name, words[k]) {
            assert(seq_contains(name@, ws[k as int]));
            return true;
        }
        k = k + 1;
    }
    false
}

/// The position of the asset to download, given the lower-cased asset names.
pub fn choose_asset(lowered_names: &Vec<String>, os: TargetOs) -> (r: Option<usize>)
    ensures
        r is Some <==> chosen_asset(lowered_names@.map_values(|s: String| s@), os) is Some,
        r is Some ==> r->Some_0 as int == chosen_asset(lowered_names@.map_values(|s: String| s@), os)->Some_0,
        r is Some ==> r->Some_0 < lowered_names@.len(),
{
    let ghost names = lowered_names@.map_values(|s: String| s@);
    let ghost kws = platform_keywords(os);
    let words = keywords(os);
    let mut i: usize = 0;
    while i < lowered_names.len()
        invariant
            i <= lowered_names@.len(),
            names == lowered_names@.map_values(|s: String| s@),
            kws == platform_keywords(os),
            words@.map_values(|k: &str| k@) == kws,
            forall|j: int| 0 <= j < i ==> !mentions_any(#[trigger] names[j], kws),
        decreases lowered_names@.len() - i,
    {
        if mentions(lowered_names[i].as_str(), &words) {
            assert(chosen_asset(names, os) == Some(i as int)) by {
                assert(mentions_any(names[i as int], kws));
                let p = choose|p: int| 0 <= p < names.len() && mentions_any(names[p], kws)
                    && forall|j: int| 0 <= j < p ==> !mentions_any(names[j], kws);
                assert(p == i as int);
            }
            return Some(i);
        }
        i = i + 1;
    }
    if lowered_names.len() > 0 {
        Some(0)
    } else {
        None
    }
}

/// The lower-cased names of `assets`.
pub open spec fn lowered_names(assets: Seq<ReleaseAsset>) -> Seq<Seq<char>> {
    assets.map_values(|a: ReleaseAsset| lower_of(a.name@))
}

/// The lower-cased names of `assets`.
fn lower_names(assets: &Vec<ReleaseAsset>) -> (lowered: Vec<String>)
    ensures
        lowered@.map_values(|s: String| s@) == lowered_names(assets@),
{
    let mut lowered: Vec<String> = Vec::new();
    let mut i: usize = 0;
    while i < assets.len()
        invariant
            i <= assets@.len(),
            lowered@.map_values(|s: String| s@) == lowered_names(assets@).subrange(0, i as int),
        decreases assets@.len() - i,
    {
        let ghost before = lowered@.map_values(|s: String| s@);
        let l = lowercase(assets[i].name.as_str());
        let ghost lv = l@;
        lowered.push(l);
        assert(lowered@.map_values(|s: String| s@) =~= before.push(lv));
        assert(lowered_names(assets@).subrange(0, i + 1)
            =~= lowered_names(assets@).subrange(0, i as int).push(lower_of(assets@[i as int].name@)));
        i = i + 1;
    }
    assert(lowered_names(assets@).subrange(0, assets@.len() as int) =~= lowered_names(assets@));
    lowered
}

/// `s` without one leading `v`.
pub open spec fn without_v(s: Seq<char>) -> Seq<char> {
    if s.len() > 0 && s[0] == 'v' { s.drop_first() } else { s }
}

/// `s` without one leading `v`.
pub fn strip_v(s: &str) -> (r: String)
    ensures
        r@ == without_v(s@),
{
    let n = s.unicode_len();
    if n > 0 && s.get_char(0) == 'v' {
        let rest = s.substring_char(1, n);
        assert(rest@ =~= s@.drop_first());
        String::from_str(rest)
    } else {
        String::from_str(s)
    }
}

/// Checks for updates of one repository's releases.
pub struct AppUpdater {
    repo_owner: String,
    repo_name: String,
    current_version: String,
}

impl AppUpdater {
    /// The owner of the repository.
    pub closed spec fn owner(&self) -> Seq<char> {
        self.repo_owner@
    }

    /// The repository's name.
    pub closed spec fn name(&self) -> Seq<char> {
        self.repo_name@
    }

    /// The running version.
    pub closed spec fn version(&self) -> Seq<char> {
        self.current_version@
    }

    /// An updater for `repo_owner/repo_name`, running `current_version`.
    pub fn new(repo_owner: &str, repo_name: &str, current_version: &str) -> (r: AppUpdater)
        ensures
            r.owner() == repo_owner@,
            r.name() == repo_name@,
            r.version() == current_version@,
    {
        AppUpdater {
            repo_owner: String::from_str(repo_owner),
            repo_name: String::from_str(repo_name),
            current_version: String::from_str(current_version),
        }
    }

    /// The web page that lists the repository's releases.
    pub fn get_changelog_url(&self) -> (r: String)
        ensures
            r@ == "https://github.com/"@ + self.owner() + "/"@ + self.name() + "/releases"@,
    {
        let mut r = String::from_str("https://github.com/");
        push_str(&mut r, self.repo_owner.as_str());
        push_str(&mut r, "/");
        push_str(&mut r, self.repo_name.as_str());
        push_str(&mut r, "/releases");
        r
    }

    /// The API address that describes the repository's latest release.
    pub fn latest_release_url(&self) -> (r: String)
        ensures
            r@ == "https://api.github.com/repos/"@ + self.owner() + "/"@ + self.name() + "/releases/latest"@,
    {
        let mut r = String::from_str("https://api.github.com/repos/");
        push_str(&mut r, self.repo_owner.as_str());
        push_str(&mut r, "/");
        push_str(&mut r, self.repo_name.as_str());
        push_str(&mut r, "/releases/latest");
        r
    }

    /// Whether `latest` is a later version than `current`; both must be
    /// semantic versions.
    pub fn is_newer_version(&self, latest: &str, current: &str) -> (r: Result<bool, UpdateError>)
        ensures
            r is Ok <==> semver_valid(latest@) && semver_valid(current@),
            r is Ok ==> r->Ok_0 == semver_newer(latest@, current@),
            r is Err ==> r->Err_0 == UpdateError::InvalidVersion,
    {
        match compare_versions(latest, current) {
            Some(newer) => Ok(newer),
            None => Err(UpdateError::InvalidVersion),
        }
    }

    /// The download for `os` among `assets`: the first whose lower-cased
    /// name mentions one of the platform's keywords, else the first asset.
    pub fn get_download_url(&self, assets: &Vec<ReleaseAsset>, os: TargetOs) -> (r: Result<String, UpdateError>)
        ensures
            r is Ok <==> assets@.len() > 0,
            r is Err ==> r->Err_0 == UpdateError::NoSuitableAsset,
            r is Ok ==> r->Ok_0@ == assets@[chosen_asset(lowered_names(assets@), os)->Some_0].browser_download_url@,
    {
        let lowered = lower_names(assets);
        let ghost names = lowered_names(assets@);
        assert(lowered@.len() == assets@.len());
        let chosen = choose_asset(&lowered, os);
        assert(lowered@.map_values(|s: String| s@) == names);
        match chosen {
            Some(k) => Ok(assets[k].browser_download_url.clone()),
            None => Err(UpdateError::NoSuitableAsset),
        }
    }

    /// What the release tagged `tag_name`, with notes `body` and files
    /// `assets`, offers: its version and the running one without a leading
    /// `v`, whether it is newer, and the download for `os`.
    pub fn update_info_from_release(
        &self,
        tag_name: &str,
        body: &str,
        assets: &Vec<ReleaseAsset>,
        os: TargetOs,
    ) -> (r: Result<UpdateInfo, UpdateError>)
        ensures
            !(semver_valid(without_v(tag_name@)) && semver_valid(without_v(self.version())))
                ==> r == Err::<UpdateInfo, UpdateError>(UpdateError::InvalidVersion),
            semver_valid(without_v(tag_name@)) && semver_valid(without_v(self.version())) && assets@.len() == 0
                ==> r == Err::<UpdateInfo, UpdateError>(UpdateError::NoSuitableAsset),
            r is Ok ==> {
                let info = r->Ok_0;
                &&& info.latest_version@ == without_v(tag_name@)
                &&& info.current_version@ == without_v(self.version())
                &&& info.update_available == semver_newer(without_v(tag_name@), without_v(self.version()))
                &&& info.download_url@
                    == assets@[chosen_asset(lowered_names(assets@), os)->Some_0].browser_download_url@
                &&& info.release_notes@ == body@
            },
            r is Ok <==> semver_valid(without_v(tag_name@)) && semver_valid(without_v(self.version()))
                && assets@.len() > 0,
    {
        let latest = strip_v(tag_name);
        let current = strip_v(self.current_version.as_str());
        let update_available = self.is_newer_version(latest.as_str(), current.as_str())?;
        let download_url = self.get_download_url(assets, os)?;
        Ok(UpdateInfo {
            current_version: current,
            latest_version: latest,
            update_available,
            download_url,
            release_notes: String::from_str(body),
        })
    }
}

} // verus!
