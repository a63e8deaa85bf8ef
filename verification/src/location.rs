//! Where each configuration file lives: a base directory that the platform
//! reports, followed by path segments that this library chooses.

use vstd::prelude::*;
use std::path::PathBuf;

verus! {

#[verifier::external_type_specification]
#[verifier::external_body]
pub struct ExPathBuf(PathBuf);

/// Where a location's base directory came from.
pub enum BaseOrigin {
    /// The user's home directory, as the platform reported it.
    Home,
    /// Roaming AppData, as the platform reported it.
    AppData,
    /// A path handed in.
    Given,
}

/// A base directory followed by relative path segments.
pub struct Location {
    pub base: PathBuf,
    pub segments: Vec<String>,
    /// Where the base came from (ghost: it holds nothing at run time).
    pub origin: Ghost<BaseOrigin>,
}

impl Location {
    /// Where this location's base came from.
    pub open spec fn origin(&self) -> BaseOrigin {
        self.origin@
    }
}

/// The meaning of a location: its base and the text of each segment.
pub struct LocationView {
    pub base: PathBuf,
    pub segments: Seq<Seq<char>>,
}

impl View for Location {
    type V = LocationView;

    open spec fn view(&self) -> LocationView {
        LocationView { base: self.base, segments: self.segments@.map_values(|s: String| s@) }
    }
}

/// The location `base` followed by `segments`.
pub open spec fn located(base: PathBuf, segments: Seq<Seq<char>>) -> LocationView {
    LocationView { base, segments }
}

/// `l` followed by `more`.
pub open spec fn extended(l: LocationView, more: Seq<Seq<char>>) -> LocationView {
    LocationView { base: l.base, segments: l.segments + more }
}

/// `l` (if any) followed by `more`.
pub open spec fn extended_opt(l: Option<LocationView>, more: Seq<Seq<char>>) -> Option<LocationView> {
    match l {
        Some(l) => Some(extended(l, more)),
        None => None,
    }
}

/// The meaning of an optional location.
pub open spec fn opt_location(l: Option<Location>) -> Option<LocationView> {
    match l {
        Some(l) => Some(l@),
        None => None,
    }
}

/// Names the path that `PathBuf::from` makes of a text.
pub uninterp spec fn path_of(s: Seq<char>) -> PathBuf;

// ---------------------------------------------------------------------------
// Trusted calls
// ---------------------------------------------------------------------------

/// Calls `dirs::home_dir`: the user's home directory, if the platform
/// reports one. Nothing is promised of the result, which depends on the
/// environment.
#[verifier::external_body]
fn platform_home_dir() -> Option<PathBuf> {
    dirs::home_dir()
}

/// Calls `dirs::config_dir`: the user's configuration directory (roaming
/// AppData on Windows), if the platform reports one. Nothing is promised of
/// the result, which depends on the environment.
#[verifier::external_body]
fn platform_config_dir() -> Option<PathBuf> {
    dirs::config_dir()
}

/// Calls `Path::is_absolute`. What counts as absolute differs between
/// platforms, so nothing is promised of the result.
#[verifier::external_body]
fn path_is_absolute(p: &PathBuf) -> bool {
    p.is_absolute()
}

/// Calls `PathBuf::from` on a text; the result is the named path of the text.
#[verifier::external_body]
fn path_from(s: &str) -> (p: PathBuf)
    ensures
        p == path_of(s@),
{
    PathBuf::from(s)
}

/// Calls `PathBuf::clone`, which gives back an equal path.
#[verifier::external_body]
fn clone_path(p: &PathBuf) -> (r: PathBuf)
    ensures
        r == *p,
{
    p.clone()
}

// ---------------------------------------------------------------------------
// Locations
// ---------------------------------------------------------------------------

impl Location {
    /// The directory `base` itself.
    pub fn at(base: PathBuf) -> (l: Location)
        ensures
            l@ == located(base, seq![]),
            l.origin() == BaseOrigin::Given,
    {
        let l = Location { base, segments: Vec::new(), origin: Ghost(BaseOrigin::Given) };
        assert(l@.segments =~= seq![]);
        l
    }

    /// This location followed by the segment `segment`.
    pub fn join(self, segment: &str) -> (l: Location)
        ensures
            l@ == extended(self@, seq![segment@]),
            l.origin() == self.origin(),
    {
        let mut segments = self.segments;
        let ghost before = segments@;
        segments.push(segment.to_string());
        let l = Location { base: self.base, segments, origin: self.origin };
        assert(l@.segments =~= self@.segments + seq![segment@]);
        l
    }

    /// A copy of this location.
    pub fn copy(&self) -> (l: Location)
        ensures
            l@ == self@,
            l.origin() == self.origin(),
    {
        let mut segments: Vec<String> = Vec::new();
        let mut i: usize = 0;
        while i < self.segments.len()
            invariant
                i <= self.segments@.len(),
                segments@ == self.segments@.take(i as int),
            decreases self.segments.len() - i,
        {
            let s = self.segments[i].clone();
            segments.push(s);
            i = i + 1;
            assert(segments@ =~= self.segments@.take(i as int));
        }
        assert(self.segments@.take(self.segments@.len() as int) =~= self.segments@);
        Location { base: clone_path(&self.base), segments, origin: Ghost(self.origin@) }
    }
}

/// The user's home directory, as the platform reports it.
pub fn home() -> (r: Option<Location>)
    ensures
        r matches Some(l) ==> l@.segments == Seq::<Seq<char>>::empty() && l.origin()
            == BaseOrigin::Home,
{
    match platform_home_dir() {
        Some(p) => Some(Location { base: p, segments: Vec::new(), origin: Ghost(BaseOrigin::Home) }),
        None => None,
    }
}

/// Roaming AppData (`%APPDATA%`), as the platform reports it.
pub fn appdata() -> (r: Option<Location>)
    ensures
        r matches Some(l) ==> l@.segments == Seq::<Seq<char>>::empty() && l.origin()
            == BaseOrigin::AppData,
{
    match platform_config_dir() {
        Some(p) => Some(
            Location { base: p, segments: Vec::new(), origin: Ghost(BaseOrigin::AppData) },
        ),
        None => None,
    }
}

/// The configuration home for a given value of `$XDG_CONFIG_HOME` (when
/// set), whether that value is an absolute path, and the home directory.
pub open spec fn config_home_view(
    xdg: Option<Seq<char>>,
    xdg_absolute: bool,
    home: Option<LocationView>,
) -> Option<LocationView> {
    match xdg {
        Some(x) if x.len() > 0 && xdg_absolute => Some(located(path_of(x), seq![])),
        _ => extended_opt(home, seq![".config"@]),
    }
}

/// `$XDG_CONFIG_HOME` when it is set, not empty and absolute, else
/// `<home>/.config` (see [`config_home_view`]).
pub fn config_home_from(xdg: Option<String>, xdg_absolute: bool, home: Option<Location>) -> (r:
    Option<Location>)
    ensures
        opt_location(r) == config_home_view(
            match xdg {
                Some(x) => Some(x@),
                None => None,
            },
            xdg_absolute,
            opt_location(home),
        ),
        r matches Some(l) ==> if (xdg matches Some(x) && x@.len() > 0 && xdg_absolute) {
            l.origin() == BaseOrigin::Given
        } else {
            home matches Some(h) && l.origin() == h.origin()
        },
{
    if let Some(x) = &xdg {
        if !x.as_str().is_empty() && xdg_absolute {
            return Some(Location::at(path_from(x.as_str())));
        }
    }
    match home {
        Some(h) => Some(h.join(".config")),
        None => None,
    }
}

/// The configuration home: `$XDG_CONFIG_HOME` (the value handed in, when the
/// variable is set) if it is not empty and is an absolute path, else
/// `<home>/.config`.
pub fn config_home(xdg: Option<String>) -> (r: Option<Location>)
    ensures
        r matches Some(l) ==> (xdg matches Some(x) && x@.len() > 0 && l@ == located(
            path_of(x@),
            seq![],
        ) && l.origin() == BaseOrigin::Given) || (l@.segments == seq![".config"@] && l.origin()
            == BaseOrigin::Home),
        !(xdg matches Some(x) && x@.len() > 0) ==> (r matches Some(l) ==> l@.segments == seq![
            ".config"@,
        ] && l.origin() == BaseOrigin::Home),
{
    let absolute = match &xdg {
        Some(x) => path_is_absolute(&path_from(x.as_str())),
        None => false,
    };
    config_home_from(xdg, absolute, home())
}

/// opencode's configuration file: `<config home>/opencode/opencode.json`.
pub fn opencode_path(config_home: Option<Location>) -> (r: Option<Location>)
    ensures
        opt_location(r) == extended_opt(
            opt_location(config_home),
            seq!["opencode"@, "opencode.json"@],
        ),
        r matches Some(l) ==> config_home matches Some(c) && l.origin() == c.origin(),
{
    match config_home {
        Some(c) => {
            let l = c.join("opencode").join("opencode.json");
            assert(l@.segments =~= c@.segments + seq!["opencode"@, "opencode.json"@]);
            Some(l)
        },
        None => None,
    }
}

/// Codex's directory: `<home>/.codex`.
pub fn codex_dir(home: Option<Location>) -> (r: Option<Location>)
    ensures
        opt_location(r) == extended_opt(opt_location(home), seq![".codex"@]),
        r matches Some(l) ==> home matches Some(c) && l.origin() == c.origin(),
{
    match home {
        Some(h) => Some(h.join(".codex")),
        None => None,
    }
}

/// cline's data directory: `<home>/.cline/data`.
pub fn cline_dir(home: Option<Location>) -> (r: Option<Location>)
    ensures
        opt_location(r) == extended_opt(opt_location(home), seq![".cline"@, "data"@]),
        r matches Some(l) ==> home matches Some(c) && l.origin() == c.origin(),
{
    match home {
        Some(h) => {
            let l = h.join(".cline").join("data");
            assert(l@.segments =~= h@.segments + seq![".cline"@, "data"@]);
            Some(l)
        },
        None => None,
    }
}

/// kilo's configuration file: `<config home>/kilo/kilo.jsonc`.
pub fn kilo_path(config_home: Option<Location>) -> (r: Option<Location>)
    ensures
        opt_location(r) == extended_opt(opt_location(config_home), seq!["kilo"@, "kilo.jsonc"@]),
        r matches Some(l) ==> config_home matches Some(c) && l.origin() == c.origin(),
{
    match config_home {
        Some(c) => {
            let l = c.join("kilo").join("kilo.jsonc");
            assert(l@.segments =~= c@.segments + seq!["kilo"@, "kilo.jsonc"@]);
            Some(l)
        },
        None => None,
    }
}

/// pi's model file: `<home>/.pi/agent/models.json`.
pub fn pi_path(home: Option<Location>) -> (r: Option<Location>)
    ensures
        opt_location(r) == extended_opt(opt_location(home), seq![".pi"@, "agent"@, "models.json"@]),
        r matches Some(l) ==> home matches Some(c) && l.origin() == c.origin(),
{
    match home {
        Some(h) => {
            let l = h.join(".pi").join("agent").join("models.json");
            assert(l@.segments =~= h@.segments + seq![".pi"@, "agent"@, "models.json"@]);
            Some(l)
        },
        None => None,
    }
}

// ---------------------------------------------------------------------------
// VS Code family
// ---------------------------------------------------------------------------

/// The VS Code-family applications, in the order they are looked for.
pub open spec fn vscode_apps() -> Seq<Seq<char>> {
    seq!["Code"@, "Code - Insiders"@, "VSCodium"@, "Cursor"@, "Windsurf"@]
}

/// The VS Code-family applications, in the order they are looked for.
pub fn vscode_app_names() -> (v: Vec<&'static str>)
    ensures
        v@.map_values(|s: &str| s@) == vscode_apps(),
{
    let v = vec!["Code", "Code - Insiders", "VSCodium", "Cursor", "Windsurf"];
    assert(v@.map_values(|s: &str| s@) =~= vscode_apps());
    v
}

/// The user directory of an application under `%APPDATA%`.
pub open spec fn vscode_user_dir(appdata: LocationView, app: Seq<char>) -> LocationView {
    extended(appdata, seq![app, "User"@])
}

/// The user directories to look for, one per application of
/// [`vscode_apps`], in the same order.
pub fn vscode_candidates(appdata: &Location) -> (v: Vec<Location>)
    ensures
        v@.len() == vscode_apps().len(),
        forall|i: int|
            0 <= i < v@.len() ==> (#[trigger] v@[i])@ == vscode_user_dir(appdata@, vscode_apps()[i]),
{
    let names = vscode_app_names();
    let mut v: Vec<Location> = Vec::new();
    let mut i: usize = 0;
    while i < names.len()
        invariant
            names@.map_values(|s: &str| s@) == vscode_apps(),
            names@.len() == vscode_apps().len(),
            i <= names@.len(),
            v@.len() == i,
            forall|j: int|
                0 <= j < i ==> (#[trigger] v@[j])@ == vscode_user_dir(appdata@, vscode_apps()[j]),
        decreases names.len() - i,
    {
        let name = names[i];
        assert(name@ == vscode_apps()[i as int]);
        let l = appdata.copy().join(name).join("User");
        assert(l@.segments =~= appdata@.segments + seq![name@, "User"@]);
        v.push(l);
        i = i + 1;
    }
    v
}

/// Resolves the VS Code-family user directory under `%APPDATA%`, the
/// application's name, and whether any family directory exists: the first
/// application whose user directory exists, or else `Code` with `false`.
/// `present[i]` says whether the user directory of application `i` (in the
/// order of [`vscode_apps`]) exists.
pub fn vscode_app(appdata: Option<Location>, present: &Vec<bool>) -> (r: Option<
    (Location, String, bool),
>)
    requires
        present@.len() == vscode_apps().len(),
    ensures
        r is Some <==> appdata is Some,
        r matches Some((l, name, installed)) ==> {
            &&& appdata matches Some(base)
            &&& if installed {
                exists|i: int|
                    0 <= i < present@.len() && present@[i] && (forall|j: int|
                        0 <= j < i ==> !#[trigger] present@[j]) && l@ == vscode_user_dir(
                        base@,
                        vscode_apps()[i],
                    ) && name@ == vscode_apps()[i]
            } else {
                &&& forall|i: int| 0 <= i < present@.len() ==> !#[trigger] present@[i]
                &&& l@ == vscode_user_dir(base@, "Code"@)
                &&& name@ == "Code"@
            }
        },
{
    match appdata {
        None => None,
        Some(base) => {
            let names = vscode_app_names();
            let mut i: usize = 0;
            #[verifier::loop_isolation(false)]
            while i < names.len()
                invariant
                    names@.map_values(|s: &str| s@) == vscode_apps(),
                    names@.len() == present@.len(),
                    i <= names@.len(),
                    forall|j: int| 0 <= j < i ==> !#[trigger] present@[j],
                decreases names.len() - i,
            {
                if present[i] {
                    let name = names[i];
                    assert(name@ == vscode_apps()[i as int]);
                    let l = base.join(name).join("User");
                    assert(l@.segments =~= base@.segments + seq![name@, "User"@]);
                    return Some((l, name.to_string(), true));
                }
                i = i + 1;
            }
            let l = base.join("Code").join("User");
            assert(l@.segments =~= base@.segments + seq!["Code"@, "User"@]);
            Some((l, "Code".to_string(), false))
        },
    }
}

} // verus!
