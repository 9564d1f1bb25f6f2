//! The registry of tracked files and the storage settings.

use vstd::prelude::*;

use crate::error::SyncError;
use crate::text::push_str;

verus! {

/// The mapping from alias to path that a registry denotes.
pub type TrackMap = Map<Seq<char>, Seq<char>>;

/// Where backups are kept.
#[derive(Debug, Clone)]
pub struct Storage {
    /// Whether backups stay on this machine only.
    pub local: bool,
    /// The remote repository, when backups are not local.
    pub repo_url: String,
    /// The profile that backups go to.
    pub profile: Option<String>,
}

/// The tracked files: each alias with the absolute path it stands for.
#[derive(Debug, Clone)]
pub struct Tracking {
    file_map: Vec<(String, String)>,
}

/// The view of the pairs held by a registry.
pub open spec fn pair_views(v: Seq<(String, String)>) -> Seq<(Seq<char>, Seq<char>)> {
    v.map_values(|e: (String, String)| (e.0@, e.1@))
}

/// The mapping that a sequence of pairs denotes, later pairs overriding earlier ones.
pub open spec fn map_of(s: Seq<(Seq<char>, Seq<char>)>) -> TrackMap
    decreases s.len(),
{
    if s.len() == 0 {
        Map::empty()
    } else {
        map_of(s.drop_last()).insert(s.last().0, s.last().1)
    }
}

/// No alias occurs twice.
pub open spec fn unique_aliases(s: Seq<(Seq<char>, Seq<char>)>) -> bool {
    forall|i: int, j: int| 0 <= i < s.len() && 0 <= j < s.len() && i != j ==> s[i].0 != s[j].0
}

/// Some alias of `m` stands for `path`.
pub open spec fn tracks_path(m: TrackMap, path: Seq<char>) -> bool {
    exists|a: Seq<char>| #[trigger] m.contains_key(a) && m[a] == path
}

proof fn lemma_map_of_keys(s: Seq<(Seq<char>, Seq<char>)>, a: Seq<char>)
    ensures
        map_of(s).contains_key(a) <==> exists|i: int| 0 <= i < s.len() && #[trigger] s[i].0 == a,
    decreases s.len(),
{
    if s.len() > 0 {
        lemma_map_of_keys(s.drop_last(), a);
        if exists|i: int| 0 <= i < s.len() && #[trigger] s[i].0 == a {
            let i = choose|i: int| 0 <= i < s.len() && #[trigger] s[i].0 == a;
            if i < s.len() - 1 {
                assert(s.drop_last()[i].0 == a);
            }
        }
        if exists|i: int| 0 <= i < s.len() - 1 && #[trigger] s.drop_last()[i].0 == a {
            let i = choose|i: int| 0 <= i < s.len() - 1 && #[trigger] s.drop_last()[i].0 == a;
            assert(s[i].0 == a);
        }
    }
}

proof fn lemma_map_of_value(s: Seq<(Seq<char>, Seq<char>)>, i: int)
    requires
        unique_aliases(s),
        0 <= i < s.len(),
    ensures
        map_of(s).contains_key(s[i].0),
        map_of(s)[s[i].0] == s[i].1,
    decreases s.len(),
{
    if i < s.len() - 1 {
        lemma_map_of_value(s.drop_last(), i);
        assert(s.drop_last()[i] == s[i]);
    }
}

proof fn lemma_map_of_remove(s: Seq<(Seq<char>, Seq<char>)>, i: int)
    requires
        unique_aliases(s),
        0 <= i < s.len(),
    ensures
        map_of(s.remove(i)) == map_of(s).remove(s[i].0),
        unique_aliases(s.remove(i)),
    decreases s.len(),
{
    let r = s.remove(i);
    if i == s.len() - 1 {
        assert(r =~= s.drop_last());
        lemma_map_of_keys(r, s[i].0);
        assert(map_of(r) =~= map_of(s).remove(s[i].0));
    } else {
        lemma_map_of_remove(s.drop_last(), i);
        assert(r.drop_last() =~= s.drop_last().remove(i));
        assert(r.last() == s.last());
        assert(map_of(r) =~= map_of(s).remove(s[i].0));
    }
}

impl Tracking {
    /// The pairs held, as views.
    pub closed spec fn pairs(&self) -> Seq<(Seq<char>, Seq<char>)> {
        pair_views(self.file_map@)
    }

    /// The mapping from alias to path.
    pub closed spec fn spec_map(&self) -> TrackMap {
        map_of(self.pairs())
    }

    /// Each alias is held once.
    pub closed spec fn wf(&self) -> bool {
        unique_aliases(self.pairs())
    }

    /// An empty registry.
    pub fn new() -> (r: Tracking)
        ensures
            r.wf(),
            r.pairs() == Seq::<(Seq<char>, Seq<char>)>::empty(),
            r.spec_map() == TrackMap::empty(),
    {
        let r = Tracking { file_map: Vec::new() };
        assert(r.pairs() =~= Seq::empty());
        r
    }

    /// Builds a registry from alias/path pairs; fails with `DuplicateAlias`
    /// when an alias occurs twice.
    pub fn from_pairs(pairs: Vec<(String, String)>) -> (r: Result<Tracking, SyncError>)
        ensures
            r is Ok <==> unique_aliases(pair_views(pairs@)),
            r is Err ==> r == Err::<Tracking, SyncError>(SyncError::DuplicateAlias),
            r matches Ok(t) ==> t.wf() && t.spec_map() == map_of(pair_views(pairs@)),
    {
        let mut t = Tracking::new();
        let n = pairs.len();
        let mut i: usize = 0;
        assert(pair_views(pairs@).take(0) =~= Seq::empty());
        while i < n
            invariant
                n == pairs@.len(),
                i <= n,
                t.wf(),
                t.pairs() == pair_views(pairs@).take(i as int),
                unique_aliases(pair_views(pairs@).take(i as int)),
            decreases n - i,
        {
            let (a, p) = (pairs[i].0.clone(), pairs[i].1.clone());
            if t.index_of(&a).is_some() {
                proof {
                    let w = pair_views(pairs@);
                    let j = choose|j: int| 0 <= j < i && #[trigger] w[j].0 == a@;
                    assert(w.take(i as int)[j].0 == w[j].0);
                    assert(w[j].0 == w[i as int].0);
                }
                return Err(SyncError::DuplicateAlias);
            }
            t.push_pair(a, p);
            proof {
                let w = pair_views(pairs@);
                assert(w.take(i + 1) =~= w.take(i as int).push(w[i as int]));
            }
            i = i + 1;
        }
        proof {
            assert(pair_views(pairs@).take(n as int) =~= pair_views(pairs@));
        }
        Ok(t)
    }

    /// The pairs held, each alias once.
    pub fn entries(&self) -> (r: &Vec<(String, String)>)
        requires
            self.wf(),
        ensures
            unique_aliases(pair_views(r@)),
            map_of(pair_views(r@)) == self.spec_map(),
    {
        &self.file_map
    }

    fn push_pair(&mut self, alias: String, path: String)
        ensures
            final(self).pairs() == old(self).pairs().push((alias@, path@)),
    {
        self.file_map.push((alias, path));
        proof {
            assert(self.pairs() =~= old(self).pairs().push((alias@, path@)));
        }
    }

    /// The position of `alias`, if it is held.
    fn index_of(&self, alias: &String) -> (r: Option<usize>)
        ensures
            r matches Some(i) ==> i < self.pairs().len() && self.pairs()[i as int].0 == alias@,
            r is None ==> forall|j: int| 0 <= j < self.pairs().len() ==> #[trigger] self.pairs()[j].0 != alias@,
            r is None <==> !(exists|j: int| 0 <= j < self.pairs().len() && #[trigger] self.pairs()[j].0 == alias@),
    {
        let n = self.file_map.len();
        let mut i: usize = 0;
        while i < n
            invariant
                n == self.file_map@.len(),
                i <= n,
                forall|j: int| 0 <= j < i ==> #[trigger] self.pairs()[j].0 != alias@,
            decreases n - i,
        {
            if self.file_map[i].0 == *alias {
                assert(self.pairs()[i as int].0 == self.file_map@[i as int].0@);
                return Some(i);
            }
            i = i + 1;
        }
        None
    }

    /// Whether `alias` is tracked.
    pub fn contains_alias(&self, alias: &String) -> (r: bool)
        ensures
            r == self.spec_map().contains_key(alias@),
    {
        proof { lemma_map_of_keys(self.pairs(), alias@); }
        self.index_of(alias).is_some()
    }

    /// The path tracked under `alias`.
    pub fn get(&self, alias: &String) -> (r: Option<&String>)
        requires
            self.wf(),
        ensures
            r is Some <==> self.spec_map().contains_key(alias@),
            r matches Some(p) ==> p@ == self.spec_map()[alias@],
    {
        proof { lemma_map_of_keys(self.pairs(), alias@); }
        match self.index_of(alias) {
            Some(i) => {
                proof { lemma_map_of_value(self.pairs(), i as int); }
                Some(&self.file_map[i].1)
            },
            None => None,
        }
    }

    /// Whether some alias stands for `path`.
    pub fn tracks(&self, path: &String) -> (r: bool)
        requires
            self.wf(),
        ensures
            r == tracks_path(self.spec_map(), path@),
    {
        let n = self.file_map.len();
        let mut i: usize = 0;
        while i < n
            invariant
                n == self.file_map@.len(),
                i <= n,
                self.wf(),
                forall|j: int| 0 <= j < i ==> #[trigger] self.pairs()[j].1 != path@,
            decreases n - i,
        {
            if self.file_map[i].1 == *path {
                proof {
                    lemma_map_of_value(self.pairs(), i as int);
                    let a = self.pairs()[i as int].0;
                    assert(self.spec_map().contains_key(a));
                }
                return true;
            }
            i = i + 1;
        }
        proof {
            if tracks_path(self.spec_map(), path@) {
                let a = choose|a: Seq<char>| #[trigger] self.spec_map().contains_key(a) && self.spec_map()[a] == path@;
                lemma_map_of_keys(self.pairs(), a);
                let j = choose|j: int| 0 <= j < self.pairs().len() && #[trigger] self.pairs()[j].0 == a;
                lemma_map_of_value(self.pairs(), j);
            }
        }
        false
    }

    /// Adds `alias` for `path`; the alias must be new.
    fn insert_new(&mut self, alias: String, path: String)
        requires
            old(self).wf(),
            !old(self).spec_map().contains_key(alias@),
        ensures
            final(self).wf(),
            final(self).spec_map() == old(self).spec_map().insert(alias@, path@),
    {
        proof { lemma_map_of_keys(self.pairs(), alias@); }
        let ghost before = self.pairs();
        self.push_pair(alias, path);
        proof {
            let s = self.pairs();
            assert(s.drop_last() =~= before);
            assert forall|i: int, j: int| 0 <= i < s.len() && 0 <= j < s.len() && i != j implies s[i].0 != s[j].0 by {
                if i < before.len() && j < before.len() {
                    assert(s[i] == before[i] && s[j] == before[j]);
                } else if i < before.len() {
                    assert(s[i] == before[i]);
                } else {
                    assert(s[j] == before[j]);
                }
            }
        }
    }

    /// Removes `alias`; tells whether it was there.
    fn remove(&mut self, alias: &String) -> (r: bool)
        requires
            old(self).wf(),
        ensures
            final(self).wf(),
            r == old(self).spec_map().contains_key(alias@),
            final(self).spec_map() == old(self).spec_map().remove(alias@),
    {
        proof { lemma_map_of_keys(self.pairs(), alias@); }
        match self.index_of(alias) {
            Some(i) => {
                let ghost before = self.pairs();
                self.file_map.remove(i);
                proof {
                    assert(self.pairs() =~= before.remove(i as int));
                    lemma_map_of_remove(before, i as int);
                }
                true
            },
            None => {
                proof { assert(self.spec_map().remove(alias@) =~= self.spec_map()); }
                false
            },
        }
    }
}

/// The whole configuration document.
#[derive(Debug, Clone)]
pub struct Config {
    pub storage: Storage,
    pub tracking: Tracking,
}

/// What the file system reports of a path given to be tracked: absent, or
/// its canonical absolute form and whether it is a regular file.
#[derive(Debug, Clone)]
pub enum PathProbe {
    /// Nothing exists at the path.
    Missing,
    /// The path exists but is not a regular file.
    NotAFile(String),
    /// The path is a regular file.
    File(String),
}

/// What was found where the configuration document is stored.
#[derive(Debug, Clone)]
pub enum StoredConfig {
    /// No document is stored.
    Absent,
    /// The document exists but could not be read; the cause.
    Unreadable(String),
    /// The document was read but is not a valid configuration; the cause.
    Malformed(String),
    /// The document was read and parsed.
    Parsed(Config),
}

/// The registry that adding `alias` for the probed path yields, or the error.
pub open spec fn add_outcome(m: TrackMap, probe: PathProbe, alias: Seq<char>) -> Result<TrackMap, SyncError> {
    match probe {
        PathProbe::Missing => Err(SyncError::NotFound),
        PathProbe::NotAFile(_) => Err(SyncError::NotAFile),
        PathProbe::File(p) => if tracks_path(m, p@) {
            Err(SyncError::DuplicatePath)
        } else if m.contains_key(alias) {
            Err(SyncError::DuplicateAlias)
        } else {
            Ok(m.insert(alias, p@))
        },
    }
}

/// The path that `alias` resolves to in `m`, or `NotFound`.
pub open spec fn resolve_outcome(m: TrackMap, alias: Seq<char>) -> Result<Seq<char>, SyncError> {
    if m.contains_key(alias) {
        Ok(m[alias])
    } else {
        Err(SyncError::NotFound)
    }
}

/// The shape of a freshly created document: local storage, no remote, the
/// default profile, and the document tracking itself under `"confsync"`.
pub open spec fn is_initial(c: Config, self_path: Seq<char>) -> bool {
    &&& c.storage.local
    &&& c.storage.repo_url@ == Seq::<char>::empty()
    &&& c.storage.profile matches Some(p) && p@ == "default"@
    &&& c.tracking.wf()
    &&& c.tracking.spec_map() == TrackMap::empty().insert("confsync"@, self_path)
}

/// Relies on directories::ProjectDirs::from and ProjectDirs::config_dir: the
/// platform's configuration directory for this program, which depends on the
/// user's environment; `None` where no home directory is known or the path
/// is not valid UTF-8.
#[verifier::external_body]
fn config_dir() -> (r: Option<String>) {
    directories::ProjectDirs::from("", "", "confsync")?.config_dir().to_str().map(String::from)
}

/// The path of the configuration document in the directory `dir`.
pub fn config_file_in(dir: &str) -> (r: String)
    ensures
        r@ == dir@ + "/config.toml"@,
{
    let mut p = String::new();
    push_str(&mut p, dir);
    push_str(&mut p, "/config.toml");
    p
}

/// The path of the configuration document: `config.toml` in the platform's
/// configuration directory for this program, where one is known.
pub fn default_config_path() -> (r: Option<String>)
    ensures
        r matches Some(p) ==> exists|dir: Seq<char>| p@ == dir + "/config.toml"@,
{
    match config_dir() {
        Some(dir) => Some(config_file_in(dir.as_str())),
        None => None,
    }
}

impl Config {
    /// A fresh document whose self entry points at `self_path`.
    pub fn initial(self_path: String) -> (r: Config)
        ensures
            is_initial(r, self_path@),
    {
        let mut tracking = Tracking::new();
        tracking.insert_new(String::from_str("confsync"), self_path);
        proof { reveal_strlit("confsync"); reveal_strlit("default"); }
        Config {
            storage: Storage {
                local: true,
                repo_url: String::new(),
                profile: Some(String::from_str("default")),
            },
            tracking,
        }
    }
}

/// A place where the configuration document may live: `config.toml`, in some
/// directory or on its own.
pub open spec fn is_config_location(p: Seq<char>) -> bool {
    p == "config.toml"@ || exists|dir: Seq<char>| p == dir + "/config.toml"@
}

/// Where the document tracks itself: at the location found, or at
/// `config.toml` where none was.
pub open spec fn self_path_of(found: Option<String>) -> Seq<char> {
    match found {
        Some(p) => p@,
        None => "config.toml"@,
    }
}

impl Config {
    /// A fresh document tracking the configuration file itself at `found`,
    /// or, where no location was found, at `config.toml`.
    pub fn initial_for(found: Option<String>) -> (r: Config)
        ensures
            is_initial(r, self_path_of(found)),
    {
        let path = match found {
            Some(p) => p,
            None => String::from_str("config.toml"),
        };
        Config::initial(path)
    }
}

impl Default for Config {
    /// A fresh document tracking the configuration file itself, at its platform
    /// location or, where none is known, at `config.toml`.
    fn default() -> (r: Config)
        ensures
            exists|p: Seq<char>| is_initial(r, p) && is_config_location(p),
    {
        let found = default_config_path();
        let ghost self_path = self_path_of(found);
        let r = Config::initial_for(found);
        assert(is_initial(r, self_path));
        assert(is_config_location(self_path));
        r
    }
}

/// Settles what was found where the document is stored: an absent document
/// gives a fresh one, a parsed one is taken as it is, an unreadable one fails
/// with `IoFailure` and a malformed one with `ConfigCorrupt`, so that a damaged
/// document is never silently replaced.
pub fn load_config(stored: StoredConfig) -> (r: Result<Config, SyncError>)
    ensures
        stored is Absent ==> (r matches Ok(c) && exists|p: Seq<char>| is_initial(c, p) && is_config_location(p)),
        stored matches StoredConfig::Parsed(c) ==> r == Ok::<Config, SyncError>(c),
        stored matches StoredConfig::Unreadable(e) ==> r == Err::<Config, SyncError>(SyncError::IoFailure(e)),
        stored matches StoredConfig::Malformed(e) ==> r == Err::<Config, SyncError>(SyncError::ConfigCorrupt(e)),
{
    match stored {
        StoredConfig::Absent => Ok(Config::default()),
        StoredConfig::Unreadable(e) => Err(SyncError::IoFailure(e)),
        StoredConfig::Malformed(e) => Err(SyncError::ConfigCorrupt(e)),
        StoredConfig::Parsed(c) => Ok(c),
    }
}

/// Tracks the probed file under `name`. Fails with `NotFound` if nothing is
/// there, `NotAFile` if it is not a regular file, `DuplicatePath` if another
/// alias already stands for its canonical path, and `DuplicateAlias` if the
/// alias is taken; otherwise adds the pair. On failure nothing changes.
pub fn add_tracking_file(config: &mut Config, path: PathProbe, name: String) -> (r: Result<(), SyncError>)
    requires
        old(config).tracking.wf(),
    ensures
        final(config).tracking.wf(),
        final(config).storage == old(config).storage,
        match add_outcome(old(config).tracking.spec_map(), path, name@) {
            Ok(m) => r is Ok && final(config).tracking.spec_map() == m,
            Err(e) => r == Err::<(), SyncError>(e) && final(config).tracking == old(config).tracking,
        },
{
    match path {
        PathProbe::Missing => Err(SyncError::NotFound),
        PathProbe::NotAFile(_) => Err(SyncError::NotAFile),
        PathProbe::File(abs_path) => {
            if config.tracking.tracks(&abs_path) {
                return Err(SyncError::DuplicatePath);
            }
            if config.tracking.contains_alias(&name) {
                return Err(SyncError::DuplicateAlias);
            }
            config.tracking.insert_new(name, abs_path);
            Ok(())
        },
    }
}

/// Stops tracking `name`; fails with `NotFound` if it is not tracked. The
/// repository entry, if any, is left as it is.
pub fn _remove_tracking_file(config: &mut Config, name: String) -> (r: Result<(), SyncError>)
    requires
        old(config).tracking.wf(),
    ensures
        final(config).tracking.wf(),
        final(config).storage == old(config).storage,
        final(config).tracking.spec_map() == old(config).tracking.spec_map().remove(name@),
        r is Ok <==> old(config).tracking.spec_map().contains_key(name@),
        r is Err ==> r == Err::<(), SyncError>(SyncError::NotFound),
{
    if !config.tracking.remove(&name) {
        return Err(SyncError::NotFound);
    }
    Ok(())
}

/// Whether `name` is tracked.
pub fn is_tracked(config: &Config, name: &str) -> (r: bool)
    requires
        config.tracking.wf(),
    ensures
        r == config.tracking.spec_map().contains_key(name@),
{
    config.tracking.contains_alias(&name.to_owned())
}

/// The path tracked under `name`, or `NotFound`.
pub fn get_path_from_alias(config: &Config, name: &str) -> (r: Result<String, SyncError>)
    requires
        config.tracking.wf(),
    ensures
        match resolve_outcome(config.tracking.spec_map(), name@) {
            Ok(p) => r matches Ok(q) && q@ == p,
            Err(e) => r == Err::<String, SyncError>(e),
        },
{
    match config.tracking.get(&name.to_owned()) {
        Some(p) => Ok(p.clone()),
        None => Err(SyncError::NotFound),
    }
}

/// Adding a regular file under an alias that is not in use, when no alias yet
/// stands for the file, succeeds, and the alias then resolves to the file's
/// canonical path.
pub proof fn lemma_add_then_resolve(m: TrackMap, path: String, alias: Seq<char>)
    requires
        !m.contains_key(alias),
        !tracks_path(m, path@),
    ensures
        add_outcome(m, PathProbe::File(path), alias) matches Ok(m2)
            && resolve_outcome(m2, alias) == Ok::<Seq<char>, SyncError>(path@),
{
}

/// Once a file is tracked, adding its canonical path again under any alias is
/// refused with `DuplicatePath`, and reusing the alias for a file that no
/// alias stands for is refused with `DuplicateAlias`.
pub proof fn lemma_add_rejects_duplicates(m: TrackMap, path: String, alias: Seq<char>, other_alias: Seq<char>, other_path: String)
    requires
        add_outcome(m, PathProbe::File(path), alias) is Ok,
    ensures
        add_outcome(m, PathProbe::File(path), alias) matches Ok(m2) && {
            &&& add_outcome(m2, PathProbe::File(path), other_alias) == Err::<TrackMap, SyncError>(SyncError::DuplicatePath)
            &&& !tracks_path(m2, other_path@) ==> add_outcome(m2, PathProbe::File(other_path), alias)
                == Err::<TrackMap, SyncError>(SyncError::DuplicateAlias)
        },
{
    let m2 = m.insert(alias, path@);
    assert(m2.contains_key(alias) && m2[alias] == path@);
}

} // verus!
