//! The files of one installation, all in one shared directory.
//!
//! The live binary `cmd` and the live configuration `config.json` are what the
//! supervised process runs with. `current_version.txt` records which version
//! they are, `wrapper.pid` holds the process id of the supervised process, and
//! `new_cmd` and `new_config.json` exist only while an install is under way.
use vstd::prelude::*;
use vstd::string::*;

verus! {

/// The six paths of an installation.
pub struct Paths {
    pub live_binary: Seq<char>,
    pub live_config: Seq<char>,
    pub marker: Seq<char>,
    pub pid_file: Seq<char>,
    pub staging_binary: Seq<char>,
    pub staging_config: Seq<char>,
}

impl Paths {
    /// No two of the six paths name the same file.
    pub open spec fn distinct(self) -> bool {
        &&& self.live_binary != self.live_config
        &&& self.live_binary != self.marker
        &&& self.live_binary != self.pid_file
        &&& self.live_binary != self.staging_binary
        &&& self.live_binary != self.staging_config
        &&& self.live_config != self.marker
        &&& self.live_config != self.pid_file
        &&& self.live_config != self.staging_binary
        &&& self.live_config != self.staging_config
        &&& self.marker != self.pid_file
        &&& self.marker != self.staging_binary
        &&& self.marker != self.staging_config
        &&& self.pid_file != self.staging_binary
        &&& self.pid_file != self.staging_config
        &&& self.staging_binary != self.staging_config
    }
}

/// The paths of the installation in directory `dir`.
pub open spec fn paths_under(dir: Seq<char>) -> Paths {
    Paths {
        live_binary: dir + "/cmd"@,
        live_config: dir + "/config.json"@,
        marker: dir + "/current_version.txt"@,
        pid_file: dir + "/wrapper.pid"@,
        staging_binary: dir + "/new_cmd"@,
        staging_config: dir + "/new_config.json"@,
    }
}

/// In whatever directory an installation lies, its six paths differ from one
/// another; in particular each staging path differs from its live path.
pub proof fn lemma_paths_under_distinct(dir: Seq<char>)
    ensures
        paths_under(dir).distinct(),
{
    reveal_strlit("/cmd");
    reveal_strlit("/config.json");
    reveal_strlit("/current_version.txt");
    reveal_strlit("/wrapper.pid");
    reveal_strlit("/new_cmd");
    reveal_strlit("/new_config.json");
    let p = paths_under(dir);
    let n = dir.len() as int;
    assert(p.live_binary.len() == n + 4);
    assert(p.live_config.len() == n + 12);
    assert(p.marker.len() == n + 20);
    assert(p.pid_file.len() == n + 12);
    assert(p.staging_binary.len() == n + 8);
    assert(p.staging_config.len() == n + 16);
    assert(p.live_config[n + 1] == 'c');
    assert(p.pid_file[n + 1] == 'w');
}

/// The paths of one installation, as the file system takes them.
#[derive(Debug)]
pub struct InstallationState {
    pub(crate) dir: String,
    pub(crate) live_binary: String,
    pub(crate) live_config: String,
    pub(crate) marker: String,
    pub(crate) pid_file: String,
    pub(crate) staging_binary: String,
    pub(crate) staging_config: String,
}

impl View for InstallationState {
    type V = Paths;

    open(crate) spec fn view(&self) -> Paths {
        Paths {
            live_binary: self.live_binary@,
            live_config: self.live_config@,
            marker: self.marker@,
            pid_file: self.pid_file@,
            staging_binary: self.staging_binary@,
            staging_config: self.staging_config@,
        }
    }
}

fn join(dir: &str, name: &str) -> (path: String)
    ensures
        path@ == dir@ + name@,
{
    let mut path = dir.to_owned();
    path.append(name);
    path
}

impl InstallationState {
    #[verifier::type_invariant]
    pub open(crate) spec fn lies_under_dir(self) -> bool {
        self@ == paths_under(self.dir@)
    }

    /// The directory that holds the installation.
    pub open(crate) spec fn dir(self) -> Seq<char> {
        self.dir@
    }

    /// The installation in directory `dir`.
    pub fn under(dir: &str) -> (state: InstallationState)
        ensures
            state.dir() == dir@,
            state@ == paths_under(dir@),
            state@.distinct(),
    {
        proof {
            lemma_paths_under_distinct(dir@);
        }
        InstallationState {
            dir: dir.to_owned(),
            live_binary: join(dir, "/cmd"),
            live_config: join(dir, "/config.json"),
            marker: join(dir, "/current_version.txt"),
            pid_file: join(dir, "/wrapper.pid"),
            staging_binary: join(dir, "/new_cmd"),
            staging_config: join(dir, "/new_config.json"),
        }
    }

    /// Where the running binary lies.
    pub fn live_binary(&self) -> (path: &str)
        ensures
            path@ == self@.live_binary,
    {
        self.live_binary.as_str()
    }

    /// Where the running configuration lies.
    pub fn live_config(&self) -> (path: &str)
        ensures
            path@ == self@.live_config,
    {
        self.live_config.as_str()
    }

    /// Where the installed version is recorded.
    pub fn marker(&self) -> (path: &str)
        ensures
            path@ == self@.marker,
    {
        self.marker.as_str()
    }

    /// Where the supervised process records its process id.
    pub fn pid_file(&self) -> (path: &str)
        ensures
            path@ == self@.pid_file,
    {
        self.pid_file.as_str()
    }

    /// Where a new binary is written before it replaces the live one.
    pub fn staging_binary(&self) -> (path: &str)
        ensures
            path@ == self@.staging_binary,
    {
        self.staging_binary.as_str()
    }

    /// Where a new configuration is written before it replaces the live one.
    pub fn staging_config(&self) -> (path: &str)
        ensures
            path@ == self@.staging_config,
    {
        self.staging_config.as_str()
    }
}

} // verus!
