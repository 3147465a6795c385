//! Where the remote store keeps what the supervisor fetches.
//!
//! Three objects matter for an application `app`: the version pointer at
//! `{app}/latest.txt`, and for each published version the binary at
//! `{app}/executables/{version}/cmd` and its configuration at
//! `{app}/executables/{version}/config.json`.
use crate::version::Version;
use vstd::prelude::*;
use vstd::string::*;

verus! {

/// The key of the object that names the latest version of `app`.
pub open spec fn latest_key_of(app: Seq<char>) -> Seq<char> {
    app + "/latest.txt"@
}

/// The key of the binary of `version` of `app`.
pub open spec fn binary_key_of(app: Seq<char>, version: Seq<char>) -> Seq<char> {
    app + "/executables/"@ + version + "/cmd"@
}

/// The key of the configuration of `version` of `app`.
pub open spec fn config_key_of(app: Seq<char>, version: Seq<char>) -> Seq<char> {
    app + "/executables/"@ + version + "/config.json"@
}

/// The key of the object that names the latest version of `app`.
pub fn latest_key(app: &str) -> (key: String)
    ensures
        key@ == latest_key_of(app@),
{
    let mut key = app.to_owned();
    key.append("/latest.txt");
    key
}

/// The key of the binary of `version` of `app`.
pub fn binary_key(app: &str, version: &Version) -> (key: String)
    ensures
        key@ == binary_key_of(app@, version@),
{
    let mut key = app.to_owned();
    key.append("/executables/");
    key.append(version.as_str());
    key.append("/cmd");
    key
}

/// The key of the configuration of `version` of `app`.
pub fn config_key(app: &str, version: &Version) -> (key: String)
    ensures
        key@ == config_key_of(app@, version@),
{
    let mut key = app.to_owned();
    key.append("/executables/");
    key.append(version.as_str());
    key.append("/config.json");
    key
}

/// The binary and the configuration of one version never share a key, and
/// neither shares one with the version pointer of the same application.
pub proof fn lemma_keys_distinct(app: Seq<char>, version: Seq<char>)
    ensures
        binary_key_of(app, version) != config_key_of(app, version),
        binary_key_of(app, version) != latest_key_of(app),
        config_key_of(app, version) != latest_key_of(app),
{
    reveal_strlit("/latest.txt");
    reveal_strlit("/executables/");
    reveal_strlit("/cmd");
    reveal_strlit("/config.json");
    let b = binary_key_of(app, version);
    let c = config_key_of(app, version);
    let l = latest_key_of(app);
    assert(b.len() == app.len() + 13 + version.len() + 4);
    assert(c.len() == app.len() + 13 + version.len() + 12);
    let at = app.len() as int + 1;
    assert(b[at] == 'e');
    assert(c[at] == 'e');
    assert(l[at] == 'l');
}

} // verus!
