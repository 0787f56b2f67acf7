//! What has to be known of the Java installation before the helper can be
//! started: where its files are, and which generation of JDK it is.

use vstd::prelude::*;
use vstd::string::StringExecFns;
use crate::failure::Failure;

verus! {

/// The two generations of JDK that the helper is started differently for.
#[derive(Debug, Clone, Copy, PartialEq, Eq)]
pub enum JdkVersion {
    /// JDK 9 or later: the serviceability agent is a module of the JDK.
    Jdk9OrHigher,
    /// JDK 8 or earlier: the serviceability agent is a jar of its own.
    Jdk8OrLower,
}

/// The pattern that finds the version in what the Java launcher reports of
/// itself: the word `version`, then the version between double quotes.
pub const VERSION_PATTERN: &'static str = "version \"(.+)\"";

/// What the first capture group of `pattern` holds in the leftmost match of
/// `pattern` in `text`. `None` where `pattern` is no regular expression,
/// where it matches nowhere in `text`, and where it has no such group or the
/// group took no part in the match.
pub uninterp spec fn first_group(pattern: Seq<char>, text: Seq<char>) -> Option<Seq<char>>;

/// Compiles `pattern` with `regex::Regex::new` and searches `text` with
/// `Regex::captures`. The contract only gives the outcome its name,
/// `first_group`: the text of group 1 as `Captures::get` and `Match::as_str`
/// hand it out, or `None` where the pattern is refused, nothing matches or
/// the group is not set. Nothing is claimed of what the pattern language
/// means.
#[verifier::external_body]
fn capture_first_group(pattern: &str, text: &str) -> (r: Option<String>)
    ensures
        first_group(pattern@, text@) == match r {
            Some(found) => Some(found@),
            None => None,
        },
{
    match regex::Regex::new(pattern) {
        Ok(re) => match re.captures(text) {
            Some(groups) => match groups.get(1) {
                Some(found) => Some(found.as_str().to_owned()),
                None => None,
            },
            None => None,
        },
        Err(_) => None,
    }
}

/// The generation of the JDK whose version is `version`: versions that begin
/// with `1.` are those of JDK 8 and before.
pub open spec fn version_class(version: Seq<char>) -> JdkVersion {
    if version.len() >= 2 && version[0] == '1' && version[1] == '.' {
        JdkVersion::Jdk8OrLower
    } else {
        JdkVersion::Jdk9OrHigher
    }
}

/// The generation of the JDK whose version is `version`.
pub fn classify_version(version: &str) -> (r: JdkVersion)
    ensures
        r == version_class(version@),
{
    if version.unicode_len() >= 2 && version.get_char(0) == '1' && version.get_char(1) == '.' {
        JdkVersion::Jdk8OrLower
    } else {
        JdkVersion::Jdk9OrHigher
    }
}

/// The generation of the JDK, from the version found in the launcher's
/// report. A report without a version is a failure: no generation is
/// assumed.
pub fn version_of_token(token: Option<String>) -> (r: Result<JdkVersion, Failure>)
    ensures
        match token {
            Some(version) => r == Ok::<JdkVersion, Failure>(version_class(version@)),
            None => r == Err::<JdkVersion, Failure>(Failure::VersionProbeFailed),
        },
{
    match token {
        Some(version) => Ok(classify_version(version.as_str())),
        None => Err(Failure::VersionProbeFailed),
    }
}

/// The generation of the JDK whose launcher, asked for its version, wrote
/// `report`.
pub fn jdk_version(report: &str) -> (r: Result<JdkVersion, Failure>)
    ensures
        match first_group(VERSION_PATTERN@, report@) {
            Some(version) => r == Ok::<JdkVersion, Failure>(version_class(version)),
            None => r == Err::<JdkVersion, Failure>(Failure::VersionProbeFailed),
        },
{
    version_of_token(capture_first_group(VERSION_PATTERN, report))
}

/// Where the Java installation is, from what the environment says of it.
/// That it says nothing is a failure: no other place is tried.
pub fn java_home(setting: Option<String>) -> (r: Result<String, Failure>)
    ensures
        match setting {
            Some(home) => r matches Ok(found) && found@ == home@,
            None => r == Err::<String, Failure>(Failure::EnvironmentMissing),
        },
{
    match setting {
        Some(home) => Ok(home),
        None => Err(Failure::EnvironmentMissing),
    }
}

/// The path of the Java launcher below the installation at `home`.
pub open spec fn java_binary_text(home: Seq<char>) -> Seq<char> {
    home + "/bin/java"@
}

/// The path of the serviceability agent's jar below the installation at
/// `home`.
pub open spec fn jdi_jar_text(home: Seq<char>) -> Seq<char> {
    home + "/lib/sa-jdi.jar"@
}

/// The path of the Java launcher below the installation at `home`.
pub fn java_binary_path(home: &str) -> (r: String)
    ensures
        r@ == java_binary_text(home@),
{
    String::from_str(home).concat("/bin/java")
}

/// The path of the serviceability agent's jar below the installation at
/// `home`.
pub fn jdi_jar_path(home: &str) -> (r: String)
    ensures
        r@ == jdi_jar_text(home@),
{
    String::from_str(home).concat("/lib/sa-jdi.jar")
}

/// The serviceability agent's jar of the installation at `home`, where
/// `present` says whether a file is at its path. Its absence is a failure
/// that names the path.
pub fn resolve_sa_jdi_jar(home: &str, present: bool) -> (r: Result<String, Failure>)
    ensures
        present ==> (r matches Ok(path) && path@ == jdi_jar_text(home@)),
        !present ==> (r matches Err(Failure::ArtifactMissing(path)) && path@ == jdi_jar_text(
            home@,
        )),
{
    let path = jdi_jar_path(home);
    if present {
        Ok(path)
    } else {
        Err(Failure::ArtifactMissing(path))
    }
}

} // verus!
