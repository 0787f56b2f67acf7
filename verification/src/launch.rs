//! The command line that starts the thread-listing helper, and the process
//! id that it is started for.

use vstd::prelude::*;
use vstd::string::StringExecFns;
use crate::codec::texts;
use crate::failure::Failure;
use crate::probe::{jdi_jar_path, jdi_jar_text, JdkVersion};
use crate::text::{decimal, parse_u32, push_decimal, u32_of_text};

verus! {

/// The arguments with which the Java launcher runs the helper on process
/// `pid`. From JDK 9 on, the helper's archive is the class path, the
/// serviceability agent's module is added, and its three packages that the
/// helper uses are opened to it. Before, the class path is the helper's
/// archive and the agent's jar. The helper's main class and the process id
/// end both.
pub open spec fn java_arguments_text(
    version: JdkVersion,
    helper_jar: Seq<char>,
    home: Seq<char>,
    pid: u32,
) -> Seq<Seq<char>> {
    match version {
        JdkVersion::Jdk9OrHigher => seq![
            "-cp"@,
            helper_jar,
            "--add-modules"@,
            "jdk.hotspot.agent"@,
            "--add-exports"@,
            "jdk.hotspot.agent/sun.jvm.hotspot.tools=ALL-UNNAMED"@,
            "--add-exports"@,
            "jdk.hotspot.agent/sun.jvm.hotspot.runtime=ALL-UNNAMED"@,
            "--add-exports"@,
            "jdk.hotspot.agent/sun.jvm.hotspot.oops=ALL-UNNAMED"@,
            "jthreadinfo.JThreadInfo"@,
            decimal(pid as nat),
        ],
        JdkVersion::Jdk8OrLower => seq![
            "-cp"@,
            helper_jar + ":"@ + jdi_jar_text(home),
            "jthreadinfo.JThreadInfo"@,
            decimal(pid as nat),
        ],
    }
}

/// The arguments with which the Java launcher runs the helper on process
/// `pid`, for a JDK of generation `version` installed at `home` and the
/// helper's archive at `helper_jar`.
pub fn java_arguments(version: JdkVersion, helper_jar: &str, home: &str, pid: u32) -> (r: Vec<
    String,
>)
    ensures
        texts(r@) == java_arguments_text(version, helper_jar@, home@, pid),
{
    let mut args: Vec<String> = Vec::new();
    args.push(String::from_str("-cp"));
    match version {
        JdkVersion::Jdk9OrHigher => {
            args.push(String::from_str(helper_jar));
            args.push(String::from_str("--add-modules"));
            args.push(String::from_str("jdk.hotspot.agent"));
            args.push(String::from_str("--add-exports"));
            args.push(String::from_str("jdk.hotspot.agent/sun.jvm.hotspot.tools=ALL-UNNAMED"));
            args.push(String::from_str("--add-exports"));
            args.push(String::from_str("jdk.hotspot.agent/sun.jvm.hotspot.runtime=ALL-UNNAMED"));
            args.push(String::from_str("--add-exports"));
            args.push(String::from_str("jdk.hotspot.agent/sun.jvm.hotspot.oops=ALL-UNNAMED"));
        },
        JdkVersion::Jdk8OrLower => {
            let agent = jdi_jar_path(home);
            args.push(String::from_str(helper_jar).concat(":").concat(agent.as_str()));
        },
    }
    args.push(String::from_str("jthreadinfo.JThreadInfo"));
    let mut process = String::new();
    push_decimal(&mut process, pid as u64);
    assert(process@ =~= decimal(pid as nat));
    args.push(process);
    assert(texts(args@) =~= java_arguments_text(version, helper_jar@, home@, pid));
    args
}

/// The process id that `text` names. Text that is no unsigned 32-bit number
/// is invalid input, reported with the text.
pub fn parse_pid(text: &str) -> (r: Result<u32, Failure>)
    ensures
        match u32_of_text(text@) {
            Some(pid) => r == Ok::<u32, Failure>(pid),
            None => r matches Err(Failure::InvalidInput(given)) && given@ == text@,
        },
{
    match parse_u32(text) {
        Some(pid) => Ok(pid),
        None => Err(Failure::InvalidInput(text.to_owned())),
    }
}

} // verus!
