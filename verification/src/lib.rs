//! Identification of the threads of a running JVM: the line protocol of the
//! thread-listing helper, the mapping from native thread ids to JVM threads,
//! and the header text shown for each thread in a report.

pub mod text;
pub mod thread;
pub mod header;
pub mod failure;
pub mod codec;
pub mod probe;
pub mod launch;
