//! The header line that a report shows above the figures of one thread.

use vstd::prelude::*;
use vstd::string::StringExecFns;
use crate::text::{decimal, push_decimal, push_signed_decimal, signed_decimal};
use crate::thread::{ThreadMapping, ThreadView};

verus! {

/// The widest name that a header shows whole.
pub const MAX_SHORT_NAME_LEN: usize = 50;

/// What stands for the characters left out of a name.
pub open spec fn ellipsis() -> Seq<char> {
    seq!['.', '.', '.']
}

/// How many of a name's last characters stay when it is cut to `width`: half
/// the width, or what the ellipsis leaves of it.
pub open spec fn kept_at_end(width: nat) -> nat {
    if width < 3 {
        0
    } else if width / 2 <= width - 3 {
        width / 2
    } else {
        (width - 3) as nat
    }
}

/// How many of a name's first characters stay when it is cut to `width`.
pub open spec fn kept_at_start(width: nat) -> nat {
    if width < 3 {
        0
    } else {
        (width - 3 - kept_at_end(width)) as nat
    }
}

/// The first `start` and the last `end` characters of `name`, with an
/// ellipsis between them.
pub open spec fn ends_of(name: Seq<char>, start: int, end: int) -> Seq<char> {
    name.take(start) + ellipsis() + name.skip(name.len() - end)
}

/// `name` in at most `width` characters: itself where it fits, else its
/// first and last characters round an ellipsis.
pub open spec fn shortened(name: Seq<char>, width: nat) -> Seq<char> {
    if name.len() <= width {
        name
    } else {
        ends_of(name, kept_at_start(width) as int, kept_at_end(width) as int)
    }
}

/// A name that fits is shown as it is. A longer one is shown in exactly
/// `width` characters: a prefix of the name, the ellipsis, and a suffix of
/// the name.
pub proof fn lemma_shortened(name: Seq<char>, width: nat)
    requires
        width >= 3,
    ensures
        name.len() <= width ==> shortened(name, width) == name,
        name.len() > width ==> {
            &&& shortened(name, width).len() == width
            &&& exists|start: int, end: int|
                0 <= start && 0 <= end && start + end + 3 == width && shortened(name, width)
                    == #[trigger] ends_of(name, start, end)
        },
{
    if name.len() > width {
        let start = kept_at_start(width) as int;
        let end = kept_at_end(width) as int;
        assert(shortened(name, width) == ends_of(name, start, end));
    }
}

/// `name` in at most `width` characters.
pub fn shorten(name: &str, width: usize) -> (r: String)
    requires
        width >= 3,
    ensures
        r@ == shortened(name@, width as nat),
{
    let n = name.unicode_len();
    if n <= width {
        name.to_owned()
    } else {
        let end: usize = if width / 2 <= width - 3 {
            width / 2
        } else {
            width - 3
        };
        let start: usize = width - 3 - end;
        proof {
            reveal_strlit("...");
            assert("..."@ =~= ellipsis());
        }
        let mut out = name.substring_char(0, start).to_owned();
        out.append("...");
        out.append(name.substring_char(n - end, n));
        assert(out@ =~= shortened(name@, width as nat));
        out
    }
}

/// The header of the thread with native id `nid`: the native id, the JVM's
/// identifier and the name where `m` knows the thread, and the native id
/// marked as unknown where it does not.
pub open spec fn header_text(m: Map<u32, ThreadView>, full_name: bool, nid: u32) -> Seq<char> {
    if m.contains_key(nid) {
        decimal(nid as nat) + " Thread "@ + signed_decimal(m[nid].tid as int) + " - "@ + (
        if full_name {
            m[nid].name
        } else {
            shortened(m[nid].name, MAX_SHORT_NAME_LEN as nat)
        })
    } else {
        decimal(nid as nat) + " Thread UNKNOWN"@
    }
}

/// Writes the headers of a report from a mapping of the JVM's threads.
pub struct JavaHeaderFormat<'a> {
    /// Whether names are shown whole, however long.
    pub full_name: bool,
    /// The threads that the JVM reported.
    pub mapping: &'a ThreadMapping,
}

impl<'a> JavaHeaderFormat<'a> {
    /// The header of the thread with native id `tid`. Every id has one:
    /// a thread that the mapping lacks is shown as unknown.
    pub fn format(&self, tid: u32) -> (r: String)
        ensures
            r@ == header_text(self.mapping@, self.full_name, tid),
    {
        let mut out = String::new();
        push_decimal(&mut out, tid as u64);
        match self.mapping.get(tid) {
            Some(info) => {
                out.append(" Thread ");
                push_signed_decimal(&mut out, info.tid());
                out.append(" - ");
                if self.full_name {
                    out.append(info.name());
                } else {
                    let short = info.short_name();
                    out.append(short.as_str());
                }
                assert(out@ =~= header_text(self.mapping@, self.full_name, tid));
            },
            None => {
                out.append(" Thread UNKNOWN");
                assert(out@ =~= header_text(self.mapping@, self.full_name, tid));
            },
        }
        out
    }
}

} // verus!
