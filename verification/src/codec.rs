//! The lines that the thread-listing helper writes: `Thread`, the native id,
//! the JVM's identifier and the name, with single spaces between them.

use vstd::prelude::*;
use vstd::string::StringExecFns;
use crate::failure::Failure;
use crate::text::{
    chars_of, decimal, i64_of_text, is_digit, lemma_decimal_is_digits, lemma_i64_round_trip,
    lemma_u32_round_trip, push_decimal, push_signed_decimal, read_i64, read_u32, signed_decimal,
    u32_of_text,
};
use crate::thread::{
    mapping_of_threads, mapping_wf, thread_of, ThreadInfo, ThreadMapping, ThreadView,
};

verus! {

/// What every thread line begins with.
pub open spec fn line_header() -> Seq<char> {
    seq!['T', 'h', 'r', 'e', 'a', 'd', ' ']
}

/// Whether `line` is a thread line. Any other line is the helper's own
/// chatter.
pub open spec fn is_thread_line(line: Seq<char>) -> bool {
    line.len() >= 7 && line.take(7) == line_header()
}

/// Where the first space of `s` at or after `from` stands; the length of `s`
/// where there is none.
pub open spec fn next_space(s: Seq<char>, from: int) -> int
    decreases s.len() - from,
{
    if from >= s.len() {
        s.len() as int
    } else if s[from] == ' ' {
        from
    } else {
        next_space(s, from + 1)
    }
}

/// What one line of the helper's output says.
pub enum Decoded {
    /// Nothing: it is no thread line.
    Ignored,
    /// That the JVM has this thread.
    Thread(ThreadView),
    /// That the helper broke the protocol: a thread line with fewer than
    /// four fields, or with a native id or a JVM identifier that is no
    /// number of its range.
    Violation,
}

/// What `line` says. The native id is what stands between the first and the
/// second space, the JVM's identifier what stands between the second and the
/// third, and the name all that follows the third, spaces included.
pub open spec fn decoded(line: Seq<char>) -> Decoded {
    if !is_thread_line(line) {
        Decoded::Ignored
    } else {
        let second = next_space(line, 7);
        let third = next_space(line, second + 1);
        if third >= line.len() {
            Decoded::Violation
        } else {
            match (u32_of_text(line.subrange(7, second)), i64_of_text(
                line.subrange(second + 1, third),
            )) {
                (Some(nid), Some(tid)) => Decoded::Thread(thread_of(nid, tid, line.skip(third + 1))),
                _ => Decoded::Violation,
            }
        }
    }
}

/// Where the first space of `chars` at or after `from` stands.
fn find_space(chars: &Vec<char>, from: usize) -> (r: usize)
    requires
        from <= chars.len(),
    ensures
        r == next_space(chars@, from as int),
        from <= r <= chars.len(),
{
    let mut i: usize = from;
    while i < chars.len() && chars[i] != ' '
        invariant
            from <= i <= chars.len(),
            next_space(chars@, from as int) == next_space(chars@, i as int),
        decreases chars.len() - i,
    {
        i = i + 1;
    }
    i
}

/// Whether `chars` begins as a thread line does.
fn has_header(chars: &Vec<char>) -> (r: bool)
    ensures
        r == is_thread_line(chars@),
{
    if chars.len() < 7 {
        return false;
    }
    let r = chars[0] == 'T' && chars[1] == 'h' && chars[2] == 'r' && chars[3] == 'e' && chars[4]
        == 'a' && chars[5] == 'd' && chars[6] == ' ';
    proof {
        let head = chars@.take(7);
        if r {
            assert(head =~= line_header());
        } else {
            assert(head[0] == chars@[0] && head[1] == chars@[1] && head[2] == chars@[2] && head[3]
                == chars@[3] && head[4] == chars@[4] && head[5] == chars@[5] && head[6]
                == chars@[6]);
        }
    }
    r
}

/// Reads one line of the helper's output: `Ok(None)` for a line that is no
/// thread line, the thread for a thread line, and a protocol violation,
/// with the line, for a thread line that is malformed.
pub fn decode_line(line: &str) -> (r: Result<Option<ThreadInfo>, Failure>)
    ensures
        match decoded(line@) {
            Decoded::Ignored => r matches Ok(None),
            Decoded::Thread(t) => r matches Ok(Some(info)) && info@ == t && t.wf(),
            Decoded::Violation => r matches Err(Failure::ProtocolViolation(raw)) && raw@ == line@,
        },
{
    let chars = chars_of(line);
    if !has_header(&chars) {
        return Ok(None);
    }
    let n = chars.len();
    let second = find_space(&chars, 7);
    if second >= n {
        assert(next_space(chars@, second + 1) == n);
        return Err(Failure::ProtocolViolation(line.to_owned()));
    }
    let third = find_space(&chars, second + 1);
    if third >= n {
        return Err(Failure::ProtocolViolation(line.to_owned()));
    }
    let nid = read_u32(&chars, 7, second);
    let tid = read_i64(&chars, second + 1, third);
    match (nid, tid) {
        (Some(nid), Some(tid)) => {
            let name = line.substring_char(third + 1, n).to_owned();
            assert(line@.subrange(third + 1, n as int) =~= line@.skip(third + 1));
            Ok(Some(ThreadInfo::new(nid, tid, name)))
        },
        _ => Err(Failure::ProtocolViolation(line.to_owned())),
    }
}

/// The thread line that tells of the thread `t`.
pub open spec fn encoded(t: ThreadView) -> Seq<char> {
    line_header() + decimal(t.nid as nat) + seq![' '] + signed_decimal(t.tid as int) + seq![' ']
        + t.name
}

/// Writes the thread line that tells of `info`.
pub fn encode_line(info: &ThreadInfo) -> (r: String)
    ensures
        r@ == encoded(info@),
{
    proof {
        reveal_strlit("Thread ");
        reveal_strlit(" ");
        assert("Thread "@ =~= line_header());
        assert(" "@ =~= seq![' ']);
    }
    let mut out = String::from_str("Thread ");
    push_decimal(&mut out, info.nid() as u64);
    out.append(" ");
    push_signed_decimal(&mut out, info.tid());
    out.append(" ");
    out.append(info.name());
    out
}

/// The first space at or after `from` is found where it stands.
pub proof fn lemma_next_space(s: Seq<char>, from: int, at: int)
    requires
        0 <= from <= at < s.len(),
        s[at] == ' ',
        forall|i: int| from <= i < at ==> s[i] != ' ',
    ensures
        next_space(s, from) == at,
    decreases at - from,
{
    if from < at {
        lemma_next_space(s, from + 1, at);
    }
}

/// A thread line says of a thread what it was written for: reading the line
/// of a thread gives that thread back, whatever its name holds.
pub proof fn lemma_decode_encode(t: ThreadView)
    requires
        t.wf(),
    ensures
        decoded(encoded(t)) == Decoded::Thread(t),
{
    let nid_text = decimal(t.nid as nat);
    let tid_text = signed_decimal(t.tid as int);
    let line = encoded(t);
    let second: int = 7 + nid_text.len() as int;
    let third: int = second + 1 + tid_text.len() as int;
    lemma_decimal_is_digits(t.nid as nat);
    if t.tid < 0 {
        lemma_decimal_is_digits((-t.tid) as nat);
    } else {
        lemma_decimal_is_digits(t.tid as nat);
    }
    assert(line.take(7) =~= line_header());
    assert forall|i: int| 7 <= i < second implies line[i] != ' ' by {
        assert(line[i] == nid_text[i - 7]);
        assert(is_digit(nid_text[i - 7]));
    }
    assert(line[second] == ' ');
    lemma_next_space(line, 7, second);
    assert forall|i: int| second + 1 <= i < third implies line[i] != ' ' by {
        let k = i - second - 1;
        assert(line[i] == tid_text[k]);
        if t.tid < 0 {
            if k > 0 {
                assert(tid_text[k] == decimal((-t.tid) as nat)[k - 1]);
                assert(is_digit(decimal((-t.tid) as nat)[k - 1]));
            }
        } else {
            assert(is_digit(tid_text[k]));
        }
    }
    assert(line[third] == ' ');
    lemma_next_space(line, second + 1, third);
    assert(line.subrange(7, second) =~= nid_text);
    assert(line.subrange(second + 1, third) =~= tid_text);
    assert(line.skip(third + 1) =~= t.name);
    lemma_u32_round_trip(t.nid);
    lemma_i64_round_trip(t.tid);
    assert(thread_of(t.nid, t.tid, t.name) == t);
}

/// The lines of `lines` as contracts speak of them.
pub open spec fn texts(lines: Seq<String>) -> Seq<Seq<char>> {
    Seq::new(lines.len(), |i: int| lines[i]@)
}

/// The mapping that the helper's output `lines` describes: each thread line
/// records its thread under its native id, a later one in place of an earlier
/// one. `None` where a line breaks the protocol.
pub open spec fn mapping_of(lines: Seq<Seq<char>>) -> Option<Map<u32, ThreadView>>
    decreases lines.len(),
{
    if lines.len() == 0 {
        Some(Map::empty())
    } else {
        match (mapping_of(lines.drop_last()), decoded(lines.last())) {
            (Some(m), Decoded::Ignored) => Some(m),
            (Some(m), Decoded::Thread(t)) => Some(m.insert(t.nid, t)),
            _ => None,
        }
    }
}

/// Whether line `i` is the first of `lines` that breaks the protocol.
pub open spec fn first_violation(lines: Seq<Seq<char>>, i: int) -> bool {
    &&& 0 <= i < lines.len()
    &&& decoded(lines[i]) is Violation
    &&& forall|j: int| 0 <= j < i ==> !(#[trigger] decoded(lines[j]) is Violation)
}

/// Output that breaks the protocol after `k` lines describes no mapping,
/// whatever follows.
pub proof fn lemma_violation_is_final(lines: Seq<Seq<char>>, k: int)
    requires
        0 <= k <= lines.len(),
        mapping_of(lines.take(k)) is None,
    ensures
        mapping_of(lines) is None,
    decreases lines.len(),
{
    if k == lines.len() {
        assert(lines.take(k) =~= lines);
    } else {
        assert(lines.drop_last().take(k) =~= lines.take(k));
        lemma_violation_is_final(lines.drop_last(), k);
    }
}

/// Every mapping that the helper's output describes holds each thread under
/// its own native id, and classifies it by its JVM identifier.
pub proof fn lemma_mapping_of_wf(lines: Seq<Seq<char>>)
    ensures
        mapping_of(lines) matches Some(m) ==> mapping_wf(m),
    decreases lines.len(),
{
    if lines.len() > 0 {
        lemma_mapping_of_wf(lines.drop_last());
    }
}

/// The thread lines that tell of `threads`, in their order.
pub open spec fn encoded_all(threads: Seq<ThreadView>) -> Seq<Seq<char>> {
    Seq::new(threads.len(), |i: int| encoded(threads[i]))
}

/// The two ways to a mapping agree: threads written as thread lines and read
/// back describe the mapping that holds the threads themselves.
pub proof fn lemma_lines_and_threads_agree(threads: Seq<ThreadView>)
    requires
        forall|i: int| 0 <= i < threads.len() ==> (#[trigger] threads[i]).wf(),
    ensures
        mapping_of(encoded_all(threads)) == Some(mapping_of_threads(threads)),
    decreases threads.len(),
{
    if threads.len() > 0 {
        let rest = threads.drop_last();
        assert forall|i: int| 0 <= i < rest.len() implies (#[trigger] rest[i]).wf() by {
            assert(rest[i] == threads[i]);
        }
        lemma_lines_and_threads_agree(rest);
        assert(encoded_all(threads).drop_last() =~= encoded_all(rest));
        assert(encoded_all(threads).last() == encoded(threads.last()));
        lemma_decode_encode(threads.last());
    }
}

/// The mapping that the helper's whole output describes, or the protocol
/// violation of the first line that is one.
pub fn collect_threads(lines: &Vec<String>) -> (r: Result<ThreadMapping, Failure>)
    ensures
        match r {
            Ok(mapping) => mapping_of(texts(lines@)) == Some(mapping@) && mapping.wf(),
            Err(failure) => mapping_of(texts(lines@)) is None && exists|i: int|
                #![trigger lines@[i]]
                first_violation(texts(lines@), i) && (failure matches Failure::ProtocolViolation(
                    raw,
                ) && raw@ == lines@[i]@),
        },
{
    let mut mapping = ThreadMapping::new();
    let mut i: usize = 0;
    while i < lines.len()
        invariant
            i <= lines.len(),
            mapping_of(texts(lines@).take(i as int)) == Some(mapping@),
            forall|j: int| 0 <= j < i ==> !(#[trigger] decoded(texts(lines@)[j]) is Violation),
        decreases lines.len() - i,
    {
        proof {
            assert(texts(lines@).take(i + 1).drop_last() =~= texts(lines@).take(i as int));
            assert(texts(lines@).take(i + 1).last() == lines@[i as int]@);
        }
        match mapping.accept_line(lines[i].as_str()) {
            Ok(()) => {},
            Err(failure) => {
                proof {
                    lemma_violation_is_final(texts(lines@), i + 1);
                    assert(first_violation(texts(lines@), i as int));
                }
                return Err(failure);
            },
        }
        i = i + 1;
    }
    assert(texts(lines@).take(i as int) =~= texts(lines@));
    proof {
        lemma_mapping_of_wf(texts(lines@));
    }
    Ok(mapping)
}

/// Whether the helper ended well: only status 0 is success.
pub fn check_exit(status: Option<i32>) -> (r: Result<(), Failure>)
    ensures
        status == Some(0i32) ==> r is Ok,
        status != Some(0i32) ==> r == Err::<(), Failure>(Failure::HelperProcessFailed(status)),
{
    match status {
        Some(0) => Ok(()),
        _ => Err(Failure::HelperProcessFailed(status)),
    }
}

/// The mapping of a helper that wrote `lines` and ended with `status`. A
/// line that breaks the protocol fails the run, the first such line being
/// reported; so does any status but 0, however many lines were read.
pub fn resolve_from_output(lines: &Vec<String>, status: Option<i32>) -> (r: Result<
    ThreadMapping,
    Failure,
>)
    ensures
        match r {
            Ok(mapping) => status == Some(0i32) && mapping_of(texts(lines@)) == Some(mapping@)
                && mapping.wf(),
            Err(failure) => if mapping_of(texts(lines@)) is None {
                exists|i: int|
                    #![trigger lines@[i]]
                    first_violation(texts(lines@), i) && (failure matches Failure::ProtocolViolation(
                        raw,
                    ) && raw@ == lines@[i]@)
            } else {
                status != Some(0i32) && failure == Failure::HelperProcessFailed(status)
            },
        },
{
    let mapping = collect_threads(lines)?;
    check_exit(status)?;
    Ok(mapping)
}

} // verus!
