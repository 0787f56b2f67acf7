//! JVM threads by native thread id: what is known of one thread, the mapping
//! of a whole process, and the ordered list of the threads to report on.

use std::collections::HashMap;
use vstd::prelude::*;
use vstd::std_specs::iter::IteratorSpec;
use crate::codec::{decode_line, decoded, Decoded};
use crate::failure::Failure;
use crate::header::{shorten, shortened, MAX_SHORT_NAME_LEN};

verus! {

broadcast use vstd::std_specs::hash::group_hash_axioms;

/// One thread as contracts speak of it.
pub struct ThreadView {
    /// The JVM's own identifier of the thread; 0 for a thread that is no
    /// genuine Java thread.
    pub tid: i64,
    /// The kernel's identifier of the thread.
    pub nid: u32,
    /// The thread's display name.
    pub name: Seq<char>,
    /// Whether the JVM manages the thread.
    pub is_java: bool,
}

impl ThreadView {
    /// A thread is a Java thread exactly when its JVM identifier is not 0.
    pub open spec fn wf(self) -> bool {
        self.is_java == (self.tid != 0)
    }
}

/// The thread that the JVM reports under the native id `nid`.
pub open spec fn thread_of(nid: u32, tid: i64, name: Seq<char>) -> ThreadView {
    ThreadView { tid, nid, name, is_java: tid != 0 }
}

/// One thread of the JVM.
#[derive(Debug)]
pub struct ThreadInfo {
    tid: i64,
    nid: u32,
    name: String,
    is_java: bool,
}

impl View for ThreadInfo {
    type V = ThreadView;

    closed spec fn view(&self) -> ThreadView {
        ThreadView { tid: self.tid, nid: self.nid, name: self.name@, is_java: self.is_java }
    }
}

impl ThreadInfo {
    /// Every thread is classified by its JVM identifier.
    #[verifier::type_invariant]
    spec fn classified(self) -> bool {
        self.is_java == (self.tid != 0)
    }

    /// The thread with native id `nid` that the JVM knows as `tid` and `name`.
    pub fn new(nid: u32, tid: i64, name: String) -> (r: ThreadInfo)
        ensures
            r@ == thread_of(nid, tid, name@),
            r@.wf(),
    {
        ThreadInfo { tid, nid, name, is_java: tid != 0 }
    }

    /// The JVM's identifier of the thread.
    pub fn tid(&self) -> (r: i64)
        ensures
            r == self@.tid,
    {
        self.tid
    }

    /// The kernel's identifier of the thread.
    pub fn nid(&self) -> (r: u32)
        ensures
            r == self@.nid,
    {
        self.nid
    }

    /// The thread's display name.
    pub fn name(&self) -> (r: &str)
        ensures
            r@ == self@.name,
    {
        self.name.as_str()
    }

    /// Whether the JVM manages the thread: whether its JVM identifier is
    /// not 0.
    pub fn is_java(&self) -> (r: bool)
        ensures
            r == self@.is_java,
            r == (self@.tid != 0),
            self@.wf(),
    {
        proof {
            use_type_invariant(self);
        }
        self.is_java
    }

    /// A second value for the same thread.
    pub fn duplicate(&self) -> (r: ThreadInfo)
        ensures
            r@ == self@,
            r@.wf(),
    {
        proof {
            use_type_invariant(self);
        }
        ThreadInfo {
            tid: self.tid,
            nid: self.nid,
            name: self.name.clone(),
            is_java: self.is_java,
        }
    }

    /// The name as a report shows it: whole where it has at most
    /// `MAX_SHORT_NAME_LEN` characters, else its two ends round an ellipsis.
    pub fn short_name(&self) -> (r: String)
        ensures
            r@ == shortened(self@.name, MAX_SHORT_NAME_LEN as nat),
    {
        shorten(self.name.as_str(), MAX_SHORT_NAME_LEN)
    }
}

/// Whether every thread of `m` stands under its own native id and is
/// classified by its JVM identifier.
pub open spec fn mapping_wf(m: Map<u32, ThreadView>) -> bool {
    forall|nid: u32| #[trigger] m.contains_key(nid) ==> m[nid].nid == nid && m[nid].wf()
}

/// The threads `threads` as contracts speak of them.
pub open spec fn views(threads: Seq<ThreadInfo>) -> Seq<ThreadView> {
    Seq::new(threads.len(), |i: int| threads[i]@)
}

/// The mapping that holds `threads`, each under its native id, a later one
/// in place of an earlier one with the same id.
pub open spec fn mapping_of_threads(threads: Seq<ThreadView>) -> Map<u32, ThreadView>
    decreases threads.len(),
{
    if threads.len() == 0 {
        Map::empty()
    } else {
        mapping_of_threads(threads.drop_last()).insert(threads.last().nid, threads.last())
    }
}

/// Whether `s` is strictly ascending.
pub open spec fn ascending(s: Seq<u32>) -> bool {
    forall|i: int, j: int| 0 <= i < j < s.len() ==> s[i] < s[j]
}

/// Whether `s` lists the Java threads of `m`, each once, by ascending native
/// id.
pub open spec fn lists_java_threads(m: Map<u32, ThreadView>, s: Seq<u32>) -> bool {
    &&& ascending(s)
    &&& forall|nid: u32| #[trigger] s.contains(nid) <==> m.contains_key(nid) && m[nid].is_java
}

/// Two ascending sequences with the same members are one sequence.
pub proof fn lemma_ascending_unique(a: Seq<u32>, b: Seq<u32>)
    requires
        ascending(a),
        ascending(b),
        forall|x: u32| a.contains(x) <==> b.contains(x),
    ensures
        a == b,
    decreases a.len(),
{
    if a.len() == 0 {
        if b.len() > 0 {
            assert(b.contains(b[0]));
        }
        assert(a =~= b);
    } else {
        assert(a.contains(a.last()));
        assert(b.contains(a.last()));
        assert(b.contains(b.last()));
        assert(a.contains(b.last()));
        let i = choose|i: int| 0 <= i < b.len() && b[i] == a.last();
        let j = choose|j: int| 0 <= j < a.len() && a[j] == b.last();
        assert(a.last() == b.last());
        let a0 = a.drop_last();
        let b0 = b.drop_last();
        assert forall|x: u32| a0.contains(x) <==> b0.contains(x) by {
            if a0.contains(x) {
                let k = choose|k: int| 0 <= k < a0.len() && a0[k] == x;
                assert(a[k] == x);
                assert(a.contains(x));
                let l = choose|l: int| 0 <= l < b.len() && b[l] == x;
                assert(x < a.last());
                assert(b0[l] == x);
            }
            if b0.contains(x) {
                let k = choose|k: int| 0 <= k < b0.len() && b0[k] == x;
                assert(b[k] == x);
                assert(b.contains(x));
                let l = choose|l: int| 0 <= l < a.len() && a[l] == x;
                assert(x < b.last());
                assert(a0[l] == x);
            }
        }
        lemma_ascending_unique(a0, b0);
        assert(a =~= a0.push(a.last()));
        assert(b =~= b0.push(b.last()));
    }
}

/// The list of the Java threads is a function of the mapping: whatever two
/// selections from one mapping return, they return the same ids in the same
/// order.
pub proof fn lemma_selection_stable(m: Map<u32, ThreadView>, first: Seq<u32>, second: Seq<u32>)
    requires
        lists_java_threads(m, first),
        lists_java_threads(m, second),
    ensures
        first == second,
{
    assert forall|x: u32| first.contains(x) <==> second.contains(x) by {
        assert(first.contains(x) <==> m.contains_key(x) && m[x].is_java);
        assert(second.contains(x) <==> m.contains_key(x) && m[x].is_java);
    }
    lemma_ascending_unique(first, second);
}

/// No thread whose JVM identifier is 0 is among the selected ones, and every
/// other thread of the mapping is.
pub proof fn lemma_selection_excludes_tid_zero(m: Map<u32, ThreadView>, selected: Seq<u32>, nid: u32)
    requires
        mapping_wf(m),
        lists_java_threads(m, selected),
        m.contains_key(nid),
    ensures
        selected.contains(nid) <==> m[nid].tid != 0,
{
}

/// The threads of one JVM process, by native thread id.
#[derive(Debug)]
pub struct ThreadMapping {
    entries: HashMap<u32, ThreadInfo>,
}

impl View for ThreadMapping {
    type V = Map<u32, ThreadView>;

    closed spec fn view(&self) -> Map<u32, ThreadView> {
        Map::new(|nid: u32| self.entries@.contains_key(nid), |nid: u32| self.entries@[nid]@)
    }
}

/// Puts `x` into the ascending `v`, unless it is there already.
fn insert_ascending(v: &mut Vec<u32>, x: u32)
    requires
        ascending(old(v)@),
    ensures
        ascending(final(v)@),
        forall|y: u32| #[trigger] final(v)@.contains(y) <==> old(v)@.contains(y) || y == x,
{
    let mut i: usize = 0;
    while i < v.len() && v[i] < x
        invariant
            i <= v.len(),
            *v == *old(v),
            forall|j: int| 0 <= j < i ==> v@[j] < x,
        decreases v.len() - i,
    {
        i = i + 1;
    }
    if i < v.len() && v[i] == x {
        assert(v@.contains(x));
    } else {
        v.insert(i, x);
        assert forall|y: u32| #[trigger] v@.contains(y) <==> old(v)@.contains(y) || y == x by {
            if v@.contains(y) {
                let k = choose|k: int| 0 <= k < v@.len() && v@[k] == y;
                if k < i {
                    assert(old(v)@[k] == y);
                } else if k > i {
                    assert(old(v)@[k - 1] == y);
                }
            }
            if old(v)@.contains(y) {
                let k = choose|k: int| 0 <= k < old(v)@.len() && old(v)@[k] == y;
                if k < i {
                    assert(v@[k] == y);
                } else {
                    assert(v@[k + 1] == y);
                }
            }
            if y == x {
                assert(v@[i as int] == y);
            }
        }
    }
}

impl ThreadMapping {
    /// Whether the mapping holds each thread under its own native id. Every
    /// mapping that `new` made and the methods below filled does.
    pub open spec fn wf(&self) -> bool {
        mapping_wf(self@)
    }

    /// A mapping without threads.
    pub fn new() -> (r: ThreadMapping)
        ensures
            r@ == Map::<u32, ThreadView>::empty(),
            r.wf(),
    {
        let r = ThreadMapping { entries: HashMap::new() };
        assert(r@ =~= Map::<u32, ThreadView>::empty());
        r
    }

    /// The mapping of the threads that a runtime handed over one by one.
    pub fn from_threads(threads: &Vec<ThreadInfo>) -> (r: ThreadMapping)
        ensures
            r@ == mapping_of_threads(views(threads@)),
            r.wf(),
    {
        let mut mapping = ThreadMapping::new();
        let mut i: usize = 0;
        while i < threads.len()
            invariant
                i <= threads.len(),
                mapping.wf(),
                mapping@ == mapping_of_threads(views(threads@).take(i as int)),
            decreases threads.len() - i,
        {
            proof {
                assert(views(threads@).take(i + 1).drop_last() =~= views(threads@).take(i as int));
                assert(views(threads@).take(i + 1).last() == threads@[i as int]@);
            }
            mapping.insert(threads[i].duplicate());
            i = i + 1;
        }
        assert(views(threads@).take(i as int) =~= views(threads@));
        mapping
    }

    /// Records `info` under its native id, in place of what was there.
    pub fn insert(&mut self, info: ThreadInfo)
        ensures
            final(self)@ == old(self)@.insert(info@.nid, info@),
            info@.wf(),
            old(self).wf() ==> final(self).wf(),
    {
        proof {
            use_type_invariant(&info);
        }
        let nid = info.nid;
        self.entries.insert(nid, info);
        assert(self@ =~= old(self)@.insert(info@.nid, info@));
    }

    /// Takes in one line of the helper's output: a thread line records its
    /// thread, any other line changes nothing, and a malformed thread line
    /// is a protocol violation that leaves the mapping as it was.
    pub fn accept_line(&mut self, line: &str) -> (r: Result<(), Failure>)
        ensures
            match decoded(line@) {
                Decoded::Ignored => r is Ok && final(self)@ == old(self)@,
                Decoded::Thread(t) => r is Ok && final(self)@ == old(self)@.insert(t.nid, t),
                Decoded::Violation => final(self)@ == old(self)@ && (r matches Err(
                    Failure::ProtocolViolation(raw),
                ) && raw@ == line@),
            },
            old(self).wf() ==> final(self).wf(),
    {
        match decode_line(line) {
            Ok(Some(info)) => {
                self.insert(info);
                Ok(())
            },
            Ok(None) => Ok(()),
            Err(failure) => Err(failure),
        }
    }

    /// The thread with native id `nid`, if the mapping holds one.
    pub fn get(&self, nid: u32) -> (r: Option<&ThreadInfo>)
        ensures
            match r {
                Some(info) => self@.contains_key(nid) && info@ == self@[nid],
                None => !self@.contains_key(nid),
            },
    {
        self.entries.get(&nid)
    }

    /// How many threads the mapping holds.
    pub fn len(&self) -> (r: usize)
        ensures
            r == self@.dom().len(),
            self@.dom().finite(),
    {
        assert(self@.dom() =~= self.entries@.dom());
        self.entries.len()
    }

    /// The native ids of the Java threads, ascending. Threads that are no
    /// Java threads stay in the mapping and are left out here.
    pub fn select_java_tids(&self) -> (r: Vec<u32>)
        ensures
            lists_java_threads(self@, r@),
    {
        let mut out: Vec<u32> = Vec::new();
        let keys = self.entries.keys();
        let ghost all: Seq<u32> = keys.remaining().unref();
        let ghost mut seen: int = 0;
        for key in it: keys
            invariant
                ascending(out@),
                all.to_set() == self.entries@.dom(),
                all == it.seq().unref(),
                seen == it.index(),
                0 <= seen <= all.len(),
                forall|y: u32| #[trigger]
                    out@.contains(y) <==> (exists|j: int| 0 <= j < seen && all[j] == y)
                        && self.entries@[y]@.is_java,
        {
            assert(all[seen] == *key);
            assert(all.contains(*key));
            assert(all.to_set().contains(*key));
            let ghost before = out@;
            match self.entries.get(key) {
                Some(info) => {
                    if info.is_java {
                        insert_ascending(&mut out, *key);
                    }
                },
                None => {},
            }
            proof {
                assert forall|y: u32| #[trigger]
                    out@.contains(y) <==> (exists|j: int| 0 <= j < seen + 1 && all[j] == y)
                        && self.entries@[y]@.is_java by {
                    if (exists|j: int| 0 <= j < seen + 1 && all[j] == y) {
                        let j = choose|j: int| 0 <= j < seen + 1 && all[j] == y;
                        if j < seen {
                            assert(exists|j: int| 0 <= j < seen && all[j] == y);
                        }
                    }
                    if before.contains(y) {
                        let j = choose|j: int| 0 <= j < seen && all[j] == y;
                        assert(0 <= j < seen + 1 && all[j] == y);
                    }
                    if y == *key {
                        assert(0 <= seen < seen + 1 && all[seen] == y);
                    }
                }
                seen = seen + 1;
            }
        }
        proof {
            assert forall|nid: u32| #[trigger]
                out@.contains(nid) <==> self@.contains_key(nid) && self@[nid].is_java by {
                if self@.contains_key(nid) {
                    assert(all.to_set().contains(nid));
                    assert(all.contains(nid));
                }
                if (exists|j: int| 0 <= j < seen && all[j] == nid) {
                    let j = choose|j: int| 0 <= j < seen && all[j] == nid;
                    assert(all.contains(nid));
                    assert(all.to_set().contains(nid));
                }
            }
        }
        out
    }
}

} // verus!
