//! The local-filesystem connector's sandboxing rule: a path may be served
//! only from within one of the configured root directories, where containment
//! means the root's path components are a prefix of the path's components.

use vstd::prelude::*;

use vstd::string::StringSliceAdditionalSpecFns;
use vstd::utf8::encode_utf8;

verus! {

/// The byte of `/`, the path separator.
pub const PATH_SEPARATOR: u8 = 47;

/// The byte of `.`, the current-directory segment.
pub const DOT: u8 = 46;

/// The single-byte `.` segment.
pub open spec fn dot_segment() -> Seq<u8> {
    seq![DOT]
}

/// The maximal non-separator runs of the bytes after `s`, given the run
/// accumulated so far.
pub open spec fn split_acc(s: Seq<u8>, cur: Seq<u8>) -> Seq<Seq<u8>>
    decreases s.len(),
{
    if s.len() == 0 {
        if cur.len() == 0 {
            Seq::empty()
        } else {
            seq![cur]
        }
    } else if s[0] == PATH_SEPARATOR {
        (if cur.len() == 0 {
            Seq::<Seq<u8>>::empty()
        } else {
            seq![cur]
        }) + split_acc(s.drop_first(), Seq::empty())
    } else {
        split_acc(s.drop_first(), cur.push(s[0]))
    }
}

/// The maximal non-separator runs of the bytes, in order: the raw segments,
/// with separator runs contributing nothing.
pub open spec fn raw_segments(s: Seq<u8>) -> Seq<Seq<u8>> {
    split_acc(s, Seq::empty())
}

/// The segments that name directories or files: every `.` segment is
/// normalized away.
pub open spec fn kept_segments(segs: Seq<Seq<u8>>) -> Seq<Seq<u8>>
    decreases segs.len(),
{
    if segs.len() == 0 {
        Seq::empty()
    } else if segs.last() == dot_segment() {
        kept_segments(segs.drop_last())
    } else {
        kept_segments(segs.drop_last()).push(segs.last())
    }
}

proof fn lemma_kept_snoc(s: Seq<Seq<u8>>, x: Seq<u8>)
    ensures
        kept_segments(s.push(x)) == (if x != dot_segment() {
            kept_segments(s).push(x)
        } else {
            kept_segments(s)
        }),
{
    assert(s.push(x).drop_last() =~= s);
    assert(s.push(x).last() == x);
}

/// The normalized components of a byte path: a leading separator contributes
/// a root component (modeled as the empty segment); a relative path beginning
/// with a `.` segment keeps one leading `.` component; every other `.`
/// segment and every empty run (repeated or trailing separators) is dropped.
pub open spec fn path_components(s: Seq<u8>) -> Seq<Seq<u8>> {
    let segs = raw_segments(s);
    if s.len() > 0 && s[0] == PATH_SEPARATOR {
        seq![Seq::<u8>::empty()] + kept_segments(segs)
    } else if segs.len() > 0 && segs[0] == dot_segment() {
        seq![dot_segment()] + kept_segments(segs)
    } else {
        kept_segments(segs)
    }
}

/// Whether `p` lies within the directory `r`, on their UTF-8 bytes: the
/// normalized components of `r` are a prefix of those of `p`. An empty root
/// has no components and admits every path.
pub open spec fn path_within(p: Seq<u8>, r: Seq<u8>) -> bool {
    path_components(r).is_prefix_of(path_components(p))
}

/// The views of a sequence of byte vectors, in order.
pub open spec fn segment_views(s: Seq<Vec<u8>>) -> Seq<Seq<u8>> {
    Seq::new(s.len(), |i: int| s[i]@)
}

/// Cut the bytes into their raw segments.
fn split_segments(b: &[u8]) -> (r: Vec<Vec<u8>>)
    ensures
        segment_views(r@) == raw_segments(b@),
{
    let ghost b0 = b@;
    let mut out: Vec<Vec<u8>> = Vec::new();
    let mut cur: Vec<u8> = Vec::new();
    let mut i: usize = 0;
    proof {
        assert(b0.skip(0) =~= b0);
        assert(segment_views(out@) =~= Seq::<Seq<u8>>::empty());
        assert(raw_segments(b0) =~= segment_views(out@) + split_acc(b0.skip(0), cur@));
    }
    while i < b.len()
        invariant
            i <= b0.len(),
            b0 == b@,
            raw_segments(b0) == segment_views(out@) + split_acc(b0.skip(i as int), cur@),
        decreases b0.len() - i,
    {
        let ghost out0 = segment_views(out@);
        let ghost cur0 = cur@;
        proof {
            assert(b0.skip(i as int)[0] == b0[i as int]);
            assert(b0.skip(i as int).drop_first() =~= b0.skip(i as int + 1));
        }
        if b[i] == PATH_SEPARATOR {
            if cur.len() > 0 {
                out.push(cur);
                cur = Vec::new();
                proof {
                    assert(cur@ =~= Seq::<u8>::empty());
                    assert(segment_views(out@) =~= out0.push(cur0));
                    assert(split_acc(b0.skip(i as int), cur0) == seq![cur0] + split_acc(
                        b0.skip(i as int + 1),
                        Seq::empty(),
                    ));
                    assert(out0 + (seq![cur0] + split_acc(b0.skip(i as int + 1), Seq::empty()))
                        =~= segment_views(out@) + split_acc(b0.skip(i as int + 1), cur@));
                }
            } else {
                proof {
                    assert(cur0 =~= Seq::<u8>::empty());
                    assert(split_acc(b0.skip(i as int), cur0) == Seq::<Seq<u8>>::empty()
                        + split_acc(b0.skip(i as int + 1), Seq::empty()));
                    assert(cur@ =~= Seq::<u8>::empty());
                    assert(out0 + (Seq::<Seq<u8>>::empty() + split_acc(
                        b0.skip(i as int + 1),
                        Seq::empty(),
                    )) =~= out0 + split_acc(b0.skip(i as int + 1), cur@));
                }
            }
        } else {
            cur.push(b[i]);
            proof {
                assert(cur@ == cur0.push(b0[i as int]));
                assert(split_acc(b0.skip(i as int), cur0) == split_acc(
                    b0.skip(i as int + 1),
                    cur@,
                ));
            }
        }
        i += 1;
    }
    proof {
        assert(b0.skip(b0.len() as int).len() == 0);
    }
    if cur.len() > 0 {
        let ghost out0 = segment_views(out@);
        let ghost cur0 = cur@;
        out.push(cur);
        proof {
            assert(split_acc(b0.skip(b0.len() as int), cur0) == seq![cur0]);
            assert(segment_views(out@) =~= out0.push(cur0));
            assert(out0 + seq![cur0] =~= out0.push(cur0));
        }
    } else {
        proof {
            assert(split_acc(b0.skip(b0.len() as int), cur@) == Seq::<Seq<u8>>::empty());
            assert(segment_views(out@) + Seq::<Seq<u8>>::empty() =~= segment_views(out@));
        }
    }
    out
}

/// Whether a segment is the `.` segment.
fn is_dot(seg: &Vec<u8>) -> (r: bool)
    ensures
        r == (seg@ == dot_segment()),
{
    if seg.len() != 1 {
        return false;
    }
    if seg[0] == DOT {
        proof {
            assert(seg@ =~= dot_segment());
        }
        true
    } else {
        proof {
            assert(dot_segment()[0] == DOT);
        }
        false
    }
}

/// The normalized components of the bytes.
fn components_of(b: &[u8]) -> (r: Vec<Vec<u8>>)
    ensures
        segment_views(r@) == path_components(b@),
{
    let segs = split_segments(b);
    let ghost sv = segment_views(segs@);
    let mut out: Vec<Vec<u8>> = Vec::new();
    if b.len() > 0 && b[0] == PATH_SEPARATOR {
        out.push(Vec::new());
        proof {
            assert(segment_views(out@) =~= seq![Seq::<u8>::empty()]);
        }
    } else if segs.len() > 0 && is_dot(&segs[0]) {
        let mut d: Vec<u8> = Vec::new();
        d.push(DOT);
        proof {
            assert(d@ =~= dot_segment());
        }
        out.push(d);
        proof {
            assert(sv[0] == dot_segment());
            assert(segment_views(out@) =~= seq![dot_segment()]);
        }
    }
    let ghost marker = segment_views(out@);
    let mut rest = segs;
    let total = rest.len();
    let mut i: usize = 0;
    proof {
        assert(rest@ =~= segs@.skip(0));
        assert(sv.take(0) =~= Seq::<Seq<u8>>::empty());
        assert(kept_segments(sv.take(0)) == Seq::<Seq<u8>>::empty());
        assert(segment_views(out@) =~= marker + kept_segments(sv.take(0)));
    }
    while rest.len() > 0
        invariant
            sv.len() == total as int,
            i + rest@.len() == sv.len(),
            sv.len() == segs@.len(),
            sv == segment_views(segs@),
            rest@ == segs@.skip(i as int),
            segment_views(out@) == marker + kept_segments(sv.take(i as int)),
        decreases rest@.len(),
    {
        let ghost out0 = segment_views(out@);
        let ghost before = rest@;
        let seg = rest.remove(0);
        proof {
            assert(seg == before[0]);
            assert(before[0] == segs@.skip(i as int)[0]);
            assert(segs@.skip(i as int)[0] == segs@[i as int]);
            assert(seg@ == sv[i as int]);
            assert(rest@ =~= segs@.skip(i as int + 1));
            assert(sv.take(i as int + 1).drop_last() =~= sv.take(i as int));
            assert(sv.take(i as int + 1).last() == sv[i as int]);
        }
        proof {
            assert(sv.take(i as int + 1) =~= sv.take(i as int).push(sv[i as int]));
            lemma_kept_snoc(sv.take(i as int), sv[i as int]);
        }
        if !is_dot(&seg) {
            out.push(seg);
            proof {
                assert(segment_views(out@) =~= out0.push(sv[i as int]));
                assert(kept_segments(sv.take(i as int + 1)) == kept_segments(
                    sv.take(i as int),
                ).push(sv[i as int]));
                assert(segment_views(out@) =~= marker + kept_segments(sv.take(i as int + 1)));
            }
        } else {
            proof {
                assert(kept_segments(sv.take(i as int + 1)) == kept_segments(sv.take(i as int)));
            }
        }
        i += 1;
    }
    proof {
        assert(sv.take(sv.len() as int) =~= sv);
        assert(segment_views(out@) =~= path_components(b@));
    }
    out
}

/// Whether two byte vectors hold the same bytes.
fn bytes_eq(a: &Vec<u8>, b: &Vec<u8>) -> (r: bool)
    ensures
        r == (a@ == b@),
{
    if a.len() != b.len() {
        return false;
    }
    let mut i: usize = 0;
    while i < a.len()
        invariant
            a@.len() == b@.len(),
            i <= a@.len(),
            forall|j: int| 0 <= j < i ==> a@[j] == b@[j],
        decreases a@.len() - i,
    {
        if a[i] != b[i] {
            return false;
        }
        i += 1;
    }
    proof {
        assert(a@ =~= b@);
    }
    true
}

/// Whether the components of `r` are a prefix of the components of `p`.
fn bytes_within(p: &[u8], r: &[u8]) -> (res: bool)
    ensures
        res == path_within(p@, r@),
{
    let pc = components_of(p);
    let rc = components_of(r);
    if rc.len() > pc.len() {
        return false;
    }
    let mut idx: usize = 0;
    while idx < rc.len()
        invariant
            rc@.len() <= pc@.len(),
            idx <= rc@.len(),
            segment_views(pc@) == path_components(p@),
            segment_views(rc@) == path_components(r@),
            forall|j: int| 0 <= j < idx ==> segment_views(rc@)[j] == segment_views(pc@)[j],
        decreases rc@.len() - idx,
    {
        let same = bytes_eq(&rc[idx], &pc[idx]);
        proof {
            assert(segment_views(rc@)[idx as int] == rc@[idx as int]@);
            assert(segment_views(pc@)[idx as int] == pc@[idx as int]@);
        }
        if !same {
            proof {
                if path_within(p@, r@) {
                    assert(path_components(r@) =~= path_components(p@).subrange(
                        0,
                        path_components(r@).len() as int,
                    ));
                    assert(segment_views(rc@)[idx as int] == segment_views(pc@)[idx as int]);
                }
            }
            return false;
        }
        idx += 1;
    }
    proof {
        assert(path_components(r@) =~= path_components(p@).subrange(
            0,
            path_components(r@).len() as int,
        ));
    }
    true
}

/// Serves files from a fixed set of root directories, never from outside
/// them.
pub struct LocalFsConnector {
    /// The directories files may be served from.
    pub root_paths: Vec<String>,
    /// Directory names skipped while listing.
    pub ignore_patterns: Vec<String>,
}

impl LocalFsConnector {
    pub fn new(root_paths: Vec<String>, ignore_patterns: Vec<String>) -> (r: LocalFsConnector)
        ensures
            r.root_paths == root_paths,
            r.ignore_patterns == ignore_patterns,
    {
        LocalFsConnector { root_paths, ignore_patterns }
    }

    /// Whether the path lies within one of the allowed roots.
    pub fn is_safe_path(&self, path: &String) -> (r: bool)
        ensures
            r == exists|k: int|
                0 <= k < self.root_paths@.len() && path_within(
                    encode_utf8(path@),
                    encode_utf8((#[trigger] self.root_paths@[k])@),
                ),
    {
        let s = path.as_str();
        let p = s.as_bytes();
        proof {
            assert(p@ == s.spec_bytes());
        }
        let mut k: usize = 0;
        while k < self.root_paths.len()
            invariant
                k <= self.root_paths@.len(),
                p@ == encode_utf8(path@),
                forall|j: int|
                    0 <= j < k ==> !path_within(
                        encode_utf8(path@),
                        encode_utf8((#[trigger] self.root_paths@[j])@),
                    ),
            decreases self.root_paths@.len() - k,
        {
            let rs = self.root_paths[k].as_str();
            let root = rs.as_bytes();
            proof {
                assert(root@ == rs.spec_bytes());
                assert(root@ == encode_utf8(self.root_paths@[k as int]@));
            }
            if bytes_within(p, root) {
                return true;
            }
            k += 1;
        }
        false
    }
}

} // verus!
