//! The environment transcoder: turns one raw settings line into one
//! service-manager directive line.
//!
//! A settings line that contains the marker `export ` becomes the same line
//! with the first occurrence of the marker replaced by `Environment=`; a line
//! without the marker passes through unchanged. Lines are handled as bytes:
//! the marker is pure ASCII, so a byte-level match can only occur on a
//! character boundary of valid UTF-8 input.

use vstd::prelude::*;

verus! {

/// The marker token `export ` (with its trailing space), as bytes.
pub open spec fn marker() -> Seq<u8> {
    seq![101u8, 120u8, 112u8, 111u8, 114u8, 116u8, 32u8]
}

/// The replacement prefix `Environment=`, as bytes.
pub open spec fn replacement() -> Seq<u8> {
    seq![69u8, 110u8, 118u8, 105u8, 114u8, 111u8, 110u8, 109u8, 101u8, 110u8, 116u8, 61u8]
}

/// The marker occurs in `line` starting at position `i`.
pub open spec fn marker_at(line: Seq<u8>, i: int) -> bool {
    &&& 0 <= i
    &&& i + marker().len() <= line.len()
    &&& line.subrange(i, i + marker().len() as int) == marker()
}

/// The marker occurs somewhere in `line`.
pub open spec fn has_marker(line: Seq<u8>) -> bool {
    exists|i: int| marker_at(line, i)
}

/// Position `i` is the first occurrence of the marker in `line`.
pub open spec fn first_marker_at(line: Seq<u8>, i: int) -> bool {
    &&& marker_at(line, i)
    &&& forall|j: int| 0 <= j < i ==> !marker_at(line, j)
}

/// What the transcoder produces for one settings line: the line with the
/// first occurrence of the marker replaced by the directive prefix, or the
/// line itself when the marker does not occur.
pub open spec fn transcoded(line: Seq<u8>) -> Seq<u8> {
    if has_marker(line) {
        let i = choose|i: int| first_marker_at(line, i);
        line.subrange(0, i) + replacement() + line.subrange(
            i + marker().len() as int,
            line.len() as int,
        )
    } else {
        line
    }
}

/// An occurrence of the marker at or before position `i` gives a first
/// occurrence.
proof fn lemma_first_marker_below(line: Seq<u8>, i: int)
    requires
        marker_at(line, i),
    ensures
        exists|k: int| first_marker_at(line, k),
    decreases i,
{
    if forall|j: int| 0 <= j < i ==> !marker_at(line, j) {
        assert(first_marker_at(line, i));
    } else {
        let j = choose|j: int| 0 <= j < i && marker_at(line, j);
        lemma_first_marker_below(line, j);
    }
}

/// A line holding the marker somewhere holds it at a unique first position.
pub proof fn lemma_first_marker_exists(line: Seq<u8>)
    requires
        has_marker(line),
    ensures
        exists|k: int| first_marker_at(line, k),
{
    let i = choose|i: int| marker_at(line, i);
    lemma_first_marker_below(line, i);
}

/// The first occurrence of the marker is unique.
pub proof fn lemma_first_marker_unique(line: Seq<u8>, i: int, j: int)
    requires
        first_marker_at(line, i),
        first_marker_at(line, j),
    ensures
        i == j,
{
    if i < j {
        assert(!marker_at(line, i));
    }
    if j < i {
        assert(!marker_at(line, j));
    }
}

/// A line holding the marker is transcoded to the line with the first
/// occurrence of the marker replaced by the directive prefix and no other
/// bytes altered.
pub proof fn lemma_transcode_replaces_first_marker(line: Seq<u8>, i: int)
    requires
        first_marker_at(line, i),
    ensures
        transcoded(line) == line.subrange(0, i) + replacement() + line.subrange(
            i + marker().len() as int,
            line.len() as int,
        ),
{
    assert(has_marker(line));
    let k = choose|k: int| first_marker_at(line, k);
    lemma_first_marker_unique(line, i, k);
}

/// A line without the marker is transcoded to itself, unchanged.
pub proof fn lemma_transcode_no_marker(line: Seq<u8>)
    requires
        !has_marker(line),
    ensures
        transcoded(line) == line,
{
}

/// Whether the marker occurs in `line` at position `i`.
fn marker_matches(line: &Vec<u8>, i: usize) -> (r: bool)
    requires
        i + 7 <= line@.len(),
        line@.len() <= usize::MAX,
    ensures
        r == marker_at(line@, i as int),
{
    let r = line[i] == 101 && line[i + 1] == 120 && line[i + 2] == 112 && line[i + 3] == 111
        && line[i + 4] == 114 && line[i + 5] == 116 && line[i + 6] == 32;
    proof {
        let s = line@.subrange(i as int, i as int + 7);
        assert(marker().len() == 7);
        if r {
            assert(s =~= marker());
        }
        if marker_at(line@, i as int) {
            assert(line@[i as int] == s[0] && line@[i as int + 1] == s[1] && line@[i as int + 2]
                == s[2] && line@[i as int + 3] == s[3] && line@[i as int + 4] == s[4] && line@[i
                as int + 5] == s[5] && line@[i as int + 6] == s[6]);
        }
    }
    r
}

/// The position of the first occurrence of the marker in `line`, if any.
pub fn find_marker(line: &Vec<u8>) -> (r: Option<usize>)
    ensures
        match r {
            Some(i) => first_marker_at(line@, i as int),
            None => !has_marker(line@),
        },
{
    if line.len() < 7 {
        proof {
            assert(marker().len() == 7);
            assert forall|i: int| !marker_at(line@, i) by {}
        }
        return None;
    }
    let end = line.len() - 7;
    let mut i: usize = 0;
    while i <= end
        invariant
            line@.len() >= 7,
            line@.len() <= usize::MAX,
            end == line@.len() - 7,
            i <= end + 1,
            forall|j: int| 0 <= j < i ==> !marker_at(line@, j),
        decreases end + 1 - i,
    {
        if marker_matches(line, i) {
            return Some(i);
        }
        i = i + 1;
    }
    proof {
        assert(marker().len() == 7);
        assert forall|j: int| !marker_at(line@, j) by {
            if marker_at(line@, j) {
                assert(j + 7 <= line@.len());
                assert(j < i);
            }
        }
    }
    None
}

/// Transcode one settings line: replace the first occurrence of `export `
/// with `Environment=`, or return the line unchanged when the marker is
/// absent.
pub fn transcode_line(line: &Vec<u8>) -> (r: Vec<u8>)
    ensures
        r@ == transcoded(line@),
{
    match find_marker(line) {
        None => {
            let mut out: Vec<u8> = Vec::new();
            let mut k: usize = 0;
            while k < line.len()
                invariant
                    k <= line@.len(),
                    out@ == line@.subrange(0, k as int),
                decreases line@.len() - k,
            {
                out.push(line[k]);
                proof {
                    assert(out@ =~= line@.subrange(0, k as int + 1));
                }
                k = k + 1;
            }
            proof {
                assert(out@ =~= line@);
            }
            out
        },
        Some(i) => {
            let n = line.len();
            let mut out: Vec<u8> = Vec::new();
            let mut k: usize = 0;
            while k < i
                invariant
                    k <= i,
                    i + 7 <= line@.len(),
                    n == line@.len(),
                    out@ == line@.subrange(0, k as int),
                decreases i - k,
            {
                out.push(line[k]);
                proof {
                    assert(out@ =~= line@.subrange(0, k as int + 1));
                }
                k = k + 1;
            }
            out.push(69);
            out.push(110);
            out.push(118);
            out.push(105);
            out.push(114);
            out.push(111);
            out.push(110);
            out.push(109);
            out.push(101);
            out.push(110);
            out.push(116);
            out.push(61);
            proof {
                assert(out@ =~= line@.subrange(0, i as int) + replacement() + line@.subrange(
                    i as int + 7,
                    i as int + 7,
                ));
            }
            let mut t: usize = i + 7;
            while t < line.len()
                invariant
                    i + 7 <= t <= line@.len(),
                    n == line@.len(),
                    out@ == line@.subrange(0, i as int) + replacement() + line@.subrange(
                        i as int + 7,
                        t as int,
                    ),
                decreases line@.len() - t,
            {
                out.push(line[t]);
                proof {
                    assert(out@ =~= line@.subrange(0, i as int) + replacement() + line@.subrange(
                        i as int + 7,
                        t as int + 1,
                    ));
                }
                t = t + 1;
            }
            proof {
                lemma_transcode_replaces_first_marker(line@, i as int);
                assert(marker().len() == 7);
            }
            out
        },
    }
}

} // verus!
