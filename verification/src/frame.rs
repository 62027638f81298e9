//! Newline-delimited framing of the long-poll byte stream.
//!
//! Each network chunk carries zero or more event records separated by
//! newline bytes; empty fragments are discarded and each non-empty fragment
//! is one record. A record never spans two chunks: the framing keeps no
//! state across chunks. `lemma_split_lines_append` shows that this is sound:
//! as long as a chunk boundary does not fall inside a record, splitting the
//! chunks separately yields exactly the records of the whole stream, in
//! order.

use vstd::prelude::*;

verus! {

/// The newline byte separating records.
pub const RECORD_SEPARATOR: u8 = 10;

/// Left fold of the framing over `s`: the pair of the complete records seen
/// so far and the partial record after the last separator.
pub open spec fn frame_spec(s: Seq<u8>) -> (Seq<Seq<u8>>, Seq<u8>)
    decreases s.len(),
{
    if s.len() == 0 {
        (Seq::empty(), Seq::empty())
    } else {
        let (lines, cur) = frame_spec(s.drop_last());
        if s.last() == RECORD_SEPARATOR {
            if cur.len() == 0 {
                (lines, Seq::empty())
            } else {
                (lines.push(cur), Seq::empty())
            }
        } else {
            (lines, cur.push(s.last()))
        }
    }
}

/// The non-empty fragments of `s` between newline bytes, in order: one
/// record per fragment.
pub open spec fn split_lines_spec(s: Seq<u8>) -> Seq<Seq<u8>> {
    let (lines, cur) = frame_spec(s);
    if cur.len() == 0 {
        lines
    } else {
        lines.push(cur)
    }
}

/// Split one chunk into its records: the non-empty fragments between
/// newline bytes, in order.
pub fn split_lines(chunk: &[u8]) -> (lines: Vec<Vec<u8>>)
    ensures
        lines@.map_values(|line: Vec<u8>| line@) == split_lines_spec(chunk@),
{
    let mut lines: Vec<Vec<u8>> = Vec::new();
    let mut cur: Vec<u8> = Vec::new();
    let mut i: usize = 0;
    while i < chunk.len()
        invariant
            i <= chunk.len(),
            (lines@.map_values(|line: Vec<u8>| line@), cur@) == frame_spec(chunk@.take(i as int)),
        decreases chunk.len() - i,
    {
        proof {
            assert(chunk@.take(i + 1).drop_last() =~= chunk@.take(i as int));
            assert(chunk@.take(i + 1).last() == chunk@[i as int]);
        }
        let b = chunk[i];
        if b == RECORD_SEPARATOR {
            if cur.len() > 0 {
                let ghost pre = lines@.map_values(|line: Vec<u8>| line@);
                let ghost done = cur@;
                lines.push(cur);
                cur = Vec::new();
                proof {
                    assert(lines@.map_values(|line: Vec<u8>| line@) =~= pre.push(done));
                    assert(cur@ =~= Seq::<u8>::empty());
                }
            } else {
                proof {
                    assert(cur@ =~= Seq::<u8>::empty());
                }
            }
        } else {
            cur.push(b);
        }
        i += 1;
    }
    proof {
        assert(chunk@.take(chunk@.len() as int) =~= chunk@);
    }
    if cur.len() > 0 {
        let ghost pre = lines@.map_values(|line: Vec<u8>| line@);
        let ghost done = cur@;
        lines.push(cur);
        proof {
            assert(lines@.map_values(|line: Vec<u8>| line@) =~= pre.push(done));
        }
    }
    lines
}

/// After a chunk ending at a record boundary (its partial record is empty),
/// framing continues independently: the fold over `s1 + s2` is the fold
/// over `s2` with `s1`'s records in front.
proof fn lemma_frame_append_clean(s1: Seq<u8>, s2: Seq<u8>)
    requires
        frame_spec(s1).1.len() == 0,
    ensures
        frame_spec(s1 + s2).0 == frame_spec(s1).0 + frame_spec(s2).0,
        frame_spec(s1 + s2).1 == frame_spec(s2).1,
    decreases s2.len(),
{
    if s2.len() == 0 {
        assert(s1 + s2 =~= s1);
        assert(frame_spec(s1).0 + frame_spec(s2).0 =~= frame_spec(s1).0);
    } else {
        lemma_frame_append_clean(s1, s2.drop_last());
        assert((s1 + s2).drop_last() =~= s1 + s2.drop_last());
        assert((s1 + s2).last() == s2.last());
        if s2.last() == RECORD_SEPARATOR {
            if frame_spec(s2.drop_last()).1.len() != 0 {
                assert(frame_spec(s1 + s2).0 =~= frame_spec(s1).0 + frame_spec(s2).0);
            }
        }
    }
}

/// Splitting a stream at a record boundary changes nothing: if `s1` ends
/// with a record separator (or is empty), the records of `s1 + s2` are the
/// records of `s1` followed by the records of `s2`. This is why a reader
/// that frames each network chunk independently recovers exactly the
/// records of the whole stream, in order, whenever chunk boundaries do not
/// fall inside a record.
pub proof fn lemma_split_lines_append(s1: Seq<u8>, s2: Seq<u8>)
    requires
        frame_spec(s1).1.len() == 0,
    ensures
        split_lines_spec(s1 + s2) == split_lines_spec(s1) + split_lines_spec(s2),
{
    lemma_frame_append_clean(s1, s2);
    if frame_spec(s2).1.len() == 0 {
        assert(split_lines_spec(s1 + s2) =~= split_lines_spec(s1) + split_lines_spec(s2));
    } else {
        assert(split_lines_spec(s1 + s2) =~= frame_spec(s1).0 + frame_spec(s2).0.push(
            frame_spec(s2).1,
        ));
        assert(split_lines_spec(s1) + split_lines_spec(s2) =~= frame_spec(s1).0 + frame_spec(
            s2,
        ).0.push(frame_spec(s2).1));
    }
}

/// A chunk whose last byte is a record separator ends at a record boundary.
pub proof fn lemma_ends_with_separator_is_clean(s: Seq<u8>)
    requires
        s.len() == 0 || s.last() == RECORD_SEPARATOR,
    ensures
        frame_spec(s).1.len() == 0,
{
}

} // verus!
