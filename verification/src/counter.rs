use vstd::prelude::*;
use vstd::slice::slice_index_get;

verus! {

/// The number of newline bytes in `s`.
pub open spec fn newline_count(s: Seq<u8>) -> nat
    decreases s.len(),
{
    if s.len() == 0 {
        0
    } else {
        newline_count(s.drop_last()) + if s.last() == 10u8 {
            1nat
        } else {
            0nat
        }
    }
}

/// The number of physical lines in a file with content `s`: one line per
/// newline-terminated segment, plus one for trailing content that lacks a
/// final newline. An empty file has 0 lines.
pub open spec fn line_count(s: Seq<u8>) -> nat {
    newline_count(s) + if s.len() > 0 && s.last() != 10u8 {
        1nat
    } else {
        0nat
    }
}

proof fn lemma_newline_count_le(s: Seq<u8>)
    ensures
        newline_count(s) <= s.len(),
    decreases s.len(),
{
    if s.len() > 0 {
        lemma_newline_count_le(s.drop_last());
    }
}

/// Counts the physical lines of `content`, as `line_count` describes.
pub fn count_lines(content: &[u8]) -> (r: usize)
    ensures
        r as nat == line_count(content@),
{
    let len = content.len();
    let mut count: usize = 0;
    let mut i: usize = 0;
    proof {
        assert(content@.take(0) =~= Seq::<u8>::empty());
    }
    while i < len
        invariant
            i <= len,
            len == content@.len(),
            count as nat == newline_count(content@.take(i as int)),
            count <= i,
        decreases len - i,
    {
        proof {
            assert(content@.take(i + 1).drop_last() =~= content@.take(i as int));
            assert(content@.take(i + 1).last() == content@[i as int]);
        }
        if *slice_index_get(content, i) == 10u8 {
            count = count + 1;
        }
        i = i + 1;
    }
    proof {
        assert(content@.take(len as int) =~= content@);
        lemma_newline_count_le(content@);
    }
    if len > 0 && *slice_index_get(content, len - 1) != 10u8 {
        proof {
            assert(content@[len - 1] == content@.last());
            lemma_newline_count_le(content@.drop_last());
            assert(newline_count(content@) == newline_count(content@.drop_last()));
        }
        count = count + 1;
    }
    count
}

} // verus!
