use vstd::prelude::*;

verus! {

/// The index of the last `.` in `s`, or `-1` when `s` holds no `.`.
pub open spec fn last_dot_index(s: Seq<char>) -> int
    decreases s.len(),
{
    if s.len() == 0 {
        -1
    } else if s.last() == '.' {
        s.len() - 1
    } else {
        last_dot_index(s.drop_last())
    }
}

/// The extension key of a file name: the characters strictly after the last
/// `.`, or the empty sequence when the name holds no `.` (so a name that ends
/// in `.` gets the empty key too).
pub open spec fn ext_of(s: Seq<char>) -> Seq<char> {
    if last_dot_index(s) >= 0 {
        s.subrange(last_dot_index(s) + 1, s.len() as int)
    } else {
        Seq::empty()
    }
}

proof fn lemma_last_dot_index_bounds(s: Seq<char>)
    ensures
        -1 <= last_dot_index(s) < s.len(),
        last_dot_index(s) >= 0 ==> s[last_dot_index(s)] == '.',
    decreases s.len(),
{
    if s.len() > 0 && s.last() != '.' {
        lemma_last_dot_index_bounds(s.drop_last());
    }
}

proof fn lemma_last_dot_index_step(s: Seq<char>, i: int)
    requires
        0 <= i < s.len(),
    ensures
        last_dot_index(s.take(i + 1)) == if s[i] == '.' {
            i
        } else {
            last_dot_index(s.take(i))
        },
{
    let t = s.take(i + 1);
    assert(t.drop_last() =~= s.take(i));
    assert(t.last() == s[i]);
}

/// The aggregation key of the file name `name`: the substring strictly after
/// the last `.`, or the empty string when there is none or nothing follows it.
pub fn extension_key(name: &str) -> (r: String)
    ensures
        r@ == ext_of(name@),
{
    let len = name.unicode_len();
    let mut last_dot: usize = 0;
    let mut seen_dot: bool = false;
    let mut i: usize = 0;
    proof {
        assert(name@.take(0) =~= Seq::<char>::empty());
    }
    while i < len
        invariant
            i <= len,
            len as nat == name@.len(),
            seen_dot ==> last_dot < i && last_dot_index(name@.take(i as int)) == last_dot as int,
            !seen_dot ==> last_dot_index(name@.take(i as int)) == -1,
        decreases len - i,
    {
        proof {
            lemma_last_dot_index_step(name@, i as int);
        }
        if name.get_char(i) == '.' {
            last_dot = i;
            seen_dot = true;
        }
        i = i + 1;
    }
    proof {
        assert(name@.take(len as int) =~= name@);
    }
    if seen_dot {
        let sub = name.substring_char(last_dot + 1, len);
        sub.to_owned()
    } else {
        String::new()
    }
}

} // verus!
