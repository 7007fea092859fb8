use vstd::prelude::*;

verus! {

/// Character-for-character string equality.
pub fn str_eq(a: &str, b: &str) -> (r: bool)
    ensures
        r == (a@ == b@),
{
    let alen = a.unicode_len();
    let blen = b.unicode_len();
    if alen != blen {
        proof {
            assert(a@ != b@);
        }
        return false;
    }
    let mut i: usize = 0;
    while i < alen
        invariant
            i <= alen,
            alen as nat == a@.len(),
            alen as nat == b@.len(),
            forall|j: int| 0 <= j < i ==> a@[j] == b@[j],
        decreases alen - i,
    {
        if a.get_char(i) != b.get_char(i) {
            proof {
                assert(a@ != b@);
            }
            return false;
        }
        i = i + 1;
    }
    proof {
        assert(a@ =~= b@);
    }
    true
}

/// Whether the string contains the character `c`.
pub fn contains_char(s: &str, c: char) -> (r: bool)
    ensures
        r == s@.contains(c),
{
    let len = s.unicode_len();
    let mut i: usize = 0;
    while i < len
        invariant
            i <= len,
            len as nat == s@.len(),
            forall|j: int| 0 <= j < i ==> s@[j] != c,
        decreases len - i,
    {
        if s.get_char(i) == c {
            return true;
        }
        i = i + 1;
    }
    false
}

/// The characters of `s` after its first `n`, or nothing when `s` is shorter.
pub fn strip_prefix_chars(s: &str, n: usize) -> (r: String)
    ensures
        r@ == if n <= s@.len() {
            s@.skip(n as int)
        } else {
            Seq::<char>::empty()
        },
{
    let len = s.unicode_len();
    if n <= len {
        let sub = s.substring_char(n, len);
        proof {
            assert(s@.subrange(n as int, s@.len() as int) =~= s@.skip(n as int));
        }
        sub.to_owned()
    } else {
        String::new()
    }
}

/// Whether some string of `v` has the same characters as `e`.
pub fn vec_contains_str(v: &Vec<String>, e: &str) -> (r: bool)
    ensures
        r == v@.map_values(|s: String| s@).contains(e@),
{
    let ghost m = v@.map_values(|s: String| s@);
    let mut i: usize = 0;
    while i < v.len()
        invariant
            i <= v.len(),
            m == v@.map_values(|s: String| s@),
            forall|j: int| 0 <= j < i ==> m[j] != e@,
        decreases v.len() - i,
    {
        if str_eq(v[i].as_str(), e) {
            proof {
                assert(m[i as int] == v@[i as int]@);
            }
            return true;
        }
        i = i + 1;
    }
    false
}

} // verus!
