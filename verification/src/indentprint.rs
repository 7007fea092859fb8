use vstd::prelude::*;

verus! {

/// Alignment mode for the fixed-width padding computation.
#[derive(Clone, Copy, PartialEq, Eq, Structural, Debug)]
pub enum Align {
    Left,
    Right,
}

/// A sequence of `n` space characters.
pub open spec fn spaces(n: nat) -> Seq<char>
    decreases n,
{
    if n == 0 {
        Seq::empty()
    } else {
        spaces((n - 1) as nat).push(' ')
    }
}

/// The padding that places `text` at the column anchored by `anchor` and
/// `indention` (counted in characters).
///
/// Left alignment pads up to `indention` columns past the end of `anchor`;
/// right alignment pads so that `text` ends one column past `indention`.
/// When the anchor text (plus, for right alignment, the text itself) already
/// overruns the anchor width, the padding is empty.
pub open spec fn indent_spec(text: Seq<char>, anchor: Seq<char>, indention: nat, align: Align) -> Seq<
    char,
> {
    match align {
        Align::Left => {
            if indention < anchor.len() {
                Seq::empty()
            } else {
                spaces((indention - anchor.len()) as nat)
            }
        },
        Align::Right => {
            if indention < anchor.len() + text.len() {
                Seq::empty()
            } else {
                spaces((indention - anchor.len() - text.len() + 1) as nat)
            }
        },
    }
}

/// A string of exactly `n` spaces.
pub fn spaces_string(n: usize) -> (r: String)
    ensures
        r@ == spaces(n as nat),
{
    let mut s = String::new();
    let mut i: usize = 0;
    while i < n
        invariant
            i <= n,
            s@ == spaces(i as nat),
        decreases n - i,
    {
        s.append(" ");
        proof {
            reveal_strlit(" ");
            assert(s@ =~= spaces(i as nat).push(' '));
        }
        i = i + 1;
    }
    s
}

/// The padding string described by `indent_spec`, computed from the character
/// lengths of `print_text` and `indention_text`.
pub fn get_indent(print_text: &str, indention_text: &str, indention: usize, align: Align) -> (r:
    String)
    ensures
        r@ == indent_spec(print_text@, indention_text@, indention as nat, align),
{
    let alen = indention_text.unicode_len();
    match align {
        Align::Left => {
            if indention < alen {
                String::new()
            } else {
                spaces_string(indention - alen)
            }
        },
        Align::Right => {
            let tlen = print_text.unicode_len();
            if indention < alen || indention - alen < tlen {
                proof {
                    assert((indention as nat) < indention_text@.len() + print_text@.len());
                }
                String::new()
            } else {
                let mut s = spaces_string(indention - alen - tlen);
                proof {
                    reveal_strlit(" ");
                }
                s.append(" ");
                proof {
                    let k = (indention - alen - tlen) as nat;
                    assert(s@ == spaces(k).push(' '));
                    assert(spaces(k + 1) == spaces(k).push(' '));
                }
                s
            }
        },
    }
}

} // verus!
