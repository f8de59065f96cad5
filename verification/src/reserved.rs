//! The bare reserved segment, and the guard that recognises it.

use vstd::prelude::*;
use vstd::string::*;

verus! {

/// The one segment reserved from the organisation namespace: the private class
/// of project ids lives beneath it, so a row at the bare segment would become
/// the nearest registered ancestor of every private path.
pub const RESERVED_ROOT: &'static str = "local";

/// The reserved segment, character by character.
pub open spec fn reserved_root_chars() -> Seq<char> {
    seq!['l', 'o', 'c', 'a', 'l']
}

/// ASCII case folding of one character, given as its code point: `A`..=`Z`
/// become `a`..=`z`, and every other character is left as it is.
pub open spec fn ascii_folded(c: char) -> u32 {
    if 65 <= (c as u32) <= 90 {
        (c as u32 + 32) as u32
    } else {
        c as u32
    }
}

/// `path` is the bare reserved segment, compared with ASCII case folded: the
/// same length, and equal character by character once folded.
pub open spec fn is_reserved_segment(path: Seq<char>) -> bool {
    &&& path.len() == reserved_root_chars().len()
    &&& forall|i: int|
        0 <= i < path.len() ==> ascii_folded(#[trigger] path[i]) == reserved_root_chars()[i] as u32
}

fn fold_ascii(c: char) -> (folded: u32)
    ensures
        folded == ascii_folded(c),
{
    let code = c as u32;
    if 65 <= code && code <= 90 {
        code + 32
    } else {
        code
    }
}

/// Whether a listed path is the bare reserved segment and must be dropped.
///
/// The comparison folds ASCII case, because the store's own guard does; and it
/// matches only the bare segment: `local/home` and `locals` are not it.
pub fn is_reserved_root(path: &str) -> (reserved: bool)
    ensures
        reserved == is_reserved_segment(path@),
        reserved <==> (path@.len() == 5 && (path@[0] == 'l' || path@[0] == 'L') && (path@[1]
            == 'o' || path@[1] == 'O') && (path@[2] == 'c' || path@[2] == 'C') && (path@[3]
            == 'a' || path@[3] == 'A') && (path@[4] == 'l' || path@[4] == 'L')),
{
    proof {
        crate::laws::reserved_means_local(path@);
    }
    proof {
        reveal_strlit("local");
    }
    assert(RESERVED_ROOT@ == reserved_root_chars());
    let expected_len = RESERVED_ROOT.unicode_len();
    if path.unicode_len() != expected_len {
        return false;
    }
    let mut i: usize = 0;
    while i < expected_len
        invariant
            i <= expected_len,
            expected_len == reserved_root_chars().len(),
            path@.len() == expected_len,
            RESERVED_ROOT@ == reserved_root_chars(),
            forall|j: int|
                0 <= j < i ==> ascii_folded(#[trigger] path@[j]) == reserved_root_chars()[j] as u32,
        decreases expected_len - i,
    {
        let wanted = RESERVED_ROOT.get_char(i);
        if fold_ascii(path.get_char(i)) != wanted as u32 {
            return false;
        }
        i += 1;
    }
    true
}

} // verus!
