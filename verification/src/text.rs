//! Small searches in the characters of a notation token.
//!
//! A token is modelled by its sequence of characters; positions and lengths
//! count characters.

use vstd::prelude::*;

verus! {

/// The index of the file that `c` names: `a` is 0 and `h` is 7.
pub open spec fn spec_file_index(c: char) -> Option<int> {
    if 'a' <= c <= 'h' {
        Some(c as int - 'a' as int)
    } else {
        None
    }
}

/// The index of the rank that the digit `c` names: `1` is 0 and `8` is 7.
pub open spec fn spec_rank_index(c: char) -> Option<int> {
    if '1' <= c <= '8' {
        Some(c as int - '1' as int)
    } else {
        None
    }
}

/// The last character of `s`, if it has one.
pub open spec fn spec_last(s: Seq<char>) -> Option<char> {
    if s.len() > 0 {
        Some(s[s.len() - 1])
    } else {
        None
    }
}

/// Where `needle` first stands in `text`.
pub fn find_char(text: &str, needle: char) -> (found: Option<usize>)
    ensures
        match found {
            Some(i) => text@.index_of_first(needle) == Some(i as int),
            None => text@.index_of_first(needle) is None,
        },
        found is Some <==> text@.contains(needle),
{
    let n = text.unicode_len();
    let mut i: usize = 0;
    while i < n
        invariant
            n == text@.len(),
            i <= n,
            forall|j: int| 0 <= j < i ==> text@[j] != needle,
        decreases n - i,
    {
        if text.get_char(i) == needle {
            proof {
                text@.index_of_first_ensures(needle);
            }
            return Some(i);
        }
        i += 1;
    }
    proof {
        text@.index_of_first_ensures(needle);
    }
    None
}

/// The last character of `text`, if it has one.
pub fn last_char(text: &str) -> (last: Option<char>)
    ensures
        last == spec_last(text@),
{
    let n = text.unicode_len();
    if n > 0 {
        Some(text.get_char(n - 1))
    } else {
        None
    }
}

/// The file that the letter `c` names, as an index from 0 to 7.
pub fn file_index(c: char) -> (file: Option<i8>)
    ensures
        match file {
            Some(f) => spec_file_index(c) == Some(f as int),
            None => spec_file_index(c) is None,
        },
{
    match c {
        'a' => Some(0),
        'b' => Some(1),
        'c' => Some(2),
        'd' => Some(3),
        'e' => Some(4),
        'f' => Some(5),
        'g' => Some(6),
        'h' => Some(7),
        _ => None,
    }
}

/// The rank that the digit `c` names, as an index from 0 to 7.
pub fn rank_index(c: char) -> (rank: Option<i8>)
    ensures
        match rank {
            Some(r) => spec_rank_index(c) == Some(r as int),
            None => spec_rank_index(c) is None,
        },
{
    match c {
        '1' => Some(0),
        '2' => Some(1),
        '3' => Some(2),
        '4' => Some(3),
        '5' => Some(4),
        '6' => Some(5),
        '7' => Some(6),
        '8' => Some(7),
        _ => None,
    }
}

} // verus!
