//! Searching for bytes.

use vstd::prelude::*;

verus! {

/// Calls `memchr::memchr`, which returns the index of the first byte of
/// `haystack` that equals `needle`, if there is one.
pub assume_specification[ memchr::memchr ](needle: u8, haystack: &[u8]) -> (found: Option<usize>)
    ensures
        match found {
            Some(i) => {
                &&& i < haystack@.len()
                &&& haystack@[i as int] == needle
                &&& forall|j: int| 0 <= j < i ==> #[trigger] haystack@[j] != needle
            },
            None => forall|j: int|
                0 <= j < haystack@.len() ==> #[trigger] haystack@[j] != needle,
        },
;

/// Calls `memchr::memchr2`, which returns the index of the first byte of
/// `haystack` that equals one of two needles, if there is one.
pub assume_specification[ memchr::memchr2 ](
    needle1: u8,
    needle2: u8,
    haystack: &[u8],
) -> (found: Option<usize>)
    ensures
        match found {
            Some(i) => {
                &&& i < haystack@.len()
                &&& haystack@[i as int] == needle1 || haystack@[i as int] == needle2
                &&& forall|j: int|
                    0 <= j < i ==> #[trigger] haystack@[j] != needle1 && haystack@[j] != needle2
            },
            None => forall|j: int|
                0 <= j < haystack@.len() ==> #[trigger] haystack@[j] != needle1 && haystack@[j]
                    != needle2,
        },
;

/// Calls `memchr::memchr3`, which returns the index of the first byte of
/// `haystack` that equals one of three needles, if there is one.
pub assume_specification[ memchr::memchr3 ](
    needle1: u8,
    needle2: u8,
    needle3: u8,
    haystack: &[u8],
) -> (found: Option<usize>)
    ensures
        match found {
            Some(i) => {
                &&& i < haystack@.len()
                &&& haystack@[i as int] == needle1 || haystack@[i as int] == needle2
                    || haystack@[i as int] == needle3
                &&& forall|j: int|
                    0 <= j < i ==> #[trigger] haystack@[j] != needle1 && haystack@[j] != needle2
                        && haystack@[j] != needle3
            },
            None => forall|j: int|
                0 <= j < haystack@.len() ==> #[trigger] haystack@[j] != needle1 && haystack@[j]
                    != needle2 && haystack@[j] != needle3,
        },
;

} // verus!
