//! Extraction of the first absolute URL embedded in a success response
//! body: the leftmost occurrence of `http://` or `https://` followed by
//! a longest-possible run of URL characters that ends in a character
//! allowed at the end of a URL.

use vstd::prelude::*;

verus! {

use crate::textscan::match_at;
use crate::textscan::occurs_at;

/// A character accepted anywhere in the matched URL: ASCII
/// alphanumerics and `- + & @ # / % ? = ~ _ | ! : , . ;`.
pub open spec fn is_url_char(c: char) -> bool {
    let u = c as u32;
    ||| 48 <= u <= 57
    ||| 65 <= u <= 90
    ||| 97 <= u <= 122
    ||| u == 45
    ||| u == 43
    ||| u == 38
    ||| u == 64
    ||| u == 35
    ||| u == 47
    ||| u == 37
    ||| u == 63
    ||| u == 61
    ||| u == 126
    ||| u == 95
    ||| u == 124
    ||| u == 33
    ||| u == 58
    ||| u == 44
    ||| u == 46
    ||| u == 59
}

/// A character accepted as the last one of a match: the URL characters
/// except `? ! : , . ;`.
pub open spec fn is_url_end_char(c: char) -> bool {
    let u = c as u32;
    is_url_char(c) && u != 63 && u != 33 && u != 58 && u != 44 && u != 46 && u != 59
}

/// Length of the scheme prefix found at index `i` of `s`: 8 for
/// `https://`, 7 for `http://`, 0 when neither occurs there.
pub open spec fn url_prefix_len(s: Seq<char>, i: int) -> int {
    if occurs_at(s, "https://"@, i) {
        8
    } else if occurs_at(s, "http://"@, i) {
        7
    } else {
        0
    }
}

/// The URL pattern matches in `s` from index `i` (inclusive) up to
/// index `e` (exclusive): a scheme prefix, then at least one URL
/// character, then a final URL-end character.
pub open spec fn is_url_match(s: Seq<char>, i: int, e: int) -> bool {
    let p = url_prefix_len(s, i);
    &&& p > 0
    &&& i + p + 2 <= e
    &&& e <= s.len()
    &&& forall|k: int| i + p <= k < e - 1 ==> is_url_char(#[trigger] s[k])
    &&& is_url_end_char(s[e - 1])
}

/// Some URL occurs in `s`.
pub open spec fn has_url_match(s: Seq<char>) -> bool {
    exists|i: int, e: int| is_url_match(s, i, e)
}

/// The match from `i` to `e` is the one the pattern yields: no match
/// starts earlier, and no match from the same start reaches further.
pub open spec fn is_first_greedy_match(s: Seq<char>, i: int, e: int) -> bool {
    &&& is_url_match(s, i, e)
    &&& forall|i2: int, e2: int| is_url_match(s, i2, e2) ==> i <= i2
    &&& forall|e2: int| is_url_match(s, i, e2) ==> e2 <= e
}

fn url_char(c: char) -> (b: bool)
    ensures
        b == is_url_char(c),
{
    let u = c as u32;
    (48 <= u && u <= 57) || (65 <= u && u <= 90) || (97 <= u && u <= 122) || u == 45 || u == 43
        || u == 38 || u == 64 || u == 35 || u == 47 || u == 37 || u == 63 || u == 61 || u == 126
        || u == 95 || u == 124 || u == 33 || u == 58 || u == 44 || u == 46 || u == 59
}

fn url_end_char(c: char) -> (b: bool)
    ensures
        b == is_url_end_char(c),
{
    let u = c as u32;
    url_char(c) && u != 63 && u != 33 && u != 58 && u != 44 && u != 46 && u != 59
}

fn prefix_len_at(s: &str, i: usize, n: usize) -> (p: usize)
    requires
        n == s@.len(),
        i <= n,
    ensures
        p as int == url_prefix_len(s@, i as int),
        p > 0 ==> i + p <= n,
{
    proof {
        reveal_strlit("https://");
        reveal_strlit("http://");
    }
    if n - i >= 8 && match_at(s, "https://", i, n, 8) {
        8
    } else if n - i >= 7 && match_at(s, "http://", i, n, 7) {
        7
    } else {
        0
    }
}

/// The first URL embedded in the text, if any: the contract pins the
/// result to the leftmost match with the greedy (furthest) end.
pub fn find_url(s: &str) -> (r: Option<String>)
    ensures
        r is Some <==> has_url_match(s@),
        match r {
            Some(u) => exists|i: int, e: int|
                is_first_greedy_match(s@, i, e) && u@ == s@.subrange(i, e),
            None => true,
        },
{
    let n = s.unicode_len();
    let mut i: usize = 0;
    while i < n
        invariant
            n == s@.len(),
            i <= n,
            forall|i2: int, e2: int| is_url_match(s@, i2, e2) ==> i <= i2,
        decreases n - i,
    {
        let p = prefix_len_at(s, i, n);
        if p > 0 {
            let j = i + p;
            // scan the run of URL characters after the prefix, keeping
            // the last position that could end a match
            let mut k = j;
            let mut best: Option<usize> = None;
            loop
                invariant
                    n == s@.len(),
                    j <= k <= n,
                    j == i + p,
                    i + p <= n,
                    p as int == url_prefix_len(s@, i as int),
                    p > 0,
                    forall|d: int| j <= d < k ==> is_url_char(#[trigger] s@[d]),
                    match best {
                        Some(q) => {
                            &&& j + 1 <= q < k
                            &&& is_url_end_char(s@[q as int])
                            &&& forall|d: int| q < d < k ==> !is_url_end_char(#[trigger] s@[d])
                        },
                        None => forall|d: int| j + 1 <= d < k ==> !is_url_end_char(#[trigger] s@[d]),
                    },
                ensures
                    k == n || !is_url_char(s@[k as int]),
                decreases n - k,
            {
                if k >= n {
                    break;
                }
                let c = s.get_char(k);
                if !url_char(c) {
                    break;
                }
                if k > j && url_end_char(c) {
                    best = Some(k);
                }
                k += 1;
            }
            proof {
                // every match starting at i ends inside the scanned run
                assert forall|e2: int| is_url_match(s@, i as int, e2) implies e2 - 1 < k by {
                    if e2 - 1 > k {
                        assert(is_url_char(s@[k as int]));
                    } else if e2 - 1 == k {
                        assert(is_url_char(s@[k as int]));
                    }
                }
            }
            match best {
                Some(q) => {
                    let e = q + 1;
                    proof {
                        assert(is_url_match(s@, i as int, e as int));
                        assert forall|e2: int| is_url_match(s@, i as int, e2) implies e2
                            <= e as int by {
                            if e2 > e as int {
                                assert(is_url_end_char(s@[e2 - 1]));
                            }
                        }
                        assert(is_first_greedy_match(s@, i as int, e as int));
                    }
                    let found = s.substring_char(i, e);
                    let owned = found.to_owned();
                    return Some(owned);
                },
                None => {
                    proof {
                        assert forall|e2: int| !is_url_match(s@, i as int, e2) by {
                            if is_url_match(s@, i as int, e2) {
                                assert(is_url_end_char(s@[e2 - 1]));
                                assert(j + 1 <= e2 - 1 < k);
                            }
                        }
                    }
                },
            }
        }
        proof {
            assert forall|i2: int, e2: int| is_url_match(s@, i2, e2) implies i + 1 <= i2 by {
                if i2 == i as int {
                    assert(url_prefix_len(s@, i2) > 0);
                }
            }
        }
        i += 1;
    }
    proof {
        assert forall|i2: int, e2: int| !is_url_match(s@, i2, e2) by {
            if is_url_match(s@, i2, e2) {
                assert(url_prefix_len(s@, i2) > 0);
                assert(i2 + url_prefix_len(s@, i2) + 2 <= s@.len());
            }
        }
    }
    None
}

} // verus!
