//! Subsequence matching used by the search filter.
use vstd::prelude::*;

verus! {

/// `idx` places each character of `needle` at a strictly increasing position of
/// `haystack` holding the same character.
pub open spec fn embeds(idx: Seq<int>, needle: Seq<char>, haystack: Seq<char>) -> bool {
    &&& idx.len() == needle.len()
    &&& forall|k: int| 0 <= k < idx.len() ==> 0 <= #[trigger] idx[k] < haystack.len()
    &&& forall|k: int| 0 <= k < idx.len() ==> haystack[#[trigger] idx[k]] == needle[k]
    &&& forall|a: int, b: int| 0 <= a < b < idx.len() ==> #[trigger] idx[a] < #[trigger] idx[b]
}

/// The characters of `needle` occur in `haystack` in the same order, not
/// necessarily next to each other.
pub open spec fn is_subsequence(needle: Seq<char>, haystack: Seq<char>) -> bool {
    exists|idx: Seq<int>| embeds(idx, needle, haystack)
}

/// What the search filter asks of a haystack: a non-empty needle that is a
/// subsequence of it. An empty needle matches nothing.
pub open spec fn fuzzy_matches(haystack: Seq<char>, needle: Seq<char>) -> bool {
    needle.len() > 0 && is_subsequence(needle, haystack)
}

/// An empty needle matches no haystack, the empty one included.
pub proof fn lemma_empty_needle_never_matches(haystack: Seq<char>)
    ensures
        !fuzzy_matches(haystack, Seq::empty()),
{
}

/// An embedding of a longer prefix of the needle restricts to one of a
/// shorter prefix.
proof fn lemma_prefix_embeds(idx: Seq<int>, needle: Seq<char>, haystack: Seq<char>, j: int)
    requires
        embeds(idx, needle, haystack),
        0 <= j <= needle.len(),
    ensures
        embeds(idx.subrange(0, j), needle.subrange(0, j), haystack),
{
}

/// An embedding into a prefix of the haystack is an embedding into a longer
/// prefix as well.
proof fn lemma_embeds_longer(idx: Seq<int>, needle: Seq<char>, haystack: Seq<char>, i: int)
    requires
        embeds(idx, needle, haystack.subrange(0, i)),
        0 <= i < haystack.len(),
    ensures
        embeds(idx, needle, haystack.subrange(0, i + 1)),
{
    let h1 = haystack.subrange(0, i);
    let h2 = haystack.subrange(0, i + 1);
    assert forall|k: int| 0 <= k < idx.len() implies h2[#[trigger] idx[k]] == needle[k] by {
        assert(h1[idx[k]] == needle[k]);
    }
}

/// An embedding into a prefix of the haystack is an embedding into the whole.
proof fn lemma_embeds_in_whole(idx: Seq<int>, needle: Seq<char>, haystack: Seq<char>, i: int)
    requires
        embeds(idx, needle, haystack.subrange(0, i)),
        0 <= i <= haystack.len(),
    ensures
        embeds(idx, needle, haystack),
{
    let h = haystack.subrange(0, i);
    assert forall|k: int| 0 <= k < idx.len() implies haystack[#[trigger] idx[k]] == needle[k] by {
        assert(h[idx[k]] == needle[k]);
    }
}

/// If `needle[..j + 1]` does not embed into `haystack[..i]`, and the next
/// haystack character differs from `needle[j]`, it does not embed into
/// `haystack[..i + 1]` either.
proof fn lemma_no_embed_step_miss(needle: Seq<char>, haystack: Seq<char>, i: int, j: int)
    requires
        0 <= i < haystack.len(),
        0 <= j < needle.len(),
        haystack[i] != needle[j],
        !is_subsequence(needle.subrange(0, j + 1), haystack.subrange(0, i)),
    ensures
        !is_subsequence(needle.subrange(0, j + 1), haystack.subrange(0, i + 1)),
{
    let n = needle.subrange(0, j + 1);
    let h1 = haystack.subrange(0, i);
    let h2 = haystack.subrange(0, i + 1);
    if is_subsequence(n, h2) {
        let idx = choose|idx: Seq<int>| embeds(idx, n, h2);
        assert(h2[idx[j]] == n[j]);
        assert(idx[j] < i);
        assert forall|k: int| 0 <= k < idx.len() implies 0 <= #[trigger] idx[k] < h1.len() by {
            if k < j {
                assert(idx[k] < idx[j]);
            }
        }
        assert forall|k: int| 0 <= k < idx.len() implies h1[#[trigger] idx[k]] == n[k] by {
            if k < j {
                assert(idx[k] < idx[j]);
            }
            assert(h2[idx[k]] == n[k]);
        }
        assert(embeds(idx, n, h1));
    }
}

/// If `needle[..j + 1]` does not embed into `haystack[..i]`, then
/// `needle[..j + 2]` does not embed into `haystack[..i + 1]`.
proof fn lemma_no_embed_step_hit(needle: Seq<char>, haystack: Seq<char>, i: int, j: int)
    requires
        0 <= i < haystack.len(),
        0 <= j,
        j + 1 < needle.len(),
        !is_subsequence(needle.subrange(0, j + 1), haystack.subrange(0, i)),
    ensures
        !is_subsequence(needle.subrange(0, j + 2), haystack.subrange(0, i + 1)),
{
    let n1 = needle.subrange(0, j + 1);
    let n2 = needle.subrange(0, j + 2);
    let h1 = haystack.subrange(0, i);
    let h2 = haystack.subrange(0, i + 1);
    if is_subsequence(n2, h2) {
        let idx = choose|idx: Seq<int>| embeds(idx, n2, h2);
        let sub = idx.subrange(0, j + 1);
        assert(idx[j] < idx[j + 1]);
        assert forall|k: int| 0 <= k < sub.len() implies 0 <= #[trigger] sub[k] < h1.len() by {
            if k < j {
                assert(idx[k] < idx[j]);
            }
            assert(idx[k] < idx[j + 1]);
        }
        assert forall|k: int| 0 <= k < sub.len() implies h1[#[trigger] sub[k]] == n1[k] by {
            assert(idx[k] < idx[j + 1]);
            assert(h2[idx[k]] == n2[k]);
        }
        assert forall|a: int, b: int| 0 <= a < b < sub.len() implies #[trigger] sub[a]
            < #[trigger] sub[b] by {
            assert(idx[a] < idx[b]);
        }
        assert(embeds(sub, n1, h1));
    }
}

/// Whether `needle` is a non-empty subsequence of `haystack`. The haystack is
/// scanned once, left to right, with a cursor into the needle that moves on at
/// each matching character; the match succeeds when the cursor has passed the
/// whole needle. An empty needle has no first character to look for, so it
/// never matches, not even an empty haystack.
pub fn fuzzy_match(haystack: &str, needle: &str) -> (r: bool)
    ensures
        r == fuzzy_matches(haystack@, needle@),
{
    let h_len = haystack.unicode_len();
    let n_len = needle.unicode_len();
    if n_len == 0 {
        return false;
    }
    let mut j: usize = 0;
    let mut i: usize = 0;
    let ghost mut idx: Seq<int> = Seq::empty();
    proof {
        let n = needle@.subrange(0, 1);
        let h = haystack@.subrange(0, 0);
        if is_subsequence(n, h) {
            let w = choose|w: Seq<int>| embeds(w, n, h);
            assert(0 <= w[0] < h.len());
        }
        assert(embeds(idx, needle@.subrange(0, 0), h));
    }
    while i < h_len
        invariant
            h_len == haystack@.len(),
            n_len == needle@.len(),
            0 < n_len,
            0 <= i <= h_len,
            0 <= j < n_len,
            embeds(idx, needle@.subrange(0, j as int), haystack@.subrange(0, i as int)),
            !is_subsequence(needle@.subrange(0, j + 1), haystack@.subrange(0, i as int)),
        decreases h_len - i,
    {
        let c = haystack.get_char(i);
        let cur = needle.get_char(j);
        if c == cur {
            proof {
                let new_idx = idx.push(i as int);
                let n = needle@.subrange(0, j + 1);
                let h = haystack@.subrange(0, i + 1);
                lemma_embeds_longer(idx, needle@.subrange(0, j as int), haystack@, i as int);
                assert(n =~= needle@.subrange(0, j as int).push(cur));
                assert forall|a: int, b: int| 0 <= a < b < new_idx.len() implies #[trigger] new_idx[a]
                    < #[trigger] new_idx[b] by {
                    if b == idx.len() {
                        assert(idx[a] < i);
                    } else {
                        assert(idx[a] < idx[b]);
                    }
                }
                assert forall|k: int| 0 <= k < new_idx.len() implies h[#[trigger] new_idx[k]]
                    == n[k] by {
                    if k < idx.len() {
                        assert(needle@.subrange(0, j as int)[k] == n[k]);
                    }
                }
                assert(embeds(new_idx, n, h));
                idx = new_idx;
            }
            j = j + 1;
            if j == n_len {
                proof {
                    assert(needle@.subrange(0, j as int) =~= needle@);
                    lemma_embeds_in_whole(idx, needle@, haystack@, i + 1);
                }
                return true;
            }
            proof {
                lemma_no_embed_step_hit(needle@, haystack@, i as int, j - 1);
            }
        } else {
            proof {
                lemma_no_embed_step_miss(needle@, haystack@, i as int, j as int);
                lemma_embeds_longer(idx, needle@.subrange(0, j as int), haystack@, i as int);
            }
        }
        i = i + 1;
    }
    proof {
        assert(haystack@.subrange(0, i as int) =~= haystack@);
        if is_subsequence(needle@, haystack@) {
            let w = choose|w: Seq<int>| embeds(w, needle@, haystack@);
            lemma_prefix_embeds(w, needle@, haystack@, j + 1);
        }
    }
    false
}

} // verus!
