//! The duplicate check on account keys.

use crate::errors::{failure_of, ZkErrorCode, ZktlsError};
use crate::text::{chars_of, same_chars, views_of, Text};
use vstd::prelude::*;

verus! {

/// Whether some key stands at two places of `keys`.
pub open spec fn has_duplicate(keys: Seq<Text>) -> bool {
    !keys.no_duplicates()
}

/// Whether a key repeats does not depend on the order of the keys.
pub proof fn lemma_duplicate_order_free(a: Seq<Text>, b: Seq<Text>)
    requires
        a.to_multiset() == b.to_multiset(),
    ensures
        has_duplicate(a) == has_duplicate(b),
{
    if a.no_duplicates() {
        a.lemma_multiset_has_no_duplicates();
        b.lemma_multiset_has_no_duplicates_conv();
    }
    if b.no_duplicates() {
        b.lemma_multiset_has_no_duplicates();
        a.lemma_multiset_has_no_duplicates_conv();
    }
}

/// Whether some key stands at two places of `keys`.
pub fn contains_duplicate(keys: &Vec<String>) -> (r: bool)
    ensures
        r == has_duplicate(views_of(keys@)),
{
    let ghost all = views_of(keys@);
    let n = keys.len();
    let mut chars: Vec<Vec<char>> = Vec::new();
    let mut k: usize = 0;
    while k < n
        invariant
            k <= n,
            n == keys.len(),
            chars.len() == k,
            forall|a: int| 0 <= a < k ==> (#[trigger] chars@[a])@ == keys@[a]@,
        decreases n - k,
    {
        chars.push(chars_of(keys[k].as_str()));
        k += 1;
    }
    let mut i: usize = 0;
    while i < n
        invariant
            i <= n,
            n == keys.len(),
            chars.len() == n,
            all == views_of(keys@),
            forall|a: int| 0 <= a < n ==> (#[trigger] chars@[a])@ == keys@[a]@,
            forall|a: int, b: int| 0 <= a < i && a < b < n ==> all[a] != all[b],
        decreases n - i,
    {
        let mut j: usize = i + 1;
        while j < n
            invariant
                i < j <= n,
                n == keys.len(),
                chars.len() == n,
                all == views_of(keys@),
                forall|a: int| 0 <= a < n ==> (#[trigger] chars@[a])@ == keys@[a]@,
                forall|b: int| i < b < j ==> all[i as int] != all[b],
            decreases n - j,
        {
            if same_chars(&chars[i], &chars[j]) {
                assert(all[i as int] == all[j as int]);
                return true;
            }
            j += 1;
        }
        i += 1;
    }
    assert forall|a: int, b: int| 0 <= a < all.len() && 0 <= b < all.len() && a != b implies all[a]
        != all[b] by {
        if a < b {
            assert(all[a] != all[b]);
        } else {
            assert(all[b] != all[a]);
        }
    }
    false
}

/// Refuses a list of account keys in which one repeats.
pub fn check_duplicate_account(keys: &Vec<String>) -> (r: Result<(), ZktlsError>)
    ensures
        r is Err <==> has_duplicate(views_of(keys@)),
        r matches Err(e) ==> e@ == failure_of(ZkErrorCode::DuplicateAccount),
{
    if contains_duplicate(keys) {
        Err(ZktlsError::from_code(ZkErrorCode::DuplicateAccount))
    } else {
        Ok(())
    }
}

} // verus!
