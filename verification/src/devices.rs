//! Choosing an audio input device by a fragment of its name.

use vstd::prelude::*;

verus! {

/// `needle` occurs in `hay` starting at byte `i`.
pub open spec fn occurs_at(hay: Seq<u8>, needle: Seq<u8>, i: int) -> bool {
    &&& 0 <= i
    &&& i + needle.len() <= hay.len()
    &&& hay.subrange(i, i + needle.len()) == needle
}

/// `needle` occurs somewhere in `hay` (the empty needle occurs everywhere).
pub open spec fn contains_bytes(hay: Seq<u8>, needle: Seq<u8>) -> bool {
    exists|i: int| occurs_at(hay, needle, i)
}

/// A device name, when it could be read, contains the fragment.
pub open spec fn name_matches(name: Option<Vec<u8>>, fragment: Seq<u8>) -> bool {
    match name {
        Some(n) => contains_bytes(n@, fragment),
        None => false,
    }
}

/// Whether the bytes `needle` occur in the bytes `hay`.
pub fn find_bytes(hay: &[u8], needle: &[u8]) -> (found: bool)
    ensures
        found == contains_bytes(hay@, needle@),
{
    if needle.len() > hay.len() {
        proof {
            assert forall|i: int| !occurs_at(hay@, needle@, i) by {}
        }
        return false;
    }
    let last = hay.len() - needle.len();
    let mut i: usize = 0;
    while i <= last
        invariant
            last == hay@.len() - needle@.len(),
            i <= last + 1,
            forall|k: int| 0 <= k < i ==> !#[trigger] occurs_at(hay@, needle@, k),
        decreases last + 1 - i,
    {
        let end = hay.len() - (last - i);
        let window = &hay[i..end];
        let mut j: usize = 0;
        while j < needle.len() && window[j] == needle[j]
            invariant
                window@ == hay@.subrange(i as int, i + needle@.len()),
                i <= last,
                last == hay@.len() - needle@.len(),
                i + needle@.len() <= hay@.len(),
                j <= needle@.len(),
                forall|m: int| 0 <= m < j ==> hay@[i + m] == #[trigger] needle@[m],
            decreases needle@.len() - j,
        {
            j += 1;
        }
        if j == needle.len() {
            proof {
                assert(hay@.subrange(i as int, i + needle@.len()) =~= needle@);
                assert(occurs_at(hay@, needle@, i as int));
            }
            return true;
        }
        proof {
            assert(hay@.subrange(i as int, i + needle@.len())[j as int] != needle@[j as int]);
        }
        i += 1;
    }
    proof {
        assert forall|k: int| !occurs_at(hay@, needle@, k) by {
            if 0 <= k < i {
            }
        }
    }
    false
}

/// Index of the first device whose name contains `fragment`, comparing
/// bytes; `names[k]` is `None` when the name of device `k` could not be
/// read, and such a device never matches.  Callers lower-case both the names
/// and the fragment to compare without regard to case.
pub fn find_device(names: &[Option<Vec<u8>>], fragment: &[u8]) -> (found: Option<usize>)
    ensures
        match found {
            Some(k) => {
                &&& k < names@.len()
                &&& name_matches(names@[k as int], fragment@)
                &&& forall|j: int| 0 <= j < k ==> !#[trigger] name_matches(names@[j], fragment@)
            },
            None => forall|j: int|
                0 <= j < names@.len() ==> !#[trigger] name_matches(names@[j], fragment@),
        },
{
    let mut k: usize = 0;
    while k < names.len()
        invariant
            k <= names@.len(),
            forall|j: int| 0 <= j < k ==> !#[trigger] name_matches(names@[j], fragment@),
        decreases names@.len() - k,
    {
        match &names[k] {
            Some(name) => {
                if find_bytes(name.as_slice(), fragment) {
                    return Some(k);
                }
            },
            None => {},
        }
        k += 1;
    }
    None
}

} // verus!
