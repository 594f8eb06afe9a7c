//! Fixed-size byte arrays and their contents.
use vstd::prelude::*;

verus! {

/// The array with the given content.
pub open spec fn array_of<const N: usize>(s: Seq<u8>) -> [u8; N] {
    choose|a: [u8; N]| a@ == s
}

/// An array is the array of its content.
pub proof fn lemma_array_of<const N: usize>(a: [u8; N])
    ensures
        array_of::<N>(a@) == a,
{
    let c = array_of::<N>(a@);
    assert(c@ == a@);
    assert(c =~= a);
}

/// The array that agrees with `s` in its first `k` places.
pub open spec fn array_up_to<const N: usize>(s: Seq<u8>, k: nat) -> [u8; N]
    decreases k,
{
    if k == 0 {
        vstd::array::spec_array_fill_for_copy_type::<u8, N>(0u8)
    } else {
        vstd::array::spec_array_update(array_up_to::<N>(s, (k - 1) as nat), k - 1, s[k - 1])
    }
}

/// [`array_up_to`] agrees with `s` in its first `k` places.
pub proof fn lemma_array_up_to<const N: usize>(s: Seq<u8>, k: nat)
    requires
        k <= N,
        s.len() == N,
    ensures
        forall|i: int| 0 <= i < k ==> array_up_to::<N>(s, k)@[i] == s[i],
    decreases k,
{
    if k > 0 {
        lemma_array_up_to::<N>(s, (k - 1) as nat);
        let before = array_up_to::<N>(s, (k - 1) as nat);
        vstd::array::axiom_spec_array_update(before, k - 1, s[k - 1]);
        vstd::array::array_len_matches_n(&before);
    }
}

/// Content of `N` bytes is the content of its array.
pub proof fn lemma_array_of_content<const N: usize>(s: Seq<u8>)
    requires
        s.len() == N,
    ensures
        array_of::<N>(s)@ == s,
{
    lemma_array_up_to::<N>(s, N as nat);
    let a = array_up_to::<N>(s, N as nat);
    vstd::array::array_len_matches_n(&a);
    assert(a@ =~= s);
}

/// Copies the `N` bytes at `at` into an array.
pub fn get_bytes<const N: usize>(b: &[u8], at: usize) -> (a: [u8; N])
    requires
        at + N <= b@.len(),
    ensures
        a@ == b@.subrange(at as int, at + N),
        a == array_of::<N>(b@.subrange(at as int, at + N)),
{
    let total: usize = b.len();
    let mut a: [u8; N] = [0u8; N];
    let mut i: usize = 0;
    while i < N
        invariant
            i <= N,
            at + N <= b@.len() == total,
            forall|j: int| 0 <= j < i ==> a@[j] == b@[at + j],
        decreases N - i,
    {
        a[i] = b[at + i];
        i = i + 1;
    }
    proof {
        assert(a@ =~= b@.subrange(at as int, at + N));
        lemma_array_of::<N>(a);
    }
    a
}

/// Copies a slice of exactly `N` bytes into an array.
pub fn to_array<const N: usize>(b: &[u8]) -> (a: [u8; N])
    requires
        b@.len() == N,
    ensures
        a@ == b@,
        a == array_of::<N>(b@),
{
    proof {
        assert(b@.subrange(0, N as int) =~= b@);
    }
    get_bytes::<N>(b, 0)
}

/// Whether two slices hold the same bytes.
pub fn bytes_equal(a: &[u8], b: &[u8]) -> (same: bool)
    ensures
        same == (a@ == b@),
{
    if a.len() != b.len() {
        return false;
    }
    let mut i: usize = 0;
    while i < a.len()
        invariant
            i <= a@.len() == b@.len(),
            forall|j: int| 0 <= j < i ==> a@[j] == b@[j],
        decreases a@.len() - i,
    {
        if a[i] != b[i] {
            return false;
        }
        i = i + 1;
    }
    assert(a@ =~= b@);
    true
}

} // verus!
