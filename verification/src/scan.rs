//! Byte-level scanning helpers: finding a delimiter and splitting a buffer
//! into delimiter-separated fields.

use vstd::prelude::*;

verus! {

/// Index of the first occurrence of `b` in `s`, or `s.len()` when `s` does
/// not contain `b`.
pub open spec fn find_index(s: Seq<u8>, b: u8) -> int
    decreases s.len(),
{
    if s.len() == 0 {
        0
    } else if s[0] == b {
        0
    } else {
        1 + find_index(s.skip(1), b)
    }
}

pub proof fn lemma_find_index(s: Seq<u8>, b: u8)
    ensures
        0 <= find_index(s, b) <= s.len(),
        find_index(s, b) < s.len() ==> s[find_index(s, b)] == b,
        forall|j: int| 0 <= j < find_index(s, b) ==> s[j] != b,
    decreases s.len(),
{
    if s.len() == 0 {
    } else if s[0] == b {
    } else {
        lemma_find_index(s.skip(1), b);
        assert forall|j: int| 0 <= j < find_index(s, b) implies s[j] != b by {
            if j > 0 {
                assert(s.skip(1)[j - 1] == s[j]);
            }
        }
    }
}

/// The first occurrence is characterized by holding `b` with no `b` before it.
pub proof fn lemma_find_index_is(s: Seq<u8>, b: u8, i: int)
    requires
        0 <= i < s.len(),
        s[i] == b,
        forall|j: int| 0 <= j < i ==> s[j] != b,
    ensures
        find_index(s, b) == i,
{
    lemma_find_index(s, b);
    if find_index(s, b) < i {
        assert(s[find_index(s, b)] == b);
        assert(false);
    }
    if find_index(s, b) > i {
        assert(s[i] != b);
        assert(false);
    }
}

/// A byte sequence free of `b` is free of it as a prefix: searching the
/// concatenation continues into the second part.
pub proof fn lemma_find_index_append(s1: Seq<u8>, s2: Seq<u8>, b: u8)
    requires
        find_index(s1, b) == s1.len(),
    ensures
        find_index(s1 + s2, b) == s1.len() + find_index(s2, b),
{
    lemma_find_index(s1, b);
    lemma_find_index(s2, b);
    let t = s1 + s2;
    if find_index(s2, b) < s2.len() {
        let i = s1.len() + find_index(s2, b);
        assert(t[i] == s2[find_index(s2, b)]);
        assert forall|j: int| 0 <= j < i implies t[j] != b by {
            if j < s1.len() {
                assert(t[j] == s1[j]);
            } else {
                assert(t[j] == s2[j - s1.len()]);
            }
        }
        lemma_find_index_is(t, b, i);
    } else {
        lemma_find_index(t, b);
        if find_index(t, b) < t.len() {
            let i = find_index(t, b);
            if i < s1.len() {
                assert(s1[i] == t[i]);
            } else {
                assert(s2[i - s1.len()] == t[i]);
            }
            assert(false);
        }
    }
}

/// First index of `b` in `s`, if any.
pub fn find_byte(s: &[u8], b: u8) -> (r: Option<usize>)
    ensures
        match r {
            Some(i) => i as int == find_index(s@, b) && (i as int) < s@.len(),
            None => find_index(s@, b) == s@.len(),
        },
{
    let n = s.len();
    let mut i: usize = 0;
    while i < n
        invariant
            n == s@.len(),
            0 <= i <= n,
            forall|j: int| 0 <= j < i ==> s@[j] != b,
        decreases n - i,
    {
        if s[i] == b {
            proof {
                lemma_find_index_is(s@, b, i as int);
            }
            return Some(i);
        }
        i = i + 1;
    }
    proof {
        lemma_find_index(s@, b);
    }
    None
}

/// Whether two byte slices hold the same bytes.
pub fn bytes_eq(a: &[u8], b: &[u8]) -> (r: bool)
    ensures
        r <==> a@ == b@,
{
    if a.len() != b.len() {
        proof {
            assert(a@.len() != b@.len());
        }
        return false;
    }
    let n = a.len();
    let mut i: usize = 0;
    while i < n
        invariant
            n == a@.len(),
            n == b@.len(),
            0 <= i <= n,
            forall|j: int| 0 <= j < i ==> a@[j] == b@[j],
        decreases n - i,
    {
        if a[i] != b[i] {
            return false;
        }
        i = i + 1;
    }
    proof {
        assert(a@ =~= b@);
    }
    true
}

/// The fields of `s`, split at every occurrence of `sep`; the separators
/// themselves are dropped. Splitting always yields at least one field.
pub open spec fn split_bytes(s: Seq<u8>, sep: u8) -> Seq<Seq<u8>>
    decreases s.len(),
{
    let i = find_index(s, sep);
    if 0 <= i < s.len() {
        seq![s.take(i)] + split_bytes(s.skip(i + 1), sep)
    } else {
        seq![s]
    }
}

/// The fields of `s`, split at every occurrence of `sep`.
pub fn split_fields(s: &[u8], sep: u8) -> (r: Vec<Vec<u8>>)
    ensures
        r.deep_view() == split_bytes(s@, sep),
{
    let mut fields: Vec<Vec<u8>> = Vec::new();
    let mut pos: usize = 0;
    proof {
        assert(s@.skip(0) =~= s@);
        assert(fields.deep_view() =~~= Seq::<Seq<u8>>::empty());
        assert(Seq::<Seq<u8>>::empty() + split_bytes(s@, sep) =~= split_bytes(s@, sep));
    }
    loop
        invariant
            0 <= pos <= s@.len(),
            split_bytes(s@, sep) == fields.deep_view() + split_bytes(s@.skip(pos as int), sep),
        decreases s@.len() - pos,
    {
        let rest = vstd::slice::slice_subrange(s, pos, s.len());
        proof {
            assert(rest@ =~= s@.skip(pos as int));
        }
        match find_byte(rest, sep) {
            None => {
                let f = vstd::slice::slice_to_vec(rest);
                let ghost old_fields = fields.deep_view();
                let ghost fv = f@;
                fields.push(f);
                proof {
                    assert(split_bytes(s@.skip(pos as int), sep) == seq![s@.skip(pos as int)]);
                    assert(fields.deep_view() =~~= old_fields.push(fv));
                    assert(old_fields.push(fv) =~= old_fields + seq![rest@]);
                }
                return fields;
            },
            Some(k) => {
                let f = vstd::slice::slice_to_vec(vstd::slice::slice_subrange(rest, 0, k));
                let ghost old_fields = fields.deep_view();
                let ghost fv = f@;
                let ghost old_pos = pos as int;
                fields.push(f);
                pos = pos + k + 1;
                proof {
                    let tail = s@.skip(old_pos);
                    assert(find_index(tail, sep) == k as int);
                    assert(split_bytes(tail, sep) == seq![tail.take(k as int)] + split_bytes(
                        tail.skip(k as int + 1),
                        sep,
                    ));
                    assert(fv =~= tail.take(k as int));
                    assert(tail.skip(k as int + 1) =~= s@.skip(pos as int));
                    assert(fields.deep_view() =~~= old_fields.push(fv));
                    assert(old_fields.push(fv) + split_bytes(s@.skip(pos as int), sep) =~=
                        old_fields + split_bytes(tail, sep));
                }
            },
        }
    }
}

} // verus!
