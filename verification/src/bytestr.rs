//! Small verified helpers on byte strings: copying a range, appending,
//! prefix stripping and splitting at a delimiter.
use vstd::prelude::*;

verus! {

broadcast use vstd::string::is_ascii_spec_bytes;

/// The bytes of an absent fragment are nothing.
pub open spec fn opt_frag(o: Option<Seq<u8>>) -> Seq<u8> {
    match o {
        Some(s) => s,
        None => Seq::<u8>::empty(),
    }
}

/// The view of an optional byte string.
pub open spec fn opt_view(o: Option<Vec<u8>>) -> Option<Seq<u8>> {
    match o {
        Some(v) => Some(v@),
        None => None,
    }
}

/// `p` is a prefix of `s`.
pub open spec fn is_prefix_of(p: Seq<u8>, s: Seq<u8>) -> bool {
    p.len() <= s.len() && s.subrange(0, p.len() as int) == p
}

/// Index of the first occurrence of `d` in `s`, if any.
pub open spec fn find_byte(s: Seq<u8>, d: u8) -> Option<int>
    decreases s.len(),
{
    if s.len() == 0 {
        None
    } else if s[0] == d {
        Some(0)
    } else {
        match find_byte(s.subrange(1, s.len() as int), d) {
            Some(i) => Some(i + 1),
            None => None,
        }
    }
}

/// The bytes of an ASCII character sequence.
pub open spec fn ascii_seq(s: Seq<char>) -> Seq<u8> {
    Seq::new(s.len(), |i: int| s[i] as u8)
}

/// The bytes of an ASCII string slice.
pub fn ascii_bytes(s: &str) -> (r: Vec<u8>)
    requires
        vstd::string::is_ascii(s),
    ensures
        r@ == ascii_seq(s@),
{
    let v = s.as_bytes_vec();
    proof {
        assert(v@ =~= ascii_seq(s@));
    }
    v
}

/// Copy of `v[start .. end]` as a fresh byte string.
pub fn subvec(v: &Vec<u8>, start: usize, end: usize) -> (r: Vec<u8>)
    requires
        start <= end <= v@.len(),
    ensures
        r@ == v@.subrange(start as int, end as int),
{
    let mut r: Vec<u8> = Vec::new();
    let mut i: usize = start;
    while i < end
        invariant
            start <= i <= end <= v@.len(),
            r@ == v@.subrange(start as int, i as int),
        decreases end - i,
    {
        r.push(v[i]);
        i = i + 1;
        proof {
            assert(r@ =~= v@.subrange(start as int, i as int));
        }
    }
    r
}

/// A fresh copy of a byte string.
pub fn clone_bytes(v: &Vec<u8>) -> (r: Vec<u8>)
    ensures
        r@ == v@,
{
    let r = subvec(v, 0, v.len());
    proof {
        assert(r@ =~= v@);
    }
    r
}

/// Append all of `src` to `out`.
pub fn append_bytes(out: &mut Vec<u8>, src: &Vec<u8>)
    ensures
        final(out)@ == old(out)@ + src@,
{
    let mut i: usize = 0;
    while i < src.len()
        invariant
            i <= src@.len(),
            out@ == old(out)@ + src@.subrange(0, i as int),
        decreases src@.len() - i,
    {
        out.push(src[i]);
        i = i + 1;
        proof {
            assert(out@ =~= old(out)@ + src@.subrange(0, i as int));
        }
    }
    proof {
        assert(out@ =~= old(out)@ + src@);
    }
}

/// Do `a` and `b` hold the same bytes?
pub fn bytes_eq(a: &Vec<u8>, b: &Vec<u8>) -> (r: bool)
    ensures
        r == (a@ == b@),
{
    if a.len() != b.len() {
        proof {
            assert(a@ !~= b@);
        }
        return false;
    }
    let mut i: usize = 0;
    while i < a.len()
        invariant
            i <= a@.len(),
            a@.len() == b@.len(),
            forall|j: int| 0 <= j < i ==> a@[j] == b@[j],
        decreases a@.len() - i,
    {
        if a[i] != b[i] {
            proof {
                assert(a@ !~= b@);
            }
            return false;
        }
        i = i + 1;
    }
    proof {
        assert(a@ =~= b@);
    }
    true
}

/// Does `s` start with `prefix`?
pub fn starts_with(s: &Vec<u8>, prefix: &Vec<u8>) -> (r: bool)
    ensures
        r == is_prefix_of(prefix@, s@),
{
    if prefix.len() > s.len() {
        return false;
    }
    let mut i: usize = 0;
    while i < prefix.len()
        invariant
            i <= prefix@.len() <= s@.len(),
            forall|j: int| 0 <= j < i ==> s@[j] == prefix@[j],
        decreases prefix@.len() - i,
    {
        if s[i] != prefix[i] {
            proof {
                assert(s@.subrange(0, prefix@.len() as int)[i as int] != prefix@[i as int]);
            }
            return false;
        }
        i = i + 1;
    }
    proof {
        assert(s@.subrange(0, prefix@.len() as int) =~= prefix@);
    }
    true
}

/// What remains of `s` after `prefix`, or `None` where `prefix` is not a
/// prefix of `s`.
pub fn strip_prefix_bytes(s: &Vec<u8>, prefix: &Vec<u8>) -> (r: Option<Vec<u8>>)
    ensures
        is_prefix_of(prefix@, s@) <==> r is Some,
        r matches Some(rest) ==> rest@ == s@.subrange(prefix@.len() as int, s@.len() as int),
{
    if starts_with(s, prefix) {
        Some(subvec(s, prefix.len(), s.len()))
    } else {
        None
    }
}

/// Split `s` at the first occurrence of `delimiter`, which is dropped.
/// `None` exactly when `delimiter` does not occur in `s`.
pub fn split_bytes_once(s: &Vec<u8>, delimiter: u8) -> (r: Option<(Vec<u8>, Vec<u8>)>)
    ensures
        r is Some <==> find_byte(s@, delimiter) is Some,
        r matches Some(pair) ==> {
            let i = find_byte(s@, delimiter)->Some_0;
            &&& pair.0@ == s@.subrange(0, i)
            &&& pair.1@ == s@.subrange(i + 1, s@.len() as int)
        },
{
    let mut i: usize = 0;
    while i < s.len()
        invariant
            i <= s@.len(),
            forall|j: int| 0 <= j < i ==> s@[j] != delimiter,
        decreases s@.len() - i,
    {
        if s[i] == delimiter {
            proof {
                lemma_find_byte_first(s@, delimiter, i as int);
            }
            let before = subvec(s, 0, i);
            let after = subvec(s, i + 1, s.len());
            return Some((before, after));
        }
        i = i + 1;
    }
    proof {
        lemma_find_byte_none(s@, delimiter);
    }
    None
}

/// Where no byte of `s` equals `d`, `find_byte` finds nothing.
proof fn lemma_find_byte_none(s: Seq<u8>, d: u8)
    requires
        forall|j: int| 0 <= j < s.len() ==> s[j] != d,
    ensures
        find_byte(s, d) is None,
    decreases s.len(),
{
    if s.len() > 0 {
        lemma_find_byte_none(s.subrange(1, s.len() as int), d);
    }
}

/// Where `s[i]` is the first occurrence of `d`, `find_byte` finds exactly `i`.
proof fn lemma_find_byte_first(s: Seq<u8>, d: u8, i: int)
    requires
        0 <= i < s.len(),
        s[i] == d,
        forall|j: int| 0 <= j < i ==> s[j] != d,
    ensures
        find_byte(s, d) == Some(i),
    decreases s.len(),
{
    if i > 0 {
        lemma_find_byte_first(s.subrange(1, s.len() as int), d, i - 1);
    }
}

} // verus!
