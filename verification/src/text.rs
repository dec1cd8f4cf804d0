//! Comparing strings and finding one string inside another.

use vstd::prelude::*;
use vstd::utf8::{
    decode_first_scalar, decode_utf8, decode_utf8_split, encode_utf8, encode_utf8_decode_utf8,
    encode_utf8_valid_utf8, is_char_boundary_iff_not_is_continuation_byte,
    length_of_first_scalar, pop_first_scalar, valid_utf8, valid_utf8_split,
};

verus! {

/// `needle` stands in `haystack` at offset `at`.
pub open spec fn occurs_at(needle: Seq<char>, haystack: Seq<char>, at: int) -> bool {
    &&& 0 <= at
    &&& at + needle.len() <= haystack.len()
    &&& haystack.subrange(at, at + needle.len()) == needle
}

/// `needle` stands somewhere in `haystack`, character for character.
pub open spec fn is_substring(needle: Seq<char>, haystack: Seq<char>) -> bool {
    exists|at: int| occurs_at(needle, haystack, at)
}

/// The empty string is found in every string.
pub proof fn lemma_empty_is_substring(haystack: Seq<char>)
    ensures
        is_substring(Seq::<char>::empty(), haystack),
{
    assert(haystack.subrange(0, 0) =~= Seq::<char>::empty());
    assert(occurs_at(Seq::<char>::empty(), haystack, 0));
}

/// The bytes `needle` stand in the bytes `haystack` at offset `at`.
pub open spec fn bytes_occur_at(needle: Seq<u8>, haystack: Seq<u8>, at: int) -> bool {
    &&& 0 <= at
    &&& at + needle.len() <= haystack.len()
    &&& haystack.subrange(at, at + needle.len()) == needle
}

/// The UTF-8 form of two strings in a row is the UTF-8 form of the first
/// followed by that of the second.
pub proof fn lemma_encode_concat(a: Seq<char>, b: Seq<char>)
    ensures
        encode_utf8(a + b) == encode_utf8(a) + encode_utf8(b),
    decreases a.len(),
{
    if a.len() == 0 {
        assert(a + b =~= b);
        assert(encode_utf8(a) + encode_utf8(b) =~= encode_utf8(b));
    } else {
        lemma_encode_concat(a.drop_first(), b);
        assert((a + b).drop_first() =~= a.drop_first() + b);
        assert((a + b)[0] == a[0]);
        assert(encode_utf8(a + b) =~= encode_utf8(a) + encode_utf8(b));
    }
}

/// Valid UTF-8 that starts with other valid UTF-8 decodes to the characters of
/// that start followed by the characters of the rest, which is valid too.
pub proof fn lemma_decode_prefix(whole: Seq<u8>, start: Seq<u8>)
    requires
        valid_utf8(whole),
        valid_utf8(start),
        start.len() <= whole.len(),
        whole.subrange(0, start.len() as int) == start,
    ensures
        valid_utf8(whole.subrange(start.len() as int, whole.len() as int)),
        decode_utf8(whole) == decode_utf8(start) + decode_utf8(
            whole.subrange(start.len() as int, whole.len() as int),
        ),
    decreases start.len(),
{
    let rest = whole.subrange(start.len() as int, whole.len() as int);
    if start.len() == 0 {
        assert(rest =~= whole);
        assert(decode_utf8(start) + decode_utf8(rest) =~= decode_utf8(whole));
    } else {
        let k = length_of_first_scalar(start);
        assert(forall|i: int| 0 <= i < start.len() ==> start[i] == whole[i]);
        assert(length_of_first_scalar(whole) == k);
        assert(decode_first_scalar(whole) == decode_first_scalar(start));
        let whole_tail = pop_first_scalar(whole);
        let start_tail = pop_first_scalar(start);
        assert(whole_tail.subrange(0, start_tail.len() as int) =~= start_tail);
        lemma_decode_prefix(whole_tail, start_tail);
        assert(whole_tail.subrange(start_tail.len() as int, whole_tail.len() as int) =~= rest);
        assert(decode_utf8(whole) =~= decode_utf8(start) + decode_utf8(rest));
    }
}

/// One string stands in another exactly when its UTF-8 form stands in the
/// UTF-8 form of the other.
pub proof fn lemma_containment_in_bytes(needle: Seq<char>, haystack: Seq<char>)
    ensures
        is_substring(needle, haystack) <==> exists|at: int|
            bytes_occur_at(encode_utf8(needle), encode_utf8(haystack), at),
{
    let n = encode_utf8(needle);
    let h = encode_utf8(haystack);
    encode_utf8_valid_utf8(needle);
    encode_utf8_valid_utf8(haystack);
    encode_utf8_decode_utf8(needle);
    encode_utf8_decode_utf8(haystack);
    if is_substring(needle, haystack) {
        let at = choose|at: int| occurs_at(needle, haystack, at);
        let before = haystack.subrange(0, at);
        let after = haystack.subrange(at + needle.len(), haystack.len() as int);
        assert(haystack =~= (before + needle) + after);
        lemma_encode_concat(before + needle, after);
        lemma_encode_concat(before, needle);
        let p = encode_utf8(before).len() as int;
        assert(h.subrange(p, p + n.len()) =~= n);
        assert(bytes_occur_at(n, h, p));
    }
    if exists|p: int| bytes_occur_at(n, h, p) {
        let p = choose|p: int| bytes_occur_at(n, h, p);
        if n.len() == 0 {
            assert(decode_utf8(n) =~= Seq::<char>::empty());
            lemma_empty_is_substring(haystack);
        } else {
            assert(h[p] == h.subrange(p, p + n.len())[0]);
            is_char_boundary_iff_not_is_continuation_byte(n, 0);
            is_char_boundary_iff_not_is_continuation_byte(h, p);
            valid_utf8_split(h, p);
            decode_utf8_split(h, p);
            let front = h.subrange(0, p);
            let back = h.subrange(p, h.len() as int);
            assert(back.subrange(0, n.len() as int) =~= n);
            lemma_decode_prefix(back, n);
            let rest = back.subrange(n.len() as int, back.len() as int);
            let at = decode_utf8(front).len() as int;
            assert(haystack =~= decode_utf8(front) + (needle + decode_utf8(rest)));
            assert(haystack.subrange(at, at + needle.len()) =~= needle);
            assert(occurs_at(needle, haystack, at));
        }
    }
}

/// Whether the bytes `needle` stand in `haystack` at offset `at`.
fn bytes_match_at(haystack: &[u8], needle: &[u8], at: usize) -> (same: bool)
    requires
        at + needle@.len() <= haystack@.len(),
    ensures
        same == bytes_occur_at(needle@, haystack@, at as int),
{
    let total: usize = haystack.len();
    let mut i: usize = 0;
    while i < needle.len()
        invariant
            i <= needle@.len(),
            at + needle@.len() <= haystack@.len() == total,
            forall|j: int| 0 <= j < i ==> haystack@[at + j] == needle@[j],
        decreases needle@.len() - i,
    {
        if haystack[at + i] != needle[i] {
            assert(haystack@.subrange(at as int, at + needle@.len())[i as int] != needle@[i as int]);
            return false;
        }
        i = i + 1;
    }
    assert(haystack@.subrange(at as int, at + needle@.len()) =~= needle@);
    true
}

/// Whether `needle` stands somewhere in `haystack`, character for character.
/// The empty string is found in every string.
pub fn contains(haystack: &str, needle: &str) -> (found: bool)
    ensures
        found == is_substring(needle@, haystack@),
{
    let h = haystack.as_bytes();
    let n = needle.as_bytes();
    proof {
        lemma_containment_in_bytes(needle@, haystack@);
    }
    if n.len() > h.len() {
        return false;
    }
    let last: usize = h.len() - n.len();
    let mut at: usize = 0;
    loop
        invariant
            at <= last,
            last + n@.len() == h@.len(),
            is_substring(needle@, haystack@) <==> exists|p: int| bytes_occur_at(n@, h@, p),
            forall|p: int| 0 <= p < at ==> !bytes_occur_at(n@, h@, p),
        decreases last - at,
    {
        if bytes_match_at(h, n, at) {
            return true;
        }
        if at == last {
            return false;
        }
        at = at + 1;
    }
}

/// Whether two strings hold the same characters. They are compared byte by
/// byte in their UTF-8 form, which determines the characters.
pub fn same_text(a: &str, b: &str) -> (same: bool)
    ensures
        same == (a@ == b@),
{
    let x = a.as_bytes();
    let y = b.as_bytes();
    proof {
        encode_utf8_decode_utf8(a@);
        encode_utf8_decode_utf8(b@);
    }
    if x.len() != y.len() {
        return false;
    }
    let mut i: usize = 0;
    while i < x.len()
        invariant
            i <= x@.len(),
            x@.len() == y@.len(),
            x@ == encode_utf8(a@),
            y@ == encode_utf8(b@),
            decode_utf8(encode_utf8(a@)) == a@,
            decode_utf8(encode_utf8(b@)) == b@,
            forall|j: int| 0 <= j < i ==> x@[j] == y@[j],
        decreases x@.len() - i,
    {
        if x[i] != y[i] {
            return false;
        }
        i = i + 1;
    }
    assert(x@ =~= y@);
    true
}

/// The contents of each string of a list, in order.
pub open spec fn texts(v: Seq<String>) -> Seq<Seq<char>> {
    Seq::new(v.len(), |i: int| v[i]@)
}

/// Copies a list of strings.
pub fn copy_texts(v: &Vec<String>) -> (copy: Vec<String>)
    ensures
        texts(copy@) == texts(v@),
{
    let mut copy: Vec<String> = Vec::new();
    let mut i: usize = 0;
    while i < v.len()
        invariant
            i <= v@.len(),
            copy@.len() == i,
            forall|j: int| 0 <= j < i ==> copy@[j]@ == v@[j]@,
        decreases v@.len() - i,
    {
        copy.push(v[i].clone());
        i = i + 1;
    }
    assert(texts(copy@) =~= texts(v@));
    copy
}

/// Whether two lists of strings hold the same contents in the same order.
pub fn same_texts(a: &Vec<String>, b: &Vec<String>) -> (same: bool)
    ensures
        same == (texts(a@) == texts(b@)),
{
    if a.len() != b.len() {
        assert(texts(a@).len() != texts(b@).len());
        return false;
    }
    let mut i: usize = 0;
    while i < a.len()
        invariant
            i <= a@.len(),
            a@.len() == b@.len(),
            forall|j: int| 0 <= j < i ==> a@[j]@ == b@[j]@,
        decreases a@.len() - i,
    {
        if !same_text(a[i].as_str(), b[i].as_str()) {
            assert(texts(a@)[i as int] != texts(b@)[i as int]);
            return false;
        }
        i = i + 1;
    }
    assert(texts(a@) =~= texts(b@));
    true
}

} // verus!
