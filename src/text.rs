use vstd::prelude::*;
use vstd::string::*;

verus! {

/// Whether `s` is non-empty and its last character is `c`.
pub open spec fn ends_with_char_spec(s: Seq<char>, c: char) -> bool {
    s.len() > 0 && s.last() == c
}

/// Whether `s` holds the character `c` anywhere.
pub open spec fn contains_char_spec(s: Seq<char>, c: char) -> bool {
    exists|i: int| 0 <= i < s.len() && s[i] == c
}

/// The part of `s` after its last `/` (all of `s` when it holds none).
pub open spec fn last_segment_spec(s: Seq<char>) -> Seq<char>
    decreases s.len(),
{
    if s.len() == 0 {
        s
    } else if s.last() == '/' {
        Seq::empty()
    } else {
        last_segment_spec(s.drop_last()).push(s.last())
    }
}

pub fn ends_with_char(s: &str, c: char) -> (r: bool)
    ensures
        r == ends_with_char_spec(s@, c),
{
    let n = s.unicode_len();
    n > 0 && s.get_char(n - 1) == c
}

pub fn contains_char(s: &str, c: char) -> (r: bool)
    ensures
        r == contains_char_spec(s@, c),
{
    let n = s.unicode_len();
    let mut i: usize = 0;
    while i < n
        invariant
            n == s@.len(),
            i <= n,
            forall|j: int| 0 <= j < i ==> s@[j] != c,
        decreases n - i,
    {
        if s.get_char(i) == c {
            return true;
        }
        i = i + 1;
    }
    false
}

/// Whether two strings hold the same characters.
pub fn str_eq(a: &str, b: &str) -> (r: bool)
    ensures
        r == (a@ == b@),
{
    let n = a.unicode_len();
    if n != b.unicode_len() {
        return false;
    }
    let mut i: usize = 0;
    while i < n
        invariant
            n == a@.len(),
            n == b@.len(),
            i <= n,
            forall|j: int| 0 <= j < i ==> a@[j] == b@[j],
        decreases n - i,
    {
        if a.get_char(i) != b.get_char(i) {
            return false;
        }
        i = i + 1;
    }
    assert(a@ =~= b@);
    true
}

/// Whether `s` begins with `p`.
pub open spec fn starts_with_spec(s: Seq<char>, p: Seq<char>) -> bool {
    p.len() <= s.len() && s.subrange(0, p.len() as int) == p
}

pub fn starts_with(s: &str, p: &str) -> (r: bool)
    ensures
        r == starts_with_spec(s@, p@),
{
    let n = p.unicode_len();
    if n > s.unicode_len() {
        return false;
    }
    let mut i: usize = 0;
    while i < n
        invariant
            n == p@.len(),
            n <= s@.len(),
            i <= n,
            forall|j: int| 0 <= j < i ==> s@[j] == p@[j],
        decreases n - i,
    {
        if s.get_char(i) != p.get_char(i) {
            assert(s@.subrange(0, n as int)[i as int] != p@[i as int]);
            return false;
        }
        i = i + 1;
    }
    assert(s@.subrange(0, n as int) =~= p@);
    true
}

/// The text after the last `/` of `s`.
pub fn last_segment(s: &str) -> (r: String)
    ensures
        r@ == last_segment_spec(s@),
{
    let n = s.unicode_len();
    let mut i: usize = n;
    assert(s@.subrange(0, n as int) =~= s@);
    assert(s@.subrange(n as int, n as int) =~= Seq::<char>::empty());
    while i > 0
        invariant
            n == s@.len(),
            i <= n,
            last_segment_spec(s@) == last_segment_spec(s@.subrange(0, i as int)) + s@.subrange(
                i as int,
                n as int,
            ),
            !contains_char_spec(s@.subrange(i as int, n as int), '/'),
        ensures
            i <= n,
            i == 0 || s@[i - 1] == '/',
            last_segment_spec(s@) == last_segment_spec(s@.subrange(0, i as int)) + s@.subrange(
                i as int,
                n as int,
            ),
        decreases i,
    {
        if s.get_char(i - 1) == '/' {
            break;
        }
        proof {
            let pre = s@.subrange(0, i as int);
            assert(pre.drop_last() =~= s@.subrange(0, i - 1));
            assert(s@.subrange(i - 1, n as int) =~= seq![pre.last()] + s@.subrange(
                i as int,
                n as int,
            ));
            assert(last_segment_spec(pre) == last_segment_spec(pre.drop_last()).push(pre.last()));
            assert(last_segment_spec(pre.drop_last()).push(pre.last()) + s@.subrange(
                i as int,
                n as int,
            ) =~= last_segment_spec(pre.drop_last()) + s@.subrange(i - 1, n as int));
            let tail = s@.subrange(i - 1, n as int);
            if contains_char_spec(tail, '/') {
                let k = choose|k: int| 0 <= k < tail.len() && tail[k] == '/';
                if k > 0 {
                    assert(s@.subrange(i as int, n as int)[k - 1] == '/');
                }
            }
        }
        i = i - 1;
    }
    proof {
        let pre = s@.subrange(0, i as int);
        if i > 0 {
            assert(pre.last() == s@[i - 1]);
            assert(last_segment_spec(pre) == Seq::<char>::empty());
        } else {
            assert(pre.len() == 0);
        }
        assert(last_segment_spec(s@) =~= s@.subrange(i as int, n as int));
    }
    let seg = s.substring_char(i, n);
    String::from_str(seg)
}

} // verus!
