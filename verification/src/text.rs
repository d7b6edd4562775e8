//! Small helpers on strings and characters shared by the parsers.

use vstd::prelude::*;

verus! {

broadcast use vstd::string::group_string_axioms;

/// The characters of `s`, in order.
pub fn chars_of(s: &str) -> (v: Vec<char>)
    ensures
        v@ == s@,
{
    let mut v: Vec<char> = Vec::new();
    for c in it: s.chars()
        invariant
            v@ == it.seq().take(it.index() as int),
            it.seq() == s@,
    {
        v.push(c);
    }
    v
}


/// Whether two texts hold the same characters.
pub fn same_text(a: &str, b: &str) -> (same: bool)
    ensures
        same == (a@ == b@),
{
    let left = chars_of(a);
    let right = chars_of(b);
    if left.len() != right.len() {
        return false;
    }
    let mut i: usize = 0;
    while i < left.len()
        invariant
            left@ == a@,
            right@ == b@,
            left.len() == right.len(),
            i <= left.len(),
            left@.take(i as int) == right@.take(i as int),
        decreases left.len() - i,
    {
        if left[i] != right[i] {
            assert(left@[i as int] != right@[i as int]);
            return false;
        }
        assert(left@.take(i + 1) =~= left@.take(i as int).push(left@[i as int]));
        assert(right@.take(i + 1) =~= right@.take(i as int).push(right@[i as int]));
        i = i + 1;
    }
    assert(left@ =~= left@.take(left.len() as int));
    assert(right@ =~= right@.take(right.len() as int));
    true
}


/// The position of the last `c` in `s`, or -1 if there is none.
pub open spec fn last_position(s: Seq<char>, c: char) -> int
    decreases s.len(),
{
    if s.len() == 0 {
        -1
    } else if s.last() == c {
        s.len() - 1
    } else {
        last_position(s.drop_last(), c)
    }
}

/// The last `c` of what is left of `s` behind the first `from`
/// characters is the last `c` of `s`, if that stands there.
pub proof fn lemma_last_position_skip(s: Seq<char>, from: int, c: char)
    requires
        0 <= from <= s.len(),
    ensures
        last_position(s.skip(from), c) == if last_position(s, c) >= from {
            last_position(s, c) - from
        } else {
            -1
        },
    decreases s.len(),
{
    if from == s.len() {
        assert(s.skip(from) =~= Seq::<char>::empty());
        lemma_last_position_bounds(s, c);
    } else {
        assert(s.skip(from).last() == s.last());
        if s.last() != c {
            assert(s.skip(from).drop_last() =~= s.drop_last().skip(from));
            lemma_last_position_skip(s.drop_last(), from, c);
        }
    }
}

/// The last position of `c` in `s` is a position of `s`, or -1.
pub proof fn lemma_last_position_bounds(s: Seq<char>, c: char)
    ensures
        -1 <= last_position(s, c) < s.len(),
    decreases s.len(),
{
    if s.len() > 0 && s.last() != c {
        lemma_last_position_bounds(s.drop_last(), c);
    }
}

/// Finds the last `c` among the first `end` of `chars`: one more than its
/// position, or 0 if there is none.
pub fn after_last(chars: &Vec<char>, end: usize, c: char) -> (after: usize)
    requires
        end <= chars.len(),
    ensures
        after == last_position(chars@.take(end as int), c) + 1,
        after <= end,
        after > 0 ==> chars@[after - 1] == c,
{
    let mut after: usize = end;
    while after > 0 && chars[after - 1] != c
        invariant
            after <= end <= chars.len(),
            last_position(chars@.take(end as int), c) == last_position(
                chars@.take(after as int),
                c,
            ),
        decreases after,
    {
        assert(chars@.take(after as int).drop_last() =~= chars@.take(after - 1));
        after = after - 1;
    }
    proof {
        if after > 0 {
            assert(chars@.take(after as int).last() == c);
        }
    }
    after
}


/// A capital letter of ASCII as the small letter, any other character as
/// it is.
pub open spec fn spec_lower(c: char) -> char {
    if 'A' <= c && c <= 'Z' {
        ((c as u8 + 32) as u8) as char
    } else {
        c
    }
}

/// `s` with its capital letters of ASCII made small.
pub open spec fn lowered(s: Seq<char>) -> Seq<char> {
    s.map_values(|c: char| spec_lower(c))
}

/// Makes a capital letter of ASCII small.
pub fn lower(c: char) -> (res: char)
    ensures
        res == spec_lower(c),
{
    if c >= 'A' && c <= 'Z' {
        (c as u8 + 32) as char
    } else {
        c
    }
}

/// Whether the characters of `chars` from `from` on are those of `other`.
pub fn tail_is(chars: &Vec<char>, from: usize, other: &str) -> (same: bool)
    requires
        from <= chars.len(),
    ensures
        same == (chars@.skip(from as int) == other@),
{
    let right = chars_of(other);
    if chars.len() - from != right.len() {
        return false;
    }
    let mut i: usize = 0;
    while i < right.len()
        invariant
            right@ == other@,
            from <= chars.len(),
            chars.len() - from == right.len(),
            i <= right.len(),
            chars@.skip(from as int).take(i as int) == right@.take(i as int),
        decreases right.len() - i,
    {
        let ghost left = chars@.skip(from as int);
        if chars[from + i] != right[i] {
            assert(left[i as int] != right@[i as int]);
            return false;
        }
        assert(left.take(i + 1) =~= left.take(i as int).push(left[i as int]));
        assert(right@.take(i + 1) =~= right@.take(i as int).push(right@[i as int]));
        i = i + 1;
    }
    assert(chars@.skip(from as int) =~= chars@.skip(from as int).take(right.len() as int));
    assert(right@ =~= right@.take(right.len() as int));
    true
}

/// Whether the characters of `chars` from `from` on are those of `other`
/// when capital and small letters of ASCII count as the same.
pub fn tail_is_ignoring_case(chars: &Vec<char>, from: usize, other: &str) -> (same: bool)
    requires
        from <= chars.len(),
    ensures
        same == (lowered(chars@.skip(from as int)) == lowered(other@)),
{
    let right = chars_of(other);
    if chars.len() - from != right.len() {
        assert(lowered(chars@.skip(from as int)).len() != lowered(other@).len());
        return false;
    }
    let mut i: usize = 0;
    while i < right.len()
        invariant
            right@ == other@,
            from <= chars.len(),
            chars.len() - from == right.len(),
            i <= right.len(),
            lowered(chars@.skip(from as int)).take(i as int) == lowered(right@).take(i as int),
        decreases right.len() - i,
    {
        let ghost left = lowered(chars@.skip(from as int));
        let ghost low = lowered(right@);
        if lower(chars[from + i]) != lower(right[i]) {
            assert(left[i as int] != low[i as int]);
            return false;
        }
        assert(left.take(i + 1) =~= left.take(i as int).push(left[i as int]));
        assert(low.take(i + 1) =~= low.take(i as int).push(low[i as int]));
        i = i + 1;
    }
    proof {
        let left = lowered(chars@.skip(from as int));
        let low = lowered(right@);
        assert(left =~= left.take(right.len() as int));
        assert(low =~= low.take(right.len() as int));
    }
    true
}

} // verus!
