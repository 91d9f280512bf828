//! Strings as sequences of characters.

use vstd::prelude::*;
use vstd::string::*;
use vstd::utf8::valid_utf8;

verus! {

/// The characters of `s`, in order.
pub fn to_chars(s: &str) -> (v: Vec<char>)
    ensures
        v@ == s@,
{
    let mut v: Vec<char> = Vec::new();
    for c in it: s.chars()
        invariant
            v@ == it.seq().take(it.index() as int),
            it.seq() == s@,
    {
        v.push(c);
    }
    v
}

/// Calls `core::str::from_utf8`. Trusted: it accepts exactly the byte
/// strings that are UTF-8, and the string it returns has the given bytes.
#[verifier::external_body]
pub(crate) fn utf8_text(data: &[u8]) -> (r: Option<&str>)
    ensures
        r is Some <==> valid_utf8(data@),
        r matches Some(text) ==> text.spec_bytes() == data@,
{
    core::str::from_utf8(data).ok()
}

/// Calls `String::push`. Trusted: it appends the character.
#[verifier::external_body]
fn push_char(s: &mut String, c: char)
    ensures
        final(s)@ == old(s)@.push(c),
{
    s.push(c)
}

/// The string of the characters `chars[from..to]`.
pub fn string_of(chars: &[char], from: usize, to: usize) -> (s: String)
    requires
        from <= to <= chars@.len(),
    ensures
        s@ == chars@.subrange(from as int, to as int),
{
    let mut s = String::new();
    let mut i: usize = from;
    while i < to
        invariant
            from <= i <= to <= chars@.len(),
            s@ == chars@.subrange(from as int, i as int),
        decreases to - i,
    {
        push_char(&mut s, chars[i]);
        assert(chars@.subrange(from as int, i + 1) =~= chars@.subrange(from as int, i as int).push(
            chars@[i as int],
        ));
        i += 1;
    }
    s
}

/// The characters that count as white space: those with the Unicode
/// property White_Space.
pub open spec fn is_space(c: char) -> bool {
    let v = c as u32;
    ||| 0x09 <= v <= 0x0d
    ||| v == 0x20
    ||| v == 0x85
    ||| v == 0xa0
    ||| v == 0x1680
    ||| 0x2000 <= v <= 0x200a
    ||| v == 0x2028
    ||| v == 0x2029
    ||| v == 0x202f
    ||| v == 0x205f
    ||| v == 0x3000
}

/// Whether `c` is white space.
pub fn char_is_space(c: char) -> (r: bool)
    ensures
        r == is_space(c),
{
    let v: u32 = c as u32;
    (0x09 <= v && v <= 0x0d) || v == 0x20 || v == 0x85 || v == 0xa0 || v == 0x1680 || (0x2000 <= v
        && v <= 0x200a) || v == 0x2028 || v == 0x2029 || v == 0x202f || v == 0x205f || v == 0x3000
}

/// Every character of `s` is white space.
pub open spec fn all_space(s: Seq<char>) -> bool {
    forall|i: int| 0 <= i < s.len() ==> is_space(#[trigger] s[i])
}

/// How many characters of white space `s` starts with.
pub open spec fn leading_space(s: Seq<char>) -> nat
    decreases s.len(),
{
    if s.len() > 0 && is_space(s[0]) {
        1 + leading_space(s.skip(1))
    } else {
        0
    }
}

/// How many characters of white space `s` ends with.
pub open spec fn trailing_space(s: Seq<char>) -> nat
    decreases s.len(),
{
    if s.len() > 0 && is_space(s.last()) {
        1 + trailing_space(s.drop_last())
    } else {
        0
    }
}

/// `s` without the white space at its start and at its end.
pub open spec fn trimmed(s: Seq<char>) -> Seq<char> {
    let front = s.skip(leading_space(s) as int);
    front.take(front.len() - trailing_space(front))
}

/// The leading white space is white space, ends before the string does or
/// with it, and is followed by something else.
proof fn lemma_leading_space_bound(s: Seq<char>)
    ensures
        leading_space(s) <= s.len(),
        forall|i: int| 0 <= i < leading_space(s) ==> is_space(#[trigger] s[i]),
        leading_space(s) < s.len() ==> !is_space(s[leading_space(s) as int]),
    decreases s.len(),
{
    if s.len() > 0 && is_space(s[0]) {
        let rest = s.skip(1);
        lemma_leading_space_bound(rest);
        assert forall|i: int| 0 <= i < leading_space(s) implies is_space(#[trigger] s[i]) by {
            if i > 0 {
                assert(s[i] == rest[i - 1]);
            }
        }
        if leading_space(s) < s.len() {
            assert(s[leading_space(s) as int] == rest[leading_space(rest) as int]);
        }
    }
}

/// The trailing white space is white space, begins after the string does
/// or with it, and is preceded by something else.
proof fn lemma_trailing_space_bound(s: Seq<char>)
    ensures
        trailing_space(s) <= s.len(),
        forall|i: int| s.len() - trailing_space(s) <= i < s.len() ==> is_space(#[trigger] s[i]),
        trailing_space(s) < s.len() ==> !is_space(s[s.len() - trailing_space(s) - 1]),
    decreases s.len(),
{
    if s.len() > 0 && is_space(s.last()) {
        let rest = s.drop_last();
        lemma_trailing_space_bound(rest);
        assert forall|i: int| s.len() - trailing_space(s) <= i < s.len() implies is_space(
            #[trigger] s[i],
        ) by {
            if i < s.len() - 1 {
                assert(s[i] == rest[i]);
            }
        }
        if trailing_space(s) < s.len() {
            assert(s[s.len() - trailing_space(s) - 1] == rest[rest.len() - trailing_space(rest)
                - 1]);
        }
    }
}

/// Trimming takes a stretch out of the middle of the string: what it leaves
/// out to the left and to the right is white space, and what it keeps
/// neither begins nor ends with white space.
pub proof fn lemma_trimmed_ends(s: Seq<char>)
    ensures
        leading_space(s) + trimmed(s).len() <= s.len(),
        trimmed(s) == s.subrange(
            leading_space(s) as int,
            (leading_space(s) + trimmed(s).len()) as int,
        ),
        all_space(s.take(leading_space(s) as int)),
        all_space(s.skip((leading_space(s) + trimmed(s).len()) as int)),
        trimmed(s).len() > 0 ==> !is_space(trimmed(s).first()) && !is_space(trimmed(s).last()),
{
    lemma_leading_space_bound(s);
    let front = s.skip(leading_space(s) as int);
    lemma_leading_space_bound(front);
    lemma_trailing_space_bound(front);
    let kept = front.take(front.len() - trailing_space(front));
    assert(kept =~= s.subrange(leading_space(s) as int, (leading_space(s) + kept.len()) as int));
    if front.len() > 0 {
        assert(front[0] == s[leading_space(s) as int]);
        assert(leading_space(front) == 0);
        assert(trailing_space(front) < front.len()) by {
            if trailing_space(front) >= front.len() {
                assert(is_space(front[0]));
            }
        }
        assert(kept.first() == front[0]);
        assert(kept.last() == front[front.len() - trailing_space(front) - 1]);
    }
    let tail = s.skip((leading_space(s) + kept.len()) as int);
    assert forall|i: int| 0 <= i < tail.len() implies is_space(#[trigger] tail[i]) by {
        assert(tail[i] == front[kept.len() + i]);
    }
}

/// The index of the first `c` in `s`, or the length of `s` if it holds none.
pub open spec fn position(s: Seq<char>, c: char) -> nat
    decreases s.len(),
{
    if s.len() == 0 || s[0] == c {
        0
    } else {
        1 + position(s.skip(1), c)
    }
}

/// `position` lies within the string, nothing before it is `c`, and `c`
/// stands there unless the string holds none.
pub proof fn lemma_position(s: Seq<char>, c: char)
    ensures
        position(s, c) <= s.len(),
        forall|i: int| 0 <= i < position(s, c) ==> #[trigger] s[i] != c,
        position(s, c) < s.len() ==> s[position(s, c) as int] == c,
    decreases s.len(),
{
    if s.len() > 0 && s[0] != c {
        let rest = s.skip(1);
        lemma_position(rest, c);
        assert forall|i: int| 0 <= i < position(s, c) implies #[trigger] s[i] != c by {
            if i > 0 {
                assert(s[i] == rest[i - 1]);
            }
        }
        if position(s, c) < s.len() {
            assert(s[position(s, c) as int] == rest[position(rest, c) as int]);
        }
    }
}

/// The index of the first `c` in `s[from..to]`, or `to` if there is none.
pub fn find_char(s: &[char], from: usize, to: usize, c: char) -> (at: usize)
    requires
        from <= to <= s@.len(),
    ensures
        from <= at <= to,
        at == from + position(s@.subrange(from as int, to as int), c),
{
    let ghost part = s@.subrange(from as int, to as int);
    let mut at: usize = from;
    assert(part.skip(0) =~= part);
    while at < to && s[at] != c
        invariant
            from <= at <= to <= s@.len(),
            part == s@.subrange(from as int, to as int),
            position(part, c) == (at - from) + position(part.skip(at - from), c),
        decreases to - at,
    {
        let ghost rest = part.skip(at - from);
        assert(rest[0] == s@[at as int]);
        assert(rest.skip(1) =~= part.skip(at - from + 1));
        at += 1;
    }
    proof {
        let rest = part.skip(at - from);
        if at < to {
            assert(rest[0] == s@[at as int]);
        }
    }
    at
}

/// Where the trimmed part of `s[from..to]` starts and ends.
pub fn trim_range(s: &[char], from: usize, to: usize) -> (r: (usize, usize))
    requires
        from <= to <= s@.len(),
    ensures
        from <= r.0 <= r.1 <= to,
        s@.subrange(r.0 as int, r.1 as int) == trimmed(s@.subrange(from as int, to as int)),
{
    let ghost part = s@.subrange(from as int, to as int);
    let mut start: usize = from;
    assert(part.skip(0) =~= part);
    while start < to && char_is_space(s[start])
        invariant
            from <= start <= to <= s@.len(),
            part == s@.subrange(from as int, to as int),
            leading_space(part) == (start - from) + leading_space(part.skip(start - from)),
        decreases to - start,
    {
        let ghost rest = part.skip(start - from);
        assert(rest[0] == s@[start as int]);
        assert(rest.skip(1) =~= part.skip(start - from + 1));
        start += 1;
    }
    let ghost front = part.skip(start - from);
    proof {
        if start < to {
            assert(front[0] == s@[start as int]);
        }
        assert(leading_space(front) == 0);
        assert(front =~= s@.subrange(start as int, to as int));
    }
    let mut end: usize = to;
    assert(front.take(to - start) =~= front);
    while end > start && char_is_space(s[end - 1])
        invariant
            start <= end <= to <= s@.len(),
            front == s@.subrange(start as int, to as int),
            trailing_space(front) == (to - end) + trailing_space(front.take(end - start)),
        decreases end - start,
    {
        let ghost head = front.take(end - start);
        assert(head.last() == s@[end - 1]);
        assert(head.drop_last() =~= front.take(end - start - 1));
        end -= 1;
    }
    proof {
        let head = front.take(end - start);
        if end > start {
            assert(head.last() == s@[end - 1]);
        }
        assert(trailing_space(head) == 0);
        assert(front.take(front.len() - trailing_space(front)) =~= s@.subrange(
            start as int,
            end as int,
        ));
    }
    (start, end)
}

} // verus!
