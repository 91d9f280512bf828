//! Page selections such as `1-3,34`.
//!
//! A selection is a list of tokens separated by commas. A token is a page
//! number or a range `first-last`; pages count from one and a range
//! includes both its ends. White space around tokens and around the numbers
//! of a range is ignored, and so are empty tokens. The selection is the set
//! of the pages named, counted from zero.

use crate::error::PagesError;
use crate::text::{
    all_space, find_char, is_space, leading_space, lemma_position, lemma_trimmed_ends, position,
    to_chars, trim_range, trimmed,
};
use vstd::prelude::*;

verus! {

/// Whether `c` is a decimal digit.
pub open spec fn is_digit(c: char) -> bool {
    '0' as u32 <= c as u32 <= '9' as u32
}

/// The value of the digit `c`.
pub open spec fn digit_value(c: char) -> nat {
    if is_digit(c) {
        (c as u32 - '0' as u32) as nat
    } else {
        0
    }
}

/// Every character of `s` is a decimal digit.
pub open spec fn all_digits(s: Seq<char>) -> bool {
    forall|i: int| 0 <= i < s.len() ==> is_digit(#[trigger] s[i])
}

/// The number that the digits `s` write in decimal.
pub open spec fn digits_value(s: Seq<char>) -> nat
    decreases s.len(),
{
    if s.len() == 0 {
        0
    } else {
        10 * digits_value(s.drop_last()) + digit_value(s.last())
    }
}

/// `s` without one leading `+`, if it has one.
pub open spec fn without_plus(s: Seq<char>) -> Seq<char> {
    if s.len() > 0 && s[0] == '+' {
        s.skip(1)
    } else {
        s
    }
}

/// The page number that `s` writes: digits, at least one, after an optional
/// `+`, with a value that fits 16 bits.
pub open spec fn parsed_number(s: Seq<char>) -> Option<u16> {
    let digits = without_plus(s);
    if digits.len() > 0 && all_digits(digits) && digits_value(digits) <= u16::MAX {
        Some(digits_value(digits) as u16)
    } else {
        None
    }
}

/// The pages that a token names, as the first and the last of them counted
/// from zero. The token has no white space around it and is not empty.
pub open spec fn parsed_token(t: Seq<char>) -> Result<(u16, u16), PagesError> {
    let dash = position(t, '-');
    if dash < t.len() {
        match (
            parsed_number(trimmed(t.take(dash as int))),
            parsed_number(trimmed(t.skip(dash as int + 1))),
        ) {
            (Some(first), Some(last)) => if first < 1 || last <= first {
                Err(PagesError::InvalidRange)
            } else {
                Ok(((first - 1) as u16, (last - 1) as u16))
            },
            _ => Err(PagesError::InvalidNumber),
        }
    } else {
        match parsed_number(t) {
            Some(page) => if page < 1 {
                Err(PagesError::ZeroIndex)
            } else {
                Ok(((page - 1) as u16, (page - 1) as u16))
            },
            None => Err(PagesError::InvalidNumber),
        }
    }
}

/// The pages from `first` to `last`, both included.
pub open spec fn page_range(first: u16, last: u16) -> Set<u16> {
    Set::new(|page: u16| first <= page <= last)
}

/// The pages that the text between two commas names: none where it is
/// blank.
pub open spec fn token_pages(text: Seq<char>) -> Result<Set<u16>, PagesError> {
    let token = trimmed(text);
    if token.len() == 0 {
        Ok(Set::empty())
    } else {
        match parsed_token(token) {
            Ok((first, last)) => Ok(page_range(first, last)),
            Err(e) => Err(e),
        }
    }
}

/// `pages` together with what else is selected, or the error that stops
/// the reading.
pub open spec fn with_pages(pages: Set<u16>, more: Result<Set<u16>, PagesError>) -> Result<
    Set<u16>,
    PagesError,
> {
    match more {
        Ok(others) => Ok(pages.union(others)),
        Err(e) => Err(e),
    }
}

/// The set of pages that a selection names, counted from zero, or the error
/// of its first token that cannot be read.
pub open spec fn selection(s: Seq<char>) -> Result<Set<u16>, PagesError>
    decreases s.len(),
{
    let comma = position(s, ',');
    match token_pages(s.take(comma as int)) {
        Ok(pages) => if comma < s.len() {
            with_pages(pages, selection(s.skip(comma as int + 1)))
        } else {
            Ok(pages)
        },
        Err(e) => Err(e),
    }
}

/// Each element is less than the next.
pub open spec fn strictly_increasing(v: Seq<u16>) -> bool {
    forall|i: int, j: int| 0 <= i < j < v.len() ==> v[i] < v[j]
}

/// Pages count from one and their numbers fit 16 bits, so counted from
/// zero no selected page is the last that 16 bits can express.
pub proof fn lemma_selection_below_limit(s: Seq<char>)
    ensures
        selection(s) matches Ok(pages) ==> !pages.contains(u16::MAX),
    decreases s.len(),
{
    let comma = position(s, ',');
    lemma_position(s, ',');
    if comma < s.len() {
        lemma_selection_below_limit(s.skip(comma as int + 1));
    }
}

/// The text holds nothing but white space and commas.
pub open spec fn is_blank(s: Seq<char>) -> bool {
    forall|i: int| 0 <= i < s.len() ==> is_space(#[trigger] s[i]) || s[i] == ','
}

/// A selection that is empty or holds only white space and commas names no
/// page.
pub proof fn lemma_blank_selection(s: Seq<char>)
    requires
        is_blank(s),
    ensures
        selection(s) == Ok::<Set<u16>, PagesError>(Set::empty()),
    decreases s.len(),
{
    lemma_position(s, ',');
    let comma = position(s, ',');
    let head = s.take(comma as int);
    assert(all_space(head)) by {
        assert forall|i: int| 0 <= i < head.len() implies is_space(#[trigger] head[i]) by {
            assert(head[i] == s[i]);
        }
    }
    lemma_trimmed_ends(head);
    if trimmed(head).len() > 0 {
        assert(trimmed(head).first() == head[leading_space(head) as int]);
    }
    assert(token_pages(head) == Ok::<Set<u16>, PagesError>(Set::empty()));
    if comma < s.len() {
        let rest = s.skip(comma as int + 1);
        assert forall|i: int| 0 <= i < rest.len() implies is_space(#[trigger] rest[i]) || rest[i]
            == ',' by {
            assert(rest[i] == s[comma + 1 + i]);
        }
        lemma_blank_selection(rest);
        assert(Set::<u16>::empty().union(Set::empty()) =~= Set::<u16>::empty());
    }
}

/// A longer run of digits writes no smaller a number.
proof fn lemma_digits_value_grows(s: Seq<char>, k: int)
    requires
        0 <= k <= s.len(),
    ensures
        digits_value(s.take(k)) <= digits_value(s),
    decreases s.len() - k,
{
    if k < s.len() {
        lemma_digits_value_grows(s, k + 1);
        assert(s.take(k + 1).drop_last() =~= s.take(k));
    } else {
        assert(s.take(k) =~= s);
    }
}

/// The page number written in `s[from..to]`.
fn parse_number(s: &[char], from: usize, to: usize) -> (r: Option<u16>)
    requires
        from <= to <= s@.len(),
    ensures
        r == parsed_number(s@.subrange(from as int, to as int)),
{
    let ghost text = s@.subrange(from as int, to as int);
    let start: usize = if from < to && s[from] == '+' {
        from + 1
    } else {
        from
    };
    let ghost digits = without_plus(text);
    assert(digits =~= s@.subrange(start as int, to as int));
    if start == to {
        return None;
    }
    let mut value: u32 = 0;
    let mut i: usize = start;
    while i < to
        invariant
            start <= i <= to <= s@.len(),
            digits == s@.subrange(start as int, to as int),
            digits == without_plus(s@.subrange(from as int, to as int)),
            all_digits(digits.take(i - start)),
            value == digits_value(digits.take(i - start)),
            value <= u16::MAX,
        decreases to - i,
    {
        let c: char = s[i];
        let v: u32 = c as u32;
        assert(digits[i - start] == c);
        if v < '0' as u32 || v > '9' as u32 {
            return None;
        }
        proof {
            let before = digits.take(i - start);
            let after = digits.take(i - start + 1);
            assert(after.drop_last() =~= before);
            assert(after.last() == c);
            assert forall|j: int| 0 <= j < after.len() implies is_digit(#[trigger] after[j]) by {
                if j < before.len() {
                    assert(after[j] == before[j]);
                }
            }
        }
        value = value * 10 + (v - '0' as u32);
        if value > u16::MAX as u32 {
            proof {
                lemma_digits_value_grows(digits, i - start + 1);
            }
            return None;
        }
        i += 1;
    }
    assert(digits.take(to - start) =~= digits);
    Some(value as u16)
}

/// The pages named by the token `s[from..to]`, which is trimmed and not
/// empty.
fn parse_token(s: &[char], from: usize, to: usize) -> (r: Result<(u16, u16), PagesError>)
    requires
        from < to <= s@.len(),
    ensures
        r == parsed_token(s@.subrange(from as int, to as int)),
{
    let ghost t = s@.subrange(from as int, to as int);
    let dash: usize = find_char(s, from, to, '-');
    if dash < to {
        let left = trim_range(s, from, dash);
        let right = trim_range(s, dash + 1, to);
        assert(t.take(dash - from) =~= s@.subrange(from as int, dash as int));
        assert(t.skip(dash - from + 1) =~= s@.subrange(dash + 1, to as int));
        match (parse_number(s, left.0, left.1), parse_number(s, right.0, right.1)) {
            (Some(first), Some(last)) => if first < 1 || last <= first {
                Err(PagesError::InvalidRange)
            } else {
                Ok((first - 1, last - 1))
            },
            _ => Err(PagesError::InvalidNumber),
        }
    } else {
        match parse_number(s, from, to) {
            Some(page) => if page < 1 {
                Err(PagesError::ZeroIndex)
            } else {
                Ok((page - 1, page - 1))
            },
            None => Err(PagesError::InvalidNumber),
        }
    }
}

/// The pages named by the text `s[from..to]` between two commas.
fn parse_part(s: &[char], from: usize, to: usize) -> (r: Result<Option<(u16, u16)>, PagesError>)
    requires
        from <= to <= s@.len(),
    ensures
        match r {
            Ok(Some(range)) => token_pages(s@.subrange(from as int, to as int)) == Ok::<
                Set<u16>,
                PagesError,
            >(page_range(range.0, range.1)) && range.0 <= range.1,
            Ok(None) => token_pages(s@.subrange(from as int, to as int)) == Ok::<
                Set<u16>,
                PagesError,
            >(Set::empty()),
            Err(e) => token_pages(s@.subrange(from as int, to as int)) == Err::<
                Set<u16>,
                PagesError,
            >(e),
        },
{
    let token = trim_range(s, from, to);
    if token.0 == token.1 {
        return Ok(None);
    }
    match parse_token(s, token.0, token.1) {
        Ok(range) => Ok(Some(range)),
        Err(e) => Err(e),
    }
}

/// A table with one entry for each page number, none of them marked.
fn blank_table() -> (seen: Vec<bool>)
    ensures
        seen@.len() == 0x1_0000,
        forall|i: int| 0 <= i < 0x1_0000 ==> !seen@[i],
{
    let mut seen: Vec<bool> = Vec::with_capacity(0x1_0000);
    let mut i: usize = 0;
    while i < 0x1_0000
        invariant
            i <= 0x1_0000,
            seen@.len() == i,
            forall|j: int| 0 <= j < i ==> !seen@[j],
        decreases 0x1_0000 - i,
    {
        seen.push(false);
        i += 1;
    }
    seen
}

/// Marks the pages from `first` to `last` in the table.
fn mark_range(seen: &mut Vec<bool>, first: u16, last: u16)
    requires
        old(seen)@.len() == 0x1_0000,
        first <= last,
    ensures
        final(seen)@.len() == 0x1_0000,
        forall|i: int|
            0 <= i < 0x1_0000 ==> (final(seen)@[i] <==> old(seen)@[i] || first <= i <= last),
{
    let mut page: usize = first as usize;
    while page <= last as usize
        invariant
            first <= page <= last + 1,
            seen@.len() == 0x1_0000,
            forall|i: int|
                0 <= i < 0x1_0000 ==> (seen@[i] <==> old(seen)@[i] || first <= i < page),
        decreases last + 1 - page,
    {
        seen.set(page, true);
        page += 1;
    }
}

/// The marked pages in ascending order.
fn marked_pages(seen: &Vec<bool>) -> (pages: Vec<u16>)
    requires
        seen@.len() == 0x1_0000,
    ensures
        strictly_increasing(pages@),
        forall|page: u16| pages@.contains(page) <==> seen@[page as int],
{
    let mut pages: Vec<u16> = Vec::new();
    let mut next: usize = 0;
    while next < 0x1_0000
        invariant
            next <= 0x1_0000,
            seen@.len() == 0x1_0000,
            strictly_increasing(pages@),
            forall|i: int| 0 <= i < pages@.len() ==> pages@[i] < next,
            forall|page: u16| pages@.contains(page) <==> (page < next && seen@[page as int]),
        decreases 0x1_0000 - next,
    {
        if seen[next] {
            let ghost before = pages@;
            pages.push(next as u16);
            proof {
                assert forall|page: u16| pages@.contains(page) <==> (page < next + 1
                    && seen@[page as int]) by {
                    if pages@.contains(page) {
                        let i = choose|i: int| 0 <= i < pages@.len() && pages@[i] == page;
                        if i < before.len() {
                            assert(before[i] == page);
                            assert(before.contains(page));
                        }
                    }
                    if page < next + 1 && seen@[page as int] {
                        if page < next {
                            assert(before.contains(page));
                            let i = choose|i: int| 0 <= i < before.len() && before[i] == page;
                            assert(pages@[i] == page);
                        } else {
                            assert(pages@[before.len() as int] == page);
                        }
                    }
                }
            }
        }
        next += 1;
    }
    pages
}

/// Reads a page selection. An empty or blank selection selects nothing in
/// particular: `None`. Otherwise the pages come counted from zero, in
/// ascending order, each once.
pub fn parse_pages(pages: &str) -> (r: Result<Option<Vec<u16>>, PagesError>)
    ensures
        match r {
            Ok(Some(list)) => {
                &&& selection(pages@) == Ok::<Set<u16>, PagesError>(list@.to_set())
                &&& list@.len() > 0
                &&& strictly_increasing(list@)
            },
            Ok(None) => selection(pages@) == Ok::<Set<u16>, PagesError>(Set::empty()),
            Err(e) => selection(pages@) == Err::<Set<u16>, PagesError>(e),
        },
{
    let chars = to_chars(pages);
    let s: &[char] = chars.as_slice();
    let len: usize = s.len();
    let mut seen = blank_table();
    let ghost mut acc: Set<u16> = Set::empty();
    let mut start: usize = 0;
    let mut done: bool = false;
    assert(s@.skip(0) =~= s@);
    assert(with_pages(acc, selection(s@)) == selection(s@)) by {
        match selection(s@) {
            Ok(others) => {
                assert(acc.union(others) =~= others);
            },
            Err(_) => {},
        }
    }
    while !done
        invariant
            s@ == pages@,
            len == s@.len(),
            seen@.len() == 0x1_0000,
            forall|page: u16| acc.contains(page) <==> seen@[page as int],
            !done ==> start <= len && selection(s@) == with_pages(
                acc,
                selection(s@.skip(start as int)),
            ),
            done ==> selection(s@) == Ok::<Set<u16>, PagesError>(acc),
        decreases len - start + (if done { 0int } else { 1int }),
    {
        let ghost rest = s@.skip(start as int);
        assert(rest =~= s@.subrange(start as int, len as int));
        let comma: usize = find_char(s, start, len, ',');
        assert(rest.take(comma - start) =~= s@.subrange(start as int, comma as int));
        let ghost before = acc;
        let ghost mut named: Set<u16> = Set::empty();
        match parse_part(s, start, comma) {
            Ok(Some(range)) => {
                mark_range(&mut seen, range.0, range.1);
                proof {
                    named = page_range(range.0, range.1);
                }
            },
            Ok(None) => {},
            Err(e) => {
                return Err(e);
            },
        }
        proof {
            acc = before.union(named);
            lemma_position(rest, ',');
            assert(token_pages(rest.take(comma - start)) == Ok::<Set<u16>, PagesError>(named));
        }
        if comma < len {
            proof {
                assert(rest.skip(comma - start + 1) =~= s@.skip(comma + 1));
                match selection(s@.skip(comma + 1)) {
                    Ok(others) => {
                        assert(before.union(named.union(others)) =~= acc.union(others));
                    },
                    Err(_) => {},
                }
            }
            start = comma + 1;
        } else {
            done = true;
        }
    }
    let list = marked_pages(&seen);
    proof {
        assert(list@.to_set() =~= acc);
    }
    if list.len() == 0 {
        proof {
            assert(acc =~= Set::empty()) by {
                assert forall|page: u16| !acc.contains(page) by {
                    if acc.contains(page) {
                        assert(list@.contains(page));
                    }
                }
            }
        }
        Ok(None)
    } else {
        Ok(Some(list))
    }
}

} // verus!
