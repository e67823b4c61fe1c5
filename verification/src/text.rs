//! Text as sequences of characters: trimming, ASCII case, searching and decimal numbers.
use vstd::prelude::*;

verus! {

/// Appends one character, as `String::push` documents.
pub assume_specification[ String::push ](text: &mut String, c: char)
    ensures
        final(text)@ == old(text)@.push(c),
;

/// The characters with Unicode's `White_Space` property.
pub open spec fn is_white_space(c: char) -> bool {
    ||| '\u{9}' <= c <= '\u{d}'
    ||| c == '\u{20}'
    ||| c == '\u{85}'
    ||| c == '\u{a0}'
    ||| c == '\u{1680}'
    ||| '\u{2000}' <= c <= '\u{200a}'
    ||| c == '\u{2028}'
    ||| c == '\u{2029}'
    ||| c == '\u{202f}'
    ||| c == '\u{205f}'
    ||| c == '\u{3000}'
}

/// `s` without the white space it starts with.
pub open spec fn trim_start(s: Seq<char>) -> Seq<char>
    decreases s.len(),
{
    if s.len() > 0 && is_white_space(s[0]) {
        trim_start(s.drop_first())
    } else {
        s
    }
}

/// `s` without the white space it ends with.
pub open spec fn trim_end(s: Seq<char>) -> Seq<char>
    decreases s.len(),
{
    if s.len() > 0 && is_white_space(s.last()) {
        trim_end(s.drop_last())
    } else {
        s
    }
}

/// `s` without white space at either end.
pub open spec fn trim(s: Seq<char>) -> Seq<char> {
    trim_end(trim_start(s))
}

/// An ASCII capital as its small letter, any other character as it is.
pub open spec fn lower_char(c: char) -> char {
    if 'A' <= c <= 'Z' {
        ((c as u8) + 32) as char
    } else {
        c
    }
}

/// `s` with every ASCII capital made small.
pub open spec fn lower(s: Seq<char>) -> Seq<char> {
    s.map_values(|c: char| lower_char(c))
}

/// Whether `c` has the `White_Space` property.
pub fn white_space(c: char) -> (r: bool)
    ensures
        r == is_white_space(c),
{
    ('\u{9}' <= c && c <= '\u{d}') || c == '\u{20}' || c == '\u{85}' || c == '\u{a0}' || c
        == '\u{1680}' || ('\u{2000}' <= c && c <= '\u{200a}') || c == '\u{2028}' || c == '\u{2029}'
        || c == '\u{202f}' || c == '\u{205f}' || c == '\u{3000}'
}

/// The characters of `text`, in order.
pub fn chars_of(text: &str) -> (r: Vec<char>)
    ensures
        r@ == text@,
{
    let mut out: Vec<char> = Vec::new();
    for c in it: text.chars()
        invariant
            out@ == it.seq().take(it.index() as int),
            it.seq() == text@,
    {
        out.push(c);
    }
    out
}

/// The text made of the characters `chars[from..to]`.
pub fn text_of(chars: &Vec<char>, from: usize, to: usize) -> (r: String)
    requires
        from <= to <= chars@.len(),
    ensures
        r@ == chars@.subrange(from as int, to as int),
{
    let mut out = String::new();
    let mut i: usize = from;
    while i < to
        invariant
            from <= i <= to <= chars@.len(),
            out@ == chars@.subrange(from as int, i as int),
        decreases to - i,
    {
        out.push(chars[i]);
        i = i + 1;
        proof {
            assert(chars@.subrange(from as int, i as int) =~= chars@.subrange(
                from as int,
                i - 1,
            ).push(chars@[i - 1]));
        }
    }
    out
}

proof fn lemma_trim_bounds(s: Seq<char>, from: int, to: int)
    requires
        0 <= from <= to <= s.len(),
        forall|i: int| 0 <= i < from ==> is_white_space(#[trigger] s[i]),
        forall|i: int| to <= i < s.len() ==> is_white_space(#[trigger] s[i]),
        from == to || (!is_white_space(s[from]) && !is_white_space(s[to - 1])),
        from == to ==> to == s.len(),
    ensures
        trim(s) == s.subrange(from, to),
{
    lemma_trim_start_at(s, from);
    lemma_trim_end_at(s.subrange(from, s.len() as int), to - from);
    assert(s.subrange(from, s.len() as int).subrange(0, to - from) =~= s.subrange(from, to));
}

proof fn lemma_trim_start_at(s: Seq<char>, from: int)
    requires
        0 <= from <= s.len(),
        forall|i: int| 0 <= i < from ==> is_white_space(#[trigger] s[i]),
        from < s.len() ==> !is_white_space(s[from]),
    ensures
        trim_start(s) == s.subrange(from, s.len() as int),
    decreases from,
{
    if from > 0 {
        assert(is_white_space(s[0]));
        let rest = s.drop_first();
        assert forall|i: int| 0 <= i < from - 1 implies is_white_space(#[trigger] rest[i]) by {
            assert(rest[i] == s[i + 1]);
        }
        lemma_trim_start_at(rest, from - 1);
        assert(rest.subrange(from - 1, rest.len() as int) =~= s.subrange(from, s.len() as int));
    } else {
        assert(s.subrange(0, s.len() as int) =~= s);
    }
}

proof fn lemma_trim_end_at(s: Seq<char>, to: int)
    requires
        0 <= to <= s.len(),
        forall|i: int| to <= i < s.len() ==> is_white_space(#[trigger] s[i]),
        to > 0 ==> !is_white_space(s[to - 1]),
    ensures
        trim_end(s) == s.subrange(0, to),
    decreases s.len() - to,
{
    if to < s.len() {
        assert(is_white_space(s[s.len() - 1]));
        lemma_trim_end_at(s.drop_last(), to);
        assert(s.drop_last().subrange(0, to) =~= s.subrange(0, to));
    } else {
        assert(s.subrange(0, to) =~= s);
    }
}

/// `text` without white space at either end.
pub fn trimmed(text: &str) -> (r: String)
    ensures
        r@ == trim(text@),
{
    let chars = chars_of(text);
    let mut from: usize = 0;
    while from < chars.len() && white_space(chars[from])
        invariant
            from <= chars@.len(),
            forall|i: int| 0 <= i < from ==> is_white_space(#[trigger] chars@[i]),
        decreases chars@.len() - from,
    {
        from = from + 1;
    }
    let mut to: usize = chars.len();
    while to > from && white_space(chars[to - 1])
        invariant
            from <= to <= chars@.len(),
            from == chars@.len() || !is_white_space(chars@[from as int]),
            forall|i: int| to <= i < chars@.len() ==> is_white_space(#[trigger] chars@[i]),
        decreases to,
    {
        to = to - 1;
    }
    proof {
        if from == to && to < chars@.len() {
            assert(is_white_space(chars@[to as int]));
        }
        lemma_trim_bounds(chars@, from as int, to as int);
    }
    text_of(&chars, from, to)
}

/// `text` with every ASCII capital made small.
pub fn lowered(text: &str) -> (r: String)
    ensures
        r@ == lower(text@),
{
    let chars = chars_of(text);
    let mut out = String::new();
    let mut i: usize = 0;
    while i < chars.len()
        invariant
            i <= chars@.len(),
            out@ == lower(chars@.take(i as int)),
        decreases chars@.len() - i,
    {
        let c = chars[i];
        let d = if 'A' <= c && c <= 'Z' {
            ((c as u8) + 32) as char
        } else {
            c
        };
        out.push(d);
        i = i + 1;
        proof {
            assert(chars@.take(i as int) =~= chars@.take(i - 1).push(c));
            assert(lower(chars@.take(i as int)) =~= lower(chars@.take(i - 1)).push(lower_char(c)));
        }
    }
    proof {
        assert(chars@.take(i as int) =~= chars@);
    }
    out
}

/// Whether two texts have the same characters.
pub fn same_text(left: &str, right: &str) -> (r: bool)
    ensures
        r == (left@ == right@),
{
    same_chars(&chars_of(left), &chars_of(right))
}

/// Whether two character lists are equal.
pub fn same_chars(a: &Vec<char>, b: &Vec<char>) -> (r: bool)
    ensures
        r == (a@ == b@),
{
    if a.len() != b.len() {
        return false;
    }
    let mut i: usize = 0;
    while i < a.len()
        invariant
            i <= a@.len(),
            a@.len() == b@.len(),
            forall|j: int| 0 <= j < i ==> a@[j] == b@[j],
        decreases a@.len() - i,
    {
        if a[i] != b[i] {
            return false;
        }
        i = i + 1;
    }
    proof {
        assert(a@ =~= b@);
    }
    true
}

/// What is trimmed has no white space at either end, is the middle of the text, and only white
/// space was cut off.
pub proof fn law_trim_cuts_white_space_alone(s: Seq<char>)
    ensures
        trim(s).len() > 0 ==> !is_white_space(trim(s)[0]) && !is_white_space(trim(s).last()),
        exists|from: int|
            #![trigger s.subrange(from, from + trim(s).len())]
            {
                &&& 0 <= from
                &&& from + trim(s).len() <= s.len()
                &&& trim(s) == s.subrange(from, from + trim(s).len())
                &&& forall|i: int|
                    0 <= i < s.len() && !(from <= i < from + trim(s).len()) ==> is_white_space(
                        #[trigger] s[i],
                    )
            },
{
    let (from, to) = lemma_trim_ends(s);
    lemma_trim_bounds(s, from, to);
    assert(s.subrange(from, from + trim(s).len()) =~= s.subrange(from, to));
    assert forall|i: int|
        0 <= i < s.len() && !(from <= i < from + trim(s).len()) implies is_white_space(
        #[trigger] s[i],
    ) by {}
}

proof fn lemma_trim_ends(s: Seq<char>) -> (ends: (int, int))
    ensures
        0 <= ends.0 <= ends.1 <= s.len(),
        forall|i: int| 0 <= i < ends.0 ==> is_white_space(#[trigger] s[i]),
        forall|i: int| ends.1 <= i < s.len() ==> is_white_space(#[trigger] s[i]),
        ends.0 == ends.1 || (!is_white_space(s[ends.0]) && !is_white_space(s[ends.1 - 1])),
        ends.0 == ends.1 ==> ends.1 == s.len(),
    decreases s.len(),
{
    if s.len() == 0 {
        (0, 0)
    } else {
        let front = s.drop_last();
        let (from, to) = lemma_trim_ends(front);
        assert forall|i: int| 0 <= i < front.len() implies s[i] == #[trigger] front[i] by {}
        assert forall|i: int| 0 <= i < from implies is_white_space(#[trigger] s[i]) by {
            assert(is_white_space(front[i]));
        }
        if !is_white_space(s.last()) {
            if from == to {
                (s.len() - 1, s.len() as int)
            } else {
                (from, s.len() as int)
            }
        } else if from == to {
            (s.len() as int, s.len() as int)
        } else {
            assert forall|i: int| to <= i < s.len() implies is_white_space(#[trigger] s[i]) by {
                if i < front.len() {
                    assert(is_white_space(front[i]));
                }
            }
            (from, to)
        }
    }
}

/// Text that neither starts nor ends with white space is left alone.
pub proof fn lemma_trim_keeps(s: Seq<char>)
    requires
        s.len() > 0 ==> !is_white_space(s[0]) && !is_white_space(s.last()),
    ensures
        trim(s) == s,
{
    lemma_trim_bounds(s, 0, s.len() as int);
    assert(s.subrange(0, s.len() as int) =~= s);
}

/// Trimming again changes nothing.
pub proof fn law_trim_twice(s: Seq<char>)
    ensures
        trim(trim(s)) == trim(s),
{
    law_trim_cuts_white_space_alone(s);
    lemma_trim_keeps(trim(s));
}

/// Lowering again changes nothing, and lowering commutes with trimming.
pub proof fn law_lower(s: Seq<char>)
    ensures
        lower(lower(s)) == lower(s),
        lower(s).len() == s.len(),
        trim(lower(s)) == lower(trim(s)),
{
    assert(lower(lower(s)) =~= lower(s));
    let (from, to) = lemma_trim_ends(s);
    lemma_trim_bounds(s, from, to);
    let t = lower(s);
    assert forall|i: int| 0 <= i < s.len() implies is_white_space(#[trigger] t[i])
        == is_white_space(s[i]) by {
        assert(t[i] == lower_char(s[i]));
    }
    lemma_trim_bounds(t, from, to);
    assert(t.subrange(from, to) =~= lower(s.subrange(from, to)));
}

/// Whether `needle` stands in `hay` at position `at`.
pub open spec fn stands_at(hay: Seq<char>, needle: Seq<char>, at: int) -> bool {
    0 <= at && at + needle.len() <= hay.len() && hay.subrange(at, at + needle.len()) == needle
}

/// Whether `needle` occurs in `hay`.
pub open spec fn contains_text(hay: Seq<char>, needle: Seq<char>) -> bool {
    exists|at: int| stands_at(hay, needle, at)
}

/// The first position of `needle` in `hay`, not before `from`.
pub open spec fn find_from(hay: Seq<char>, needle: Seq<char>, from: int) -> Option<int>
    decreases hay.len() + 1 - from,
{
    if from < 0 || from + needle.len() > hay.len() {
        None
    } else if stands_at(hay, needle, from) {
        Some(from)
    } else {
        find_from(hay, needle, from + 1)
    }
}

/// What stands before and after the first `separator` in `s`.
pub open spec fn split_once(s: Seq<char>, separator: Seq<char>) -> Option<(Seq<char>, Seq<char>)> {
    match find_from(s, separator, 0) {
        Some(at) => Some((s.take(at), s.skip(at + separator.len()))),
        None => None,
    }
}

/// A search from the start finds the first occurrence, and fails only where there is none.
pub proof fn lemma_find_from(hay: Seq<char>, needle: Seq<char>, from: int)
    requires
        0 <= from,
    ensures
        match find_from(hay, needle, from) {
            Some(at) => from <= at && stands_at(hay, needle, at) && forall|j: int|
                from <= j < at ==> !stands_at(hay, needle, j),
            None => forall|j: int| from <= j ==> !stands_at(hay, needle, j),
        },
    decreases hay.len() + 1 - from,
{
    if from + needle.len() <= hay.len() && !stands_at(hay, needle, from) {
        lemma_find_from(hay, needle, from + 1);
    }
}

/// The first position of `needle` in `hay`.
pub fn find(hay: &Vec<char>, needle: &Vec<char>) -> (r: Option<usize>)
    ensures
        r matches Some(at) ==> find_from(hay@, needle@, 0) == Some(at as int) && at + needle@.len()
            <= hay@.len(),
        r is None ==> find_from(hay@, needle@, 0) is None,
{
    let mut at: usize = 0;
    while at < hay.len() && needle.len() <= hay.len() - at
        invariant
            at <= hay@.len(),
            find_from(hay@, needle@, 0) == find_from(hay@, needle@, at as int),
        decreases hay@.len() - at,
    {
        if chars_stand_at(hay, needle, at) {
            return Some(at);
        }
        at = at + 1;
    }
    if at == hay.len() && needle.len() == 0 {
        proof {
            assert(hay@.subrange(at as int, at as int) =~= needle@);
        }
        return Some(at);
    }
    None
}

fn chars_stand_at(hay: &Vec<char>, needle: &Vec<char>, at: usize) -> (r: bool)
    requires
        at + needle@.len() <= hay@.len(),
    ensures
        r == stands_at(hay@, needle@, at as int),
{
    let total: usize = hay.len();
    let mut i: usize = 0;
    while i < needle.len()
        invariant
            i <= needle@.len(),
            at + needle@.len() <= hay@.len(),
            total == hay@.len(),
            forall|j: int| 0 <= j < i ==> needle@[j] == hay@[at + j],
        decreases needle@.len() - i,
    {
        if hay[at + i] != needle[i] {
            proof {
                assert(hay@.subrange(at as int, at + needle@.len())[i as int] != needle@[i as int]);
            }
            return false;
        }
        i = i + 1;
    }
    proof {
        assert(hay@.subrange(at as int, at + needle@.len()) =~= needle@);
    }
    true
}

/// Whether `text` starts with `prefix`.
pub fn starts_with(text: &str, prefix: &str) -> (r: bool)
    ensures
        r == stands_at(text@, prefix@, 0),
{
    let chars = chars_of(text);
    let start = chars_of(prefix);
    if start.len() > chars.len() {
        return false;
    }
    chars_stand_at(&chars, &start, 0)
}

/// Whether `needle` occurs in `hay`.
pub fn has_text(hay: &str, needle: &str) -> (r: bool)
    ensures
        r == contains_text(hay@, needle@),
{
    let found = find(&chars_of(hay), &chars_of(needle));
    proof {
        lemma_find_from(hay@, needle@, 0);
    }
    found.is_some()
}

/// What stands before and after the first `separator` in `text`.
pub fn split_text(text: &str, separator: &str) -> (r: Option<(String, String)>)
    ensures
        r is Some == split_once(text@, separator@) is Some,
        r matches Some(parts) ==> split_once(text@, separator@) == Some((parts.0@, parts.1@)),
{
    let chars = chars_of(text);
    let needle = chars_of(separator);
    match find(&chars, &needle) {
        Some(at) => {
            let total: usize = chars.len();
            let before = text_of(&chars, 0, at);
            let after = text_of(&chars, at + needle.len(), total);
            proof {
                assert(before@ =~= text@.take(at as int));
                assert(after@ =~= text@.skip(at + separator@.len()));
            }
            Some((before, after))
        },
        None => None,
    }
}

/// Whether `c` is one of `0` to `9`.
pub open spec fn is_digit(c: char) -> bool {
    '0' <= c <= '9'
}

/// Whether `s` holds digits alone.
pub open spec fn all_digits(s: Seq<char>) -> bool {
    forall|i: int| 0 <= i < s.len() ==> is_digit(#[trigger] s[i])
}

/// The number that digits write in base ten.
pub open spec fn digits_value(s: Seq<char>) -> int
    decreases s.len(),
{
    if s.len() == 0 {
        0
    } else {
        digits_value(s.drop_last()) * 10 + (s.last() as int - '0' as int)
    }
}

/// The number that `s` writes as one or more digits.
pub open spec fn natural(s: Seq<char>) -> Option<int> {
    if s.len() > 0 && all_digits(s) {
        Some(digits_value(s))
    } else {
        None
    }
}

/// The number that `s` writes as digits after at most one sign.
pub open spec fn integer(s: Seq<char>) -> Option<int> {
    if s.len() > 0 && s[0] == '-' {
        match natural(s.drop_first()) {
            Some(n) => Some(-n),
            None => None,
        }
    } else {
        signless(s)
    }
}

/// The number that `s` writes as digits after at most one plus sign.
pub open spec fn signless(s: Seq<char>) -> Option<int> {
    if s.len() > 0 && s[0] == '+' {
        natural(s.drop_first())
    } else {
        natural(s)
    }
}

/// The `i64` that `s` writes; none where it writes no number or one out of range.
pub open spec fn i64_of(s: Seq<char>) -> Option<i64> {
    match integer(s) {
        Some(n) => if i64::MIN <= n <= i64::MAX {
            Some(n as i64)
        } else {
            None
        },
        None => None,
    }
}

/// The `usize` that `s` writes; none where it writes no number or one out of range.
pub open spec fn usize_of(s: Seq<char>) -> Option<usize> {
    match signless(s) {
        Some(n) => if n <= usize::MAX {
            Some(n as usize)
        } else {
            None
        },
        None => None,
    }
}

/// The number written by `chars[from..]` as one or more digits, where it fits.
fn natural_at(chars: &Vec<char>, from: usize) -> (r: Option<u64>)
    requires
        from <= chars@.len(),
    ensures
        r matches Some(n) ==> natural(chars@.skip(from as int)) == Some(n as int),
        r is None ==> match natural(chars@.skip(from as int)) {
            Some(n) => n > u64::MAX,
            None => true,
        },
{
    let ghost s = chars@.skip(from as int);
    if from == chars.len() {
        return None;
    }
    let mut i: usize = from;
    let mut value: u64 = 0;
    let mut fits: bool = true;
    while i < chars.len()
        invariant
            from <= i <= chars@.len(),
            s == chars@.skip(from as int),
            forall|j: int| 0 <= j < i - from ==> is_digit(#[trigger] s[j]),
            fits ==> value == digits_value(s.take(i - from)),
            !fits ==> digits_value(s.take(i - from)) > u64::MAX,
        decreases chars@.len() - i,
    {
        let c = chars[i];
        proof {
            assert(s[i - from] == c);
            assert(s.take(i - from + 1).drop_last() =~= s.take(i - from));
            assert(s.take(i - from + 1).last() == c);
        }
        if !('0' <= c && c <= '9') {
            return None;
        }
        let digit: u64 = (c as u64) - ('0' as u64);
        if fits {
            if value <= (u64::MAX - digit) / 10 {
                value = value * 10 + digit;
            } else {
                fits = false;
            }
        }
        i = i + 1;
    }
    proof {
        assert(s.take(i - from) =~= s);
    }
    if fits {
        Some(value)
    } else {
        None
    }
}

/// The `i64` that `text` writes, read as `i64::from_str` documents.
pub fn parse_i64(text: &str) -> (r: Option<i64>)
    ensures
        r == i64_of(text@),
{
    let chars = chars_of(text);
    if chars.len() == 0 {
        return None;
    }
    if chars[0] == '-' {
        proof {
            assert(chars@.skip(1) =~= chars@.drop_first());
        }
        match natural_at(&chars, 1) {
            Some(n) => {
                if n <= 0x7fff_ffff_ffff_ffff {
                    Some(-(n as i64))
                } else if n == 0x8000_0000_0000_0000 {
                    Some(i64::MIN)
                } else {
                    None
                }
            },
            None => None,
        }
    } else {
        match parse_signless(&chars) {
            Some(n) => if n <= 0x7fff_ffff_ffff_ffff {
                Some(n as i64)
            } else {
                None
            },
            None => None,
        }
    }
}

fn parse_signless(chars: &Vec<char>) -> (r: Option<u64>)
    ensures
        r matches Some(n) ==> signless(chars@) == Some(n as int),
        r is None ==> match signless(chars@) {
            Some(n) => n > u64::MAX,
            None => true,
        },
{
    if chars.len() > 0 && chars[0] == '+' {
        proof {
            assert(chars@.skip(1) =~= chars@.drop_first());
        }
        natural_at(chars, 1)
    } else {
        proof {
            assert(chars@.skip(0) =~= chars@);
        }
        natural_at(chars, 0)
    }
}

/// The `usize` that `text` writes, read as `usize::from_str` documents.
pub fn parse_usize(text: &str) -> (r: Option<usize>)
    ensures
        r == usize_of(text@),
{
    match parse_signless(&chars_of(text)) {
        Some(n) => if n <= usize::MAX as u64 {
            Some(n as usize)
        } else {
            None
        },
        None => None,
    }
}

/// The digit that writes `n`, for `n` below ten.
pub open spec fn digit_char(n: int) -> char {
    (('0' as u8) + n) as char
}

/// `n` in base ten, without leading zeros.
pub open spec fn decimal(n: nat) -> Seq<char>
    decreases n,
{
    if n < 10 {
        seq![digit_char(n as int)]
    } else {
        decimal(n / 10).push(digit_char((n % 10) as int))
    }
}

/// `n` in base ten, without leading zeros.
pub fn decimal_text(n: u64) -> (r: String)
    ensures
        r@ == decimal(n as nat),
    decreases n,
{
    if n < 10 {
        let mut out = String::new();
        out.push((48u8 + n as u8) as char);
        proof {
            assert(out@ =~= seq![digit_char(n as int)]);
        }
        out
    } else {
        let mut out = decimal_text(n / 10);
        out.push((48u8 + (n % 10) as u8) as char);
        out
    }
}

/// `n` with a minus sign where it is negative, then its digits.
pub open spec fn signed_decimal(n: int) -> Seq<char> {
    if n < 0 {
        seq!['-'] + decimal((-n) as nat)
    } else {
        decimal(n as nat)
    }
}

/// What is read of a number that was written is that number.
pub proof fn law_decimal_reads_back(n: nat)
    ensures
        natural(decimal(n)) == Some(n as int),
    decreases n,
{
    if n < 10 {
        let s = decimal(n);
        assert(s.drop_last() =~= Seq::<char>::empty());
        assert(digits_value(s.drop_last()) == 0);
        assert(s.last() as int - '0' as int == n);
    } else {
        law_decimal_reads_back(n / 10);
        let s = decimal(n);
        assert(s.drop_last() =~= decimal(n / 10));
        assert(s.last() as int - '0' as int == n % 10);
        assert(all_digits(s)) by {
            assert forall|i: int| 0 <= i < s.len() implies is_digit(#[trigger] s[i]) by {
                if i < s.len() - 1 {
                    assert(s[i] == decimal(n / 10)[i]);
                }
            }
        }
    }
}

/// Whether `a` comes before `b` in a dictionary of characters.
pub open spec fn before(a: Seq<char>, b: Seq<char>) -> bool
    decreases a.len(),
{
    if b.len() == 0 {
        false
    } else if a.len() == 0 {
        true
    } else if a[0] == b[0] {
        before(a.drop_first(), b.drop_first())
    } else {
        a[0] < b[0]
    }
}

/// The order of texts is strict and total: of two texts exactly one of "before", "equal" and
/// "after" holds, and the order is transitive.
pub proof fn law_text_order(a: Seq<char>, b: Seq<char>, c: Seq<char>)
    ensures
        !before(a, a),
        before(a, b) ==> !before(b, a),
        a != b ==> before(a, b) || before(b, a),
        before(a, b) && before(b, c) ==> before(a, c),
    decreases a.len() + b.len() + c.len(),
{
    if a.len() > 0 && b.len() > 0 && c.len() > 0 {
        law_text_order(a.drop_first(), b.drop_first(), c.drop_first());
    } else if a.len() > 0 && b.len() > 0 {
        law_text_order(a.drop_first(), b.drop_first(), c);
    } else if a.len() > 0 {
        law_text_order(a.drop_first(), b, c);
    }
    if a.len() > 0 && b.len() > 0 && a[0] == b[0] && a.drop_first() == b.drop_first() {
        assert(a =~= seq![a[0]] + a.drop_first());
        assert(b =~= seq![b[0]] + b.drop_first());
    }
    if a.len() == 0 && b.len() == 0 {
        assert(a =~= b);
    }
}

/// Whether `a` comes before `b` in a dictionary of characters, as `String`'s order has it.
pub fn text_before(a: &str, b: &str) -> (r: bool)
    ensures
        r == before(a@, b@),
{
    let left = chars_of(a);
    let right = chars_of(b);
    let mut i: usize = 0;
    proof {
        assert(left@.skip(0) =~= left@);
        assert(right@.skip(0) =~= right@);
    }
    while i < left.len() && i < right.len()
        invariant
            i <= left@.len(),
            i <= right@.len(),
            left@ == a@,
            right@ == b@,
            before(left@, right@) == before(left@.skip(i as int), right@.skip(i as int)),
        decreases left@.len() - i,
    {
        proof {
            assert(left@.skip(i as int).drop_first() =~= left@.skip(i + 1));
            assert(right@.skip(i as int).drop_first() =~= right@.skip(i + 1));
            assert(left@.skip(i as int)[0] == left@[i as int]);
            assert(right@.skip(i as int)[0] == right@[i as int]);
        }
        let c: char = left[i];
        let d: char = right[i];
        if c != d {
            return c < d;
        }
        i = i + 1;
    }
    i < right.len()
}

/// `left` followed by `right`.
pub fn joined(left: &str, right: &str) -> (r: String)
    ensures
        r@ == left@ + right@,
{
    let mut out = left.to_owned();
    out.append(right);
    out
}

} // verus!
