//! What can be relied on of texts, their order, and the numbers that they write.
use vstd::prelude::*;

use crate::model::{normal_tag, normal_tags, ExpirationCondition, MemoryMode};
use crate::text::{
    before, contains_text, decimal, digit_char, digits_value, find_from, i64_of, integer, is_digit,
    is_white_space, lemma_find_from, lower, natural, signed_decimal, signless, split_once,
    stands_at, trim, usize_of,
};

verus! {

/// White space is what Unicode calls so: tab to carriage return, the space, the next line, the
/// no-break space and the spaces of other scripts.
pub proof fn law_white_space(c: char)
    ensures
        is_white_space(c) <==> {
            let n = c as int;
            ||| 9 <= n <= 13
            ||| n == 32
            ||| n == 133
            ||| n == 160
            ||| n == 5760
            ||| 8192 <= n <= 8202
            ||| n == 8232
            ||| n == 8233
            ||| n == 8239
            ||| n == 8287
            ||| n == 12288
        },
{
}

/// A text that stands between white space, and neither starts nor ends with it, is what trimming
/// leaves; of white space alone it leaves nothing.
pub proof fn law_trimming_leaves_the_middle(
    left: Seq<char>,
    middle: Seq<char>,
    right: Seq<char>,
)
    requires
        forall|i: int| 0 <= i < left.len() ==> is_white_space(#[trigger] left[i]),
        forall|i: int| 0 <= i < right.len() ==> is_white_space(#[trigger] right[i]),
        middle.len() > 0 ==> !is_white_space(middle[0]) && !is_white_space(middle.last()),
    ensures
        trim(left + middle + right) == middle,
{
    let whole = left + middle + right;
    crate::text::law_trim_cuts_white_space_alone(whole);
    let cut = trim(whole);
    let from = choose|from: int|
        #![trigger whole.subrange(from, from + cut.len())]
        {
            &&& 0 <= from
            &&& from + cut.len() <= whole.len()
            &&& cut == whole.subrange(from, from + cut.len())
            &&& forall|i: int|
                0 <= i < whole.len() && !(from <= i < from + cut.len()) ==> is_white_space(
                    #[trigger] whole[i],
                )
        };
    if middle.len() > 0 {
        let first = left.len() as int;
        let last = first + middle.len() - 1;
        assert(whole[first] == middle[0]);
        assert(whole[last] == middle.last());
        assert(from <= first && last < from + cut.len());
        assert(cut[0] == whole[from]);
        assert(cut.last() == whole[from + cut.len() - 1]);
        if from < first {
            assert(whole[from] == left[from]);
        }
        if from + cut.len() - 1 > last {
            assert(whole[from + cut.len() - 1] == right[from + cut.len() - 2 - last]);
        }
        assert(cut =~= middle);
    } else {
        if cut.len() > 0 {
            assert(cut[0] == whole[from]);
            if from < left.len() {
                assert(whole[from] == left[from]);
            } else {
                assert(whole[from] == right[from - left.len()]);
            }
        }
        assert(cut =~= middle);
    }
}

/// Lowering makes each of the capitals A to Z small and leaves every other character alone.
pub proof fn law_lowering_is_letter_by_letter(s: Seq<char>, at: int)
    ensures
        lower(s).len() == s.len(),
        0 <= at < s.len() ==> lower(s)[at] as int == if 65 <= s[at] as int <= 90 {
            s[at] as int + 32
        } else {
            s[at] as int
        },
{
}

/// A text occurs in another exactly where the other is made of something, it, and something.
pub proof fn law_occurring_is_standing_between(hay: Seq<char>, needle: Seq<char>)
    ensures
        contains_text(hay, needle) <==> exists|left: Seq<char>, right: Seq<char>|
            hay == #[trigger] (left + needle + right),
{
    if contains_text(hay, needle) {
        let at = choose|at: int| stands_at(hay, needle, at);
        let left = hay.take(at);
        let right = hay.skip(at + needle.len());
        assert(hay =~= left + needle + right) by {
            assert(hay.subrange(at, at + needle.len()) == needle);
            assert forall|i: int| at <= i < at + needle.len() implies hay[i] == #[trigger] needle[i
                - at] by {
                assert(hay.subrange(at, at + needle.len())[i - at] == hay[i]);
            }
        }
    }
    if exists|left: Seq<char>, right: Seq<char>| hay == #[trigger] (left + needle + right) {
        let (left, right) = choose|left: Seq<char>, right: Seq<char>|
            hay == #[trigger] (left + needle + right);
        let at = left.len() as int;
        assert(hay.subrange(at, at + needle.len()) =~= needle);
        assert(stands_at(hay, needle, at));
    }
}

/// A text stands at the start of another exactly where the other goes on from it.
pub proof fn law_starting_is_being_gone_on_from(text: Seq<char>, start: Seq<char>)
    ensures
        stands_at(text, start, 0) <==> exists|rest: Seq<char>| text == #[trigger] (start + rest),
{
    if stands_at(text, start, 0) {
        let rest = text.skip(start.len() as int);
        assert(text =~= start + rest) by {
            assert forall|i: int| 0 <= i < start.len() implies text[i] == #[trigger] start[i] by {
                assert(text.subrange(0, start.len() as int)[i] == text[i]);
            }
        }
    }
    if exists|rest: Seq<char>| text == #[trigger] (start + rest) {
        assert(text.subrange(0, start.len() as int) =~= start);
    }
}

/// Splitting gives what stands before and after the separator where it first occurs, and fails
/// exactly where it does not occur.
pub proof fn law_splitting_is_at_the_first_separator(
    left: Seq<char>,
    separator: Seq<char>,
    right: Seq<char>,
    other: Seq<char>,
)
    requires
        forall|at: int| #![trigger stands_at(left + separator + right, separator, at)]
            0 <= at < left.len() ==> !stands_at(left + separator + right, separator, at),
    ensures
        split_once(left + separator + right, separator) == Some((left, right)),
        split_once(other, separator) is None <==> !contains_text(other, separator),
{
    let whole = left + separator + right;
    let at = left.len() as int;
    lemma_find_from(whole, separator, 0);
    assert(whole.subrange(at, at + separator.len()) =~= separator);
    assert(stands_at(whole, separator, at));
    assert(find_from(whole, separator, 0) == Some(at));
    assert(whole.take(at) =~= left);
    assert(whole.skip(at + separator.len()) =~= right);
    lemma_find_from(other, separator, 0);
}

/// Digits write a number in base ten: each further digit multiplies by ten and adds its value, and
/// a text writes a natural number exactly where it has digits and nothing else.
pub proof fn law_digits_are_read_in_base_ten(s: Seq<char>, c: char)
    ensures
        natural(s) is Some <==> s.len() > 0 && forall|i: int|
            0 <= i < s.len() ==> 48 <= #[trigger] s[i] as int <= 57,
        48 <= c as int <= 57 ==> natural(seq![c]) == Some(c as int - 48),
        natural(s) is Some && 48 <= c as int <= 57 ==> natural(s.push(c)) == Some(
            natural(s)->Some_0 * 10 + (c as int - 48),
        ),
{
    if s.len() > 0 && forall|i: int| 0 <= i < s.len() ==> 48 <= #[trigger] s[i] as int <= 57 {
        assert forall|i: int| 0 <= i < s.len() implies is_digit(#[trigger] s[i]) by {
            assert(48 <= s[i] as int <= 57);
        }
    }
    assert(seq![c].drop_last() =~= Seq::empty());
    assert(digits_value(seq![c].drop_last()) == 0);
    if natural(s) is Some && 48 <= c as int <= 57 {
        assert(s.push(c).drop_last() =~= s);
        assert forall|i: int| 0 <= i < s.push(c).len() implies is_digit(
            #[trigger] s.push(c)[i],
        ) by {
            if i < s.len() {
                assert(is_digit(s[i]));
            }
        }
    }
}

/// A minus sign turns a number round, a plus sign leaves it, and anything else is no sign; what is
/// out of the range of the type is no number of it.
pub proof fn law_signs_and_ranges(s: Seq<char>)
    ensures
        s.len() > 0 && s[0] == '-' ==> integer(s) == match natural(s.drop_first()) {
            Some(n) => Some(-n),
            None => None,
        },
        s.len() > 0 && s[0] == '+' ==> integer(s) == natural(s.drop_first()),
        s.len() == 0 || (s[0] != '-' && s[0] != '+') ==> integer(s) == natural(s),
        signless(s) == if s.len() > 0 && s[0] == '-' {
            None
        } else {
            integer(s)
        },
        i64_of(s) is Some <==> integer(s) is Some && -9_223_372_036_854_775_808
            <= integer(s)->Some_0 <= 9_223_372_036_854_775_807,
        i64_of(s) is Some ==> i64_of(s)->Some_0 == integer(s)->Some_0,
        usize_of(s) is Some <==> signless(s) is Some && signless(s)->Some_0 <= usize::MAX,
        usize_of(s) is Some ==> usize_of(s)->Some_0 == signless(s)->Some_0,
{
    if s.len() > 0 && s[0] == '-' {
        assert(!is_digit(s[0]));
    }
    if signless(s) is Some {
        let digits = if s.len() > 0 && s[0] == '+' {
            s.drop_first()
        } else {
            s
        };
        lemma_natural_is_not_negative(digits);
    }
}

proof fn lemma_natural_is_not_negative(s: Seq<char>)
    requires
        natural(s) is Some,
    ensures
        natural(s)->Some_0 >= 0,
    decreases s.len(),
{
    let front = s.drop_last();
    assert(is_digit(s[s.len() - 1]));
    if front.len() > 0 {
        assert forall|i: int| 0 <= i < front.len() implies is_digit(#[trigger] front[i]) by {
            assert(front[i] == s[i]);
        }
        lemma_natural_is_not_negative(front);
    } else {
        assert(digits_value(front) == 0);
    }
}

/// A number is written in base ten, without leading zeros and with a minus sign where it is
/// negative.
pub proof fn law_numbers_are_written_in_base_ten(n: nat, digit: nat)
    requires
        digit < 10,
    ensures
        digit_char(digit as int) as int == 48 + digit,
        decimal(digit) == seq![digit_char(digit as int)],
        n > 0 ==> decimal(10 * n + digit) == decimal(n).push(digit_char(digit as int)),
        signed_decimal(n as int) == decimal(n),
        n > 0 ==> signed_decimal(-(n as int)) == seq!['-'] + decimal(n),
{
    assert((10 * n + digit) / 10 == n && (10 * n + digit) % 10 == digit) by (nonlinear_arith)
        requires
            digit < 10,
    ;
}

/// One text comes before another exactly where the other goes on from it, or where at the first
/// difference it has the smaller character.
pub proof fn law_order_is_that_of_the_first_difference(a: Seq<char>, b: Seq<char>)
    ensures
        before(a, b) <==> exists|n: int| #[trigger] differ_first_at(a, b, n) && (n == a.len() || (n
            < b.len() && a[n] < b[n])) && n < b.len(),
    decreases a.len(),
{
    if b.len() == 0 {
    } else if a.len() == 0 {
        assert(differ_first_at(a, b, 0));
    } else if a[0] != b[0] {
        assert(differ_first_at(a, b, 0));
        if exists|n: int| #[trigger] differ_first_at(a, b, n) && (n == a.len() || (n < b.len()
            && a[n] < b[n])) && n < b.len() {
            let n = choose|n: int| #[trigger] differ_first_at(a, b, n) && (n == a.len() || (n
                < b.len() && a[n] < b[n])) && n < b.len();
            if n > 0 {
                assert(a[0] == b[0]);
            }
        }
    } else {
        let (x, y) = (a.drop_first(), b.drop_first());
        law_order_is_that_of_the_first_difference(x, y);
        if before(x, y) {
            let n = choose|n: int| #[trigger] differ_first_at(x, y, n) && (n == x.len() || (n
                < y.len() && x[n] < y[n])) && n < y.len();
            assert forall|i: int| 0 <= i < n + 1 implies #[trigger] a[i] == b[i] by {
                if i > 0 {
                    assert(x[i - 1] == y[i - 1]);
                }
            }
            if n < x.len() {
                assert(x[n] == a[n + 1]);
                assert(y[n] == b[n + 1]);
            }
            assert(differ_first_at(a, b, n + 1));
        }
        if exists|n: int| #[trigger] differ_first_at(a, b, n) && (n == a.len() || (n < b.len()
            && a[n] < b[n])) && n < b.len() {
            let n = choose|n: int| #[trigger] differ_first_at(a, b, n) && (n == a.len() || (n
                < b.len() && a[n] < b[n])) && n < b.len();
            if n == 0 {
                assert(false);
            }
            assert forall|i: int| 0 <= i < n - 1 implies #[trigger] x[i] == y[i] by {
                assert(a[i + 1] == b[i + 1]);
            }
            if n < a.len() {
                assert(x[n - 1] == a[n]);
                assert(y[n - 1] == b[n]);
            }
            assert(differ_first_at(x, y, n - 1));
        }
    }
}

/// Whether two texts are the same in their first `n` characters.
pub open spec fn differ_first_at(a: Seq<char>, b: Seq<char>, n: int) -> bool {
    0 <= n <= a.len() && n <= b.len() && forall|i: int| 0 <= i < n ==> #[trigger] a[i] == b[i]
}

/// The normal form of a tag is what is left of it without the white space around it, in small
/// letters.
pub proof fn law_normal_tags_are_trimmed_and_small(tag: Seq<char>)
    ensures
        normal_tag(tag) == lower(trim(tag)),
{
}

/// Tags keep the order in which they are first given: further tags come after those that are there,
/// and change none of them.
pub proof fn law_further_tags_come_after(tags: Seq<Seq<char>>, more: Seq<Seq<char>>)
    ensures
        normal_tags(tags).len() <= normal_tags(tags + more).len(),
        normal_tags(tags + more).take(normal_tags(tags).len() as int) == normal_tags(tags),
        more.len() == 1 ==> normal_tags(tags + more) == if lower(trim(more[0])).len() == 0
            || normal_tags(tags).contains(lower(trim(more[0]))) {
            normal_tags(tags)
        } else {
            normal_tags(tags).push(lower(trim(more[0])))
        },
    decreases more.len(),
{
    let all = tags + more;
    if more.len() > 0 {
        let front = more.drop_last();
        assert(all.drop_last() =~= tags + front);
        assert(all.last() == more.last());
        law_further_tags_come_after(tags, front);
        if front.len() == 0 {
            assert(tags + front =~= tags);
        }
        let n = normal_tags(tags).len() as int;
        assert(normal_tags(all).take(n) =~= normal_tags(tags + front).take(n));
    } else {
        assert(all =~= tags);
        assert(normal_tags(tags).take(normal_tags(tags).len() as int) =~= normal_tags(tags));
    }
}

/// The modes are called `global`, `workspace` and `session`, and a text names one of them exactly
/// where it is that name, whatever its case and the white space around it.
pub proof fn law_names_of_modes(value: Seq<char>)
    ensures
        MemoryMode::Global.name() == "global"@,
        MemoryMode::Workspace.name() == "workspace"@,
        MemoryMode::Session.name() == "session"@,
        MemoryMode::named(value) == Some(MemoryMode::Global) <==> lower(trim(value)) == "global"@,
        MemoryMode::named(value) == Some(MemoryMode::Workspace) <==> lower(trim(value))
            == "workspace"@,
        MemoryMode::named(value) == Some(MemoryMode::Session) <==> lower(trim(value))
            == "session"@,
{
    reveal_strlit("global");
    reveal_strlit("workspace");
    reveal_strlit("session");
    assert("global"@.len() == 6 && "workspace"@.len() == 9 && "session"@.len() == 7);
}

/// The conditions are called `time`, `usage`, `file_exist`, `file_pristine` and `period`, and a
/// text names one of them exactly where it is that name, whatever its case and the white space
/// around it; a hyphen may stand for the underscore.
pub proof fn law_names_of_conditions(value: Seq<char>)
    ensures
        ExpirationCondition::Time.name() == "time"@,
        ExpirationCondition::Usage.name() == "usage"@,
        ExpirationCondition::FileExist.name() == "file_exist"@,
        ExpirationCondition::FilePristine.name() == "file_pristine"@,
        ExpirationCondition::Period.name() == "period"@,
        ExpirationCondition::named(value) == Some(ExpirationCondition::Time) <==> lower(trim(value))
            == "time"@,
        ExpirationCondition::named(value) == Some(ExpirationCondition::Usage) <==> lower(
            trim(value),
        ) == "usage"@,
        ExpirationCondition::named(value) == Some(ExpirationCondition::FileExist) <==> (lower(
            trim(value),
        ) == "file_exist"@ || lower(trim(value)) == "file-exist"@),
        ExpirationCondition::named(value) == Some(ExpirationCondition::FilePristine) <==> (lower(
            trim(value),
        ) == "file_pristine"@ || lower(trim(value)) == "file-pristine"@),
        ExpirationCondition::named(value) == Some(ExpirationCondition::Period) <==> lower(
            trim(value),
        ) == "period"@,
{
    reveal_strlit("time");
    reveal_strlit("usage");
    reveal_strlit("file_exist");
    reveal_strlit("file-exist");
    reveal_strlit("file_pristine");
    reveal_strlit("file-pristine");
    reveal_strlit("period");
    assert("time"@.len() == 4 && "usage"@.len() == 5 && "period"@.len() == 6);
    assert("file_exist"@.len() == 10 && "file-exist"@.len() == 10);
    assert("file_pristine"@.len() == 13 && "file-pristine"@.len() == 13);
}

} // verus!
