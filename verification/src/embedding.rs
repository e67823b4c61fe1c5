//! The features of a text: what a vector that stands for its meaning is summed up from.
use vstd::prelude::*;
use vstd::utf8::{encode_utf8, valid_utf8};

use crate::model::texts;
use crate::text::chars_of;

verus! {

/// The length of a vector.
pub const EMBEDDING_DIMENSIONS: usize = 128;

/// Whether `char::is_alphanumeric` holds.
pub uninterp spec fn alphanumeric(c: char) -> bool;

/// The small letters that `char::to_lowercase` gives.
pub uninterp spec fn lowercase(c: char) -> Seq<char>;

/// Calls `char::is_alphanumeric`, which depends on the character alone.
#[verifier::external_body]
fn is_alphanumeric(c: char) -> (r: bool)
    ensures
        r == alphanumeric(c),
{
    c.is_alphanumeric()
}

/// Calls `char::to_lowercase`, which gives one character or more and depends on the character
/// alone.
#[verifier::external_body]
fn to_lowercase(c: char) -> (r: Vec<char>)
    ensures
        r@ == lowercase(c),
        r@.len() >= 1,
{
    c.to_lowercase().collect()
}

/// Calls `std::str::from_utf8`, which accepts exactly the bytes that are UTF-8.
#[verifier::external_body]
fn is_utf8(bytes: &[u8]) -> (r: bool)
    ensures
        r == valid_utf8(bytes@),
{
    std::str::from_utf8(bytes).is_ok()
}

/// Whether `c` can stand in a token.
pub open spec fn in_token(c: char) -> bool {
    alphanumeric(c) || c == '_' || c == '-'
}

/// How many characters that can stand in a token `s` starts with.
pub open spec fn token_length(s: Seq<char>) -> int
    decreases s.len(),
{
    if s.len() > 0 && in_token(s[0]) {
        1 + token_length(s.drop_first())
    } else {
        0
    }
}

/// `s` in small letters.
pub open spec fn lowercase_all(s: Seq<char>) -> Seq<char>
    decreases s.len(),
{
    if s.len() == 0 {
        Seq::empty()
    } else {
        lowercase(s[0]) + lowercase_all(s.drop_first())
    }
}

pub proof fn lemma_token_length(s: Seq<char>)
    ensures
        0 <= token_length(s) <= s.len(),
    decreases s.len(),
{
    if s.len() > 0 && in_token(s[0]) {
        lemma_token_length(s.drop_first());
    }
}

/// The tokens of `s`: its longest runs of token characters, in small letters.
pub open spec fn tokens(s: Seq<char>) -> Seq<Seq<char>>
    decreases s.len(),
{
    if s.len() == 0 {
        Seq::empty()
    } else if !in_token(s[0]) {
        tokens(s.drop_first())
    } else {
        proof {
            lemma_token_length(s);
            lemma_token_length(s.drop_first());
        }
        seq![lowercase_all(s.take(token_length(s)))] + tokens(s.skip(token_length(s)))
    }
}

/// The tokens of what is left of a text, where `current` has been read of the first one.
spec fn tokens_after(current: Seq<char>, rest: Seq<char>) -> Seq<Seq<char>> {
    if current.len() == 0 {
        tokens(rest)
    } else {
        seq![current + lowercase_all(rest.take(token_length(rest)))] + tokens(
            rest.skip(token_length(rest)),
        )
    }
}

proof fn lemma_token_goes_on(current: Seq<char>, rest: Seq<char>)
    requires
        rest.len() > 0,
        in_token(rest[0]),
        lowercase(rest[0]).len() >= 1,
    ensures
        tokens_after(current, rest) == tokens_after(
            current + lowercase(rest[0]),
            rest.drop_first(),
        ),
{
    let tail = rest.drop_first();
    let n = token_length(rest);
    lemma_token_length(rest);
    lemma_token_length(tail);
    assert(rest.take(n)[0] == rest[0]);
    assert(rest.take(n).drop_first() =~= tail.take(n - 1));
    assert(rest.skip(n) =~= tail.skip(n - 1));
    assert(current + (lowercase(rest[0]) + lowercase_all(tail.take(n - 1))) =~= (current
        + lowercase(rest[0])) + lowercase_all(tail.take(n - 1)));
    assert(Seq::<char>::empty() + lowercase(rest[0]) =~= lowercase(rest[0]));
    if current.len() == 0 {
        assert(current =~= Seq::empty());
    }
}

proof fn lemma_token_ends(current: Seq<char>, rest: Seq<char>)
    requires
        rest.len() == 0 || !in_token(rest[0]),
    ensures
        rest.len() > 0 && current.len() == 0 ==> tokens_after(current, rest) == tokens_after(
            current,
            rest.drop_first(),
        ),
        rest.len() > 0 && current.len() > 0 ==> tokens_after(current, rest) == seq![current]
            + tokens_after(Seq::empty(), rest.drop_first()),
        rest.len() == 0 && current.len() > 0 ==> tokens_after(current, rest) == seq![current],
        rest.len() == 0 && current.len() == 0 ==> tokens_after(current, rest) == Seq::<
            Seq<char>,
        >::empty(),
{
    assert(rest.take(0) =~= Seq::empty());
    assert(rest.skip(0) =~= rest);
    assert(current + lowercase_all(rest.take(0)) =~= current);
    if rest.len() == 0 {
        assert(seq![current] + tokens(rest) =~= seq![current]);
    }
}

/// Appends characters.
fn push_all(text: &mut String, chars: &Vec<char>)
    ensures
        final(text)@ == old(text)@ + chars@,
{
    let ghost start = text@;
    let mut i: usize = 0;
    proof {
        assert(start + chars@.take(0) =~= start);
    }
    while i < chars.len()
        invariant
            i <= chars@.len(),
            text@ == start + chars@.take(i as int),
        decreases chars@.len() - i,
    {
        text.push(chars[i]);
        i = i + 1;
        proof {
            assert(start + chars@.take(i as int) =~= (start + chars@.take(i - 1)).push(
                chars@[i - 1],
            ));
        }
    }
    proof {
        assert(chars@.take(i as int) =~= chars@);
    }
}

/// The tokens of a text: its longest runs of letters, digits, `_` and `-`, in small letters.
pub fn tokenize(text: &str) -> (r: Vec<String>)
    ensures
        texts(r@) == tokens(text@),
        forall|i: int| 0 <= i < r@.len() ==> (#[trigger] r@[i])@.len() > 0,
        r@.len() == 0 <==> forall|i: int| 0 <= i < text@.len() ==> !in_token(#[trigger] text@[i]),
{
    let chars = chars_of(text);
    let mut out: Vec<String> = Vec::new();
    let mut current = String::new();
    let mut i: usize = 0;
    proof {
        assert(chars@.skip(0) =~= chars@);
        assert(texts(out@) + tokens(chars@) =~= tokens(chars@));
    }
    while i < chars.len()
        invariant
            i <= chars@.len(),
            tokens(chars@) == texts(out@) + tokens_after(current@, chars@.skip(i as int)),
            forall|k: int| 0 <= k < out@.len() ==> (#[trigger] out@[k])@.len() > 0,
        decreases chars@.len() - i,
    {
        let c = chars[i];
        let ghost rest = chars@.skip(i as int);
        proof {
            assert(rest[0] == c);
            assert(rest.drop_first() =~= chars@.skip(i + 1));
        }
        i = i + 1;
        if is_alphanumeric(c) || c == '_' || c == '-' {
            let small = to_lowercase(c);
            proof {
                lemma_token_goes_on(current@, rest);
            }
            push_all(&mut current, &small);
            continue;
        }
        proof {
            lemma_token_ends(current@, rest);
        }
        if !current.as_str().is_empty() {
            let ghost before = out@;
            let ghost tail = tokens_after(Seq::empty(), rest.drop_first());
            out.push(current);
            proof {
                assert(texts(before) + (seq![current@] + tail) =~= texts(out@) + tail);
            }
            current = String::new();
        }
    }
    proof {
        assert(chars@.skip(i as int) =~= Seq::empty());
        lemma_token_ends(current@, chars@.skip(i as int));
    }
    if !current.as_str().is_empty() {
        let ghost before = out@;
        out.push(current);
        proof {
            assert(texts(before) + seq![current@] =~= texts(out@));
        }
    } else {
        proof {
            assert(texts(out@) + Seq::<Seq<char>>::empty() =~= texts(out@));
        }
    }
    proof {
        law_tokens_need_characters(text@);
        assert(texts(out@).len() == out@.len());
    }
    out
}

/// A text has no tokens exactly where no character of it can stand in one.
pub proof fn law_tokens_need_characters(s: Seq<char>)
    ensures
        tokens(s).len() == 0 <==> forall|i: int| 0 <= i < s.len() ==> !in_token(#[trigger] s[i]),
    decreases s.len(),
{
    if s.len() > 0 {
        if in_token(s[0]) {
            assert(tokens(s).len() > 0);
        } else {
            let rest = s.drop_first();
            law_tokens_need_characters(rest);
            if tokens(rest).len() == 0 {
                assert forall|i: int| 0 <= i < s.len() implies !in_token(#[trigger] s[i]) by {
                    if i > 0 {
                        assert(s[i] == rest[i - 1]);
                    }
                }
            } else {
                let i = choose|i: int| 0 <= i < rest.len() && in_token(#[trigger] rest[i]);
                assert(in_token(s[i + 1]));
            }
        }
    }
}

/// The 64-bit FNV-1a hash.
pub open spec fn fnv(bytes: Seq<u8>) -> u64
    decreases bytes.len(),
{
    if bytes.len() == 0 {
        0xcbf2_9ce4_8422_2325
    } else {
        (fnv(bytes.drop_last()) ^ (bytes.last() as u64)).wrapping_mul(0x100_0000_01b3)
    }
}

/// The 64-bit FNV-1a hash.
pub fn fnv1a(bytes: &[u8]) -> (r: u64)
    ensures
        r == fnv(bytes@),
{
    let mut hash: u64 = 0xcbf2_9ce4_8422_2325;
    let mut i: usize = 0;
    while i < bytes.len()
        invariant
            i <= bytes@.len(),
            hash == fnv(bytes@.take(i as int)),
        decreases bytes@.len() - i,
    {
        proof {
            assert(bytes@.take(i + 1).drop_last() =~= bytes@.take(i as int));
        }
        hash = (hash ^ (bytes[i] as u64)).wrapping_mul(0x100_0000_01b3);
        i = i + 1;
    }
    proof {
        assert(bytes@.take(i as int) =~= bytes@);
    }
    hash
}

/// How much a feature counts: a token in full, or three bytes of one.
#[derive(Debug, Clone, Copy, PartialEq, Eq, Structural)]
pub enum Weight {
    Whole,
    Gram,
}

/// A feature of a text: the place in the vector that it adds to, or takes from, and how much it
/// counts.
#[derive(Debug, Clone, Copy, PartialEq, Eq, Structural)]
pub struct Feature {
    pub index: usize,
    pub negative: bool,
    pub weight: Weight,
}

/// The feature that bytes hash to: the place is the hash by the length of a vector, and the
/// highest bit of the hash is the sign.
pub open spec fn feature(bytes: Seq<u8>, weight: Weight) -> Feature {
    Feature {
        index: (fnv(bytes) as int % EMBEDDING_DIMENSIONS as int) as usize,
        negative: fnv(bytes) >= 0x8000_0000_0000_0000,
        weight,
    }
}

/// The features of the three-byte pieces of a token from `from` on, of those that are UTF-8.
pub open spec fn gram_features(bytes: Seq<u8>, from: int) -> Seq<Feature>
    decreases bytes.len() - from,
{
    if from < 0 || from + 3 > bytes.len() {
        Seq::empty()
    } else {
        let gram = bytes.subrange(from, from + 3);
        (if valid_utf8(gram) {
            seq![feature(gram, Weight::Gram)]
        } else {
            Seq::empty()
        }) + gram_features(bytes, from + 1)
    }
}

/// The features of a token: the token itself and, if it has more than four bytes, its pieces.
pub open spec fn token_features(token: Seq<char>) -> Seq<Feature> {
    let bytes = encode_utf8(token);
    seq![feature(bytes, Weight::Whole)] + if bytes.len() > 4 {
        gram_features(bytes, 0)
    } else {
        Seq::empty()
    }
}

/// The features of tokens, one token after the other.
pub open spec fn all_features(tokens: Seq<Seq<char>>) -> Seq<Feature>
    decreases tokens.len(),
{
    if tokens.len() == 0 {
        Seq::empty()
    } else {
        all_features(tokens.drop_last()) + token_features(tokens.last())
    }
}

/// The feature that bytes hash to.
fn hashed_feature(bytes: &[u8], weight: Weight) -> (r: Feature)
    ensures
        r == feature(bytes@, weight),
        r.index < EMBEDDING_DIMENSIONS,
{
    let hash: u64 = fnv1a(bytes);
    Feature {
        index: (hash % 128) as usize,
        negative: hash >= 0x8000_0000_0000_0000,
        weight,
    }
}

/// Appends the features of the three-byte pieces of a token.
fn push_gram_features(out: &mut Vec<Feature>, bytes: &[u8])
    requires
        forall|i: int| 0 <= i < old(out)@.len() ==> (#[trigger] old(out)@[i]).index
            < EMBEDDING_DIMENSIONS,
    ensures
        final(out)@ == old(out)@ + gram_features(bytes@, 0),
        forall|i: int| 0 <= i < final(out)@.len() ==> (#[trigger] final(out)@[i]).index
            < EMBEDDING_DIMENSIONS,
{
    let ghost start = out@;
    let total: usize = bytes.len();
    let mut i: usize = 0;
    while i < total && 3 <= total - i
        invariant
            i <= total,
            total == bytes@.len(),
            start + gram_features(bytes@, 0) == out@ + gram_features(bytes@, i as int),
            forall|j: int| 0 <= j < out@.len() ==> (#[trigger] out@[j]).index
                < EMBEDDING_DIMENSIONS,
        decreases total - i,
    {
        let ghost before = out@;
        let ghost tail = gram_features(bytes@, i + 1);
        let gram = vstd::slice::slice_subrange(bytes, i, i + 3);
        if is_utf8(gram) {
            out.push(hashed_feature(gram, Weight::Gram));
            proof {
                assert(before + (seq![feature(gram@, Weight::Gram)] + tail) =~= out@ + tail);
            }
        } else {
            proof {
                assert(before + (Seq::<Feature>::empty() + tail) =~= out@ + tail);
            }
        }
        i = i + 1;
    }
    proof {
        assert(out@ + gram_features(bytes@, i as int) =~= out@);
    }
}

/// The features of a text, token by token.
pub fn text_features(text: &str) -> (r: Vec<Feature>)
    ensures
        r@ == all_features(tokens(text@)),
        forall|i: int| 0 <= i < r@.len() ==> (#[trigger] r@[i]).index < EMBEDDING_DIMENSIONS,
{
    let words = tokenize(text);
    let mut out: Vec<Feature> = Vec::new();
    let mut i: usize = 0;
    proof {
        assert(texts(words@).take(0) =~= Seq::empty());
    }
    while i < words.len()
        invariant
            i <= words@.len(),
            out@ == all_features(texts(words@).take(i as int)),
            forall|j: int| 0 <= j < out@.len() ==> (#[trigger] out@[j]).index
                < EMBEDDING_DIMENSIONS,
        decreases words@.len() - i,
    {
        let ghost before = out@;
        let token = words[i].as_str();
        let bytes = token.as_bytes();
        out.push(hashed_feature(bytes, Weight::Whole));
        if bytes.len() > 4 {
            push_gram_features(&mut out, bytes);
        }
        i = i + 1;
        proof {
            assert(texts(words@).take(i as int).drop_last() =~= texts(words@).take(i - 1));
            assert(texts(words@).take(i as int).last() == token@);
            assert(out@ =~= before + token_features(token@));
        }
    }
    proof {
        assert(texts(words@).take(i as int) =~= texts(words@));
    }
    out
}

/// A text without token characters has no features.
pub proof fn law_no_tokens_no_features(text: Seq<char>)
    requires
        forall|i: int| 0 <= i < text.len() ==> !in_token(#[trigger] text[i]),
    ensures
        all_features(tokens(text)) == Seq::<Feature>::empty(),
    decreases text.len(),
{
    if text.len() > 0 {
        let rest = text.drop_first();
        assert(!in_token(text[0]));
        assert forall|i: int| 0 <= i < rest.len() implies !in_token(#[trigger] rest[i]) by {
            assert(rest[i] == text[i + 1]);
        }
        law_no_tokens_no_features(rest);
    }
}

} // verus!
