//! Which features a text has.
use vstd::prelude::*;
use vstd::utf8::{encode_utf8, valid_utf8};

use crate::embedding::{
    all_features, alphanumeric, feature, fnv, gram_features, in_token, lowercase, lowercase_all,
    token_features, token_length, tokens, Weight,
};

verus! {

/// The tokens of a text are its longest runs of letters, digits, underscores and hyphens, in order
/// and in small letters.
pub proof fn law_tokens_are_the_longest_runs(
    parting: Seq<char>,
    word: Seq<char>,
    rest: Seq<char>,
    c: char,
)
    requires
        forall|i: int| 0 <= i < parting.len() ==> !in_token(#[trigger] parting[i]),
        forall|i: int| 0 <= i < word.len() ==> in_token(#[trigger] word[i]),
        rest.len() > 0 ==> !in_token(rest[0]),
    ensures
        in_token(c) <==> alphanumeric(c) || c == '_' || c == '-',
        word.len() > 0 ==> tokens(parting + word + rest) == seq![lowercase_all(word)] + tokens(rest),
        word.len() == 0 ==> tokens(parting + word + rest) == tokens(rest),
    decreases parting.len(),
{
    let whole = parting + word + rest;
    if parting.len() > 0 {
        let shorter = parting.drop_first();
        assert(whole[0] == parting[0]);
        assert(whole.drop_first() =~= shorter + word + rest);
        assert forall|i: int| 0 <= i < shorter.len() implies !in_token(#[trigger] shorter[i]) by {
            assert(shorter[i] == parting[i + 1]);
        }
        law_tokens_are_the_longest_runs(shorter, word, rest, c);
    } else {
        assert(whole =~= word + rest);
        if word.len() > 0 {
            lemma_run(word, rest);
            assert(whole[0] == word[0]);
            assert(whole.take(word.len() as int) =~= word);
            assert(whole.skip(word.len() as int) =~= rest);
        } else {
            assert(whole =~= rest);
        }
    }
}

proof fn lemma_run(word: Seq<char>, rest: Seq<char>)
    requires
        forall|i: int| 0 <= i < word.len() ==> in_token(#[trigger] word[i]),
        rest.len() > 0 ==> !in_token(rest[0]),
    ensures
        token_length(word + rest) == word.len(),
    decreases word.len(),
{
    let whole = word + rest;
    if word.len() > 0 {
        let shorter = word.drop_first();
        assert(whole[0] == word[0]);
        assert(whole.drop_first() =~= shorter + rest);
        assert forall|i: int| 0 <= i < shorter.len() implies in_token(#[trigger] shorter[i]) by {
            assert(shorter[i] == word[i + 1]);
        }
        lemma_run(shorter, rest);
    } else {
        assert(whole =~= rest);
    }
}

/// Small letters are made character by character.
pub proof fn law_small_letters_are_made_one_by_one(c: char, rest: Seq<char>)
    ensures
        lowercase_all(Seq::empty()).len() == 0,
        lowercase_all(seq![c] + rest) == lowercase(c) + lowercase_all(rest),
{
    assert((seq![c] + rest).drop_first() =~= rest);
}

/// The hash of bytes is the 64-bit FNV-1a hash: each byte is mixed in by an exclusive or, and then
/// multiplied by the prime.
pub proof fn law_hashes_mix_byte_by_byte(bytes: Seq<u8>, byte: u8)
    ensures
        fnv(Seq::empty()) == 0xcbf2_9ce4_8422_2325,
        fnv(bytes.push(byte)) == (fnv(bytes) ^ (byte as u64)).wrapping_mul(0x100_0000_01b3),
{
    assert(bytes.push(byte).drop_last() =~= bytes);
}

/// A feature stands in one of 128 places, by its hash, and counts down where the highest bit of the
/// hash is set.
pub proof fn law_features_are_placed_by_their_hash(bytes: Seq<u8>, weight: Weight)
    ensures
        feature(bytes, weight).index == fnv(bytes) as int % 128,
        feature(bytes, weight).negative <==> fnv(bytes) as int >= 0x8000_0000_0000_0000,
        feature(bytes, weight).weight == weight,
{
}

/// A token has itself for a feature and, where it has more than four bytes, each three bytes in a
/// row that are UTF-8; a text has the features of its tokens, in order.
pub proof fn law_tokens_and_their_pieces_are_features(
    token: Seq<char>,
    before: Seq<Seq<char>>,
    bytes: Seq<u8>,
    at: int,
)
    ensures
        all_features(Seq::empty()).len() == 0,
        all_features(before.push(token)) == all_features(before) + token_features(token),
        encode_utf8(token).len() <= 4 ==> token_features(token) == seq![
            feature(encode_utf8(token), Weight::Whole),
        ],
        encode_utf8(token).len() > 4 ==> token_features(token) == seq![
            feature(encode_utf8(token), Weight::Whole),
        ] + gram_features(encode_utf8(token), 0),
        0 <= at && at + 3 <= bytes.len() && valid_utf8(bytes.subrange(at, at + 3)) ==> gram_features(
            bytes,
            at,
        ) == seq![feature(bytes.subrange(at, at + 3), Weight::Gram)] + gram_features(bytes, at + 1),
        0 <= at && at + 3 <= bytes.len() && !valid_utf8(bytes.subrange(at, at + 3))
            ==> gram_features(bytes, at) == gram_features(bytes, at + 1),
        at + 3 > bytes.len() ==> gram_features(bytes, at).len() == 0,
{
    assert(before.push(token).drop_last() =~= before);
    if encode_utf8(token).len() <= 4 {
        assert(token_features(token) =~= seq![feature(encode_utf8(token), Weight::Whole)]);
    }
    if 0 <= at && at + 3 <= bytes.len() && !valid_utf8(bytes.subrange(at, at + 3)) {
        assert(gram_features(bytes, at) =~= gram_features(bytes, at + 1));
    }
}

} // verus!
