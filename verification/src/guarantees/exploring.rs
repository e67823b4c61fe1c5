//! What the explorer reads in requests, what it shows and how it answers.
use vstd::prelude::*;
use vstd::utf8::encode_utf8;

use crate::browse::{fitting, wanted_text};
use crate::error::Failure;
use crate::explorer::{
    bytes_of, ends_request, event_text, first_value, first_word, head_start, known_after,
    line_taken, mode_value,
    number_value, piece_pair, query_pairs, reason_of, request_line, response_head, route_of,
    target_parts, update_event, values_of, word_length, BrowseOptions, Route,
};
use crate::form::{form_bytes, form_text, hex_pair, hex_value, lossy_text};
use crate::guarantees::searching::has_wanted;
use crate::input::World;
use crate::model::{texts, MemoryMode};
use crate::record::RecordModel;
use crate::text::{
    contains_text, decimal, is_white_space, lower, split_once, trim, trim_start, usize_of,
};

verus! {

/// The first two words of a request line are its method and its target: words are parted by white
/// space, and what follows them does not count.
pub proof fn law_first_two_words_are_method_and_target(
    left: Seq<char>,
    method: Seq<char>,
    between: Seq<char>,
    target: Seq<char>,
    rest: Seq<char>,
)
    requires
        forall|i: int| 0 <= i < left.len() ==> is_white_space(#[trigger] left[i]),
        forall|i: int| 0 <= i < between.len() ==> is_white_space(#[trigger] between[i]),
        forall|i: int| 0 <= i < method.len() ==> !is_white_space(#[trigger] method[i]),
        forall|i: int| 0 <= i < target.len() ==> !is_white_space(#[trigger] target[i]),
        method.len() > 0,
        between.len() > 0,
        target.len() > 0,
        rest.len() > 0 ==> is_white_space(rest[0]),
    ensures
        request_line(left + method + between + target + rest) == Ok::<
            (Seq<char>, Seq<char>),
            Failure<Seq<char>>,
        >((method, target)),
{
    let tail = between + target + rest;
    assert(tail[0] == between[0]);
    lemma_first_word(left, method, tail);
    assert(left + method + between + target + rest =~= left + method + tail);
    lemma_first_word(between, target, rest);
}

proof fn lemma_first_word(left: Seq<char>, word: Seq<char>, rest: Seq<char>)
    requires
        forall|i: int| 0 <= i < left.len() ==> is_white_space(#[trigger] left[i]),
        forall|i: int| 0 <= i < word.len() ==> !is_white_space(#[trigger] word[i]),
        word.len() > 0,
        rest.len() > 0 ==> is_white_space(rest[0]),
    ensures
        first_word(left + word + rest) == Some((word, rest)),
    decreases left.len(),
{
    let whole = left + word + rest;
    if left.len() > 0 {
        let shorter = left.drop_first();
        assert(whole[0] == left[0]);
        assert forall|i: int| 0 <= i < shorter.len() implies is_white_space(
            #[trigger] shorter[i],
        ) by {
            assert(shorter[i] == left[i + 1]);
        }
        assert(whole.drop_first() =~= shorter + word + rest);
        lemma_first_word(shorter, word, rest);
    } else {
        assert(whole =~= word + rest);
        assert(whole[0] == word[0]);
        assert(trim_start(whole) == whole);
        lemma_word_length(word, rest);
        assert(whole.take(word.len() as int) =~= word);
        assert(whole.skip(word.len() as int) =~= rest);
    }
}

proof fn lemma_word_length(word: Seq<char>, rest: Seq<char>)
    requires
        forall|i: int| 0 <= i < word.len() ==> !is_white_space(#[trigger] word[i]),
        rest.len() > 0 ==> is_white_space(rest[0]),
    ensures
        word_length(word + rest) == word.len(),
    decreases word.len(),
{
    let whole = word + rest;
    if word.len() > 0 {
        let shorter = word.drop_first();
        assert(whole[0] == word[0]);
        assert(whole.drop_first() =~= shorter + rest);
        assert forall|i: int| 0 <= i < shorter.len() implies !is_white_space(
            #[trigger] shorter[i],
        ) by {
            assert(shorter[i] == word[i + 1]);
        }
        lemma_word_length(shorter, rest);
    } else {
        assert(whole =~= rest);
    }
}

proof fn lemma_no_word(blank: Seq<char>)
    requires
        forall|i: int| 0 <= i < blank.len() ==> is_white_space(#[trigger] blank[i]),
    ensures
        first_word(blank) is None,
    decreases blank.len(),
{
    if blank.len() > 0 {
        let shorter = blank.drop_first();
        assert(is_white_space(blank[0]));
        assert forall|i: int| 0 <= i < shorter.len() implies is_white_space(
            #[trigger] shorter[i],
        ) by {
            assert(shorter[i] == blank[i + 1]);
        }
        lemma_no_word(shorter);
    }
}

/// A request line without a word lacks its method, and one with a single word its target.
pub proof fn law_request_lines_need_two_words(
    left: Seq<char>,
    word: Seq<char>,
    right: Seq<char>,
)
    requires
        forall|i: int| 0 <= i < left.len() ==> is_white_space(#[trigger] left[i]),
        forall|i: int| 0 <= i < right.len() ==> is_white_space(#[trigger] right[i]),
        forall|i: int| 0 <= i < word.len() ==> !is_white_space(#[trigger] word[i]),
    ensures
        request_line(left + word + right) is Err,
        word.len() == 0 ==> request_line(left + word + right)->Err_0 is HttpMethodMissing,
        word.len() > 0 ==> request_line(left + word + right)->Err_0 is HttpTargetMissing,
{
    let whole = left + word + right;
    if word.len() == 0 {
        assert forall|i: int| 0 <= i < whole.len() implies is_white_space(#[trigger] whole[i]) by {
            if i < left.len() {
                assert(whole[i] == left[i]);
            } else {
                assert(whole[i] == right[i - left.len()]);
            }
        }
        lemma_no_word(whole);
    } else {
        lemma_first_word(left, word, right);
        lemma_no_word(right);
    }
}

/// The lines of a head end with one that is empty, or where nothing more was sent, and have 16384
/// bytes together at the most.
pub proof fn law_heads_end_and_are_limited(total: int, read: usize, line: Seq<char>)
    ensures
        ends_request(read, line) <==> read == 0 || line == "\r\n"@ || line == "\n"@,
        total + read > 16_384 ==> line_taken(total, read, line) is Err && line_taken(
            total,
            read,
            line,
        )->Err_0 is HeadersTooLarge,
        total + read <= 16_384 ==> line_taken(total, read, line) == Ok::<bool, Failure<Seq<char>>>(
            ends_request(read, line),
        ),
        crate::explorer::MAX_REQUEST_BYTES == 16_384,
        bytes_of(Seq::empty()) == 0,
        forall|rest: Seq<(usize, Seq<char>)>| #[trigger]
            bytes_of(seq![(read, line)] + rest) == read + bytes_of(rest),
        head_start(read, line) == if read == 0 {
            Err(Failure::EmptyRequest)
        } else {
            request_line(line)
        },
{
    assert forall|rest: Seq<(usize, Seq<char>)>| #[trigger]
        bytes_of(seq![(read, line)] + rest) == read + bytes_of(rest) by {
        assert((seq![(read, line)] + rest).drop_first() =~= rest);
    }
}

/// A target is a path, and behind the first question mark, if it has one, a query.
pub proof fn law_targets_are_paths_and_queries(
    path: Seq<char>,
    query: Seq<char>,
    target: Seq<char>,
)
    ensures
        split_once(target, "?"@) == Some((path, query)) ==> target_parts(target) == (
            path,
            query_pairs(query),
        ),
        split_once(target, "?"@) is None ==> target_parts(target).0 == target && target_parts(
            target,
        ).1.len() == 0,
{
}

/// A query is pieces parted by ampersands, in order. An empty piece counts for nothing; another is
/// a name and, behind its first equals sign, a value, both written as in a form.
pub proof fn law_queries_are_names_and_values(
    piece: Seq<char>,
    rest: Seq<char>,
    query: Seq<char>,
    name: Seq<char>,
    value: Seq<char>,
)
    ensures
        split_once(query, "&"@) == Some((piece, rest)) ==> query_pairs(query) == piece_pair(piece)
            + query_pairs(rest),
        split_once(query, "&"@) is None ==> query_pairs(query) == piece_pair(query),
        piece.len() == 0 ==> piece_pair(piece).len() == 0,
        piece.len() > 0 && split_once(piece, "="@) == Some((name, value)) ==> piece_pair(piece)
            == seq![(form_text(name), form_text(value))],
        piece.len() > 0 && split_once(piece, "="@) is None ==> piece_pair(piece) == seq![
            (form_text(piece), form_text(""@)),
        ],
{
    reveal_strlit("&");
    crate::text::lemma_find_from(query, "&"@, 0);
}

/// What a form writes is read byte by byte: a plus sign is a space, a percent sign with two
/// characters behind it the byte that these write, or itself where they write none, and any other
/// byte is itself.
pub proof fn law_forms_are_read_byte_by_byte(
    bytes: Seq<u8>,
    first: u8,
    second: u8,
    text: Seq<char>,
)
    ensures
        form_bytes(Seq::empty()).len() == 0,
        form_bytes(seq![43u8] + bytes) == seq![32u8] + form_bytes(bytes),
        form_bytes(seq![37u8, first, second] + bytes) == seq![
            if hex_pair(first, second) is Some {
                hex_pair(first, second)->Some_0
            } else {
                37u8
            },
        ] + form_bytes(bytes),
        first != 43 && first != 37 ==> form_bytes(seq![first] + bytes) == seq![first] + form_bytes(
            bytes,
        ),
        bytes.len() < 2 ==> form_bytes(seq![37u8] + bytes) == seq![37u8] + form_bytes(bytes),
        form_text(text) == lossy_text(form_bytes(encode_utf8(text))),
{
    assert((seq![43u8] + bytes).skip(1) =~= bytes);
    assert((seq![37u8, first, second] + bytes).skip(3) =~= bytes);
    assert((seq![first] + bytes).skip(1) =~= bytes);
    assert((seq![37u8] + bytes).skip(1) =~= bytes);
}

/// Two digits of base sixteen write a byte, the higher first and in either case; so does a plus
/// sign with a digit.
pub proof fn law_pairs_of_digits_write_bytes(high: u8, low: u8)
    ensures
        hex_value(low) is Some <==> 48 <= low <= 57 || 65 <= low <= 70 || 97 <= low <= 102,
        48 <= low <= 57 ==> hex_value(low)->Some_0 == low - 48,
        65 <= low <= 70 ==> hex_value(low)->Some_0 == low - 55,
        97 <= low <= 102 ==> hex_value(low)->Some_0 == low - 87,
        hex_pair(high, low) is Some <==> hex_value(low) is Some && (hex_value(high) is Some || high
            == 43),
        hex_value(high) is Some && hex_value(low) is Some ==> hex_pair(high, low)->Some_0
            == hex_value(high)->Some_0 * 16 + hex_value(low)->Some_0,
        high == 43 && hex_value(low) is Some ==> hex_pair(high, low)->Some_0 == hex_value(
            low,
        )->Some_0,
{
}

/// The values of a name are those that are given under it, in order; the first of them counts where
/// there can be one alone.
pub proof fn law_values_by_name(
    query: Seq<(Seq<char>, Seq<char>)>,
    pair: (Seq<char>, Seq<char>),
    name: Seq<char>,
)
    ensures
        values_of(Seq::empty(), name).len() == 0,
        values_of(query.push(pair), name) == if pair.0 == name {
            values_of(query, name).push(pair.1)
        } else {
            values_of(query, name)
        },
        first_value(query, name) is Some <==> values_of(query, name).len() > 0,
        first_value(query, name) is Some ==> first_value(query, name)->Some_0 == values_of(
            query,
            name,
        )[0],
{
    assert(query.push(pair).drop_last() =~= query);
}

/// A number or a mode that a query gives counts where it can be read, and else as not given.
pub proof fn law_unreadable_values_count_as_not_given(
    query: Seq<(Seq<char>, Seq<char>)>,
    name: Seq<char>,
    otherwise: usize,
)
    ensures
        number_value(query, name, otherwise) == if first_value(query, name) is Some && usize_of(
            first_value(query, name)->Some_0,
        ) is Some {
            usize_of(first_value(query, name)->Some_0)->Some_0
        } else {
            otherwise
        },
        mode_value(query) == if first_value(query, "mode"@) is Some {
            MemoryMode::named(first_value(query, "mode"@)->Some_0)
        } else {
            None
        },
{
}

/// Requests lead where their path says, if they ask by `GET`, and else nowhere.
pub proof fn law_requests_lead_by_their_path(method: Seq<char>, path: Seq<char>)
    ensures
        route_of(method, path) == Route::MethodNotAllowed <==> method != "GET"@,
        route_of(method, path) == Route::Index <==> method == "GET"@ && (path == "/"@ || path
            == "/index.html"@),
        route_of(method, path) == Route::Memories <==> method == "GET"@ && path
            == "/api/memories"@,
        route_of(method, path) == Route::Tags <==> method == "GET"@ && path == "/api/tags"@,
        route_of(method, path) == Route::Events <==> method == "GET"@ && path == "/api/events"@,
{
    reveal_strlit("/");
    reveal_strlit("/index.html");
    reveal_strlit("/api/memories");
    reveal_strlit("/api/tags");
    reveal_strlit("/api/events");
    assert("/"@.len() == 1 && "/index.html"@.len() == 11 && "/api/memories"@.len() == 13);
    assert("/api/tags"@.len() == 9 && "/api/events"@.len() == 11);
    assert("/index.html"@[1] == 'i' && "/api/events"@[1] == 'a');
}

/// The head of a response gives its status in words too, the type and the length of its body, and
/// says that it is neither kept nor followed by another.
pub proof fn law_responses_say_status_type_and_length(
    status: u16,
    content_type: Seq<char>,
    length: u64,
)
    ensures
        response_head(status, content_type, length) == "HTTP/1.1 "@ + decimal(status as nat) + " "@
            + reason_of(status) + "\r\nContent-Type: "@ + content_type + "\r\nContent-Length: "@
            + decimal(length as nat)
            + "\r\nCache-Control: no-store\r\nConnection: close\r\n\r\n"@,
        status == 400 ==> reason_of(status) == "Bad Request"@,
        status == 404 ==> reason_of(status) == "Not Found"@,
        status == 405 ==> reason_of(status) == "Method Not Allowed"@,
        status != 400 && status != 404 && status != 405 ==> reason_of(status) == "OK"@,
{
}

/// After a look that did not fail, a signature that differs from the one that was known is sent as
/// an update, and one that does not as a sign of life; the last that was seen is what is known.
pub proof fn law_changes_are_sent(known: Option<Seq<char>>, signature: Seq<char>)
    ensures
        event_text(known, None) is None,
        known == Some(signature) ==> event_text(known, Some(signature)) == Some(
            ": keep-alive\n\n"@,
        ),
        known != Some(signature) ==> event_text(known, Some(signature)) == Some(
            "event: update\ndata: "@ + signature + "\n\n"@,
        ),
        update_event(signature) == "event: update\ndata: "@ + signature + "\n\n"@,
        known_after(known, Some(signature)) == Some(signature),
        known_after(known, None) == known,
{
}

/// What is browsed has the mode that was asked for, where one was, is still there, has every tag
/// that was asked for, and holds the text in whatever case; all such memories are there, each once,
/// the latest first.
pub proof fn law_browsing_shows_what_was_asked_for(
    memories: Seq<RecordModel>,
    options: BrowseOptions,
    world: World,
    index: int,
)
    requires
        memories.len() <= usize::MAX,
        0 <= index < memories.len(),
    ensures
        ({
            let places = fitting(memories, options, world);
            let memory = memories[index];
            let text = if options.text is Some {
                lower(trim(options.text->Some_0@))
            } else {
                Seq::empty()
            };
            &&& places.contains(index as usize) <==> {
                &&& options.mode is Some ==> memory.mode == options.mode->Some_0
                &&& memory.live(world)
                &&& has_wanted(memory, texts(options.tags@))
                &&& contains_text(lower(memory.content), text)
            }
            &&& forall|k: int, l: int|
                0 <= k < l < places.len() ==> #[trigger] places[k] > #[trigger] places[l]
        }),
{
    crate::browse::law_browsing_shows_what_fits(memories, options, world);
    crate::guarantees::searching::lemma_has_wanted(memories[index], texts(options.tags@));
    reveal_strlit("");
    assert(""@ =~= Seq::empty());
    let places = fitting(memories, options, world);
    assert(wanted_text(options) == if options.text is Some {
        lower(trim(options.text->Some_0@))
    } else {
        Seq::empty()
    });
    if places.contains(index as usize) {
        let k = choose|k: int| 0 <= k < places.len() && places[k] == index as usize;
        assert(memories[places[k] as int].fits(options, world));
    }
    if memories[index].fits(options, world) {
        assert(places.contains(index as usize));
    }
}

} // verus!
