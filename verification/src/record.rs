//! Stored memories, alerts and tags, and what they say.
use vstd::prelude::*;

use crate::expiration::{expired, is_expired};
use crate::input::{borrow_optional, copy_optional, copy_texts, SearchModel, SearchOptions, World};
use crate::model::{has_tag, optional, texts, ExpirationCondition, MemoryMode};
use crate::score::Score;
use crate::text::{has_text, lowered, same_text};
use crate::time::Instant;

verus! {

/// What a memory has gained: a stored number, and the ranks at which it has been retrieved since.
/// Rank `r` stands for a gain of `1 / (r + 1)`.
#[derive(Debug)]
pub struct PositiveScore {
    pub stored: Score,
    pub ranks: Vec<usize>,
}

/// What a memory has lost: a stored number, and the similarities to later memories since.
#[derive(Debug)]
pub struct NegativeScore {
    pub stored: Score,
    pub similarities: Vec<Score>,
}

/// What a `PositiveScore` says.
#[verifier::ext_equal]
pub struct PositiveModel {
    pub stored: Score,
    pub ranks: Seq<usize>,
}

/// What a `NegativeScore` says.
#[verifier::ext_equal]
pub struct NegativeModel {
    pub stored: Score,
    pub similarities: Seq<Score>,
}

impl View for PositiveScore {
    type V = PositiveModel;

    open spec fn view(&self) -> PositiveModel {
        PositiveModel { stored: self.stored, ranks: self.ranks@ }
    }
}

impl View for NegativeScore {
    type V = NegativeModel;

    open spec fn view(&self) -> NegativeModel {
        NegativeModel { stored: self.stored, similarities: self.similarities@ }
    }
}

impl Clone for PositiveScore {
    fn clone(&self) -> (r: Self)
        ensures
            r@ == self@,
    {
        let mut ranks: Vec<usize> = Vec::new();
        let mut i: usize = 0;
        while i < self.ranks.len()
            invariant
                i <= self.ranks@.len(),
                ranks@ == self.ranks@.take(i as int),
            decreases self.ranks@.len() - i,
        {
            ranks.push(self.ranks[i]);
            i = i + 1;
            proof {
                assert(self.ranks@.take(i as int) =~= self.ranks@.take(i - 1).push(
                    self.ranks@[i - 1],
                ));
            }
        }
        proof {
            assert(self.ranks@.take(i as int) =~= self.ranks@);
        }
        PositiveScore { stored: self.stored, ranks }
    }
}

impl Clone for NegativeScore {
    fn clone(&self) -> (r: Self)
        ensures
            r@ == self@,
    {
        let mut similarities: Vec<Score> = Vec::new();
        let mut i: usize = 0;
        while i < self.similarities.len()
            invariant
                i <= self.similarities@.len(),
                similarities@ == self.similarities@.take(i as int),
            decreases self.similarities@.len() - i,
        {
            similarities.push(self.similarities[i]);
            i = i + 1;
            proof {
                assert(self.similarities@.take(i as int) =~= self.similarities@.take(i - 1).push(
                    self.similarities@[i - 1],
                ));
            }
        }
        proof {
            assert(self.similarities@.take(i as int) =~= self.similarities@);
        }
        NegativeScore { stored: self.stored, similarities }
    }
}

/// A stored memory.
#[derive(Debug)]
pub struct MemoryRecord {
    pub id: i64,
    pub content: String,
    pub mode: MemoryMode,
    pub mode_ref: Option<String>,
    pub tags: Vec<String>,
    pub expiration_condition: Option<ExpirationCondition>,
    pub expiration_value: Option<String>,
    pub metadata: Option<String>,
    pub positive_score: PositiveScore,
    pub negative_score: NegativeScore,
    pub usage_count: i64,
    pub created_at: Instant,
    pub file_fingerprint: Option<String>,
}

/// What a `MemoryRecord` says.
#[verifier::ext_equal]
pub struct RecordModel {
    pub id: i64,
    pub content: Seq<char>,
    pub mode: MemoryMode,
    pub mode_ref: Option<Seq<char>>,
    pub tags: Seq<Seq<char>>,
    pub expiration_condition: Option<ExpirationCondition>,
    pub expiration_value: Option<Seq<char>>,
    pub metadata: Option<Seq<char>>,
    pub positive_score: PositiveModel,
    pub negative_score: NegativeModel,
    pub usage_count: int,
    pub created_at: Instant,
    pub file_fingerprint: Option<Seq<char>>,
}

impl View for MemoryRecord {
    type V = RecordModel;

    open spec fn view(&self) -> RecordModel {
        RecordModel {
            id: self.id,
            content: self.content@,
            mode: self.mode,
            mode_ref: optional(self.mode_ref),
            tags: texts(self.tags@),
            expiration_condition: self.expiration_condition,
            expiration_value: optional(self.expiration_value),
            metadata: optional(self.metadata),
            positive_score: self.positive_score@,
            negative_score: self.negative_score@,
            usage_count: self.usage_count as int,
            created_at: self.created_at,
            file_fingerprint: optional(self.file_fingerprint),
        }
    }
}

/// A retrieved memory, as it was before the retrieval, and its score in the search.
#[derive(Debug)]
pub struct MemorySearchResult {
    pub id: i64,
    pub content: String,
    pub mode: MemoryMode,
    pub mode_ref: Option<String>,
    pub tags: Vec<String>,
    pub score: Score,
    pub positive_score: PositiveScore,
    pub negative_score: NegativeScore,
    pub usage_count: i64,
    pub metadata: Option<String>,
    pub created_at: Instant,
}

/// What a `MemorySearchResult` says.
#[verifier::ext_equal]
pub struct ResultModel {
    pub id: i64,
    pub content: Seq<char>,
    pub mode: MemoryMode,
    pub mode_ref: Option<Seq<char>>,
    pub tags: Seq<Seq<char>>,
    pub score: Score,
    pub positive_score: PositiveModel,
    pub negative_score: NegativeModel,
    pub usage_count: int,
    pub metadata: Option<Seq<char>>,
    pub created_at: Instant,
}

impl View for MemorySearchResult {
    type V = ResultModel;

    open spec fn view(&self) -> ResultModel {
        ResultModel {
            id: self.id,
            content: self.content@,
            mode: self.mode,
            mode_ref: optional(self.mode_ref),
            tags: texts(self.tags@),
            score: self.score,
            positive_score: self.positive_score@,
            negative_score: self.negative_score@,
            usage_count: self.usage_count as int,
            metadata: optional(self.metadata),
            created_at: self.created_at,
        }
    }
}

impl Clone for MemorySearchResult {
    fn clone(&self) -> (r: Self)
        ensures
            r@ == self@,
    {
        MemorySearchResult {
            id: self.id,
            content: self.content.clone(),
            mode: self.mode,
            mode_ref: copy_optional(&self.mode_ref),
            tags: copy_texts(&self.tags),
            score: self.score,
            positive_score: self.positive_score.clone(),
            negative_score: self.negative_score.clone(),
            usage_count: self.usage_count,
            metadata: copy_optional(&self.metadata),
            created_at: self.created_at,
        }
    }
}

/// A message for a session, given once.
#[derive(Debug)]
pub struct Alert {
    pub session_ref: String,
    pub content: String,
}

/// What an `Alert` says.
#[verifier::ext_equal]
pub struct AlertModel {
    pub session_ref: Seq<char>,
    pub content: Seq<char>,
}

impl View for Alert {
    type V = AlertModel;

    open spec fn view(&self) -> AlertModel {
        AlertModel { session_ref: self.session_ref@, content: self.content@ }
    }
}

impl Clone for Alert {
    fn clone(&self) -> (r: Self)
        ensures
            r@ == self@,
    {
        Alert { session_ref: self.session_ref.clone(), content: self.content.clone() }
    }
}

/// A stored alert.
#[derive(Debug)]
pub struct AlertRecord {
    pub id: i64,
    pub alert: Alert,
}

/// A tag and how often it comes up.
#[derive(Debug)]
pub struct TagSummary {
    pub tag: String,
    pub count: i64,
}

impl Clone for TagSummary {
    fn clone(&self) -> (r: Self)
        ensures
            r.tag@ == self.tag@,
            r.count == self.count,
    {
        TagSummary { tag: self.tag.clone(), count: self.count }
    }
}

/// The store of memories and alerts, and the last identifiers that were given to them.
#[derive(Debug)]
pub struct MemoryStore {
    pub memories: Vec<MemoryRecord>,
    pub last_id: i64,
    pub alerts: Vec<AlertRecord>,
    pub last_alert_id: i64,
}

/// What a list of records says.
pub open spec fn records(list: Seq<MemoryRecord>) -> Seq<RecordModel> {
    list.map_values(|record: MemoryRecord| record@)
}

/// What a list of alerts says, with their identifiers.
pub open spec fn alert_records(list: Seq<AlertRecord>) -> Seq<(i64, AlertModel)> {
    list.map_values(|record: AlertRecord| (record.id, record.alert@))
}

/// What a `MemoryStore` holds.
#[verifier::ext_equal]
pub struct StoreModel {
    pub memories: Seq<RecordModel>,
    pub last_id: i64,
    pub alerts: Seq<(i64, AlertModel)>,
    pub last_alert_id: i64,
}

impl View for MemoryStore {
    type V = StoreModel;

    open spec fn view(&self) -> StoreModel {
        StoreModel {
            memories: records(self.memories@),
            last_id: self.last_id,
            alerts: alert_records(self.alerts@),
            last_alert_id: self.last_alert_id,
        }
    }
}

impl RecordModel {
    /// Whether the memory belongs to a scope: to the mode and to the reference, where given.
    pub open spec fn in_scope(self, mode: Option<MemoryMode>, mode_ref: Option<Seq<char>>) -> bool {
        &&& mode matches Some(mode) ==> self.mode == mode
        &&& mode_ref is Some ==> self.mode_ref == mode_ref
    }

    /// Whether the memory is still there.
    pub open spec fn live(self, world: World) -> bool {
        !expired(
            self.expiration_condition,
            self.expiration_value,
            self.created_at,
            self.usage_count,
            self.file_fingerprint,
            world.now,
            world.files,
        )
    }

    /// Whether the memory has all of `tags`.
    pub open spec fn tagged(self, tags: Seq<Seq<char>>) -> bool {
        forall|i: int| 0 <= i < tags.len() ==> self.tags.contains(#[trigger] tags[i])
    }

    /// Whether a search in normal form finds the memory.
    pub open spec fn found(self, search: SearchModel, world: World) -> bool {
        self.in_scope(search.mode, search.mode_ref) && self.live(world) && self.tagged(
            search.positive_tags,
        )
    }

    /// The memory after a retrieval at `rank`. A count that can go no higher stays as it is.
    pub open spec fn retrieved(self, rank: usize) -> RecordModel {
        RecordModel {
            usage_count: if self.usage_count < i64::MAX {
                self.usage_count + 1
            } else {
                self.usage_count
            },
            positive_score: PositiveModel {
                ranks: self.positive_score.ranks.push(rank),
                ..self.positive_score
            },
            ..self
        }
    }

    /// The memory after a memory of the given similarity was stored.
    pub open spec fn outdated(self, similarity: Score) -> RecordModel {
        RecordModel {
            negative_score: NegativeModel {
                similarities: self.negative_score.similarities.push(similarity),
                ..self.negative_score
            },
            ..self
        }
    }

    /// The memory as the result of a search.
    pub open spec fn as_result(self, score: Score) -> ResultModel {
        ResultModel {
            id: self.id,
            content: self.content,
            mode: self.mode,
            mode_ref: self.mode_ref,
            tags: self.tags,
            score,
            positive_score: self.positive_score,
            negative_score: self.negative_score,
            usage_count: self.usage_count,
            metadata: self.metadata,
            created_at: self.created_at,
        }
    }
}

impl StoreModel {
    /// Whether memories and alerts stand in the order of their identifiers, no identifier was given
    /// twice, and none beyond the last.
    pub open spec fn well_formed(self) -> bool {
        &&& forall|i: int, j: int|
            0 <= i < j < self.memories.len() ==> (#[trigger] self.memories[i]).id < (
            #[trigger] self.memories[j]).id
        &&& forall|i: int|
            0 <= i < self.memories.len() ==> (#[trigger] self.memories[i]).id <= self.last_id
        &&& forall|i: int, j: int|
            0 <= i < j < self.alerts.len() ==> (#[trigger] self.alerts[i]).0 < (
            #[trigger] self.alerts[j]).0
        &&& forall|i: int|
            0 <= i < self.alerts.len() ==> (#[trigger] self.alerts[i]).0 <= self.last_alert_id
    }
}

impl MemoryRecord {
    /// Whether the memory belongs to a scope.
    pub fn matches_scope(&self, mode: Option<MemoryMode>, mode_ref: Option<&str>) -> (r: bool)
        ensures
            r == self@.in_scope(mode, crate::expiration::borrowed(mode_ref)),
            r <==> (mode is Some ==> self.mode == mode->Some_0) && (mode_ref is Some ==> (
            self.mode_ref is Some && self.mode_ref->Some_0@ == mode_ref->Some_0@)),
    {
        if let Some(mode) = mode {
            if self.mode != mode {
                return false;
            }
        }
        match mode_ref {
            None => true,
            Some(mode_ref) => match &self.mode_ref {
                Some(own) => same_text(own, mode_ref),
                None => false,
            },
        }
    }

    /// Whether the memory has expired.
    pub fn is_expired(&self, world: &World) -> (r: bool)
        ensures
            r == !self@.live(*world),
    {
        is_expired(
            self.expiration_condition,
            borrow_optional(&self.expiration_value),
            self.created_at,
            self.usage_count,
            borrow_optional(&self.file_fingerprint),
            world.now,
            &world.files,
        )
    }

    /// Whether the memory has all of `tags`.
    pub fn has_tags(&self, tags: &Vec<String>) -> (r: bool)
        ensures
            r == self@.tagged(texts(tags@)),
    {
        let mut i: usize = 0;
        while i < tags.len()
            invariant
                i <= tags@.len(),
                forall|j: int| 0 <= j < i ==> self@.tags.contains(#[trigger] texts(tags@)[j]),
            decreases tags@.len() - i,
        {
            if !has_tag(&self.tags, &tags[i]) {
                proof {
                    assert(!self@.tags.contains(texts(tags@)[i as int]));
                }
                return false;
            }
            i = i + 1;
        }
        true
    }

    /// Whether a search in normal form finds the memory.
    pub fn is_found(&self, search: &SearchOptions, world: &World) -> (r: bool)
        ensures
            r == self@.found(search@, *world),
            r ==> (search.mode is Some ==> self.mode == search.mode->Some_0) && (
            search.mode_ref is Some ==> optional(self.mode_ref) == optional(search.mode_ref))
                && self@.live(*world),
    {
        self.matches_scope(search.mode, borrow_optional(&search.mode_ref)) && !self.is_expired(
            world,
        ) && self.has_tags(&search.positive_tags)
    }
}

/// What the text and the tags of a memory add to its score in a search: whether the query occurs
/// in the content, whether it occurs in a tag, how many tags were asked for, and how many of the
/// unwanted tags the memory has.
#[derive(Debug, Clone, Copy, PartialEq, Eq)]
pub struct ScoreTerms {
    pub content_matches: bool,
    pub tag_matches: bool,
    pub positive_tags: usize,
    pub negative_tags: usize,
}

/// How many of `wanted` are among `tags`.
pub open spec fn common_tags(wanted: Seq<Seq<char>>, tags: Seq<Seq<char>>) -> int
    decreases wanted.len(),
{
    if wanted.len() == 0 {
        0
    } else {
        common_tags(wanted.drop_last(), tags) + if tags.contains(wanted.last()) {
            1int
        } else {
            0int
        }
    }
}

/// Whether `query` is not empty and occurs in one of `tags`.
pub open spec fn query_in_tags(query: Seq<char>, tags: Seq<Seq<char>>) -> bool {
    query.len() > 0 && exists|i: int|
        0 <= i < tags.len() && crate::text::contains_text(#[trigger] tags[i], query)
}

/// Whether `query` is not empty and occurs in `content`, whatever its case.
pub open spec fn query_in_content(query: Seq<char>, content: Seq<char>) -> bool {
    query.len() > 0 && crate::text::contains_text(crate::text::lower(content), query)
}

/// Whether the terms are those of a memory in a search in normal form.
pub open spec fn terms_hold(terms: ScoreTerms, memory: RecordModel, search: SearchModel) -> bool {
    let query = crate::text::lower(search.query);
    &&& terms.content_matches == query_in_content(query, memory.content)
    &&& terms.tag_matches == query_in_tags(query, memory.tags)
    &&& terms.positive_tags == search.positive_tags.len()
    &&& terms.negative_tags == common_tags(search.negative_tags, memory.tags)
}

/// Whether `query` is not empty and occurs in one of `tags`.
fn occurs_in_tags(query: &str, tags: &Vec<String>) -> (r: bool)
    ensures
        r == query_in_tags(query@, texts(tags@)),
{
    if query.is_empty() {
        return false;
    }
    let mut i: usize = 0;
    while i < tags.len()
        invariant
            i <= tags@.len(),
            query@.len() > 0,
            forall|j: int|
                0 <= j < i ==> !crate::text::contains_text(#[trigger] texts(tags@)[j], query@),
        decreases tags@.len() - i,
    {
        if has_text(&tags[i], query) {
            proof {
                assert(crate::text::contains_text(texts(tags@)[i as int], query@));
            }
            return true;
        }
        i = i + 1;
    }
    false
}

/// How many of `wanted` are among `tags`.
fn count_common_tags(wanted: &Vec<String>, tags: &Vec<String>) -> (r: usize)
    ensures
        r == common_tags(texts(wanted@), texts(tags@)),
{
    let mut count: usize = 0;
    let mut i: usize = 0;
    proof {
        assert(texts(wanted@).take(0) =~= Seq::empty());
    }
    while i < wanted.len()
        invariant
            i <= wanted@.len(),
            count <= i,
            count == common_tags(texts(wanted@).take(i as int), texts(tags@)),
        decreases wanted@.len() - i,
    {
        proof {
            assert(texts(wanted@).take(i + 1).drop_last() =~= texts(wanted@).take(i as int));
            assert(texts(wanted@).take(i + 1).last() == wanted@[i as int]@);
        }
        if has_tag(tags, &wanted[i]) {
            count = count + 1;
        }
        i = i + 1;
    }
    proof {
        assert(texts(wanted@).take(i as int) =~= texts(wanted@));
    }
    count
}

/// What the text and the tags of a memory add to its score in a search in normal form.
pub fn score_terms(memory: &MemoryRecord, search: &SearchOptions) -> (r: ScoreTerms)
    ensures
        terms_hold(r, memory@, search@),
{
    let query = lowered(&search.query);
    let content_matches = !query.as_str().is_empty() && has_text(
        &lowered(&memory.content),
        &query,
    );
    let tag_matches = occurs_in_tags(&query, &memory.tags);
    let positive_tags: usize = search.positive_tags.len();
    proof {
        assert(texts(search.positive_tags@).len() == search.positive_tags@.len());
    }
    ScoreTerms {
        content_matches,
        tag_matches,
        positive_tags,
        negative_tags: count_common_tags(&search.negative_tags, &memory.tags),
    }
}

/// Unwanted tags count against a memory that has one of them, and against no other.
pub proof fn law_unwanted_tags_count(wanted: Seq<Seq<char>>, tags: Seq<Seq<char>>)
    ensures
        0 <= common_tags(wanted, tags) <= wanted.len(),
        common_tags(wanted, tags) > 0 <==> exists|i: int|
            0 <= i < wanted.len() && tags.contains(#[trigger] wanted[i]),
    decreases wanted.len(),
{
    if wanted.len() > 0 {
        let front = wanted.drop_last();
        let last = wanted.len() - 1;
        law_unwanted_tags_count(front, tags);
        if exists|i: int| 0 <= i < wanted.len() && tags.contains(#[trigger] wanted[i]) {
            let i = choose|i: int| 0 <= i < wanted.len() && tags.contains(#[trigger] wanted[i]);
            if i < last {
                assert(front[i] == wanted[i]);
            }
        }
        if common_tags(wanted, tags) > 0 {
            if common_tags(front, tags) > 0 {
                let i = choose|i: int| 0 <= i < front.len() && tags.contains(#[trigger] front[i]);
                assert(wanted[i] == front[i]);
            } else {
                assert(tags.contains(wanted[last]));
            }
        }
    }
}

} // verus!
