//! Browsing the store, page by page.
use vstd::prelude::*;

use crate::explorer::BrowseOptions;
use crate::input::World;
use crate::model::{normal_tags, normalize_tags, texts};
use crate::ranking::page;
use crate::record::{MemoryRecord, MemoryStore, RecordModel};
use crate::text::{contains_text, has_text, lower, lowered, trim, trimmed};

verus! {

/// The text that a memory must hold to be shown, whatever the case of its letters.
pub open spec fn wanted_text(options: BrowseOptions) -> Seq<char> {
    match options.text {
        Some(text) => lower(trim(text@)),
        None => ""@,
    }
}

impl RecordModel {
    /// Whether the memory fits the options: it has the mode, is still there, has all of the tags
    /// and holds the text.
    pub open spec fn fits(self, options: BrowseOptions, world: World) -> bool {
        &&& self.in_scope(options.mode, None)
        &&& self.live(world)
        &&& self.tagged(normal_tags(texts(options.tags@)))
        &&& contains_text(lower(self.content), wanted_text(options))
    }
}

/// The places of the memories that fit the options, the latest first.
pub open spec fn fitting(
    memories: Seq<RecordModel>,
    options: BrowseOptions,
    world: World,
) -> Seq<usize>
    decreases memories.len(),
{
    if memories.len() == 0 {
        Seq::empty()
    } else {
        let earlier = fitting(memories.drop_last(), options, world);
        if memories.last().fits(options, world) {
            seq![(memories.len() - 1) as usize] + earlier
        } else {
            earlier
        }
    }
}

/// Browsing shows every memory that fits the options and no other, each once and the latest first.
pub proof fn law_browsing_shows_what_fits(
    memories: Seq<RecordModel>,
    options: BrowseOptions,
    world: World,
)
    requires
        memories.len() <= usize::MAX,
    ensures
        ({
            let places = fitting(memories, options, world);
            &&& forall|k: int|
                0 <= k < places.len() ==> #[trigger] places[k] < memories.len()
                    && memories[places[k] as int].fits(options, world)
            &&& forall|k: int, l: int|
                0 <= k < l < places.len() ==> #[trigger] places[k] > #[trigger] places[l]
            &&& forall|i: int|
                0 <= i < memories.len() && (#[trigger] memories[i]).fits(options, world)
                    ==> places.contains(i as usize)
        }),
    decreases memories.len(),
{
    if memories.len() > 0 {
        let front = memories.drop_last();
        let last = memories.len() - 1;
        let earlier = fitting(front, options, world);
        let places = fitting(memories, options, world);
        law_browsing_shows_what_fits(front, options, world);
        let shift: int = places.len() - earlier.len();
        assert forall|k: int| shift <= k < places.len() implies #[trigger] places[k] < last
            && memories[places[k] as int].fits(options, world) by {
            assert(places[k] == earlier[k - shift]);
            assert(front[places[k] as int] == memories[places[k] as int]);
        }
        assert forall|k: int, l: int| 0 <= k < l < places.len() implies #[trigger] places[k]
            > #[trigger] places[l] by {
            assert(places[l] == earlier[l - shift]);
            if k >= shift {
                assert(places[k] == earlier[k - shift]);
            }
        }
        assert forall|i: int|
            0 <= i < memories.len() && (#[trigger] memories[i]).fits(
                options,
                world,
            ) implies places.contains(i as usize) by {
            if i < last {
                assert(front[i] == memories[i]);
                let k = choose|k: int| 0 <= k < earlier.len() && earlier[k] == i as usize;
                assert(places[k + shift] == i as usize);
            } else {
                assert(places[0] == i as usize);
            }
        }
    }
}

impl MemoryRecord {
    /// Whether the memory has the mode of the options, is still there, has all of `tags` and holds
    /// `text`.
    fn is_fitting(
        &self,
        options: &BrowseOptions,
        tags: &Vec<String>,
        text: &str,
        world: &World,
    ) -> (r: bool)
        requires
            texts(tags@) == normal_tags(texts(options.tags@)),
            text@ == wanted_text(*options),
        ensures
            r == self@.fits(*options, *world),
    {
        self.matches_scope(options.mode, None) && !self.is_expired(world) && self.has_tags(tags)
            && has_text(&lowered(&self.content), text)
    }
}

impl MemoryStore {
    /// The places of the memories that fit the options, the latest first.
    fn find_fitting(&self, options: &BrowseOptions, world: &World) -> (r: Vec<usize>)
        ensures
            r@ == fitting(self@.memories, *options, *world),
    {
        let tags = normalize_tags(&options.tags);
        let text = match &options.text {
            Some(text) => lowered(&trimmed(text)),
            None => "".to_owned(),
        };
        let mut out: Vec<usize> = Vec::new();
        let mut i: usize = self.memories.len();
        proof {
            assert(self@.memories.take(i as int) =~= self@.memories);
        }
        while i > 0
            invariant
                i <= self.memories@.len(),
                self@.memories.len() == self.memories@.len(),
                texts(tags@) == normal_tags(texts(options.tags@)),
                text@ == wanted_text(*options),
                out@ + fitting(self@.memories.take(i as int), *options, *world) == fitting(
                    self@.memories,
                    *options,
                    *world,
                ),
            decreases i,
        {
            let ghost before = out@;
            i = i - 1;
            let ghost earlier = fitting(self@.memories.take(i as int), *options, *world);
            proof {
                assert(self@.memories[i as int] == self.memories@[i as int]@);
                assert(self@.memories.take(i + 1).drop_last() =~= self@.memories.take(i as int));
                assert(self@.memories.take(i + 1).last() == self@.memories[i as int]);
            }
            if self.memories[i].is_fitting(options, &tags, &text, world) {
                out.push(i);
                proof {
                    assert(before + (seq![i] + earlier) =~= out@ + earlier);
                }
            }
        }
        proof {
            assert(out@ + Seq::<usize>::empty() =~= out@);
        }
        out
    }

    /// The places of the memories on a page: of those that fit the options, the latest first.
    pub fn browse(&self, options: &BrowseOptions, world: &World) -> (r: Vec<usize>)
        ensures
            r@ == page(
                fitting(self@.memories, *options, *world),
                options.offset as int,
                options.limit as int,
            ),
    {
        let all = self.find_fitting(options, world);
        let from: usize = if options.offset < all.len() {
            options.offset
        } else {
            all.len()
        };
        let to: usize = if options.limit < all.len() - from {
            from + options.limit
        } else {
            all.len()
        };
        let mut out: Vec<usize> = Vec::new();
        let mut i: usize = from;
        while i < to
            invariant
                from <= i <= to <= all@.len(),
                out@ == all@.subrange(from as int, i as int),
            decreases to - i,
        {
            out.push(all[i]);
            i = i + 1;
            proof {
                assert(out@ =~= all@.subrange(from as int, i as int));
            }
        }
        out
    }
}

} // verus!
