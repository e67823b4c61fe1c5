//! The modes that memories are stored under, the conditions that they expire on, and tags.
use vstd::prelude::*;

use crate::error::{Error, Failure};
use crate::text::{lowered, same_text, trimmed};

verus! {

/// Where a memory belongs.
#[derive(Debug, Clone, Copy, PartialEq, Eq, Structural)]
pub enum MemoryMode {
    Global,
    Workspace,
    Session,
}

impl Default for MemoryMode {
    fn default() -> (r: Self)
        ensures
            r == MemoryMode::Global,
    {
        MemoryMode::Global
    }
}

impl MemoryMode {
    /// The name of the mode.
    pub open spec fn name(self) -> Seq<char> {
        match self {
            MemoryMode::Global => "global"@,
            MemoryMode::Workspace => "workspace"@,
            MemoryMode::Session => "session"@,
        }
    }

    /// The mode that `value` names, whatever its case and the white space around it.
    pub open spec fn named(value: Seq<char>) -> Option<MemoryMode> {
        let name = crate::text::lower(crate::text::trim(value));
        if name == "global"@ {
            Some(MemoryMode::Global)
        } else if name == "workspace"@ {
            Some(MemoryMode::Workspace)
        } else if name == "session"@ {
            Some(MemoryMode::Session)
        } else {
            None
        }
    }

    /// The name of the mode.
    pub fn as_str(self) -> (r: &'static str)
        ensures
            r@ == self.name(),
    {
        match self {
            MemoryMode::Global => "global",
            MemoryMode::Workspace => "workspace",
            MemoryMode::Session => "session",
        }
    }

    /// The mode that `value` names, whatever its case and the white space around it.
    pub fn from_str(value: &str) -> (r: Result<Self, Error>)
        ensures
            match Self::named(value@) {
                Some(mode) => r == Ok::<Self, Error>(mode),
                None => r matches Err(e) && e@ == Failure::UnsupportedMode(
                    crate::text::lower(crate::text::trim(value@)),
                ),
            },
    {
        let name = lowered(&trimmed(value));
        if same_text(&name, "global") {
            Ok(MemoryMode::Global)
        } else if same_text(&name, "workspace") {
            Ok(MemoryMode::Workspace)
        } else if same_text(&name, "session") {
            Ok(MemoryMode::Session)
        } else {
            Err(Failure::UnsupportedMode(name))
        }
    }
}

/// What a memory's lifetime hangs on.
#[derive(Debug, Clone, Copy, PartialEq, Eq, Structural)]
pub enum ExpirationCondition {
    Time,
    Usage,
    FileExist,
    FilePristine,
    Period,
}

impl ExpirationCondition {
    /// The name of the condition.
    pub open spec fn name(self) -> Seq<char> {
        match self {
            ExpirationCondition::Time => "time"@,
            ExpirationCondition::Usage => "usage"@,
            ExpirationCondition::FileExist => "file_exist"@,
            ExpirationCondition::FilePristine => "file_pristine"@,
            ExpirationCondition::Period => "period"@,
        }
    }

    /// The condition that `value` names, whatever its case and the white space around it. The
    /// two conditions on files may be written with a hyphen.
    pub open spec fn named(value: Seq<char>) -> Option<ExpirationCondition> {
        let name = crate::text::lower(crate::text::trim(value));
        if name == "time"@ {
            Some(ExpirationCondition::Time)
        } else if name == "usage"@ {
            Some(ExpirationCondition::Usage)
        } else if name == "file_exist"@ || name == "file-exist"@ {
            Some(ExpirationCondition::FileExist)
        } else if name == "file_pristine"@ || name == "file-pristine"@ {
            Some(ExpirationCondition::FilePristine)
        } else if name == "period"@ {
            Some(ExpirationCondition::Period)
        } else {
            None
        }
    }

    /// The name of the condition.
    pub fn as_str(self) -> (r: &'static str)
        ensures
            r@ == self.name(),
    {
        match self {
            ExpirationCondition::Time => "time",
            ExpirationCondition::Usage => "usage",
            ExpirationCondition::FileExist => "file_exist",
            ExpirationCondition::FilePristine => "file_pristine",
            ExpirationCondition::Period => "period",
        }
    }

    /// The condition that `value` names, whatever its case and the white space around it.
    pub fn from_str(value: &str) -> (r: Result<Self, Error>)
        ensures
            match Self::named(value@) {
                Some(condition) => r == Ok::<Self, Error>(condition),
                None => r matches Err(e) && e@ == Failure::UnsupportedCondition(
                    crate::text::lower(crate::text::trim(value@)),
                ),
            },
    {
        let name = lowered(&trimmed(value));
        if same_text(&name, "time") {
            Ok(ExpirationCondition::Time)
        } else if same_text(&name, "usage") {
            Ok(ExpirationCondition::Usage)
        } else if same_text(&name, "file_exist") || same_text(&name, "file-exist") {
            Ok(ExpirationCondition::FileExist)
        } else if same_text(&name, "file_pristine") || same_text(&name, "file-pristine") {
            Ok(ExpirationCondition::FilePristine)
        } else if same_text(&name, "period") {
            Ok(ExpirationCondition::Period)
        } else {
            Err(Failure::UnsupportedCondition(name))
        }
    }
}

/// The texts of a list of strings.
pub open spec fn texts(list: Seq<String>) -> Seq<Seq<char>> {
    list.map_values(|text: String| text@)
}

/// The text of an optional string.
pub open spec fn optional(text: Option<String>) -> Option<Seq<char>> {
    match text {
        Some(text) => Some(text@),
        None => None,
    }
}

/// The normal form of a tag: trimmed and in small letters.
pub open spec fn normal_tag(tag: Seq<char>) -> Seq<char> {
    crate::text::lower(crate::text::trim(tag))
}

/// The normal forms of `tags`, each where it first comes up, without blank ones.
pub open spec fn normal_tags(tags: Seq<Seq<char>>) -> Seq<Seq<char>>
    decreases tags.len(),
{
    if tags.len() == 0 {
        Seq::empty()
    } else {
        let front = normal_tags(tags.drop_last());
        let tag = normal_tag(tags.last());
        if tag.len() == 0 || front.contains(tag) {
            front
        } else {
            front.push(tag)
        }
    }
}

/// Whether `tag` is one of `tags`.
pub fn has_tag(tags: &Vec<String>, tag: &str) -> (r: bool)
    ensures
        r == texts(tags@).contains(tag@),
{
    let mut i: usize = 0;
    while i < tags.len()
        invariant
            i <= tags@.len(),
            forall|j: int| 0 <= j < i ==> #[trigger] texts(tags@)[j] != tag@,
        decreases tags@.len() - i,
    {
        if same_text(&tags[i], tag) {
            proof {
                assert(texts(tags@)[i as int] == tag@);
            }
            return true;
        }
        i = i + 1;
    }
    false
}

/// The tags in normal form: trimmed, in small letters, without blank ones and without
/// repetitions, in the order in which each first comes up.
pub fn normalize_tags(tags: &[String]) -> (r: Vec<String>)
    ensures
        texts(r@) == normal_tags(texts(tags@)),
{
    let mut normalized: Vec<String> = Vec::new();
    let mut i: usize = 0;
    proof {
        assert(texts(tags@).take(0) =~= Seq::empty());
        assert(texts(normalized@) =~= Seq::empty());
    }
    while i < tags.len()
        invariant
            i <= tags@.len(),
            texts(normalized@) == normal_tags(texts(tags@).take(i as int)),
        decreases tags@.len() - i,
    {
        let tag = lowered(&trimmed(&tags[i]));
        proof {
            assert(texts(tags@).take(i + 1).drop_last() =~= texts(tags@).take(i as int));
            assert(texts(tags@).take(i + 1).last() == tags@[i as int]@);
        }
        let repeated = has_tag(&normalized, &tag);
        i = i + 1;
        if tag.as_str().is_empty() || repeated {
            continue;
        }
        let ghost before = normalized@;
        normalized.push(tag);
        proof {
            assert(texts(normalized@) =~= texts(before).push(tag@));
        }
    }
    proof {
        assert(texts(tags@).take(i as int) =~= texts(tags@));
    }
    normalized
}

/// Normal tags are not blank, in normal form, and all different; and a tag is among them
/// exactly where some given tag has it as its normal form.
pub proof fn law_normal_tags(tags: Seq<Seq<char>>)
    ensures
        normal_tags(tags).no_duplicates(),
        normal_tags(tags).len() <= tags.len(),
        forall|tag: Seq<char>|
            #[trigger] normal_tags(tags).contains(tag) <==> tag.len() > 0 && exists|i: int|
                0 <= i < tags.len() && normal_tag(#[trigger] tags[i]) == tag,
        forall|i: int|
            0 <= i < normal_tags(tags).len() ==> normal_tag(#[trigger] normal_tags(tags)[i])
                == normal_tags(tags)[i],
    decreases tags.len(),
{
    if tags.len() > 0 {
        let shorter = tags.drop_last();
        let front = normal_tags(shorter);
        let last = normal_tag(tags.last());
        let all = normal_tags(tags);
        law_normal_tags(shorter);
        law_normal_tag_twice(tags.last());
        assert forall|tag: Seq<char>| #[trigger] all.contains(tag) <==> tag.len() > 0 && exists|
            i: int,
        |
            0 <= i < tags.len() && normal_tag(#[trigger] tags[i]) == tag by {
            assert(front.contains(tag) <==> tag.len() > 0 && exists|i: int|
                0 <= i < shorter.len() && normal_tag(#[trigger] shorter[i]) == tag);
            if all.contains(tag) {
                if front.contains(tag) {
                    let i = choose|i: int|
                        0 <= i < shorter.len() && normal_tag(#[trigger] shorter[i]) == tag;
                    assert(normal_tag(tags[i]) == tag);
                } else {
                    assert(tag == last);
                    assert(normal_tag(tags[tags.len() - 1]) == tag);
                }
            }
            if tag.len() > 0 && exists|i: int|
                0 <= i < tags.len() && normal_tag(#[trigger] tags[i]) == tag {
                let i = choose|i: int|
                    0 <= i < tags.len() && normal_tag(#[trigger] tags[i]) == tag;
                if i < shorter.len() {
                    assert(normal_tag(shorter[i]) == tag);
                    assert(front.contains(tag));
                    let k = choose|k: int| 0 <= k < front.len() && front[k] == tag;
                    assert(all[k] == tag);
                } else if !front.contains(last) {
                    assert(all[all.len() - 1] == tag);
                }
            }
        }
        assert forall|i: int| 0 <= i < all.len() implies normal_tag(#[trigger] all[i])
            == all[i] by {
            if i < front.len() {
                assert(all[i] == front[i]);
            }
        }
    }
}

/// The normal form of a normal form is itself.
pub proof fn law_normal_tag_twice(tag: Seq<char>)
    ensures
        normal_tag(normal_tag(tag)) == normal_tag(tag),
{
    crate::text::law_lower(crate::text::trim(tag));
    crate::text::law_trim_twice(tag);
}

/// Normalizing again changes nothing.
pub proof fn law_normal_tags_twice(tags: Seq<Seq<char>>)
    ensures
        normal_tags(normal_tags(tags)) == normal_tags(tags),
{
    law_normal_tags(tags);
    let all = normal_tags(tags);
    assert forall|i: int| 0 <= i < all.len() implies (#[trigger] all[i]).len() > 0 by {
        assert(all.contains(all[i]));
    }
    lemma_normal_tags_kept(all);
}

proof fn lemma_normal_tags_kept(tags: Seq<Seq<char>>)
    requires
        tags.no_duplicates(),
        forall|i: int| 0 <= i < tags.len() ==> (#[trigger] tags[i]).len() > 0,
        forall|i: int| 0 <= i < tags.len() ==> normal_tag(#[trigger] tags[i]) == tags[i],
    ensures
        normal_tags(tags) == tags,
    decreases tags.len(),
{
    if tags.len() > 0 {
        let shorter = tags.drop_last();
        assert forall|i: int| 0 <= i < shorter.len() implies (#[trigger] shorter[i]).len() > 0
            && normal_tag(shorter[i]) == shorter[i] by {
            assert(shorter[i] == tags[i]);
        }
        lemma_normal_tags_kept(shorter);
        assert(normal_tag(tags.last()) == tags.last());
        assert(tags =~= shorter.push(tags.last()));
    } else {
        assert(tags =~= Seq::empty());
    }
}

/// Every mode is read back from its name.
pub proof fn law_mode_names(mode: MemoryMode)
    ensures
        MemoryMode::named(mode.name()) == Some(mode),
{
    reveal_strlit("global");
    reveal_strlit("workspace");
    reveal_strlit("session");
    lemma_normal_name(mode.name());
    assert("global"@.len() != "workspace"@.len());
    assert("global"@.len() != "session"@.len());
    assert("workspace"@.len() != "session"@.len());
}

/// Every condition is read back from its name.
pub proof fn law_condition_names(condition: ExpirationCondition)
    ensures
        ExpirationCondition::named(condition.name()) == Some(condition),
{
    reveal_strlit("time");
    reveal_strlit("usage");
    reveal_strlit("file_exist");
    reveal_strlit("file-exist");
    reveal_strlit("file_pristine");
    reveal_strlit("file-pristine");
    reveal_strlit("period");
    lemma_normal_name(condition.name());
    assert("time"@[0] != "usage"@[0]);
    assert("file_exist"@.len() != "file_pristine"@.len());
}

proof fn lemma_normal_name(name: Seq<char>)
    requires
        name.len() > 0,
        forall|i: int| 0 <= i < name.len() ==> 'a' <= #[trigger] name[i] <= 'z' || name[i] == '_',
    ensures
        crate::text::lower(crate::text::trim(name)) == name,
{
    crate::text::lemma_trim_keeps(name);
    assert(crate::text::lower(name) =~= name);
}

} // verus!
