//! What callers hand in to store, search and list memories, and its normal form.
use vstd::prelude::*;

use crate::error::{Error, Failure};
use crate::expiration::{validate_expiration, validation};
use crate::files::Files;
use crate::model::{normal_tags, normalize_tags, optional, texts, ExpirationCondition, MemoryMode};
use crate::text::trimmed;
use crate::time::{duration_fits, fits_duration, Instant};

verus! {

/// What the surroundings of the program say: the current directory, and the session that each of
/// two variables names.
#[derive(Debug)]
pub struct Environment {
    pub current_dir: Option<String>,
    pub session: Option<String>,
    pub mcp_session: Option<String>,
}

/// The state of the world that an operation runs in.
#[derive(Debug)]
pub struct World {
    pub now: Instant,
    pub files: Files,
    pub environment: Environment,
}

/// A memory to be stored.
#[derive(Debug)]
pub struct SetMemory {
    pub content: String,
    pub mode: MemoryMode,
    pub mode_ref: Option<String>,
    pub tags: Vec<String>,
    pub expiration_condition: Option<ExpirationCondition>,
    pub expiration_value: Option<String>,
    pub metadata: Option<String>,
}

/// What a `SetMemory` says.
#[verifier::ext_equal]
pub struct SetModel {
    pub content: Seq<char>,
    pub mode: MemoryMode,
    pub mode_ref: Option<Seq<char>>,
    pub tags: Seq<Seq<char>>,
    pub expiration_condition: Option<ExpirationCondition>,
    pub expiration_value: Option<Seq<char>>,
    pub metadata: Option<Seq<char>>,
}

impl View for SetMemory {
    type V = SetModel;

    open spec fn view(&self) -> SetModel {
        SetModel {
            content: self.content@,
            mode: self.mode,
            mode_ref: optional(self.mode_ref),
            tags: texts(self.tags@),
            expiration_condition: self.expiration_condition,
            expiration_value: optional(self.expiration_value),
            metadata: optional(self.metadata),
        }
    }
}

impl Clone for SetMemory {
    fn clone(&self) -> (r: Self)
        ensures
            r@ == self@,
    {
        SetMemory {
            content: self.content.clone(),
            mode: self.mode,
            mode_ref: copy_optional(&self.mode_ref),
            tags: copy_texts(&self.tags),
            expiration_condition: self.expiration_condition,
            expiration_value: copy_optional(&self.expiration_value),
            metadata: copy_optional(&self.metadata),
        }
    }
}

/// A search for memories.
#[derive(Debug)]
pub struct SearchOptions {
    pub query: String,
    pub positive_tags: Vec<String>,
    pub negative_tags: Vec<String>,
    pub limit: usize,
    pub offset: usize,
    pub mode: Option<MemoryMode>,
    pub mode_ref: Option<String>,
}

/// What a `SearchOptions` says.
#[verifier::ext_equal]
pub struct SearchModel {
    pub query: Seq<char>,
    pub positive_tags: Seq<Seq<char>>,
    pub negative_tags: Seq<Seq<char>>,
    pub limit: usize,
    pub offset: usize,
    pub mode: Option<MemoryMode>,
    pub mode_ref: Option<Seq<char>>,
}

impl View for SearchOptions {
    type V = SearchModel;

    open spec fn view(&self) -> SearchModel {
        SearchModel {
            query: self.query@,
            positive_tags: texts(self.positive_tags@),
            negative_tags: texts(self.negative_tags@),
            limit: self.limit,
            offset: self.offset,
            mode: self.mode,
            mode_ref: optional(self.mode_ref),
        }
    }
}

impl Clone for SearchOptions {
    fn clone(&self) -> (r: Self)
        ensures
            r@ == self@,
    {
        SearchOptions {
            query: self.query.clone(),
            positive_tags: copy_texts(&self.positive_tags),
            negative_tags: copy_texts(&self.negative_tags),
            limit: self.limit,
            offset: self.offset,
            mode: self.mode,
            mode_ref: copy_optional(&self.mode_ref),
        }
    }
}

impl Default for SearchOptions {
    fn default() -> (r: Self)
        ensures
            r@ == (SearchModel {
                query: Seq::empty(),
                positive_tags: Seq::empty(),
                negative_tags: Seq::empty(),
                limit: 10,
                offset: 0,
                mode: None,
                mode_ref: None,
            }),
    {
        let r = SearchOptions {
            query: String::new(),
            positive_tags: Vec::new(),
            negative_tags: Vec::new(),
            limit: 10,
            offset: 0,
            mode: None,
            mode_ref: None,
        };
        proof {
            assert(texts(r.positive_tags@) =~= Seq::empty());
            assert(texts(r.negative_tags@) =~= Seq::empty());
        }
        r
    }
}

/// The reference that goes with a mode: none for the global mode, else the given one unless it is
/// blank, else what the surroundings say.
pub open spec fn inferred_ref(
    mode: MemoryMode,
    explicit: Option<Seq<char>>,
    environment: Environment,
) -> Result<Option<Seq<char>>, Failure<Seq<char>>> {
    if mode == MemoryMode::Global {
        Ok(None)
    } else {
        match given_ref(explicit) {
            Some(given) => Ok(Some(given)),
            None => match mode {
                MemoryMode::Workspace => match environment.current_dir {
                    Some(directory) => Ok(Some(directory@)),
                    None => Err(Failure::NoCurrentDirectory),
                },
                _ => Ok(Some(environment_session(environment))),
            },
        }
    }
}

/// A given reference without the white space around it, unless it is blank.
pub open spec fn given_ref(explicit: Option<Seq<char>>) -> Option<Seq<char>> {
    match explicit {
        Some(text) => crate::time::unless_blank(text),
        None => None,
    }
}

/// The session that the surroundings name, else `default`.
pub open spec fn environment_session(environment: Environment) -> Seq<char> {
    match environment.session {
        Some(session) => session@,
        None => match environment.mcp_session {
            Some(session) => session@,
            None => "default"@,
        },
    }
}

/// Whether a result with an optional text is what a contract says of it.
pub open spec fn text_agrees(
    r: Result<Option<String>, Error>,
    expected: Result<Option<Seq<char>>, Failure<Seq<char>>>,
) -> bool {
    crate::files::fingerprint_agrees(r, expected)
}

/// A copy of an optional text.
pub fn copy_optional(text: &Option<String>) -> (r: Option<String>)
    ensures
        optional(r) == optional(*text),
{
    match text {
        Some(text) => Some(text.clone()),
        None => None,
    }
}

/// A copy of a list of texts.
pub fn copy_texts(list: &Vec<String>) -> (r: Vec<String>)
    ensures
        texts(r@) == texts(list@),
{
    let mut out: Vec<String> = Vec::new();
    let mut i: usize = 0;
    proof {
        assert(texts(out@) =~= texts(list@).take(0));
    }
    while i < list.len()
        invariant
            i <= list@.len(),
            texts(out@) == texts(list@).take(i as int),
        decreases list@.len() - i,
    {
        let ghost before = out@;
        out.push(list[i].clone());
        i = i + 1;
        proof {
            assert(texts(out@) =~= texts(before).push(list@[i - 1]@));
            assert(texts(list@).take(i as int) =~= texts(list@).take(i - 1).push(
                texts(list@)[i - 1],
            ));
        }
    }
    proof {
        assert(texts(list@).take(i as int) =~= texts(list@));
    }
    out
}

/// The optional text, borrowed.
pub fn borrow_optional(text: &Option<String>) -> (r: Option<&str>)
    ensures
        crate::expiration::borrowed(r) == optional(*text),
{
    match text {
        Some(text) => Some(text.as_str()),
        None => None,
    }
}

/// The reference that goes with a mode.
pub fn infer_mode_ref(
    mode: MemoryMode,
    explicit: Option<String>,
    environment: &Environment,
) -> (r: Result<Option<String>, Error>)
    ensures
        text_agrees(r, inferred_ref(mode, optional(explicit), *environment)),
{
    if mode == MemoryMode::Global {
        return Ok(None);
    }
    if let Some(explicit) = explicit {
        let explicit = trimmed(&explicit);
        if !explicit.as_str().is_empty() {
            return Ok(Some(explicit));
        }
    }
    match mode {
        MemoryMode::Global => Ok(None),
        MemoryMode::Workspace => match &environment.current_dir {
            Some(directory) => Ok(Some(directory.clone())),
            None => Err(Failure::NoCurrentDirectory),
        },
        MemoryMode::Session => match &environment.session {
            Some(session) => Ok(Some(session.clone())),
            None => match &environment.mcp_session {
                Some(session) => Ok(Some(session.clone())),
                None => Ok(Some("default".to_owned())),
            },
        },
    }
}

/// What is said of an expiration condition and its value together.
pub open spec fn expiration_check(
    condition: Option<ExpirationCondition>,
    value: Option<Seq<char>>,
) -> Result<(), Failure<Seq<char>>> {
    match (condition, value) {
        (Some(condition), Some(value)) => validation(condition, value),
        (Some(condition), None) => Err(Failure::ValueMissing(condition)),
        (None, Some(_)) => Err(Failure::ConditionMissing),
        (None, None) => Ok(()),
    }
}

/// The normal form of a memory to be stored: trimmed content, normal tags and the reference that
/// goes with the mode. It must have content and a tag, and its expiration must be valid.
pub open spec fn normal_memory(input: SetModel, environment: Environment) -> Result<
    SetModel,
    Failure<Seq<char>>,
> {
    let content = crate::text::trim(input.content);
    let tags = normal_tags(input.tags);
    if content.len() == 0 {
        Err(Failure::EmptyContent)
    } else if tags.len() == 0 {
        Err(Failure::NoTags)
    } else {
        match inferred_ref(input.mode, input.mode_ref, environment) {
            Err(failure) => Err(failure),
            Ok(mode_ref) => match expiration_check(
                input.expiration_condition,
                input.expiration_value,
            ) {
                Err(failure) => Err(failure),
                Ok(_) => Ok(SetModel { content, tags, mode_ref, ..input }),
            },
        }
    }
}

/// Whether a duration among what is given, if there is one, is not too long.
pub open spec fn expiration_fits(
    condition: Option<ExpirationCondition>,
    value: Option<Seq<char>>,
) -> bool {
    condition == Some(ExpirationCondition::Time) ==> (value matches Some(value) ==> duration_fits(
        value,
    ))
}

/// Whether a duration that is looked at, in a memory to be stored, is not too long: it is looked at
/// where the memory has content, a tag and its reference.
pub open spec fn memory_fits(input: SetModel, environment: Environment) -> bool {
    crate::text::trim(input.content).len() > 0 && normal_tags(input.tags).len() > 0 && inferred_ref(
        input.mode,
        input.mode_ref,
        environment,
    ) is Ok ==> expiration_fits(input.expiration_condition, input.expiration_value)
}

/// Whether a duration that is looked at, in a memory to be stored, is not too long.
pub fn set_memory_fits(input: &SetMemory, environment: &Environment) -> (r: bool)
    ensures
        r == memory_fits(input@, *environment),
{
    let fits = match (input.expiration_condition, &input.expiration_value) {
        (Some(ExpirationCondition::Time), Some(value)) => fits_duration(value),
        _ => true,
    };
    if fits || trimmed(&input.content).as_str().is_empty() {
        return true;
    }
    let tags = normalize_tags(input.tags.as_slice());
    proof {
        assert(texts(tags@).len() == tags@.len());
    }
    if tags.len() == 0 {
        return true;
    }
    match infer_mode_ref(input.mode, copy_optional(&input.mode_ref), environment) {
        Ok(_) => false,
        Err(_) => true,
    }
}

/// The normal form of a memory to be stored.
pub fn normalize_set_memory(input: SetMemory, environment: &Environment) -> (r: Result<
    SetMemory,
    Error,
>)
    requires
        memory_fits(input@, *environment),
    ensures
        match r {
            Ok(memory) => normal_memory(input@, *environment) == Ok::<
                SetModel,
                Failure<Seq<char>>,
            >(memory@),
            Err(error) => normal_memory(input@, *environment) == Err::<
                SetModel,
                Failure<Seq<char>>,
            >(error@),
        },
{
    let content = trimmed(&input.content);
    if content.as_str().is_empty() {
        return Err(Failure::EmptyContent);
    }
    let tags = normalize_tags(input.tags.as_slice());
    if tags.len() == 0 {
        proof {
            assert(texts(tags@).len() == 0);
        }
        return Err(Failure::NoTags);
    }
    proof {
        assert(texts(tags@).len() == tags@.len());
    }
    let mode_ref = match infer_mode_ref(input.mode, input.mode_ref, environment) {
        Ok(mode_ref) => mode_ref,
        Err(error) => return Err(error),
    };
    match (input.expiration_condition, &input.expiration_value) {
        (Some(condition), Some(value)) => match validate_expiration(condition, value) {
            Ok(_) => {},
            Err(error) => return Err(error),
        },
        (Some(condition), None) => return Err(Failure::ValueMissing(condition)),
        (None, Some(_)) => return Err(Failure::ConditionMissing),
        (None, None) => {},
    }
    Ok(
        SetMemory {
            content,
            mode: input.mode,
            mode_ref,
            tags,
            expiration_condition: input.expiration_condition,
            expiration_value: input.expiration_value,
            metadata: input.metadata,
        },
    )
}

/// A required text without the white space around it; a blank one is refused by its name.
pub fn normalize_required_text(value: String, field: &str) -> (r: Result<String, Error>)
    ensures
        match r {
            Ok(text) => text@ == crate::text::trim(value@) && text@.len() > 0,
            Err(error) => crate::text::trim(value@).len() == 0 && error@ == Failure::EmptyField(
                field@,
            ),
        },
{
    let text = trimmed(&value);
    if text.as_str().is_empty() {
        return Err(Failure::EmptyField(field.to_owned()));
    }
    Ok(text)
}

/// The normal form of a search: trimmed query, normal tags and a limit of one or more.
pub open spec fn normal_search(options: SearchModel) -> SearchModel {
    SearchModel {
        query: crate::text::trim(options.query),
        positive_tags: normal_tags(options.positive_tags),
        negative_tags: normal_tags(options.negative_tags),
        limit: if options.limit == 0 {
            1
        } else {
            options.limit
        },
        ..options
    }
}

/// The normal form of a search.
pub fn normalize_search_options(options: SearchOptions) -> (r: SearchOptions)
    ensures
        r@ == normal_search(options@),
{
    SearchOptions {
        query: trimmed(&options.query),
        positive_tags: normalize_tags(options.positive_tags.as_slice()),
        negative_tags: normalize_tags(options.negative_tags.as_slice()),
        limit: if options.limit == 0 {
            1
        } else {
            options.limit
        },
        offset: options.offset,
        mode: options.mode,
        mode_ref: options.mode_ref,
    }
}

/// A global memory has no reference, whatever was given.
pub proof fn law_global_has_no_reference(explicit: Option<Seq<char>>, environment: Environment)
    ensures
        inferred_ref(MemoryMode::Global, explicit, environment) == Ok::<
            Option<Seq<char>>,
            Failure<Seq<char>>,
        >(None),
{
}

/// A given reference that is not blank counts before the surroundings.
pub proof fn law_given_reference_counts_first(
    mode: MemoryMode,
    explicit: Seq<char>,
    environment: Environment,
)
    requires
        mode != MemoryMode::Global,
        crate::text::trim(explicit).len() > 0,
    ensures
        inferred_ref(mode, Some(explicit), environment) == Ok::<
            Option<Seq<char>>,
            Failure<Seq<char>>,
        >(Some(crate::text::trim(explicit))),
{
}

/// The normal form of a memory is in normal form: normalizing it again changes nothing. A reference
/// taken from the surroundings is left out where it has white space around it.
pub proof fn law_normal_memory_twice(input: SetModel, environment: Environment)
    requires
        normal_memory(input, environment) is Ok,
        normal_memory(input, environment)->Ok_0.mode_ref matches Some(reference) ==> (
        crate::text::trim(reference) == reference || crate::text::trim(reference).len() == 0),
    ensures
        normal_memory(normal_memory(input, environment)->Ok_0, environment) == normal_memory(
            input,
            environment,
        ),
{
    let once = normal_memory(input, environment)->Ok_0;
    crate::text::law_trim_twice(input.content);
    crate::model::law_normal_tags_twice(input.tags);
    if let Some(explicit) = input.mode_ref {
        crate::text::law_trim_twice(explicit);
    }
    assert(inferred_ref(once.mode, once.mode_ref, environment) == inferred_ref(
        input.mode,
        input.mode_ref,
        environment,
    ));
}

/// The normal form of a search is in normal form, and asks for one memory or more.
pub proof fn law_normal_search_twice(options: SearchModel)
    ensures
        normal_search(normal_search(options)) == normal_search(options),
        normal_search(options).limit >= 1,
{
    crate::text::law_trim_twice(options.query);
    crate::model::law_normal_tags_twice(options.positive_tags);
    crate::model::law_normal_tags_twice(options.negative_tags);
}

} // verus!
