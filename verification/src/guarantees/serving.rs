//! What the commands of the service store, search, list and give, for the session that it serves.
use vstd::prelude::*;

use crate::alerts::{after_alert, alerts_of, other_alerts, session_alerts};
use crate::commands::{
    command_fits, memory_asked_for, outcome_holds, search_asked_for, service_ref, Answer, Command,
    CommandName, MemoryGetPayload, MemorySetPayload, Numbers,
};
use crate::error::{Error, Failure};
use crate::guarantees::searching::{
    has_wanted, law_searches_leave_out_nothing_asked_for, law_searches_show_what_was_asked_for,
};
use crate::guarantees::storing::law_memories_are_stored_as_given;
use crate::input::{memory_fits, Environment, World};
use crate::model::{normal_tags, optional, texts, MemoryMode};
use crate::record::{RecordModel, StoreModel};
use crate::search::{all_after_retrieval, hit_results, results, shown};
use crate::store::after_set;
use crate::tags::{filtered_uses, summarizes};
use crate::text::trim;

verus! {

/// The commands of the service have one name each, and no other text names one.
pub proof fn law_commands_by_name(name: Seq<char>)
    ensures
        CommandName::named(name) == Some(CommandName::MemorySet) <==> name == "memory_set"@,
        CommandName::named(name) == Some(CommandName::MemoryGet) <==> name == "memory_get"@,
        CommandName::named(name) == Some(CommandName::ListTags) <==> name == "list_tags"@,
        CommandName::named(name) == Some(CommandName::AlertSet) <==> name == "alert_set"@,
        CommandName::named(name) == Some(CommandName::AlertsGet) <==> name == "alerts_get"@,
{
    reveal_strlit("memory_set");
    reveal_strlit("memory_get");
    reveal_strlit("list_tags");
    reveal_strlit("alert_set");
    reveal_strlit("alerts_get");
    assert("memory_set"@[7] == 's' && "memory_get"@[7] == 'g' && "alerts_get"@[7] == 'g');
    assert("memory_set"@[0] == 'm' && "memory_get"@[0] == 'm' && "alerts_get"@[0] == 'a');
    assert("list_tags"@[0] == 'l' && "alert_set"@[0] == 'a');
    assert("list_tags"@.len() == 9 && "alert_set"@.len() == 9 && "alerts_get"@.len() == 10);
    assert("memory_set"@.len() == 10 && "memory_get"@.len() == 10);
}

/// In the service a global memory has no reference, one of a workspace the current directory, and
/// one of a session the session that is served, whatever the surroundings say.
pub proof fn law_service_references_by_mode(
    session: Seq<char>,
    mode: MemoryMode,
    environment: Environment,
)
    ensures
        match mode {
            MemoryMode::Global => service_ref(session, mode, environment) == Ok::<
                Option<Seq<char>>,
                Failure<Seq<char>>,
            >(None),
            MemoryMode::Workspace => if environment.current_dir is Some {
                service_ref(session, mode, environment) == Ok::<
                    Option<Seq<char>>,
                    Failure<Seq<char>>,
                >(Some(environment.current_dir->Some_0@))
            } else {
                service_ref(session, mode, environment) is Err && service_ref(
                    session,
                    mode,
                    environment,
                )->Err_0 is NoCurrentDirectory
            },
            MemoryMode::Session => service_ref(session, mode, environment) == Ok::<
                Option<Seq<char>>,
                Failure<Seq<char>>,
            >(Some(session)),
        },
{
}

/// `memory_set` hands on what it was given, with the reference of the mode in the service; it is
/// refused where there is none.
pub proof fn law_memory_set_hands_on_its_arguments(
    session: Seq<char>,
    payload: MemorySetPayload,
    environment: Environment,
)
    ensures
        ({
            let reference = service_ref(session, payload.mode, environment);
            let asked = memory_asked_for(session, payload, environment);
            &&& asked is Ok <==> reference is Ok
            &&& asked is Err ==> asked->Err_0 == reference->Err_0
            &&& asked is Ok ==> {
                let input = asked->Ok_0;
                &&& input.content == payload.content@
                &&& input.mode == payload.mode
                &&& input.mode_ref == reference->Ok_0
                &&& input.tags == texts(payload.tags@)
                &&& input.expiration_condition == payload.expiration_condition
                &&& input.expiration_value == optional(payload.expiration_value)
                &&& input.metadata == optional(payload.metadata)
            }
        }),
{
}

/// `memory_get` hands on what it was given: the wanted tags as wanted and the unwanted as unwanted,
/// ten memories from the first on unless said otherwise, and with a mode its reference in the
/// service, without one none.
pub proof fn law_memory_get_hands_on_its_arguments(
    session: Seq<char>,
    payload: MemoryGetPayload,
    environment: Environment,
)
    ensures
        ({
            let asked = search_asked_for(session, payload, environment);
            &&& payload.mode is None ==> asked is Ok && asked->Ok_0.mode_ref is None
            &&& payload.mode is Some ==> {
                let reference = service_ref(session, payload.mode->Some_0, environment);
                &&& asked is Ok <==> reference is Ok
                &&& asked is Err ==> asked->Err_0 == reference->Err_0
                &&& asked is Ok ==> asked->Ok_0.mode_ref == reference->Ok_0
            }
            &&& asked is Ok ==> {
                let options = asked->Ok_0;
                &&& options.query == payload.query@
                &&& options.positive_tags == texts(payload.positive_tags@)
                &&& options.negative_tags == texts(payload.negative_tags@)
                &&& options.limit == if payload.limit is Some {
                    payload.limit->Some_0
                } else {
                    10usize
                }
                &&& options.offset == if payload.offset is Some {
                    payload.offset->Some_0
                } else {
                    0usize
                }
                &&& options.mode == payload.mode
            }
        }),
{
}

/// Every memory that `memory_get` gives has the mode that was asked for, where it was, with its
/// reference in the service where it has one, and every tag that was asked for, and is still there;
/// and where as many are asked for as there are, from the first on, none such is missing, whatever
/// tags are unwanted.
pub proof fn law_memory_get_gives_what_was_asked_for(
    session: Seq<char>,
    payload: MemoryGetPayload,
    world: World,
    numbers: Numbers,
    before: StoreModel,
    after: StoreModel,
    outcome: Result<Answer, Error>,
)
    requires
        before.memories.len() <= usize::MAX,
        outcome_holds(
            Command::MemoryGet(payload),
            session,
            world,
            numbers,
            before,
            after,
            outcome,
        ),
        outcome is Ok,
    ensures
        outcome->Ok_0 is Memories,
        ({
            let list = results(outcome->Ok_0->Memories_0@);
            &&& forall|k: int| 0 <= k < list.len() ==> given_by(
                before.memories,
                #[trigger] list[k].id,
                session,
                payload,
                world,
            )
            &&& payload.offset is None || payload.offset == Some(0usize) ==> payload.limit is Some
                ==> payload.limit->Some_0 >= before.memories.len() ==> forall|i: int|
                0 <= i < before.memories.len() && fits_request(
                    #[trigger] before.memories[i],
                    session,
                    payload,
                    world,
                ) ==> exists|k: int|
                    0 <= k < list.len() && (#[trigger] list[k]).id == before.memories[i].id
        }),
        after.alerts == before.alerts,
        after.last_id == before.last_id,
        after.last_alert_id == before.last_alert_id,
        after.memories.len() == before.memories.len(),
{
    let options = search_asked_for(session, payload, world.environment)->Ok_0;
    let hits = shown(before.memories, numbers.scores@, options, world);
    let list = results(outcome->Ok_0->Memories_0@);
    law_searches_show_what_was_asked_for(before.memories, numbers.scores@, options, world);
    assert forall|k: int| 0 <= k < list.len() implies given_by(
        before.memories,
        #[trigger] list[k].id,
        session,
        payload,
        world,
    ) by {
        let index = hits[k].index as int;
        assert(fits_request(before.memories[index], session, payload, world));
        assert(before.memories[index].id == list[k].id);
    }
    if (payload.offset is None || payload.offset == Some(0usize)) && payload.limit is Some
        && payload.limit->Some_0 >= before.memories.len() {
        assert forall|i: int|
            0 <= i < before.memories.len() && fits_request(
                #[trigger] before.memories[i],
                session,
                payload,
                world,
            ) implies exists|k: int|
            0 <= k < list.len() && (#[trigger] list[k]).id == before.memories[i].id by {
            law_searches_leave_out_nothing_asked_for(
                before.memories,
                numbers.scores@,
                options,
                world,
                i,
            );
            let k = choose|k: int|
                0 <= k < shown(before.memories, numbers.scores@, options, world).len() && (
                #[trigger] shown(before.memories, numbers.scores@, options, world)[k]).index == i;
            assert(list[k].id == before.memories[i].id);
        }
    }
}

/// Whether a memory is what a `memory_get` of a session asks for.
pub open spec fn fits_request(
    memory: RecordModel,
    session: Seq<char>,
    payload: MemoryGetPayload,
    world: World,
) -> bool {
    &&& payload.mode is Some ==> memory.mode == payload.mode->Some_0
    &&& payload.mode == Some(MemoryMode::Session) ==> memory.mode_ref == Some(session)
    &&& payload.mode == Some(MemoryMode::Workspace) ==> world.environment.current_dir is Some
        && memory.mode_ref == Some(world.environment.current_dir->Some_0@)
    &&& memory.live(world)
    &&& has_wanted(memory, texts(payload.positive_tags@))
}

/// Whether the memory with an identifier is what a `memory_get` of a session asks for.
pub open spec fn given_by(
    memories: Seq<RecordModel>,
    id: i64,
    session: Seq<char>,
    payload: MemoryGetPayload,
    world: World,
) -> bool {
    exists|i: int|
        0 <= i < memories.len() && (#[trigger] memories[i]).id == id && fits_request(
            memories[i],
            session,
            payload,
            world,
        )
}

/// What `memory_set` stores is what it was given, under the identifier that it gives.
pub proof fn law_memory_set_stores_what_was_given(
    session: Seq<char>,
    payload: MemorySetPayload,
    world: World,
    numbers: Numbers,
    before: StoreModel,
    after: StoreModel,
    outcome: Result<Answer, Error>,
)
    requires
        outcome_holds(
            Command::MemorySet(payload),
            session,
            world,
            numbers,
            before,
            after,
            outcome,
        ),
    ensures
        outcome is Err ==> after == before,
        outcome is Ok ==> {
            let memory = after.memories.last();
            &&& outcome->Ok_0 is Id
            &&& outcome->Ok_0->Id_0 == memory.id
            &&& memory.id == before.last_id + 1
            &&& after.memories.len() == before.memories.len() + 1
            &&& memory.content == trim(payload.content@)
            &&& memory.mode == payload.mode
            &&& memory.tags == normal_tags(texts(payload.tags@))
            &&& memory.expiration_condition == payload.expiration_condition
            &&& memory.expiration_value == optional(payload.expiration_value)
            &&& memory.metadata == optional(payload.metadata)
            &&& payload.mode == MemoryMode::Global ==> memory.mode_ref is None
            &&& payload.mode == MemoryMode::Session && trim(session).len() > 0 ==> memory.mode_ref
                == Some(trim(session))
        },
{
    if outcome is Ok {
        let input = memory_asked_for(session, payload, world.environment)->Ok_0;
        law_memories_are_stored_as_given(before, input, numbers.similarities@, world);
    }
}

/// `list_tags` lists the tags that pass its filter and changes nothing.
pub proof fn law_list_tags_lists_by_its_filter(
    session: Seq<char>,
    filter: Option<String>,
    world: World,
    numbers: Numbers,
    before: StoreModel,
    after: StoreModel,
    outcome: Result<Answer, Error>,
)
    requires
        outcome_holds(
            Command::ListTags { filter },
            session,
            world,
            numbers,
            before,
            after,
            outcome,
        ),
    ensures
        after == before,
        outcome is Ok,
        outcome->Ok_0 is Tags,
        summarizes(
            outcome->Ok_0->Tags_0@,
            filtered_uses(before.memories, optional(filter), numbers.similar_tags@, world),
        ),
{
}

/// `alert_set` leaves its alert for the session that is served, and `alerts_get` gives those of that
/// session, once: what was left is the last that is then given, and nothing is given again.
pub proof fn law_alerts_of_the_session_are_given_once(
    session: Seq<char>,
    content: String,
    world: World,
    numbers: Numbers,
    start: StoreModel,
    left: StoreModel,
    first: Result<Answer, Error>,
    taken: StoreModel,
    second: Result<Answer, Error>,
    end: StoreModel,
    third: Result<Answer, Error>,
)
    requires
        outcome_holds(Command::AlertSet { content }, session, world, numbers, start, left, first),
        outcome_holds(Command::AlertsGet, session, world, numbers, left, taken, second),
        outcome_holds(Command::AlertsGet, session, world, numbers, taken, end, third),
        first is Ok,
    ensures
        first->Ok_0 is Id && first->Ok_0->Id_0 == start.last_alert_id + 1,
        second is Ok && second->Ok_0 is Alerts,
        third is Ok && third->Ok_0 is Alerts,
        ({
            let given = alerts_of(second->Ok_0->Alerts_0@);
            &&& given.len() == session_alerts(start.alerts, trim(session)).len() + 1
            &&& given.drop_last() == session_alerts(start.alerts, trim(session))
            &&& given.last().session_ref == trim(session)
            &&& given.last().content == trim(content@)
        }),
        third->Ok_0->Alerts_0@.len() == 0,
        end.memories == start.memories,
{
    let alert = left.alerts.last();
    assert(left.alerts =~= start.alerts.push(alert));
    crate::guarantees::alerting::law_alerts_go_to_their_session_in_order(
        start.alerts,
        alert,
        trim(session),
    );
    let given = alerts_of(second->Ok_0->Alerts_0@);
    assert(given.drop_last() =~= session_alerts(start.alerts, trim(session)));
    let other = trim(session).push(' ');
    assert(other.len() != trim(session).len());
    crate::laws::law_alerts_are_given_once(left.alerts, trim(session), other);
    assert(alerts_of(third->Ok_0->Alerts_0@).len() == third->Ok_0->Alerts_0@.len());
}

/// A command fails for what is wrong with its arguments and for nothing else, and then leaves the
/// store as it was; every other is carried out.
pub proof fn law_commands_fail_for_a_reason(
    command: Command,
    session: Seq<char>,
    world: World,
    numbers: Numbers,
    before: StoreModel,
    after: StoreModel,
    outcome: Result<Answer, Error>,
)
    requires
        outcome_holds(command, session, world, numbers, before, after, outcome),
    ensures
        outcome is Err ==> after == before,
        match command {
            Command::MemorySet(payload) => {
                let asked = memory_asked_for(session, payload, world.environment);
                let stored = after_set(before, asked->Ok_0, numbers.similarities@, world);
                &&& outcome is Ok <==> asked is Ok && stored is Ok
                &&& asked is Err ==> outcome->Err_0@ == asked->Err_0
                &&& asked is Ok && stored is Err ==> outcome->Err_0@ == stored->Err_0
                &&& outcome is Ok ==> after == stored->Ok_0
            },
            Command::MemoryGet(payload) => {
                let asked = search_asked_for(session, payload, world.environment);
                let hits = shown(before.memories, numbers.scores@, asked->Ok_0, world);
                &&& outcome is Ok <==> asked is Ok
                &&& asked is Err ==> outcome->Err_0@ == asked->Err_0
                &&& outcome is Ok ==> outcome->Ok_0 is Memories && results(
                    outcome->Ok_0->Memories_0@,
                ) == hit_results(before.memories, hits)
                &&& outcome is Ok ==> after.memories == all_after_retrieval(before.memories, hits)
            },
            Command::ListTags { .. } => outcome is Ok,
            Command::AlertSet { content } => {
                let left = after_alert(before, session, content@);
                &&& outcome is Ok <==> left is Ok
                &&& left is Err ==> outcome->Err_0@ == left->Err_0
                &&& left is Ok ==> after == left->Ok_0
            },
            Command::AlertsGet => {
                &&& outcome is Ok <==> trim(session).len() > 0
                &&& outcome is Err ==> outcome->Err_0@ == Failure::EmptyField(
                    "alert session_ref"@,
                )
                &&& outcome is Ok ==> outcome->Ok_0 is Alerts && alerts_of(
                    outcome->Ok_0->Alerts_0@,
                ) == session_alerts(before.alerts, trim(session))
                &&& outcome is Ok ==> after.alerts == other_alerts(before.alerts, trim(session))
                    && after.memories == before.memories && after.last_id == before.last_id
                    && after.last_alert_id == before.last_alert_id
            },
        },
{
}

/// A command can run where there is a number for each memory that it goes by, and its time, where
/// it stores with one, can be looked at.
pub proof fn law_commands_need_a_number_for_each_memory(
    command: Command,
    session: Seq<char>,
    environment: Environment,
    store: StoreModel,
    numbers: Numbers,
)
    ensures
        command_fits(command, session, environment, store, numbers) <==> match command {
            Command::MemorySet(payload) => memory_asked_for(session, payload, environment) is Ok ==> (
            numbers.similarities@.len() == store.memories.len() && memory_fits(
                memory_asked_for(session, payload, environment)->Ok_0,
                environment,
            )),
            Command::MemoryGet(payload) => search_asked_for(session, payload, environment) is Ok
                ==> numbers.scores@.len() == store.memories.len(),
            _ => true,
        },
{
}

} // verus!
