//! What follows from the command line.
use vstd::prelude::*;

use crate::cli::{
    command_memory, command_search, expiration_pair, optional_texts, GetCommand, SetCommand,
};
use crate::error::Failure;
use crate::model::{optional, texts, ExpirationCondition};

verus! {

/// An expiration is given as a condition and a value, both of which count as they are, or not at
/// all; anything else is refused, and so is a name that is no condition.
pub proof fn law_expirations_are_given_in_pairs(
    pair: Option<Seq<Seq<char>>>,
    list: Option<Vec<String>>,
)
    ensures
        match pair {
            None => expiration_pair(pair) == Ok::<
                (Option<ExpirationCondition>, Option<Seq<char>>),
                Failure<Seq<char>>,
            >((None, None)),
            Some(words) => if words.len() != 2 {
                expiration_pair(pair) is Err && expiration_pair(pair)->Err_0 is PairExpected
            } else if ExpirationCondition::named(words[0]) is None {
                expiration_pair(pair) == Err::<
                    (Option<ExpirationCondition>, Option<Seq<char>>),
                    Failure<Seq<char>>,
                >(Failure::InvalidCondition(words[0]))
            } else {
                expiration_pair(pair) == Ok::<
                    (Option<ExpirationCondition>, Option<Seq<char>>),
                    Failure<Seq<char>>,
                >((ExpirationCondition::named(words[0]), Some(words[1])))
            },
        },
        list is None ==> optional_texts(list) is None,
        list is Some ==> optional_texts(list) == Some(texts(list->Some_0@)),
{
}

/// The command that stores hands on what it was given, with the condition and the value that its
/// pair says.
pub proof fn law_stored_memories_are_those_of_the_command(command: SetCommand)
    ensures
        ({
            let pair = expiration_pair(optional_texts(command.expiration));
            let memory = command_memory(command);
            &&& memory is Ok <==> pair is Ok
            &&& memory is Err ==> memory->Err_0 == pair->Err_0
            &&& memory is Ok ==> {
                let input = memory->Ok_0;
                &&& input.content == command.content@
                &&& input.mode == command.mode
                &&& input.mode_ref == optional(command.mode_ref)
                &&& input.tags == texts(command.tags@)
                &&& input.expiration_condition == pair->Ok_0.0
                &&& input.expiration_value == pair->Ok_0.1
                &&& input.metadata == optional(command.metadata)
            }
        }),
{
}

/// The command that searches hands on what it was given.
pub proof fn law_searches_are_those_of_the_command(command: GetCommand)
    ensures
        command_search(command).query == command.query,
        command_search(command).positive_tags == command.positive_tags,
        command_search(command).negative_tags == command.negative_tags,
        command_search(command).limit == command.limit,
        command_search(command).offset == command.offset,
        command_search(command).mode == command.mode,
        command_search(command).mode_ref == command.mode_ref,
{
}

} // verus!
