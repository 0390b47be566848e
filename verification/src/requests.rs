//! What the two requests of a client compute from the text of the task file.
//! Reading and writing the file is the caller's part.

use crate::task_format::{
    active_name, advance_tasks, parse_tasks, serialize_tasks, FormatError, TaskList, TaskView,
};
use vstd::prelude::*;
use vstd::string::*;

verus! {

/// What a client is shown while no task is active.
pub const NO_ACTIVE_TASK: &'static str = "-";

/// The answer to a request for the current task: the name of the active
/// task, or a single hyphen where the list has none.
pub open spec fn current_task_text(tasks: Seq<TaskView>) -> Seq<char> {
    match active_name(tasks) {
        Some(name) => name,
        None => seq!['-'],
    }
}

/// Answers a request for the current task from the text of the task file.
pub fn get_current_task(contents: &str) -> (answer: Result<String, FormatError>)
    ensures
        match answer {
            Ok(name) => parse_tasks(contents@) matches Some(tasks) && name@ == current_task_text(
                tasks,
            ),
            Err(_) => parse_tasks(contents@) is None,
        },
{
    match TaskList::parse(contents) {
        Ok(list) => {
            match list.active_task() {
                Some(name) => Ok(name),
                None => {
                    proof {
                        reveal_strlit("-");
                    }
                    Ok(String::from_str(NO_ACTIVE_TASK))
                },
            }
        },
        Err(error) => Err(error),
    }
}

/// Completes the active task: from the text of the task file, the text that
/// takes its place.
pub fn mark_current_task_complete(contents: &str) -> (answer: Result<String, FormatError>)
    ensures
        match answer {
            Ok(text) => parse_tasks(contents@) matches Some(tasks) && text@ == serialize_tasks(
                advance_tasks(tasks),
            ),
            Err(_) => parse_tasks(contents@) is None,
        },
{
    match TaskList::parse(contents) {
        Ok(list) => {
            let mut list = list;
            list.advance();
            Ok(list.serialize())
        },
        Err(error) => Err(error),
    }
}

} // verus!
