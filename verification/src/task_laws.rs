//! What holds of the task file's format and of advancing a list.

use crate::task_format::{
    active_name, advance_tasks, all_completed, first_pending, is_task_line, lemma_first_pending,
    lemma_first_pending_at, line_of, marker, not_blank, parse_tasks, serialize_tasks,
    task_lines, task_of_line, tasks_of_lines, TaskView,
};
use crate::text::{
    is_blank, is_whitespace, lemma_first_newline_at, lemma_lines_hold_no_newline, split_lines,
    strip_cr,
};
use vstd::prelude::*;

verus! {

/// No line feed stands in the text.
pub open spec fn holds_no_newline(text: Seq<char>) -> bool {
    forall|i: int| 0 <= i < text.len() ==> text[i] != '\n'
}

/// The text ends with a carriage return.
pub open spec fn ends_with_cr(text: Seq<char>) -> bool {
    text.len() > 0 && text.last() == '\r'
}

/// A name that a task file can hold on one line and give back unchanged: no
/// line feed stands in it and no carriage return at its end.
pub open spec fn is_line_name(name: Seq<char>) -> bool {
    holds_no_newline(name) && !ends_with_cr(name)
}

/// A list is well formed when each of its names fits on one line.
pub open spec fn well_formed(tasks: Seq<TaskView>) -> bool {
    forall|i: int| 0 <= i < tasks.len() ==> is_line_name(#[trigger] tasks[i].name)
}

/// No task of the list is completed.
pub open spec fn none_completed(tasks: Seq<TaskView>) -> bool {
    forall|i: int| 0 <= i < tasks.len() ==> !(#[trigger] tasks[i]).completed
}

/// The list with the names of `tasks` in which exactly the first `k` tasks
/// are completed.
pub open spec fn completed_up_to(tasks: Seq<TaskView>, k: int) -> Seq<TaskView> {
    Seq::new(tasks.len(), |i: int| TaskView { name: tasks[i].name, completed: i < k })
}

/// The list after `n` advances.
pub open spec fn advance_times(tasks: Seq<TaskView>, n: nat) -> Seq<TaskView>
    decreases n,
{
    if n == 0 {
        tasks
    } else {
        advance_tasks(advance_times(tasks, (n - 1) as nat))
    }
}

/// The line of each task, in order.
pub open spec fn lines_of(tasks: Seq<TaskView>) -> Seq<Seq<char>> {
    tasks.map_values(|task: TaskView| line_of(task))
}

/// A task as it is read from the line it was written to: a carriage return
/// at the end of its name is taken for a part of the line's end.
pub open spec fn as_read(task: TaskView) -> TaskView {
    TaskView { name: strip_cr(task.name), completed: task.completed }
}

/// Each task of a list as it is read from the line it was written to.
pub open spec fn all_as_read(tasks: Seq<TaskView>) -> Seq<TaskView> {
    tasks.map_values(|task: TaskView| as_read(task))
}

/// No name of the list holds a line feed.
pub open spec fn names_hold_no_newline(tasks: Seq<TaskView>) -> bool {
    forall|i: int| 0 <= i < tasks.len() ==> holds_no_newline(#[trigger] tasks[i].name)
}

/// No line of the text ends with a carriage return.
pub open spec fn no_line_ends_with_cr(text: Seq<char>) -> bool {
    forall|i: int| 0 <= i < split_lines(text).len() ==> !ends_with_cr(#[trigger] split_lines(text)[i])
}

/// The text of a list begins with the line of its first task and a line
/// feed; the text of the other tasks follows.
proof fn lemma_serialize_first(tasks: Seq<TaskView>)
    requires
        tasks.len() > 0,
    ensures
        serialize_tasks(tasks) == line_of(tasks[0]) + seq!['\n'] + serialize_tasks(
            tasks.drop_first(),
        ),
    decreases tasks.len(),
{
    let front = tasks.drop_last();
    if tasks.len() == 1 {
        assert(serialize_tasks(front) =~= Seq::<char>::empty());
    } else {
        lemma_serialize_first(front);
        let tail = tasks.drop_first();
        assert(tail.drop_last() =~= front.drop_first());
    }
}

/// The line of a task is a task's line, is not blank, and gives the task
/// back where the name holds no line feed.
proof fn lemma_line_of_task(task: TaskView)
    ensures
        is_task_line(line_of(task)),
        !is_blank(line_of(task)),
        holds_no_newline(task.name) ==> task_of_line(line_of(task)) == task,
{
    let line = line_of(task);
    assert(line.take(6) =~= marker(task.completed));
    assert(line[0] == '-' && !is_whitespace(line[0]));
    assert(line.skip(6) =~= task.name);
    if holds_no_newline(task.name) {
        lemma_first_newline_at(task.name, task.name.len() as int);
        assert(task.name.take(task.name.len() as int) =~= task.name);
    }
}

/// A line that is cut before its carriage return is the line of the task as
/// it is read.
proof fn lemma_strip_cr_of_line(task: TaskView)
    ensures
        strip_cr(line_of(task)) == line_of(as_read(task)),
{
    if ends_with_cr(task.name) {
        assert(line_of(task).drop_last() =~= line_of(as_read(task)));
    }
}

/// The lines of the text of a list are the lines of its tasks as they are
/// read, where no name holds a line feed.
proof fn lemma_lines_of_serialized(tasks: Seq<TaskView>)
    requires
        names_hold_no_newline(tasks),
    ensures
        split_lines(serialize_tasks(tasks)) == lines_of(all_as_read(tasks)),
    decreases tasks.len(),
{
    if tasks.len() > 0 {
        let first = line_of(tasks[0]);
        let tail = tasks.drop_first();
        let text = serialize_tasks(tasks);
        lemma_serialize_first(tasks);
        assert(names_hold_no_newline(tail)) by {
            assert forall|i: int| 0 <= i < tail.len() implies holds_no_newline(
                #[trigger] tail[i].name,
            ) by {
                assert(tail[i] == tasks[i + 1]);
            }
        }
        lemma_lines_of_serialized(tail);
        let k = first.len() as int;
        assert forall|j: int| 0 <= j < k implies text[j] != '\n' by {
            assert(text[j] == first[j]);
        }
        lemma_first_newline_at(text, k);
        assert(text.take(k) =~= first);
        lemma_strip_cr_of_line(tasks[0]);
        assert(text.skip(k + 1) =~= serialize_tasks(tail));
    }
}

/// A filter keeps a sequence as it is where every item passes.
proof fn lemma_filter_keeps_all<A>(s: Seq<A>, pred: spec_fn(A) -> bool)
    requires
        forall|i: int| 0 <= i < s.len() ==> pred(#[trigger] s[i]),
    ensures
        s.filter(pred) == s,
    decreases s.len(),
{
    reveal(Seq::filter);
    if s.len() > 0 {
        lemma_filter_keeps_all(s.drop_last(), pred);
    }
}

/// What is read from the text of a list whose names hold no line feed: each
/// task as it is read from its line.
pub proof fn lemma_parse_serialized_lines(tasks: Seq<TaskView>)
    requires
        names_hold_no_newline(tasks),
    ensures
        parse_tasks(serialize_tasks(tasks)) == Some(all_as_read(tasks)),
{
    let text = serialize_tasks(tasks);
    let read = all_as_read(tasks);
    let lines = lines_of(read);
    lemma_lines_of_serialized(tasks);
    assert forall|i: int| 0 <= i < lines.len() implies (not_blank())(#[trigger] lines[i]) by {
        lemma_line_of_task(read[i]);
    }
    lemma_filter_keeps_all(lines, not_blank());
    assert forall|i: int| 0 <= i < lines.len() implies is_task_line(#[trigger] lines[i]) by {
        lemma_line_of_task(read[i]);
    }
    assert(tasks_of_lines(lines) =~= read) by {
        assert forall|i: int| 0 <= i < read.len() implies tasks_of_lines(lines)[i] == read[i] by {
            lemma_line_of_task(read[i]);
        }
    }
}

/// The names that are read from a text hold no line feed, and the list is
/// well formed where no line of the text ends with a carriage return.
pub proof fn lemma_parsed_names(text: Seq<char>)
    requires
        parse_tasks(text) is Some,
    ensures
        names_hold_no_newline(parse_tasks(text)->0),
        no_line_ends_with_cr(text) ==> well_formed(parse_tasks(text)->0),
{
    let lines = split_lines(text);
    let kept = task_lines(text);
    let tasks = parse_tasks(text)->0;
    assert forall|i: int| 0 <= i < tasks.len() implies holds_no_newline(#[trigger] tasks[i].name)
        && (no_line_ends_with_cr(text) ==> !ends_with_cr(tasks[i].name)) by {
        let line = kept[i];
        lines.lemma_filter_contains_rev(not_blank(), line);
        let at = choose|at: int| 0 <= at < lines.len() && lines[at] == line;
        lemma_lines_hold_no_newline(text, at);
        let rest = line.skip(6);
        assert forall|j: int| 0 <= j < rest.len() implies rest[j] != '\n' by {
            assert(line.contains(line[j + 6]));
        }
        lemma_first_newline_at(rest, rest.len() as int);
        assert(tasks[i].name =~= rest);
    }
}

/// Writing a list and reading the text gives the list back exactly where the
/// list is well formed.
pub proof fn lemma_parse_serialized(tasks: Seq<TaskView>)
    ensures
        parse_tasks(serialize_tasks(tasks)) == Some(tasks) <==> well_formed(tasks),
{
    let text = serialize_tasks(tasks);
    if well_formed(tasks) {
        assert forall|i: int| 0 <= i < tasks.len() implies holds_no_newline(
            #[trigger] tasks[i].name,
        ) by {
            assert(is_line_name(tasks[i].name));
        }
        lemma_parse_serialized_lines(tasks);
        assert forall|i: int| 0 <= i < tasks.len() implies all_as_read(tasks)[i] == tasks[i] by {
            assert(is_line_name(tasks[i].name));
        }
        assert(all_as_read(tasks) =~= tasks);
    } else if parse_tasks(text) == Some(tasks) {
        // The names hold no line feed, so one of them ends with a carriage
        // return, and that name is read without it.
        lemma_parsed_names(text);
        lemma_parse_serialized_lines(tasks);
        let i = choose|i: int| 0 <= i < tasks.len() && !is_line_name(#[trigger] tasks[i].name);
        assert(all_as_read(tasks)[i].name.len() < tasks[i].name.len());
    }
}

/// A text that was read, written and read again gives the same list, where
/// the list that was read first is well formed.
pub proof fn lemma_reparse(text: Seq<char>)
    requires
        parse_tasks(text) is Some,
        well_formed(parse_tasks(text)->0),
    ensures
        parse_tasks(serialize_tasks(parse_tasks(text)->0)) == parse_tasks(text),
{
    lemma_parse_serialized(parse_tasks(text)->0);
}

/// An advance keeps a well-formed list well formed, so that what one request
/// writes the next one reads.
pub proof fn lemma_advance_is_read_back(tasks: Seq<TaskView>)
    requires
        well_formed(tasks),
    ensures
        well_formed(advance_tasks(tasks)),
        parse_tasks(serialize_tasks(advance_tasks(tasks))) == Some(advance_tasks(tasks)),
{
    lemma_first_pending(tasks);
    let after = advance_tasks(tasks);
    assert forall|i: int| 0 <= i < after.len() implies is_line_name(#[trigger] after[i].name) by {
        assert(after[i].name == tasks[i].name);
    }
    lemma_parse_serialized(after);
}

/// Reading fails exactly where some line of the text is neither blank nor a
/// task's line.
pub proof fn lemma_parse_fails_on_bad_line(text: Seq<char>)
    ensures
        parse_tasks(text) is None <==> exists|i: int|
            0 <= i < split_lines(text).len() && !is_blank(#[trigger] split_lines(text)[i])
                && !is_task_line(split_lines(text)[i]),
{
    let lines = split_lines(text);
    let kept = task_lines(text);
    if parse_tasks(text) is None {
        let j = choose|j: int| 0 <= j < kept.len() && !is_task_line(#[trigger] kept[j]);
        lines.lemma_filter_pred(not_blank(), j);
        lines.lemma_filter_contains_rev(not_blank(), kept[j]);
        let i = choose|i: int| 0 <= i < lines.len() && lines[i] == kept[j];
        assert(!is_blank(lines[i]) && !is_task_line(lines[i]));
    }
    if exists|i: int|
        0 <= i < lines.len() && !is_blank(#[trigger] lines[i]) && !is_task_line(lines[i]) {
        let i = choose|i: int|
            0 <= i < lines.len() && !is_blank(#[trigger] lines[i]) && !is_task_line(lines[i]);
        lines.lemma_filter_contains(not_blank(), i);
        let j = choose|j: int| 0 <= j < kept.len() && kept[j] == lines[i];
        assert(!is_task_line(kept[j]));
    }
}

/// A list has no active task exactly where all its tasks are completed;
/// otherwise its active task is the first that is not completed.
pub proof fn lemma_active_name(tasks: Seq<TaskView>)
    ensures
        active_name(tasks) is None <==> all_completed(tasks),
        forall|i: int|
            0 <= i < tasks.len() && !tasks[i].completed && (forall|j: int|
                0 <= j < i ==> tasks[j].completed) ==> active_name(tasks) == Some(tasks[i].name),
{
    lemma_first_pending(tasks);
    assert forall|i: int|
        0 <= i < tasks.len() && !tasks[i].completed && (forall|j: int|
            0 <= j < i ==> tasks[j].completed) implies active_name(tasks) == Some(
        tasks[i].name,
    ) by {
        lemma_first_pending_at(tasks, i);
    }
    if all_completed(tasks) {
        lemma_first_pending_at(tasks, tasks.len() as int);
    }
}

/// An advance keeps the length, the order and the names, completes nothing
/// but the active task, and never reopens a task.
pub proof fn lemma_advance_only_completes(tasks: Seq<TaskView>)
    ensures
        advance_tasks(tasks).len() == tasks.len(),
        forall|i: int|
            0 <= i < tasks.len() ==> (#[trigger] advance_tasks(tasks)[i]).name == tasks[i].name,
        forall|i: int|
            0 <= i < tasks.len() ==> ((#[trigger] advance_tasks(tasks)[i]).completed <==> (
            tasks[i].completed || i == first_pending(tasks))),
{
    lemma_first_pending(tasks);
}

/// Once every task is completed, an advance changes nothing.
pub proof fn lemma_advance_of_completed(tasks: Seq<TaskView>)
    requires
        all_completed(tasks),
    ensures
        advance_tasks(tasks) == tasks,
{
    lemma_first_pending_at(tasks, tasks.len() as int);
}

/// The text of a well-formed list in which every task is completed is kept
/// by a request to complete the active task: the text is read as the list,
/// and the list is written as the text.
pub proof fn lemma_completed_text_is_kept(tasks: Seq<TaskView>)
    requires
        well_formed(tasks),
        all_completed(tasks),
    ensures
        parse_tasks(serialize_tasks(tasks)) == Some(tasks),
        serialize_tasks(advance_tasks(tasks)) == serialize_tasks(tasks),
{
    lemma_parse_serialized(tasks);
    lemma_advance_of_completed(tasks);
}

/// Once every task is completed, no number of advances changes the list.
pub proof fn lemma_advance_idempotent(tasks: Seq<TaskView>, n: nat)
    requires
        all_completed(tasks),
    ensures
        advance_times(tasks, n) == tasks,
    decreases n,
{
    if n > 0 {
        lemma_advance_idempotent(tasks, (n - 1) as nat);
        lemma_advance_of_completed(tasks);
    }
}

/// On a list in which no task is completed, `k` advances complete exactly
/// the first `k` tasks; as many advances as the list has tasks complete them
/// all.
pub proof fn lemma_advance_left_to_right(tasks: Seq<TaskView>, k: nat)
    requires
        none_completed(tasks),
        k <= tasks.len(),
    ensures
        advance_times(tasks, k) == completed_up_to(tasks, k as int),
        k == tasks.len() ==> all_completed(advance_times(tasks, k)),
    decreases k,
{
    if k > 0 {
        let j = (k - 1) as nat;
        lemma_advance_left_to_right(tasks, j);
        lemma_first_pending_at(completed_up_to(tasks, j as int), j as int);
    }
}

} // verus!
