//! The task file: one task to a line, `- [ ] name` while it is open and
//! `- [x] name` once it is completed.

use crate::text::{
    chars_of, first_newline, is_blank, is_blank_in, lemma_first_newline_at,
    lemma_split_lines_step, split_lines, strip_cr,
};
use vstd::prelude::*;
use vstd::string::*;

verus! {

/// What a task is: its name and whether it is completed.
pub struct TaskView {
    /// The name, as it stands in the file.
    pub name: Seq<char>,
    /// Whether the task is completed.
    pub completed: bool,
}

/// What a task's line begins with: `- [x] ` where it is completed, `- [ ] `
/// where it is not.
pub open spec fn marker(completed: bool) -> Seq<char> {
    if completed {
        seq!['-', ' ', '[', 'x', ']', ' ']
    } else {
        seq!['-', ' ', '[', ' ', ']', ' ']
    }
}

/// A line is a task's line when it begins with one of the two markers.
pub open spec fn is_task_line(line: Seq<char>) -> bool {
    line.len() >= 6 && (line.take(6) == marker(true) || line.take(6) == marker(false))
}

/// The task that a task's line holds. Its name is all that follows the
/// marker, up to the line's end or to a line feed, whichever comes first.
pub open spec fn task_of_line(line: Seq<char>) -> TaskView {
    let rest = line.skip(6);
    TaskView { name: rest.take(first_newline(rest)), completed: line[3] == 'x' }
}

/// The task that a line holds, if it is a task's line.
pub open spec fn parse_line(line: Seq<char>) -> Option<TaskView> {
    if is_task_line(line) {
        Some(task_of_line(line))
    } else {
        None
    }
}

/// The predicate that keeps the lines that are not blank.
pub open spec fn not_blank() -> spec_fn(Seq<char>) -> bool {
    |line: Seq<char>| !is_blank(line)
}

/// The lines of a text that are not blank, in order.
pub open spec fn task_lines(text: Seq<char>) -> Seq<Seq<char>> {
    split_lines(text).filter(not_blank())
}

/// The task of each line, in order.
pub open spec fn tasks_of_lines(lines: Seq<Seq<char>>) -> Seq<TaskView> {
    lines.map_values(|line: Seq<char>| task_of_line(line))
}

/// The tasks that a text holds: one for each line that is not blank, in the
/// order of the lines; nothing at all where one of these lines is no task's
/// line.
pub open spec fn parse_tasks(text: Seq<char>) -> Option<Seq<TaskView>> {
    let lines = task_lines(text);
    if forall|i: int| 0 <= i < lines.len() ==> is_task_line(#[trigger] lines[i]) {
        Some(tasks_of_lines(lines))
    } else {
        None
    }
}

/// The line of a task: its marker, then its name.
pub open spec fn line_of(task: TaskView) -> Seq<char> {
    marker(task.completed) + task.name
}

/// The text of a list: the line of each task, in order, each followed by a
/// line feed.
pub open spec fn serialize_tasks(tasks: Seq<TaskView>) -> Seq<char>
    decreases tasks.len(),
{
    if tasks.len() == 0 {
        Seq::empty()
    } else {
        serialize_tasks(tasks.drop_last()) + line_of(tasks.last()) + seq!['\n']
    }
}

/// The number of completed tasks at the head of the list: the position of the
/// first task that is not completed, or the length where all are.
pub open spec fn first_pending(tasks: Seq<TaskView>) -> int
    decreases tasks.len(),
{
    if tasks.len() == 0 || !tasks[0].completed {
        0
    } else {
        1 + first_pending(tasks.drop_first())
    }
}

/// Every task of the list is completed. This holds of the empty list.
pub open spec fn all_completed(tasks: Seq<TaskView>) -> bool {
    forall|i: int| 0 <= i < tasks.len() ==> (#[trigger] tasks[i]).completed
}

/// The name of the active task: the first that is not completed.
pub open spec fn active_name(tasks: Seq<TaskView>) -> Option<Seq<char>> {
    let k = first_pending(tasks);
    if 0 <= k < tasks.len() {
        Some(tasks[k].name)
    } else {
        None
    }
}

/// The list after its active task is completed; the list itself where it has
/// none.
pub open spec fn advance_tasks(tasks: Seq<TaskView>) -> Seq<TaskView> {
    let k = first_pending(tasks);
    if 0 <= k < tasks.len() {
        tasks.update(k, TaskView { name: tasks[k].name, completed: true })
    } else {
        tasks
    }
}

/// `first_pending` is the least position of a task that is not completed.
pub proof fn lemma_first_pending(tasks: Seq<TaskView>)
    ensures
        0 <= first_pending(tasks) <= tasks.len(),
        forall|j: int| 0 <= j < first_pending(tasks) ==> tasks[j].completed,
        first_pending(tasks) < tasks.len() ==> !tasks[first_pending(tasks)].completed,
    decreases tasks.len(),
{
    if tasks.len() == 0 || !tasks[0].completed {
    } else {
        let rest = tasks.drop_first();
        lemma_first_pending(rest);
        assert forall|j: int| 0 <= j < first_pending(tasks) implies tasks[j].completed by {
            if j > 0 {
                assert(tasks[j] == rest[j - 1]);
            }
        }
    }
}

/// A position that holds a task that is not completed, or the end, before
/// which all tasks are completed is `first_pending`.
pub proof fn lemma_first_pending_at(tasks: Seq<TaskView>, k: int)
    requires
        0 <= k <= tasks.len(),
        forall|j: int| 0 <= j < k ==> tasks[j].completed,
        k < tasks.len() ==> !tasks[k].completed,
    ensures
        first_pending(tasks) == k,
{
    lemma_first_pending(tasks);
}

/// The failure to read a text in which some line is neither blank nor a
/// task's line.
#[derive(Clone, Copy, Debug, PartialEq, Eq, Structural)]
pub struct FormatError;

impl FormatError {
    /// What to tell the caller whose task file could not be read.
    pub fn message(&self) -> (text: String)
        ensures
            text@ == "Invalid task format"@,
    {
        String::from_str("Invalid task format")
    }
}

/// One entry of the checklist.
#[derive(Debug)]
pub struct Task {
    /// The name, as it stands in the file.
    pub name: String,
    /// Whether the task is completed.
    pub completed: bool,
}

impl View for Task {
    type V = TaskView;

    open spec fn view(&self) -> TaskView {
        TaskView { name: self.name@, completed: self.completed }
    }
}

impl Clone for Task {
    fn clone(&self) -> (copy: Self)
        ensures
            copy@ == self@,
    {
        Task { name: self.name.clone(), completed: self.completed }
    }
}

/// What each task of a sequence is, in order.
pub open spec fn views(tasks: Seq<Task>) -> Seq<TaskView> {
    tasks.map_values(|task: Task| task@)
}

/// The checklist: its tasks in the order of the file's lines.
#[derive(Debug)]
pub struct TaskList {
    tasks: Vec<Task>,
}

impl View for TaskList {
    type V = Seq<TaskView>;

    closed spec fn view(&self) -> Seq<TaskView> {
        views(self.tasks@)
    }
}

/// Reads the task, if any, that the characters from `start` up to `end` hold.
fn task_in(chars: &Vec<char>, start: usize, end: usize) -> (task: Option<Task>)
    requires
        start <= end <= chars.len(),
    ensures
        match task {
            Some(t) => parse_line(chars@.subrange(start as int, end as int)) == Some(t@),
            None => parse_line(chars@.subrange(start as int, end as int)) is None,
        },
{
    let ghost line = chars@.subrange(start as int, end as int);
    if end - start < 6 {
        return None;
    }
    let completed = chars[start + 3] == 'x';
    let shaped = chars[start] == '-' && chars[start + 1] == ' ' && chars[start + 2] == '[' && (
    completed || chars[start + 3] == ' ') && chars[start + 4] == ']' && chars[start + 5] == ' ';
    assert(shaped ==> line.take(6) =~= marker(completed));
    if !shaped {
        return None;
    }
    let ghost rest = line.skip(6);
    let mut name = String::new();
    let mut i: usize = start + 6;
    while i < end && chars[i] != '\n'
        invariant
            start + 6 <= i <= end <= chars.len(),
            rest == chars@.subrange(start + 6, end as int),
            name@ == rest.take(i - (start + 6)),
            forall|j: int| 0 <= j < i - (start + 6) ==> rest[j] != '\n',
        decreases end - i,
    {
        name.push(chars[i]);
        i += 1;
    }
    proof {
        lemma_first_newline_at(rest, i - (start + 6));
    }
    Some(Task { name, completed })
}

/// Appends the line of `task` to `out`.
fn write_line(task: &Task, out: &mut String)
    ensures
        final(out)@ == old(out)@ + line_of(task@),
{
    proof {
        reveal_strlit("- [x] ");
        reveal_strlit("- [ ] ");
    }
    if task.completed {
        out.append("- [x] ");
    } else {
        out.append("- [ ] ");
    }
    out.append(task.name.as_str());
}

impl Task {
    /// The line that stands for the task, without a line feed.
    pub fn serialize(&self) -> (line: String)
        ensures
            line@ == line_of(self@),
    {
        let mut line = String::new();
        write_line(self, &mut line);
        line
    }

    /// Reads one line of a task file.
    pub fn parse(line: &str) -> (result: Result<Task, FormatError>)
        ensures
            match result {
                Ok(task) => parse_line(line@) == Some(task@),
                Err(_) => parse_line(line@) is None,
            },
    {
        let chars = chars_of(line);
        assert(chars@.subrange(0, chars@.len() as int) =~= line@);
        match task_in(&chars, 0, chars.len()) {
            Some(task) => Ok(task),
            None => Err(FormatError),
        }
    }
}

impl TaskList {
    /// Reads a task file. Blank lines are passed over; every other line has
    /// to be a task's line.
    pub fn parse(text: &str) -> (result: Result<TaskList, FormatError>)
        ensures
            match result {
                Ok(list) => parse_tasks(text@) == Some(list@),
                Err(_) => parse_tasks(text@) is None,
            },
    {
        let chars = chars_of(text);
        let n = chars.len();
        let mut tasks: Vec<Task> = Vec::new();
        let ghost mut done: Seq<Seq<char>> = Seq::empty();
        let mut start: usize = 0;
        assert(text@.skip(0) =~= text@);
        while start < n
            invariant
                n == chars.len(),
                chars@ == text@,
                start <= n,
                split_lines(text@) == done + split_lines(text@.skip(start as int)),
                forall|i: int|
                    0 <= i < done.filter(not_blank()).len() ==> is_task_line(
                        #[trigger] done.filter(not_blank())[i],
                    ),
                views(tasks@) == tasks_of_lines(done.filter(not_blank())),
            decreases n - start,
        {
            let mut end: usize = start;
            while end < n && chars[end] != '\n'
                invariant
                    n == chars.len(),
                    start <= end <= n,
                    forall|j: int| start <= j < end ==> chars@[j] != '\n',
                decreases n - end,
            {
                end += 1;
            }
            let terminated = end < n;
            let line_end = if terminated && start < end && chars[end - 1] == '\r' {
                end - 1
            } else {
                end
            };
            let next = if terminated {
                end + 1
            } else {
                end
            };
            let ghost line = text@.subrange(start as int, line_end as int);
            proof {
                lemma_split_lines_step(text@, start as int, end as int);
                if terminated {
                    assert(strip_cr(text@.subrange(start as int, end as int)) =~= line);
                }
                done.lemma_filter_push(line, not_blank());
            }
            if !is_blank_in(&chars, start, line_end) {
                match task_in(&chars, start, line_end) {
                    Some(task) => {
                        let ghost kept = done.filter(not_blank());
                        tasks.push(task);
                        assert(tasks_of_lines(kept.push(line)) =~= tasks_of_lines(kept).push(
                            task_of_line(line),
                        ));
                    },
                    None => {
                        proof {
                            split_lines(text@).lemma_filter_contains(
                                not_blank(),
                                done.len() as int,
                            );
                        }
                        return Err(FormatError);
                    },
                }
            }
            proof {
                done = done.push(line);
            }
            start = next;
        }
        Ok(TaskList { tasks })
    }

    /// Writes the list as a task file: one line for each task, in order.
    pub fn serialize(&self) -> (text: String)
        ensures
            text@ == serialize_tasks(self@),
    {
        let mut out = String::new();
        let mut i: usize = 0;
        while i < self.tasks.len()
            invariant
                i <= self.tasks.len(),
                out@ == serialize_tasks(self@.take(i as int)),
            decreases self.tasks.len() - i,
        {
            write_line(&self.tasks[i], &mut out);
            out.push('\n');
            assert(self@.take(i + 1).drop_last() =~= self@.take(i as int));
            i += 1;
        }
        assert(self@.take(i as int) =~= self@);
        out
    }

    /// The name of the first task that is not completed, if there is one.
    pub fn active_task(&self) -> (name: Option<String>)
        ensures
            match name {
                Some(n) => active_name(self@) == Some(n@),
                None => active_name(self@) is None,
            },
            name is None <==> all_completed(self@),
    {
        let mut i: usize = 0;
        while i < self.tasks.len()
            invariant
                i <= self.tasks.len(),
                forall|j: int| 0 <= j < i ==> self@[j].completed,
            decreases self.tasks.len() - i,
        {
            if !self.tasks[i].completed {
                proof {
                    lemma_first_pending_at(self@, i as int);
                }
                return Some(self.tasks[i].name.clone());
            }
            i += 1;
        }
        proof {
            lemma_first_pending_at(self@, i as int);
        }
        None
    }

    /// Completes the first task that is not completed; changes nothing where
    /// every task is completed or the list is empty.
    pub fn advance(&mut self)
        ensures
            final(self)@ == advance_tasks(old(self)@),
            all_completed(old(self)@) ==> final(self)@ == old(self)@,
    {
        let mut i: usize = 0;
        while i < self.tasks.len()
            invariant
                i <= self.tasks.len(),
                *self == *old(self),
                forall|j: int| 0 <= j < i ==> self@[j].completed,
            decreases self.tasks.len() - i,
        {
            if !self.tasks[i].completed {
                proof {
                    lemma_first_pending_at(self@, i as int);
                }
                self.tasks[i].completed = true;
                return ;
            }
            i += 1;
        }
        proof {
            lemma_first_pending_at(self@, i as int);
        }
    }
}

} // verus!
