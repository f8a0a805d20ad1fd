//! Tables of tasks and memory for the console.

use vstd::prelude::*;
use crate::order;
use crate::text;
use crate::traits::WifiState;

verus! {

#[derive(Debug, PartialEq, Eq)]
pub struct DiagSnapshot {
    /// Seconds since the start.
    pub uptime_s: u64,
    /// The link, where it is known.
    pub wifi: Option<WifiState>,
    pub heap: HeapInfo,
    pub tasks: Vec<TaskInfo>,
}

/// Sizes in bytes. Internal memory is scarce; external memory is large but
/// cannot hold stacks.
#[derive(Debug, Clone, Copy, PartialEq, Eq, Structural)]
pub struct HeapInfo {
    pub total_free_bytes: usize,
    pub total_allocated_bytes: usize,
    pub largest_free_block: usize,
    pub min_ever_free_bytes: usize,
    pub internal_free_bytes: usize,
    pub internal_largest_free: usize,
    pub internal_min_ever_free: usize,
    pub psram_free_bytes: usize,
    pub psram_largest_free: usize,
}

#[derive(Debug, PartialEq, Eq)]
pub struct TaskInfo {
    pub name: String,
    pub state: &'static str,
    pub priority: u32,
    /// The least stack that was ever free.
    pub stack_min_free_bytes: u32,
    pub run_time: u32,
}

/// What a task is doing.
#[derive(Debug, Clone, Copy, PartialEq, Eq, Structural)]
pub enum TaskState {
    Running,
    Ready,
    Blocked,
    Suspended,
    Deleted,
    Other,
}

impl TaskState {
    pub open spec fn text(self) -> Seq<char> {
        match self {
            TaskState::Running => "running"@,
            TaskState::Ready => "ready"@,
            TaskState::Blocked => "blocked"@,
            TaskState::Suspended => "suspended"@,
            TaskState::Deleted => "deleted"@,
            TaskState::Other => "?"@,
        }
    }
}

pub fn state_name(s: TaskState) -> (name: &'static str)
    ensures
        name@ == s.text(),
{
    match s {
        TaskState::Running => "running",
        TaskState::Ready => "ready",
        TaskState::Blocked => "blocked",
        TaskState::Suspended => "suspended",
        TaskState::Deleted => "deleted",
        TaskState::Other => "?",
    }
}

/// Five columns.
pub open spec fn row(
    name: Seq<char>,
    state: Seq<char>,
    priority: Seq<char>,
    stack: Seq<char>,
    run_time: Seq<char>,
) -> Seq<char> {
    text::left_aligned(name, 16) + " "@ + text::left_aligned(state, 10) + " "@
        + text::right_aligned(priority, 3) + " "@ + text::right_aligned(stack, 10) + " "@
        + text::right_aligned(run_time, 12)
}

fn fmt_row(name: &str, state: &str, priority: &str, stack: &str, run_time: &str) -> (s: String)
    ensures
        s@ == row(name@, state@, priority@, stack@, run_time@),
{
    let mut s = text::align_left(name, 16);
    s.append(" ");
    s.append(text::align_left(state, 10).as_str());
    s.append(" ");
    s.append(text::align_right(priority, 3).as_str());
    s.append(" ");
    s.append(text::align_right(stack, 10).as_str());
    s.append(" ");
    s.append(text::align_right(run_time, 12).as_str());
    s
}

pub open spec fn task_header() -> Seq<char> {
    row("NAME"@, "STATE"@, "PRI"@, "STACK_FREE"@, "RUNTIME"@)
}

pub fn fmt_task_header() -> (s: String)
    ensures
        s@ == task_header(),
{
    fmt_row("NAME", "STATE", "PRI", "STACK_FREE", "RUNTIME")
}

/// The first characters of a text, at most `n`.
pub open spec fn first_chars(s: Seq<char>, n: nat) -> Seq<char> {
    if s.len() <= n {
        s
    } else {
        s.take(n as int)
    }
}

/// One task. A name is cut to the width of its column.
pub open spec fn task_row(t: TaskInfo) -> Seq<char> {
    row(
        first_chars(t.name@, 16),
        t.state@,
        text::decimal(t.priority as nat),
        text::decimal(t.stack_min_free_bytes as nat),
        text::decimal(t.run_time as nat),
    )
}

pub fn fmt_task_row(t: &TaskInfo) -> (s: String)
    ensures
        s@ == task_row(*t),
{
    let chars: Vec<char> = text::chars_of(t.name.as_str());
    let n: usize = if chars.len() < 16 {
        chars.len()
    } else {
        16
    };
    let name = text::substring(chars.as_slice(), 0, n);
    assert(name@ =~= first_chars(t.name@, 16));
    let priority = text::decimal_u64(t.priority as u64);
    let stack = text::decimal_u64(t.stack_min_free_bytes as u64);
    let run_time = text::decimal_u64(t.run_time as u64);
    fmt_row(name.as_str(), t.state, priority.as_str(), stack.as_str(), run_time.as_str())
}

/// What the rows of a table are ordered by: the free stack.
pub open spec fn stack_keys(tasks: Seq<TaskInfo>) -> Seq<i64> {
    Seq::new(tasks.len(), |i: int| tasks[i].stack_min_free_bytes as i64)
}

/// The table: a header, a rule, and a row for every task in the given order.
pub open spec fn task_table(tasks: Seq<TaskInfo>, places: Seq<usize>) -> Seq<Seq<char>> {
    seq![">> "@ + task_header(), ">> "@ + text::repeated('-', 56)] + Seq::new(
        places.len(),
        |i: int| ">> "@ + task_row(tasks[places[i] as int]),
    )
}

/// The tasks in a table, those that came closest to the end of their stack
/// first.
pub fn print_tasks(tasks: &Vec<TaskInfo>) -> (lines: Vec<String>)
    ensures
        exists|places: Seq<usize>| #[trigger]
            order::is_order(stack_keys(tasks@), places) && text::texts(lines@) == task_table(
                tasks@,
                places,
            ),
{
    let mut keys: Vec<i64> = Vec::new();
    let n: usize = tasks.len();
    let mut i: usize = 0;
    while i < n
        invariant
            n == tasks@.len(),
            i <= n,
            keys@ == stack_keys(tasks@).take(i as int),
        decreases n - i,
    {
        keys.push(tasks[i].stack_min_free_bytes as i64);
        i += 1;
        assert(keys@ =~= stack_keys(tasks@).take(i as int));
    }
    assert(keys@ =~= stack_keys(tasks@));
    let places: Vec<usize> = order::stable_order(&keys);
    let mut lines: Vec<String> = Vec::new();
    let header = text::join(">> ", fmt_task_header().as_str());
    let rule = text::join(">> ", text::fill('-', 56).as_str());
    lines.push(header);
    lines.push(rule);
    let mut k: usize = 0;
    assert(text::texts(lines@) =~= task_table(tasks@, places@.take(0)));
    while k < n
        invariant
            k <= n,
            n == tasks@.len(),
            order::is_order(stack_keys(tasks@), places@),
            text::texts(lines@) == task_table(tasks@, places@.take(k as int)),
        decreases n - k,
    {
        let ghost before = text::texts(lines@);
        let line = text::join(">> ", fmt_task_row(&tasks[places[k]]).as_str());
        lines.push(line);
        k += 1;
        assert(text::texts(lines@) =~= before.push(line@));
        assert(text::texts(lines@) =~= task_table(tasks@, places@.take(k as int)));
    }
    assert(places@.take(k as int) =~= places@);
    lines
}

pub open spec fn memory_line(label: Seq<char>, bytes: usize) -> Seq<char> {
    label + text::right_aligned(text::grouped(bytes as nat), 12) + " B"@
}

fn fmt_memory(label: &str, bytes: usize) -> (s: String)
    ensures
        s@ == memory_line(label@, bytes),
{
    let number = text::with_commas(bytes);
    let mut s = text::join(label, text::align_right(number.as_str(), 12).as_str());
    s.append(" B");
    s
}

pub fn print_mem(h: &HeapInfo) -> (lines: Vec<String>)
    ensures
        text::texts(lines@) == seq![
            ">> heap:"@,
            memory_line(">>   total free        : "@, h.total_free_bytes),
            memory_line(">>   total allocated   : "@, h.total_allocated_bytes),
            memory_line(">>   largest free block: "@, h.largest_free_block),
            memory_line(">>   min-ever free     : "@, h.min_ever_free_bytes),
        ],
{
    let mut lines: Vec<String> = Vec::new();
    lines.push(">> heap:".to_owned());
    lines.push(fmt_memory(">>   total free        : ", h.total_free_bytes));
    lines.push(fmt_memory(">>   total allocated   : ", h.total_allocated_bytes));
    lines.push(fmt_memory(">>   largest free block: ", h.largest_free_block));
    lines.push(fmt_memory(">>   min-ever free     : ", h.min_ever_free_bytes));
    assert(text::texts(lines@) =~= seq![
        ">> heap:"@,
        memory_line(">>   total free        : "@, h.total_free_bytes),
        memory_line(">>   total allocated   : "@, h.total_allocated_bytes),
        memory_line(">>   largest free block: "@, h.largest_free_block),
        memory_line(">>   min-ever free     : "@, h.min_ever_free_bytes),
    ]);
    lines
}

/// A table names every task once.
pub proof fn every_task_has_its_row(tasks: Seq<TaskInfo>, places: Seq<usize>, i: int)
    requires
        order::is_order(stack_keys(tasks), places),
        0 <= i < tasks.len(),
    ensures
        exists|k: int|
            0 <= k < tasks.len() && places[k] == i && #[trigger] task_table(tasks, places)[k + 2]
                == ">> "@ + task_row(tasks[i]),
{
    order::every_place_has_its_turn(stack_keys(tasks), places, i);
    let k = choose|k: int| 0 <= k < places.len() && places[k] == i;
    assert(task_table(tasks, places)[k + 2] == ">> "@ + task_row(tasks[i]));
}

/// A row of texts that fit their columns is 55 characters wide, with the name
/// and the state at the left edge of their columns and the three numbers at the
/// right edge of theirs.
pub proof fn rows_stand_in_columns(
    name: Seq<char>,
    state: Seq<char>,
    priority: Seq<char>,
    stack: Seq<char>,
    run_time: Seq<char>,
)
    requires
        name.len() <= 16,
        state.len() <= 10,
        priority.len() <= 3,
        stack.len() <= 10,
        run_time.len() <= 12,
    ensures
        ({
            let r = row(name, state, priority, stack, run_time);
            &&& r.len() == 55
            &&& r.subrange(0, name.len() as int) == name
            &&& r.subrange(17, state.len() as int + 17) == state
            &&& r.subrange(31 - priority.len(), 31) == priority
            &&& r.subrange(42 - stack.len(), 42) == stack
            &&& r.subrange(55 - run_time.len(), 55) == run_time
            &&& r[16] == ' ' && r[27] == ' ' && r[31] == ' ' && r[42] == ' '
        }),
{
    reveal_strlit(" ");
    text::columns_are_filled(name, 16);
    text::columns_are_filled(state, 10);
    text::columns_are_filled(priority, 3);
    text::columns_are_filled(stack, 10);
    text::columns_are_filled(run_time, 12);
    let r = row(name, state, priority, stack, run_time);
    assert(r.subrange(0, name.len() as int) =~= name);
    assert(r.subrange(17, state.len() as int + 17) =~= state);
    assert(r.subrange(31 - priority.len(), 31) =~= priority);
    assert(r.subrange(42 - stack.len(), 42) =~= stack);
    assert(r.subrange(55 - run_time.len(), 55) =~= run_time);
}

/// A task shows the first sixteen characters of its name, its state, and its
/// priority, free stack and run time, in this order.
pub proof fn tasks_show_their_numbers(t: TaskInfo)
    ensures
        t.name@.len() <= 16 ==> task_row(t) == row(
            t.name@,
            t.state@,
            text::decimal(t.priority as nat),
            text::decimal(t.stack_min_free_bytes as nat),
            text::decimal(t.run_time as nat),
        ),
        t.name@.len() > 16 ==> task_row(t) == row(
            t.name@.subrange(0, 16),
            t.state@,
            text::decimal(t.priority as nat),
            text::decimal(t.stack_min_free_bytes as nat),
            text::decimal(t.run_time as nat),
        ),
{
    if t.name@.len() > 16 {
        assert(t.name@.take(16) =~= t.name@.subrange(0, 16));
    }
}

/// The task that came closest to the end of its stack comes first: the free
/// stack goes up from row to row.
pub proof fn scarce_stacks_come_first(tasks: Seq<TaskInfo>, places: Seq<usize>, i: int, j: int)
    requires
        order::is_order(stack_keys(tasks), places),
        0 <= i < j < tasks.len(),
    ensures
        tasks[places[i] as int].stack_min_free_bytes
            <= tasks[places[j] as int].stack_min_free_bytes,
        task_table(tasks, places).len() == tasks.len() + 2,
        task_table(tasks, places)[i + 2] == ">> "@ + task_row(tasks[places[i] as int]),
        task_table(tasks, places)[0] == ">> "@ + task_header(),
        task_table(tasks, places)[1].len() == 59,
{
    reveal_strlit(">> ");
    order::orders_go_up(stack_keys(tasks), places, i, j);
    assert(places[i] < tasks.len() && places[j] < tasks.len());
}

/// A line about memory shows its label and, at the right edge of twelve
/// characters, the number with its groups apart.
pub proof fn memory_lines_show_the_number(label: Seq<char>, bytes: usize)
    requires
        text::grouped(bytes as nat).len() <= 12,
    ensures
        ({
            let line = memory_line(label, bytes);
            let n = label.len() as int;
            let number = line.subrange(n + 12 - text::grouped(bytes as nat).len(), n + 12);
            &&& line.subrange(0, n) == label
            &&& line.len() == n + 14
            &&& line.skip(n + 12) == " B"@
            &&& number.filter(|c: char| c != ',') == text::decimal(bytes as nat)
        }),
{
    reveal_strlit(" B");
    let g = text::grouped(bytes as nat);
    text::columns_are_filled(g, 12);
    text::commas_only_group(bytes as nat);
    let line = memory_line(label, bytes);
    let n = label.len() as int;
    assert(line.subrange(0, n) =~= label);
    assert(line.skip(n + 12) =~= " B"@);
    assert(line.subrange(n + 12 - g.len(), n + 12) =~= g);
}

/// The words for what a task is doing.
pub proof fn states_have_their_words(s: TaskState)
    ensures
        s.text() == (match s {
            TaskState::Running => "running"@,
            TaskState::Ready => "ready"@,
            TaskState::Blocked => "blocked"@,
            TaskState::Suspended => "suspended"@,
            TaskState::Deleted => "deleted"@,
            TaskState::Other => "?"@,
        }),
{
}

/// The header names the columns, each over what stands in it.
pub proof fn headers_name_the_columns()
    ensures
        task_header().len() == 55,
        task_header().subrange(0, 4) == "NAME"@,
        task_header().subrange(17, 22) == "STATE"@,
        task_header().subrange(28, 31) == "PRI"@,
        task_header().subrange(32, 42) == "STACK_FREE"@,
        task_header().subrange(48, 55) == "RUNTIME"@,
{
    reveal_strlit("NAME");
    reveal_strlit("STATE");
    reveal_strlit("PRI");
    reveal_strlit("STACK_FREE");
    reveal_strlit("RUNTIME");
    rows_stand_in_columns("NAME"@, "STATE"@, "PRI"@, "STACK_FREE"@, "RUNTIME"@);
}

} // verus!
