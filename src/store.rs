//! The task registry: owns the records and the duration estimator.

use vstd::prelude::*;
use vstd::string::*;
use crate::estimator::DurationEstimator;
use crate::models::CommandTaskStart;
use crate::task::{describes, is_terminal, observed_millis, observed_millis_between, status_after_exit, task_to_status, CommandTaskStatus, TaskLifecycleStatus, TaskRecord, FAILURE_EXIT_CODE};
use crate::text::{decimal_digits, decimal_text, lemma_decimal_injective};

verus! {

/// Number of records kept before finished ones are evicted.
pub const MAX_TASKS: usize = 200;

/// The id of the task with submission number `n`.
pub open spec fn task_id_text(n: u64) -> Seq<char> {
    "forge-task-"@ + decimal_digits(n as nat)
}

/// How many records are over capacity in a table of `len` records.
pub open spec fn excess_over(len: nat) -> nat {
    if len > MAX_TASKS {
        (len - MAX_TASKS) as nat
    } else {
        0
    }
}

/// `s` without its first `k` finished records (all of them if fewer);
/// running records and the order of the rest are kept.
pub open spec fn drop_terminal(s: Seq<TaskRecord>, k: nat) -> Seq<TaskRecord>
    decreases s.len(),
{
    if s.len() == 0 || k == 0 {
        s
    } else if is_terminal(s[0].status) {
        drop_terminal(s.drop_first(), (k - 1) as nat)
    } else {
        seq![s[0]] + drop_terminal(s.drop_first(), k)
    }
}

pub open spec fn count_terminal(s: Seq<TaskRecord>) -> nat
    decreases s.len(),
{
    if s.len() == 0 {
        0
    } else {
        (if is_terminal(s[0].status) { 1nat } else { 0nat }) + count_terminal(s.drop_first())
    }
}

/// Index of the first record whose id is `id`.
pub open spec fn is_first_with_id(tasks: Seq<TaskRecord>, id: Seq<char>, i: int) -> bool {
    &&& 0 <= i < tasks.len()
    &&& tasks[i].task_id@ == id
    &&& forall|j: int| 0 <= j < i ==> tasks[j].task_id@ != id
}

pub open spec fn position_of(tasks: Seq<TaskRecord>, id: Seq<char>) -> Option<int> {
    if exists|i: int| is_first_with_id(tasks, id, i) {
        Some(choose|i: int| is_first_with_id(tasks, id, i))
    } else {
        None
    }
}

/// A freshly inserted record: running, no output, no exit code.
pub open spec fn is_fresh_record(
    t: TaskRecord,
    sequence: u64,
    args: Seq<String>,
    now: u64,
    estimate: u64,
) -> bool {
    &&& t.task_id@ == task_id_text(sequence)
    &&& t.sequence == sequence
    &&& args.len() > 0
    &&& t.command@ == args[0]@
    &&& t.args@ == args
    &&& t.status == TaskLifecycleStatus::Running
    &&& t.started_at_millis == now
    &&& t.estimated_total_seconds == estimate
    &&& t.stdout@.len() == 0
    &&& t.stderr@.len() == 0
    &&& t.exit_code == None::<i32>
}

/// The fields a task carries for its whole life are equal in `a` and `b`.
pub open spec fn same_identity(a: TaskRecord, b: TaskRecord) -> bool {
    &&& a.task_id@ == b.task_id@
    &&& a.sequence == b.sequence
    &&& a.command@ == b.command@
    &&& a.args@ == b.args@
    &&& a.started_at_millis == b.started_at_millis
    &&& a.estimated_total_seconds == b.estimated_total_seconds
}

/// The exit code recorded for a process: its own, or the failure sentinel.
pub open spec fn exit_code_or_failure(code: Option<i32>) -> i32 {
    match code {
        Some(c) => c,
        None => FAILURE_EXIT_CODE,
    }
}

pub open spec fn spawn_failure_text(message: Seq<char>) -> Seq<char> {
    "Failed to run forge command: "@ + message
}

pub open spec fn unknown_task_text(id: Seq<char>) -> Seq<char> {
    "Unknown task id '"@ + id + "'"@
}

pub open spec fn record_ok(t: TaskRecord, next_task_id: u64) -> bool {
    &&& t.task_id@ == task_id_text(t.sequence)
    &&& t.sequence < next_task_id
}

/// Records appear in submission order.
pub open spec fn in_submission_order(s: Seq<TaskRecord>) -> bool {
    forall|i: int, j: int| 0 <= i < j < s.len() ==> s[i].sequence < s[j].sequence
}

/// Different submission numbers give different ids.
pub proof fn lemma_task_id_injective(a: u64, b: u64)
    requires
        task_id_text(a) == task_id_text(b),
    ensures
        a == b,
{
    let p = "forge-task-"@;
    assert(task_id_text(a).subrange(p.len() as int, task_id_text(a).len() as int) =~= decimal_digits(a as nat));
    assert(task_id_text(b).subrange(p.len() as int, task_id_text(b).len() as int) =~= decimal_digits(b as nat));
    lemma_decimal_injective(a as nat, b as nat);
}

proof fn lemma_drop_in_order(s: Seq<TaskRecord>, k: nat)
    requires
        in_submission_order(s),
    ensures
        in_submission_order(drop_terminal(s, k)),
    decreases s.len(),
{
    if s.len() == 0 || k == 0 {
    } else {
        let rest = s.drop_first();
        assert(in_submission_order(rest)) by {
            assert forall|i: int, j: int| 0 <= i < j < rest.len() implies rest[i].sequence < rest[j].sequence by {
                assert(rest[i] == s[i + 1] && rest[j] == s[j + 1]);
            }
        }
        if is_terminal(s[0].status) {
            lemma_drop_in_order(rest, (k - 1) as nat);
        } else {
            lemma_drop_in_order(rest, k);
            let r = drop_terminal(rest, k);
            let out = seq![s[0]] + r;
            assert forall|i: int, j: int| 0 <= i < j < out.len() implies out[i].sequence < out[j].sequence by {
                assert(out[j] == r[j - 1]);
                if i == 0 {
                    assert(r.contains(r[j - 1]));
                    lemma_drop_subset(rest, k, r[j - 1]);
                    let m = choose|m: int| 0 <= m < rest.len() && rest[m] == r[j - 1];
                    assert(rest[m] == s[m + 1]);
                } else {
                    assert(out[i] == r[i - 1]);
                }
            }
        }
    }
}

proof fn lemma_first_unique(tasks: Seq<TaskRecord>, id: Seq<char>, i: int)
    requires
        is_first_with_id(tasks, id, i),
    ensures
        position_of(tasks, id) == Some(i),
{
    let k = choose|k: int| is_first_with_id(tasks, id, k);
    assert(is_first_with_id(tasks, id, k));
    if k < i {
        assert(tasks[k].task_id@ != id);
    }
    if i < k {
        assert(tasks[i].task_id@ != id);
    }
}

proof fn lemma_drop_subset(s: Seq<TaskRecord>, k: nat, x: TaskRecord)
    requires
        drop_terminal(s, k).contains(x),
    ensures
        s.contains(x),
    decreases s.len(),
{
    if s.len() == 0 || k == 0 {
    } else {
        let rest = s.drop_first();
        let k2: nat = if is_terminal(s[0].status) { (k - 1) as nat } else { k };
        if x != s[0] {
            if !is_terminal(s[0].status) {
                let r = drop_terminal(rest, k);
                let j = choose|j: int| 0 <= j < (seq![s[0]] + r).len() && (seq![s[0]] + r)[j] == x;
                assert(r[j - 1] == x);
            }
            lemma_drop_subset(rest, k2, x);
            let j = choose|j: int| 0 <= j < rest.len() && rest[j] == x;
            assert(s[j + 1] == x);
        } else {
            assert(s[0] == x);
        }
    }
}

proof fn lemma_drop_push_running(s: Seq<TaskRecord>, k: nat, x: TaskRecord)
    requires
        !is_terminal(x.status),
    ensures
        drop_terminal(s.push(x), k) == drop_terminal(s, k).push(x),
    decreases s.len(),
{
    if s.len() == 0 {
        if k > 0 {
            assert(s.push(x).drop_first() =~= s);
            assert(seq![x] + s =~= s.push(x));
        }
    } else if k == 0 {
    } else {
        assert(s.push(x).drop_first() =~= s.drop_first().push(x));
        assert(s.push(x)[0] == s[0]);
        if is_terminal(s[0].status) {
            lemma_drop_push_running(s.drop_first(), (k - 1) as nat, x);
        } else {
            lemma_drop_push_running(s.drop_first(), k, x);
            assert(seq![s[0]] + drop_terminal(s.drop_first(), k).push(x) =~= (seq![s[0]]
                + drop_terminal(s.drop_first(), k)).push(x));
        }
    }
}

/// Retention never removes more than the finished records: the table
/// shrinks by the requested count, or by every finished record if fewer.
pub proof fn lemma_drop_len(s: Seq<TaskRecord>, k: nat)
    ensures
        count_terminal(s) <= s.len(),
        drop_terminal(s, k).len() == s.len() - (if k < count_terminal(s) { k } else { count_terminal(s) }),
    decreases s.len(),
{
    if s.len() == 0 {
    } else {
        lemma_drop_len(s.drop_first(), k);
        if k > 0 && is_terminal(s[0].status) {
            lemma_drop_len(s.drop_first(), (k - 1) as nat);
        }
    }
}

/// Retention never evicts a running record.
pub proof fn lemma_drop_keeps_running(s: Seq<TaskRecord>, k: nat, i: int)
    requires
        0 <= i < s.len(),
        !is_terminal(s[i].status),
    ensures
        drop_terminal(s, k).contains(s[i]),
    decreases s.len(),
{
    if k == 0 {
        assert(s[i] == drop_terminal(s, k)[i]);
    } else if i == 0 {
        assert(drop_terminal(s, k)[0] == s[0]);
    } else {
        let rest = s.drop_first();
        assert(rest[i - 1] == s[i]);
        let k2: nat = if is_terminal(s[0].status) { (k - 1) as nat } else { k };
        lemma_drop_keeps_running(rest, k2, i - 1);
        if !is_terminal(s[0].status) {
            let r = drop_terminal(rest, k);
            let j = choose|j: int| 0 <= j < r.len() && r[j] == s[i];
            assert((seq![s[0]] + r)[j + 1] == s[i]);
        }
    }
}

/// Retention: a table over capacity whose finished records are at least the
/// excess is cut back to exactly the capacity, and every running record stays.
pub proof fn lemma_retention_keeps_capacity(s: Seq<TaskRecord>)
    requires
        s.len() > MAX_TASKS,
        count_terminal(s) >= s.len() - MAX_TASKS,
    ensures
        drop_terminal(s, excess_over(s.len())).len() == MAX_TASKS,
        forall|i: int|
            0 <= i < s.len() && !is_terminal(#[trigger] s[i].status) ==> drop_terminal(
                s,
                excess_over(s.len()),
            ).contains(s[i]),
{
    lemma_drop_len(s, excess_over(s.len()));
    assert forall|i: int| 0 <= i < s.len() && !is_terminal(#[trigger] s[i].status) implies drop_terminal(
        s,
        excess_over(s.len()),
    ).contains(s[i]) by {
        lemma_drop_keeps_running(s, excess_over(s.len()), i);
    }
}

/// Evicts the oldest finished records while the table is over capacity.
pub fn prune_finished_tasks(tasks: &mut Vec<TaskRecord>)
    ensures
        final(tasks)@ == drop_terminal(old(tasks)@, excess_over(old(tasks)@.len())),
{
    if tasks.len() <= MAX_TASKS {
        return;
    }
    let excess: usize = tasks.len() - MAX_TASKS;
    let mut source: Vec<TaskRecord> = Vec::new();
    std::mem::swap(tasks, &mut source);
    let ghost orig = source@;
    let mut removed: usize = 0;
    assert(tasks@ + source@ =~= source@);
    while source.len() > 0
        invariant
            removed <= excess,
            orig.len() > MAX_TASKS,
            excess == orig.len() - MAX_TASKS,
            tasks@ + drop_terminal(source@, (excess - removed) as nat) == drop_terminal(
                orig,
                excess as nat,
            ),
        decreases source.len(),
    {
        let ghost before = source@;
        let ghost kept = tasks@;
        let t = source.remove(0);
        assert(source@ =~= before.drop_first());
        if removed < excess && t.status != TaskLifecycleStatus::Running {
            removed += 1;
        } else {
            tasks.push(t);
            assert(before =~= seq![t] + source@);
            assert(kept.push(t) + drop_terminal(source@, (excess - removed) as nat) =~= kept + (seq![t]
                + drop_terminal(source@, (excess - removed) as nat)));
        }
    }
    assert(tasks@ + drop_terminal(source@, (excess - removed) as nat) =~= tasks@);
}

/// All task state: the records, in submission order, and the estimator.
pub struct CommandTaskStore {
    pub tasks: Vec<TaskRecord>,
    pub duration_estimates: DurationEstimator,
    /// Submission number of the next task.
    pub next_task_id: u64,
}

impl CommandTaskStore {
    pub open spec fn wf(&self) -> bool {
        &&& self.duration_estimates.wf()
        &&& self.next_task_id >= 1
        &&& forall|i: int| 0 <= i < self.tasks.len() ==> record_ok(#[trigger] self.tasks@[i], self.next_task_id)
        &&& in_submission_order(self.tasks@)
    }

    /// No two records share an id.
    pub proof fn lemma_ids_distinct(&self)
        requires
            self.wf(),
        ensures
            forall|i: int, j: int|
                0 <= i < self.tasks.len() && 0 <= j < self.tasks.len() && i != j ==> self.tasks@[i].task_id@
                    != self.tasks@[j].task_id@,
    {
        assert forall|i: int, j: int|
            0 <= i < self.tasks.len() && 0 <= j < self.tasks.len() && i != j implies self.tasks@[i].task_id@
                != self.tasks@[j].task_id@ by {
            assert(record_ok(self.tasks@[i], self.next_task_id));
            assert(record_ok(self.tasks@[j], self.next_task_id));
            if self.tasks@[i].task_id@ == self.tasks@[j].task_id@ {
                lemma_task_id_injective(self.tasks@[i].sequence, self.tasks@[j].sequence);
            }
        }
    }

    /// The record with a given id, if any, is the only one with it.
    pub proof fn lemma_position_is_unique(&self, id: Seq<char>, i: int)
        requires
            self.wf(),
            0 <= i < self.tasks.len(),
            self.tasks@[i].task_id@ == id,
        ensures
            position_of(self.tasks@, id) == Some(i),
    {
        self.lemma_ids_distinct();
        assert(is_first_with_id(self.tasks@, id, i));
        lemma_first_unique(self.tasks@, id, i);
    }

    pub fn new() -> (r: Self)
        ensures
            r.wf(),
            r.tasks@.len() == 0,
            r.next_task_id == 1,
            forall|c: Seq<char>| r.duration_estimates.average(c) == None::<u64>,
    {
        CommandTaskStore { tasks: Vec::new(), duration_estimates: DurationEstimator::new(), next_task_id: 1 }
    }

    fn find_task(&self, task_id: &str) -> (r: Option<usize>)
        ensures
            match r {
                Some(i) => i < self.tasks.len() && position_of(self.tasks@, task_id@) == Some(i as int),
                None => position_of(self.tasks@, task_id@) == None::<int>,
            },
    {
        let mut i: usize = 0;
        while i < self.tasks.len()
            invariant
                i <= self.tasks.len(),
                forall|j: int| 0 <= j < i ==> self.tasks@[j].task_id@ != task_id@,
            decreases self.tasks.len() - i,
        {
            if crate::text::same_text(self.tasks[i].task_id.as_str(), task_id) {
                proof {
                    lemma_first_unique(self.tasks@, task_id@, i as int);
                }
                return Some(i);
            }
            i += 1;
        }
        proof {
            if exists|k: int| is_first_with_id(self.tasks@, task_id@, k) {
                let k = choose|k: int| is_first_with_id(self.tasks@, task_id@, k);
                assert(self.tasks@[k].task_id@ != task_id@);
            }
        }
        None
    }

    fn generate_task_id(&mut self) -> (r: (String, u64))
        requires
            old(self).next_task_id < u64::MAX,
        ensures
            r.0@ == task_id_text(old(self).next_task_id),
            r.1 == old(self).next_task_id,
            final(self).next_task_id == old(self).next_task_id + 1,
            final(self).tasks == old(self).tasks,
            final(self).duration_estimates == old(self).duration_estimates,
    {
        let value = self.next_task_id;
        self.next_task_id = value + 1;
        let prefix = String::from_str("forge-task-");
        let digits = decimal_text(value);
        (prefix.concat(digits.as_str()), value)
    }

    /// Projected duration of a command, in seconds.
    pub fn estimate_for_command(&self, command_name: &str) -> (r: u64)
        requires
            self.wf(),
        ensures
            r == self.duration_estimates.estimate_of(command_name@),
    {
        self.duration_estimates.estimate(command_name)
    }

    /// Records one observed run time, in milliseconds, for a command.
    pub fn update_duration_estimate(&mut self, command_name: &str, observed_millis: u64)
        requires
            old(self).wf(),
        ensures
            final(self).wf(),
            final(self).tasks == old(self).tasks,
            final(self).next_task_id == old(self).next_task_id,
            old(self).duration_estimates.observed_into(final(self).duration_estimates, command_name@, observed_millis),
    {
        self.duration_estimates.observe(command_name, observed_millis)
    }

    proof fn lemma_prune_keeps_wf(&self, old_tasks: Seq<TaskRecord>)
        requires
            self.duration_estimates.wf(),
            self.next_task_id >= 1,
            forall|i: int| 0 <= i < old_tasks.len() ==> record_ok(#[trigger] old_tasks[i], self.next_task_id),
            self.tasks@ == drop_terminal(old_tasks, excess_over(old_tasks.len())),
            in_submission_order(old_tasks),
        ensures
            self.wf(),
    {
        lemma_drop_in_order(old_tasks, excess_over(old_tasks.len()));
        assert forall|i: int| 0 <= i < self.tasks.len() implies record_ok(#[trigger] self.tasks@[i], self.next_task_id) by {
            let x = self.tasks@[i];
            assert(drop_terminal(old_tasks, excess_over(old_tasks.len())).contains(x));
            lemma_drop_subset(old_tasks, excess_over(old_tasks.len()), x);
            let j = choose|j: int| 0 <= j < old_tasks.len() && old_tasks[j] == x;
            assert(record_ok(old_tasks[j], self.next_task_id));
        }
    }

    fn insert_running_task(
        &mut self,
        task_id: String,
        sequence: u64,
        command_name: String,
        args: Vec<String>,
        estimated_total_seconds: u64,
        now_millis: u64,
    )
        requires
            old(self).wf(),
            task_id@ == task_id_text(sequence),
            sequence < old(self).next_task_id,
            forall|i: int| 0 <= i < old(self).tasks.len() ==> old(self).tasks@[i].sequence < sequence,
            args.len() > 0,
            command_name@ == args@[0]@,
        ensures
            final(self).wf(),
            final(self).next_task_id == old(self).next_task_id,
            final(self).duration_estimates == old(self).duration_estimates,
            final(self).tasks.len() > 0,
            is_fresh_record(final(self).tasks@.last(), sequence, args@, now_millis, estimated_total_seconds),
            final(self).tasks@ == drop_terminal(
                old(self).tasks@.push(final(self).tasks@.last()),
                excess_over(old(self).tasks@.len() + 1),
            ),
    {
        let ghost args_view = args@;
        let record = TaskRecord {
            task_id,
            sequence,
            command: command_name,
            args,
            status: TaskLifecycleStatus::Running,
            started_at_millis: now_millis,
            estimated_total_seconds,
            stdout: String::new(),
            stderr: String::new(),
            exit_code: None,
        };
        let ghost pushed = self.tasks@.push(record);
        self.tasks.push(record);
        prune_finished_tasks(&mut self.tasks);
        proof {
            assert forall|i: int| 0 <= i < pushed.len() implies record_ok(#[trigger] pushed[i], self.next_task_id) by {
                if i < pushed.len() - 1 {
                    assert(pushed[i] == old(self).tasks@[i]);
                }
            }
            assert(in_submission_order(pushed)) by {
                assert forall|i: int, j: int| 0 <= i < j < pushed.len() implies pushed[i].sequence < pushed[j].sequence by {
                    assert(pushed[i] == old(self).tasks@[i]);
                    if j < pushed.len() - 1 {
                        assert(pushed[j] == old(self).tasks@[j]);
                    }
                }
            }
            self.lemma_prune_keeps_wf(pushed);
            lemma_drop_push_running(old(self).tasks@, excess_over(pushed.len()), record);
            assert(self.tasks@.last() == record);
            assert(pushed == old(self).tasks@.push(self.tasks@.last()));
        }
    }

    /// Registers a new running task for `args` (whose first element names
    /// the command) at clock reading `now_millis`, then applies retention.
    /// The caller starts the process and reports back through
    /// `append_stdout`, `finalize_child` and `fail_task`.
    pub fn start_task(&mut self, args: Vec<String>, now_millis: u64) -> (r: CommandTaskStart)
        requires
            old(self).wf(),
            args.len() > 0,
            old(self).next_task_id < u64::MAX,
        ensures
            final(self).wf(),
            r.task_id@ == task_id_text(old(self).next_task_id),
            r.estimated_total_seconds == old(self).duration_estimates.estimate_of(args@[0]@),
            final(self).next_task_id == old(self).next_task_id + 1,
            final(self).duration_estimates == old(self).duration_estimates,
            final(self).tasks.len() > 0,
            is_fresh_record(
                final(self).tasks@.last(),
                old(self).next_task_id,
                args@,
                now_millis,
                r.estimated_total_seconds,
            ),
            final(self).tasks@ == drop_terminal(
                old(self).tasks@.push(final(self).tasks@.last()),
                excess_over(old(self).tasks@.len() + 1),
            ),
    {
        let command_name = args[0].clone();
        let (task_id, sequence) = self.generate_task_id();
        assert(forall|i: int| 0 <= i < self.tasks.len() ==> record_ok(#[trigger] self.tasks@[i], sequence));
        let estimated_total_seconds = self.estimate_for_command(command_name.as_str());
        let reply_id = task_id.clone();
        self.insert_running_task(task_id, sequence, command_name, args, estimated_total_seconds, now_millis);
        CommandTaskStart { task_id: reply_id, estimated_total_seconds }
    }

    /// Snapshot of the task with id `task_id` at clock reading `now_millis`;
    /// an error if no record has that id. Nothing is changed.
    pub fn get_task_status(&self, task_id: &str, now_millis: u64) -> (r: Result<CommandTaskStatus, String>)
        ensures
            match position_of(self.tasks@, task_id@) {
                Some(i) => r is Ok && describes(r->Ok_0, self.tasks@[i], now_millis),
                None => r is Err && r->Err_0@ == unknown_task_text(task_id@),
            },
    {
        match self.find_task(task_id) {
            Some(i) => Ok(task_to_status(&self.tasks[i], now_millis)),
            None => {
                let message = String::from_str("Unknown task id '").concat(task_id).concat("'");
                Err(message)
            },
        }
    }

    /// Appends a chunk of standard output to a running task; a finished or
    /// unknown task is left as it is.
    pub fn append_stdout(&mut self, task_id: &str, chunk: &str)
        requires
            old(self).wf(),
        ensures
            final(self).wf(),
            final(self).next_task_id == old(self).next_task_id,
            final(self).duration_estimates == old(self).duration_estimates,
            final(self).tasks.len() == old(self).tasks.len(),
            match position_of(old(self).tasks@, task_id@) {
                Some(i) => if old(self).tasks@[i].status == TaskLifecycleStatus::Running {
                    &&& forall|j: int| 0 <= j < old(self).tasks.len() && j != i
                        ==> final(self).tasks@[j] == old(self).tasks@[j]
                    &&& same_identity(final(self).tasks@[i], old(self).tasks@[i])
                    &&& final(self).tasks@[i].status == TaskLifecycleStatus::Running
                    &&& final(self).tasks@[i].stdout@ == old(self).tasks@[i].stdout@ + chunk@
                    &&& final(self).tasks@[i].stderr@ == old(self).tasks@[i].stderr@
                    &&& final(self).tasks@[i].exit_code == old(self).tasks@[i].exit_code
                } else {
                    final(self).tasks@ == old(self).tasks@
                },
                None => final(self).tasks@ == old(self).tasks@,
            },
    {
        if let Some(i) = self.find_task(task_id) {
            if self.tasks[i].status == TaskLifecycleStatus::Running {
                let mut record = self.tasks.remove(i);
                record.stdout.append(chunk);
                self.tasks.insert(i, record);
                proof {
                    assert forall|j: int| 0 <= j < self.tasks.len() implies record_ok(#[trigger] self.tasks@[j], self.next_task_id) by {
                        if j != i {
                            assert(self.tasks@[j] == old(self).tasks@[j]);
                        }
                    }
                    assert forall|a: int, b: int| 0 <= a < b < self.tasks.len() implies self.tasks@[a].sequence < self.tasks@[b].sequence by {
                        assert(self.tasks@[a].sequence == old(self).tasks@[a].sequence);
                        assert(self.tasks@[b].sequence == old(self).tasks@[b].sequence);
                    }
                }
            }
        }
    }

    /// Settles a running record at index `i` with `code` and `stderr`, and
    /// feeds its run time into the estimator.
    fn settle(&mut self, i: usize, code: i32, stderr: String, now_millis: u64)
        requires
            old(self).wf(),
            i < old(self).tasks.len(),
            old(self).tasks@[i as int].status == TaskLifecycleStatus::Running,
        ensures
            final(self).wf(),
            final(self).next_task_id == old(self).next_task_id,
            final(self).tasks.len() == old(self).tasks.len(),
            forall|j: int| 0 <= j < old(self).tasks.len() && j != i ==> final(self).tasks@[j] == old(self).tasks@[j],
            same_identity(final(self).tasks@[i as int], old(self).tasks@[i as int]),
            final(self).tasks@[i as int].status == status_after_exit(TaskLifecycleStatus::Running, code),
            final(self).tasks@[i as int].exit_code == Some(code),
            final(self).tasks@[i as int].stdout@ == old(self).tasks@[i as int].stdout@,
            final(self).tasks@[i as int].stderr@ == stderr@,
            old(self).duration_estimates.observed_into(
                final(self).duration_estimates,
                old(self).tasks@[i as int].command@,
                observed_millis_between(old(self).tasks@[i as int].started_at_millis, now_millis),
            ),
    {
        let mut record = self.tasks.remove(i);
        record.exit_code = Some(code);
        record.stderr = stderr;
        record.status = if code == 0 {
            TaskLifecycleStatus::Completed
        } else {
            TaskLifecycleStatus::Failed
        };
        let observed = observed_millis(record.started_at_millis, now_millis);
        self.duration_estimates.observe(record.command.as_str(), observed);
        self.tasks.insert(i, record);
        proof {
            assert forall|j: int| 0 <= j < self.tasks.len() implies record_ok(#[trigger] self.tasks@[j], self.next_task_id) by {
                if j != i {
                    assert(self.tasks@[j] == old(self).tasks@[j]);
                }
            }
            assert forall|a: int, b: int| 0 <= a < b < self.tasks.len() implies self.tasks@[a].sequence < self.tasks@[b].sequence by {
                assert(self.tasks@[a].sequence == old(self).tasks@[a].sequence);
                assert(self.tasks@[b].sequence == old(self).tasks@[b].sequence);
            }
        }
    }

    /// Records the end of a task's process: its exit code (`None` when the
    /// process gave none) and its standard error. A running task completes
    /// on code 0 and fails otherwise, and its run time (at least one second)
    /// is fed to the estimator; a finished or unknown task is left as it is.
    pub fn finalize_child(&mut self, task_id: &str, exit_code: Option<i32>, stderr: String, now_millis: u64)
        requires
            old(self).wf(),
        ensures
            final(self).wf(),
            final(self).next_task_id == old(self).next_task_id,
            final(self).tasks.len() == old(self).tasks.len(),
            match position_of(old(self).tasks@, task_id@) {
                Some(i) => if old(self).tasks@[i].status == TaskLifecycleStatus::Running {
                    &&& forall|j: int| 0 <= j < old(self).tasks.len() && j != i
                        ==> final(self).tasks@[j] == old(self).tasks@[j]
                    &&& same_identity(final(self).tasks@[i], old(self).tasks@[i])
                    &&& final(self).tasks@[i].status == status_after_exit(
                        TaskLifecycleStatus::Running,
                        exit_code_or_failure(exit_code),
                    )
                    &&& final(self).tasks@[i].exit_code == Some(exit_code_or_failure(exit_code))
                    &&& final(self).tasks@[i].stdout@ == old(self).tasks@[i].stdout@
                    &&& final(self).tasks@[i].stderr@ == stderr@
                    &&& old(self).duration_estimates.observed_into(
                        final(self).duration_estimates,
                        old(self).tasks@[i].command@,
                        observed_millis_between(old(self).tasks@[i].started_at_millis, now_millis),
                    )
                } else {
                    final(self).tasks@ == old(self).tasks@
                        && final(self).duration_estimates == old(self).duration_estimates
                },
                None => final(self).tasks@ == old(self).tasks@
                    && final(self).duration_estimates == old(self).duration_estimates,
            },
    {
        if let Some(i) = self.find_task(task_id) {
            if self.tasks[i].status == TaskLifecycleStatus::Running {
                let code: i32 = match exit_code {
                    Some(c) => c,
                    None => FAILURE_EXIT_CODE,
                };
                self.settle(i, code, stderr, now_millis);
            }
        }
    }

    /// Records that a task's process could not be started: a running task
    /// fails with the sentinel exit code and a message naming the cause, and
    /// the attempt still counts as a run for the estimator.
    pub fn fail_task(&mut self, task_id: &str, error_message: &str, now_millis: u64)
        requires
            old(self).wf(),
        ensures
            final(self).wf(),
            final(self).next_task_id == old(self).next_task_id,
            final(self).tasks.len() == old(self).tasks.len(),
            match position_of(old(self).tasks@, task_id@) {
                Some(i) => if old(self).tasks@[i].status == TaskLifecycleStatus::Running {
                    &&& forall|j: int| 0 <= j < old(self).tasks.len() && j != i
                        ==> final(self).tasks@[j] == old(self).tasks@[j]
                    &&& same_identity(final(self).tasks@[i], old(self).tasks@[i])
                    &&& final(self).tasks@[i].status == TaskLifecycleStatus::Failed
                    &&& final(self).tasks@[i].exit_code == Some(FAILURE_EXIT_CODE)
                    &&& final(self).tasks@[i].stdout@ == old(self).tasks@[i].stdout@
                    &&& final(self).tasks@[i].stderr@ == spawn_failure_text(error_message@)
                    &&& old(self).duration_estimates.observed_into(
                        final(self).duration_estimates,
                        old(self).tasks@[i].command@,
                        observed_millis_between(old(self).tasks@[i].started_at_millis, now_millis),
                    )
                } else {
                    final(self).tasks@ == old(self).tasks@
                        && final(self).duration_estimates == old(self).duration_estimates
                },
                None => final(self).tasks@ == old(self).tasks@
                    && final(self).duration_estimates == old(self).duration_estimates,
            },
    {
        if let Some(i) = self.find_task(task_id) {
            if self.tasks[i].status == TaskLifecycleStatus::Running {
                let message = String::from_str("Failed to run forge command: ").concat(error_message);
                self.settle(i, FAILURE_EXIT_CODE, message, now_millis);
            }
        }
    }
}

impl Default for CommandTaskStore {
    fn default() -> (r: Self)
        ensures
            r.wf(),
            r.tasks@.len() == 0,
            r.next_task_id == 1,
            forall|c: Seq<char>| r.duration_estimates.average(c) == None::<u64>,
    {
        CommandTaskStore::new()
    }
}

} // verus!
