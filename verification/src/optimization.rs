//! Scheduling: the order in which tasks are to be worked on.
use crate::model::Task;
use crate::tasks::TaskView;
use crate::text::chars_of;
use vstd::prelude::*;

verus! {

/// Whether the text `a` comes before the text `b`, or is equal to it, in
/// the order of a dictionary: the first character in which they differ
/// decides, and a text comes before every text that it starts.
pub open spec fn text_le(a: Seq<char>, b: Seq<char>) -> bool
    decreases a.len(),
{
    if a.len() == 0 {
        true
    } else if b.len() == 0 {
        false
    } else if a[0] != b[0] {
        a[0] < b[0]
    } else {
        text_le(a.drop_first(), b.drop_first())
    }
}

/// Of two texts one comes before the other, or they are equal.
pub proof fn lemma_text_le_total(a: Seq<char>, b: Seq<char>)
    ensures
        text_le(a, b) || text_le(b, a),
    decreases a.len(),
{
    if a.len() > 0 && b.len() > 0 && a[0] == b[0] {
        lemma_text_le_total(a.drop_first(), b.drop_first());
    }
}

/// The order of texts is transitive.
pub proof fn lemma_text_le_transitive(a: Seq<char>, b: Seq<char>, c: Seq<char>)
    requires
        text_le(a, b),
        text_le(b, c),
    ensures
        text_le(a, c),
    decreases a.len(),
{
    if a.len() > 0 && b.len() > 0 && c.len() > 0 && a[0] == b[0] && b[0] == c[0] {
        lemma_text_le_transitive(a.drop_first(), b.drop_first(), c.drop_first());
    }
}

/// Computes [`text_le`].
pub fn text_comes_first(a: &str, b: &str) -> (result: bool)
    ensures
        result == text_le(a@, b@),
{
    let left = chars_of(a);
    let right = chars_of(b);
    let mut i: usize = 0;
    assert(a@.skip(0) == a@ && b@.skip(0) == b@);
    while i < left.len() && i < right.len()
        invariant
            left@ == a@,
            right@ == b@,
            i <= left.len(),
            i <= right.len(),
            text_le(a@, b@) == text_le(a@.skip(i as int), b@.skip(i as int)),
        decreases left.len() - i,
    {
        if left[i] != right[i] {
            return left[i] < right[i];
        }
        assert(a@.skip(i as int).drop_first() == a@.skip(i + 1));
        assert(b@.skip(i as int).drop_first() == b@.skip(i + 1));
        i = i + 1;
    }
    left.len() <= right.len()
}

/// Whether the task `a` may stand before the task `b` in a schedule: its
/// priority is the smaller number, or the priorities are equal and its
/// deadline is not the later text.
pub open spec fn may_precede(a: TaskView, b: TaskView) -> bool {
    a.priority < b.priority || (a.priority == b.priority && text_le(a.deadline, b.deadline))
}

/// Of two tasks one may stand before the other.
pub proof fn lemma_may_precede_total(a: TaskView, b: TaskView)
    ensures
        may_precede(a, b) || may_precede(b, a),
{
    lemma_text_le_total(a.deadline, b.deadline);
}

/// If `a` may stand before `b` and `b` before `c`, then `a` may stand
/// before `c`.
pub proof fn lemma_may_precede_transitive(a: TaskView, b: TaskView, c: TaskView)
    requires
        may_precede(a, b),
        may_precede(b, c),
    ensures
        may_precede(a, c),
{
    if a.priority == b.priority && b.priority == c.priority {
        lemma_text_le_transitive(a.deadline, b.deadline, c.deadline);
    }
}

/// Computes [`may_precede`].
pub fn task_may_precede(a: &Task, b: &Task) -> (result: bool)
    ensures
        result == may_precede(a@, b@),
{
    a.priority < b.priority || (a.priority == b.priority && text_comes_first(
        a.deadline.as_str(),
        b.deadline.as_str(),
    ))
}

/// Whether `schedule` holds the tasks of `tasks` from the place `from` on
/// in the order of a schedule, where `origin` gives for each place in the
/// schedule the place that its task had in `tasks`.
///
/// Every such task stands in the schedule once. Each task may stand before
/// those that come after it, and of two tasks that may stand either way
/// round, the one that came first in `tasks` comes first.
pub open spec fn is_schedule_from(
    schedule: Seq<Task>,
    tasks: Seq<Task>,
    origin: Seq<int>,
    from: int,
) -> bool {
    &&& schedule.len() == tasks.len() - from
    &&& origin.len() == schedule.len()
    &&& forall|i: int|
        0 <= i < schedule.len() ==> from <= #[trigger] origin[i] < tasks.len() && schedule[i]
            == tasks[origin[i]]
    &&& forall|i: int, j: int|
        0 <= i < j < schedule.len() ==> #[trigger] origin[i] != #[trigger] origin[j]
    &&& forall|i: int, j: int|
        0 <= i < j < schedule.len() ==> may_precede(
            (#[trigger] schedule[i])@,
            (#[trigger] schedule[j])@,
        )
    &&& forall|i: int, j: int|
        0 <= i < j < schedule.len() && may_precede(schedule[j]@, schedule[i]@)
            ==> #[trigger] origin[i] < #[trigger] origin[j]
}

/// Whether `schedule` holds all the tasks of `tasks` in the order of a
/// schedule: see [`is_schedule_from`].
pub open spec fn is_schedule_of(schedule: Seq<Task>, tasks: Seq<Task>, origin: Seq<int>) -> bool {
    is_schedule_from(schedule, tasks, origin, 0)
}

/// Putting the task before the place `from` into the schedule of the tasks
/// from there on, before the first task that it may precede, gives the
/// schedule of the tasks from its own place on.
proof fn lemma_insert_keeps_schedule(
    schedule: Seq<Task>,
    tasks: Seq<Task>,
    origin: Seq<int>,
    from: int,
    at: int,
)
    requires
        0 < from <= tasks.len(),
        is_schedule_from(schedule, tasks, origin, from),
        0 <= at <= schedule.len(),
        forall|i: int| 0 <= i < at ==> !may_precede(tasks[from - 1]@, (#[trigger] schedule[i])@),
        at < schedule.len() ==> may_precede(tasks[from - 1]@, schedule[at]@),
    ensures
        is_schedule_from(
            schedule.insert(at, tasks[from - 1]),
            tasks,
            origin.insert(at, from - 1),
            from - 1,
        ),
{
    let task = tasks[from - 1];
    let longer = schedule.insert(at, task);
    let places = origin.insert(at, from - 1);
    assert forall|i: int| 0 <= i < longer.len() implies from - 1 <= #[trigger] places[i]
        < tasks.len() && longer[i] == tasks[places[i]] by {
        if i < at {
            assert(places[i] == origin[i] && longer[i] == schedule[i]);
        } else if i > at {
            assert(places[i] == origin[i - 1] && longer[i] == schedule[i - 1]);
        }
    }
    assert forall|i: int, j: int| 0 <= i < j < longer.len() implies {
        &&& #[trigger] places[i] != #[trigger] places[j]
        &&& may_precede(longer[i]@, longer[j]@)
        &&& (may_precede(longer[j]@, longer[i]@) ==> places[i] < places[j])
    } by {
        let old_i = if i < at {
            i
        } else {
            i - 1
        };
        let old_j = if j < at {
            j
        } else {
            j - 1
        };
        if i != at {
            assert(places[i] == origin[old_i] && longer[i] == schedule[old_i]);
        }
        if j != at {
            assert(places[j] == origin[old_j] && longer[j] == schedule[old_j]);
        }
        if i == at {
            assert(may_precede(task@, schedule[at]@));
            if old_j > at {
                assert(may_precede(schedule[at]@, schedule[old_j]@));
                lemma_may_precede_transitive(task@, schedule[at]@, schedule[old_j]@);
            }
        } else if j == at {
            assert(!may_precede(task@, schedule[i]@));
            lemma_may_precede_total(task@, schedule[i]@);
        } else {
            assert(origin[old_i] != origin[old_j]);
            assert(may_precede(schedule[old_i]@, schedule[old_j]@));
        }
    }
    assert forall|i: int, j: int| 0 <= i < j < longer.len() implies may_precede(
        (#[trigger] longer[i])@,
        (#[trigger] longer[j])@,
    ) by {
        assert(places[i] != places[j]);
    }
}

/// Orders tasks for work: by priority, the smallest number first, and
/// tasks of one priority by their deadline, the earliest text first. Tasks
/// that agree in both keep the order in which they came.
pub fn optimize_task_schedule(tasks: Vec<Task>) -> (schedule: Vec<Task>)
    ensures
        exists|origin: Seq<int>| is_schedule_of(schedule@, tasks@, origin),
{
    let ghost all = tasks@;
    let mut remaining = tasks;
    let mut schedule: Vec<Task> = Vec::new();
    let ghost mut origin: Seq<int> = Seq::empty();
    while remaining.len() > 0
        invariant
            remaining@ == all.take(remaining.len() as int),
            remaining.len() <= all.len(),
            is_schedule_from(schedule@, all, origin, remaining.len() as int),
        decreases remaining.len(),
    {
        let ghost from = remaining.len() as int;
        let task = remaining.pop().unwrap();
        assert(task == all[from - 1]);
        let mut at: usize = 0;
        while at < schedule.len() && !task_may_precede(&task, &schedule[at])
            invariant
                at <= schedule.len(),
                forall|i: int| 0 <= i < at ==> !may_precede(task@, (#[trigger] schedule@[i])@),
            decreases schedule.len() - at,
        {
            at = at + 1;
        }
        proof {
            lemma_insert_keeps_schedule(schedule@, all, origin, from, at as int);
            origin = origin.insert(at as int, from - 1);
        }
        schedule.insert(at, task);
        assert(remaining@ == all.take(from - 1));
    }
    assert(is_schedule_of(schedule@, all, origin));
    schedule
}

} // verus!
