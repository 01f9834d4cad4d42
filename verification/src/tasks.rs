//! Tasks: how the text of the form for a new task becomes a task.
use crate::model::{option_text, Task, TaskFormData};
use vstd::prelude::*;

verus! {

/// The priority of a task whose form gives none that can be read.
pub const DEFAULT_PRIORITY: u8 = 3;

/// Whether `c` is one of the digits `0` to `9`.
pub open spec fn is_digit(c: char) -> bool {
    '0' <= c && c <= '9'
}

/// The number that a digit stands for.
pub open spec fn digit_value(c: char) -> nat {
    (c as u32 - '0' as u32) as nat
}

/// The number that a sequence of digits stands for, read in base ten; zero
/// for the empty sequence.
pub open spec fn digits_value(digits: Seq<char>) -> nat
    decreases digits.len(),
{
    if digits.len() == 0 {
        0
    } else {
        digits_value(digits.drop_last()) * 10 + digit_value(digits.last())
    }
}

/// Whether the text consists of digits alone.
pub open spec fn all_digits(text: Seq<char>) -> bool {
    forall|i: int| 0 <= i < text.len() ==> is_digit(#[trigger] text[i])
}

/// The text without one plus sign at its start.
pub open spec fn unsigned_part(text: Seq<char>) -> Seq<char> {
    if text.len() > 0 && text[0] == '+' {
        text.drop_first()
    } else {
        text
    }
}

/// The number that a text stands for: the text is one or more digits, and
/// may have one plus sign before them. Any other text stands for none.
pub open spec fn decimal_number(text: Seq<char>) -> Option<nat> {
    let digits = unsigned_part(text);
    if digits.len() > 0 && all_digits(digits) {
        Some(digits_value(digits))
    } else {
        None
    }
}

/// The number that a text stands for, if it is no greater than `max`.
pub open spec fn decimal_up_to(text: Seq<char>, max: nat) -> Option<nat> {
    match decimal_number(text) {
        Some(n) => if n <= max {
            Some(n)
        } else {
            None
        },
        None => None,
    }
}

/// The value of a sequence of digits does not shrink when digits follow.
pub proof fn lemma_digits_value_grows(digits: Seq<char>, len: int)
    requires
        0 <= len <= digits.len(),
    ensures
        digits_value(digits.take(len)) <= digits_value(digits),
    decreases digits.len() - len,
{
    if len < digits.len() {
        lemma_digits_value_grows(digits, len + 1);
        assert(digits.take(len + 1).drop_last() == digits.take(len));
    } else {
        assert(digits.take(len) == digits);
    }
}

/// The number of digits among the first `index` characters of a text that
/// starts with `sign` plus signs.
spec fn digits_read(index: int, sign: int) -> int {
    if index == 0 {
        0
    } else {
        index - sign
    }
}

/// Reads a number of at most `max` from a text.
pub fn parse_decimal(text: &str, max: u32) -> (result: Option<u32>)
    ensures
        match result {
            Some(n) => decimal_up_to(text@, max as nat) == Some(n as nat),
            None => decimal_up_to(text@, max as nat) is None,
        },
{
    broadcast use vstd::string::group_string_axioms;

    let ghost digits = unsigned_part(text@);
    let ghost sign: int = text@.len() - digits.len();
    let mut value: u64 = 0;
    let mut first = true;
    let mut any_digit = false;
    assert(digits.take(0) == Seq::<char>::empty());
    for c in it: text.chars()
        invariant
            it.seq() == text@,
            digits == unsigned_part(text@),
            sign == text@.len() - digits.len(),
            first <==> it.index() == 0,
            any_digit <==> digits_read(it.index() as int, sign) > 0,
            0 <= digits_read(it.index() as int, sign) <= digits.len(),
            all_digits(digits.take(digits_read(it.index() as int, sign))),
            value == digits_value(digits.take(digits_read(it.index() as int, sign))),
            value <= max,
    {
        let ghost count = digits_read(it.index() as int, sign);
        if first && c == '+' {
            first = false;
        } else {
            first = false;
            assert(digits[count] == c) by {
                if sign == 1 {
                    assert(text@.drop_first()[count] == text@[count + 1]);
                }
            }
            if !('0' <= c && c <= '9') {
                assert(!all_digits(digits));
                return None;
            }
            let digit = (c as u32 - '0' as u32) as u64;
            let next = value * 10 + digit;
            proof {
                let longer = digits.take(count + 1);
                assert(longer.drop_last() == digits.take(count));
                assert(longer.last() == c);
                assert(next == digits_value(longer));
                assert forall|i: int| 0 <= i < longer.len() implies is_digit(
                    #[trigger] longer[i],
                ) by {
                    if i < count {
                        assert(longer[i] == digits.take(count)[i]);
                    }
                }
            }
            if next > max as u64 {
                proof {
                    lemma_digits_value_grows(digits, count + 1);
                }
                return None;
            }
            value = next;
            any_digit = true;
        }
    }
    if any_digit {
        assert(digits.take(digits.len() as int) == digits);
        Some(value as u32)
    } else {
        assert(digits.len() == 0);
        None
    }
}

/// The mathematical content of a [`Task`].
pub struct TaskView {
    pub id: u32,
    pub title: Seq<char>,
    pub priority: u8,
    pub deadline: Seq<char>,
    pub estimated_time: u32,
    pub start_date: Option<Seq<char>>,
    pub scheduled_start: Option<Seq<char>>,
    pub completed: bool,
    pub locked: bool,
    pub category: Option<Seq<char>>,
    pub reminder_enabled: bool,
    pub reminder_minutes: u32,
    pub project_id: Option<u32>,
    pub created_at: Seq<char>,
}

impl View for Task {
    type V = TaskView;

    open spec fn view(&self) -> TaskView {
        TaskView {
            id: self.id,
            title: self.title@,
            priority: self.priority,
            deadline: self.deadline@,
            estimated_time: self.estimated_time,
            start_date: option_text(self.start_date),
            scheduled_start: option_text(self.scheduled_start),
            completed: self.completed,
            locked: self.locked,
            category: option_text(self.category),
            reminder_enabled: self.reminder_enabled,
            reminder_minutes: self.reminder_minutes,
            project_id: self.project_id,
            created_at: self.created_at@,
        }
    }
}

/// The number in a field of the form, or `fallback` where the field holds
/// no number of at most `max`.
pub open spec fn field_value(text: Seq<char>, max: nat, fallback: nat) -> nat {
    match decimal_up_to(text, max) {
        Some(n) => n,
        None => fallback,
    }
}

/// The minutes that the form estimates: sixty for each hour, and the
/// minutes. A field that holds no number counts as zero.
pub open spec fn estimated_minutes(hours: Seq<char>, minutes: Seq<char>) -> nat {
    field_value(hours, u32::MAX as nat, 0) * 60 + field_value(minutes, u32::MAX as nat, 0)
}

/// The task with the identifier `id` that a form stands for, made at the
/// time `created_at`.
///
/// The priority is the one in the form, or [`DEFAULT_PRIORITY`] where the
/// form holds none. An empty start date is no start date. The task is new:
/// not scheduled, not completed, not locked, in no category and no project,
/// without a reminder. There is no task where the estimate is more minutes
/// than a task can hold.
pub open spec fn task_of_form(
    id: u32,
    title: Seq<char>,
    priority: Seq<char>,
    deadline: Seq<char>,
    hours: Seq<char>,
    minutes: Seq<char>,
    start_date: Seq<char>,
    created_at: Seq<char>,
) -> Option<TaskView> {
    if estimated_minutes(hours, minutes) > u32::MAX {
        None
    } else {
        Some(
            TaskView {
                id,
                title,
                priority: field_value(priority, u8::MAX as nat, DEFAULT_PRIORITY as nat) as u8,
                deadline,
                estimated_time: estimated_minutes(hours, minutes) as u32,
                start_date: if start_date.len() == 0 {
                    None
                } else {
                    Some(start_date)
                },
                scheduled_start: None,
                completed: false,
                locked: false,
                category: None,
                reminder_enabled: false,
                reminder_minutes: 0,
                project_id: None,
                created_at,
            },
        )
    }
}

/// The view of an optional task.
pub open spec fn option_task_view(task: Option<Task>) -> Option<TaskView> {
    match task {
        Some(t) => Some(t@),
        None => None,
    }
}

impl TaskFormData {
    /// The priority that the form gives, or [`DEFAULT_PRIORITY`].
    pub fn priority_value(&self) -> (priority: u8)
        ensures
            priority == field_value(self.priority@, u8::MAX as nat, DEFAULT_PRIORITY as nat),
    {
        match parse_decimal(self.priority.as_str(), 255) {
            Some(n) => n as u8,
            None => DEFAULT_PRIORITY,
        }
    }

    /// The minutes that the form estimates, where a task can hold them.
    pub fn estimated_time(&self) -> (minutes: Option<u32>)
        ensures
            match minutes {
                Some(m) => m == estimated_minutes(self.estimated_hours@, self.estimated_minutes@),
                None => estimated_minutes(self.estimated_hours@, self.estimated_minutes@)
                    > u32::MAX,
            },
    {
        let hours: u64 = match parse_decimal(self.estimated_hours.as_str(), u32::MAX) {
            Some(n) => n as u64,
            None => 0,
        };
        let minutes: u64 = match parse_decimal(self.estimated_minutes.as_str(), u32::MAX) {
            Some(n) => n as u64,
            None => 0,
        };
        let total = hours * 60 + minutes;
        if total > u32::MAX as u64 {
            None
        } else {
            Some(total as u32)
        }
    }
}

impl Task {
    /// The task that a form stands for: see [`task_of_form`].
    pub fn from_form(id: u32, form: TaskFormData, created_at: String) -> (task: Option<Task>)
        ensures
            option_task_view(task) == task_of_form(
                id,
                form.title@,
                form.priority@,
                form.deadline@,
                form.estimated_hours@,
                form.estimated_minutes@,
                form.start_date@,
                created_at@,
            ),
    {
        let priority = form.priority_value();
        let estimated_time = match form.estimated_time() {
            Some(minutes) => minutes,
            None => {
                return None;
            },
        };
        let start_date = if form.start_date.as_str().is_empty() {
            None
        } else {
            Some(form.start_date)
        };
        Some(
            Task {
                id,
                title: form.title,
                priority,
                deadline: form.deadline,
                estimated_time,
                start_date,
                scheduled_start: None,
                completed: false,
                locked: false,
                category: None,
                reminder_enabled: false,
                reminder_minutes: 0,
                project_id: None,
                created_at,
            },
        )
    }
}

} // verus!
