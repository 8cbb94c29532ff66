use vstd::prelude::*;
use crate::text::{
    append_signed, decimal_in_range, decimal_text, lemma_decimal_round_trip, lemma_split_two, parse_i32, parse_i64,
    split_colon, split_fields,
};

verus! {

/// A queue key `calc:<table>:<score_id>:<player_id>`, read.
#[derive(Debug)]
pub struct QueueKey {
    pub table: String,
    pub score_id: i64,
    pub player_id: i32,
}

/// A queue value `<try_count>:<params>`, read.
#[derive(Debug)]
pub struct QueueValue {
    pub try_count: i32,
    pub params: String,
}

/// What the worker does with a queue entry before any work on it.
#[derive(Debug)]
pub enum EntryPlan {
    /// The value is malformed: delete the key.
    Discard,
    /// Retried too often: leave the entry in place for audit.
    Skip,
    /// Recalculate with these parameters.
    Process(QueueValue),
}

/// What the worker writes back for an entry it worked on.
#[derive(Debug)]
pub enum QueueAction {
    /// Write this value back under the key: one more try was spent.
    Rewrite(String),
    /// The work is persisted: delete the key.
    Delete,
}

/// A player whose totals the sibling service should refresh.
#[derive(Debug, Clone, Copy, PartialEq, Eq, Structural)]
pub struct UpdateUserTask {
    pub player_id: i32,
    pub mode: u8,
    pub recalc: bool,
}

/// The fields of a queue key when it is well formed.
pub open spec fn queue_key_of(s: Seq<char>) -> Option<(Seq<char>, int, int)> {
    let f = split_colon(s);
    if f.len() == 4 && f[0] == seq!['c', 'a', 'l', 'c'] && decimal_in_range(f[2], i64::MIN as int, i64::MAX as int) is Some
        && decimal_in_range(f[3], i32::MIN as int, i32::MAX as int) is Some {
        Some((f[1], decimal_in_range(f[2], i64::MIN as int, i64::MAX as int)->0, decimal_in_range(f[3], i32::MIN as int, i32::MAX as int)->0))
    } else {
        None
    }
}

/// The fields of a queue value when it is well formed.
pub open spec fn queue_value_of(s: Seq<char>) -> Option<(int, Seq<char>)> {
    let f = split_colon(s);
    if f.len() == 2 && decimal_in_range(f[0], i32::MIN as int, i32::MAX as int) is Some {
        Some((decimal_in_range(f[0], i32::MIN as int, i32::MAX as int)->0, f[1]))
    } else {
        None
    }
}

/// The value written back after a failed try: the count one higher, same parameters.
pub open spec fn retry_text(try_count: int, params: Seq<char>) -> Seq<char> {
    decimal_text(try_count + 1) + seq![':'] + params
}

/// Reads a queue key; `None` when it is not `calc:<table>:<i64>:<i32>`.
pub fn parse_queue_key(key: &str) -> (r: Option<QueueKey>)
    ensures
        r matches Some(k) ==> queue_key_of(key@) == Some((k.table@, k.score_id as int, k.player_id as int)),
        r is None ==> queue_key_of(key@) is None,
{
    let f = split_fields(key);
    proof {
        reveal_strlit("calc");
    }
    if f.len() != 4 {
        return None;
    }
    let calc = String::from_str("calc");
    assert(calc@ =~= seq!['c', 'a', 'l', 'c']);
    if !(f[0] == calc) {
        return None;
    }
    let score_id = match parse_i64(f[2].as_str()) {
        Some(v) => v,
        None => return None,
    };
    let player_id = match parse_i32(f[3].as_str()) {
        Some(v) => v,
        None => return None,
    };
    Some(QueueKey { table: f[1].clone(), score_id, player_id })
}

/// Reads a queue value; `None` when it is not `<i32>:<params>`.
pub fn parse_queue_value(value: &str) -> (r: Option<QueueValue>)
    ensures
        r matches Some(v) ==> queue_value_of(value@) == Some((v.try_count as int, v.params@)),
        r is None ==> queue_value_of(value@) is None,
{
    let f = split_fields(value);
    if f.len() != 2 {
        return None;
    }
    let try_count = match parse_i32(f[0].as_str()) {
        Some(v) => v,
        None => return None,
    };
    Some(QueueValue { try_count, params: f[1].clone() })
}

/// Decides on a queue value: discard it when malformed, leave it alone once
/// `try_count` reached `max_retry`, else work on it.
pub fn plan_entry(value: &str, max_retry: i32) -> (r: EntryPlan)
    ensures
        queue_value_of(value@) is None ==> r is Discard,
        queue_value_of(value@) matches Some((t, p)) ==> (if t >= max_retry {
            r is Skip
        } else {
            r matches EntryPlan::Process(v) && v.try_count == t && v.params@ == p
        }),
{
    match parse_queue_value(value) {
        None => EntryPlan::Discard,
        Some(v) => if v.try_count >= max_retry {
            EntryPlan::Skip
        } else {
            EntryPlan::Process(v)
        },
    }
}

/// The value `<try_count + 1>:<params>`.
pub fn retry_value(try_count: i32, params: &str) -> (r: String)
    requires
        try_count < i32::MAX,
    ensures
        r@ == retry_text(try_count as int, params@),
{
    proof {
        reveal_strlit(":");
    }
    let mut s = String::new();
    append_signed(&mut s, (try_count + 1) as i64);
    s.append(":");
    s.append(params);
    assert(s@ =~= retry_text(try_count as int, params@));
    s
}

/// What to write back for an entry that was worked on: another try when the
/// beatmap could not be had or the result could not be saved, else deletion.
pub fn entry_outcome(job: &QueueValue, resolved: bool, saved: bool) -> (r: QueueAction)
    requires
        job.try_count < i32::MAX,
    ensures
        !resolved || !saved ==> (r matches QueueAction::Rewrite(v) && v@ == retry_text(job.try_count as int, job.params@)),
        resolved && saved ==> r is Delete,
{
    if resolved && saved {
        QueueAction::Delete
    } else {
        QueueAction::Rewrite(retry_value(job.try_count, job.params.as_str()))
    }
}

/// The statement that stores a recalculated score in `game_scores.<table>`.
pub fn score_update_sql(table: &str) -> (r: String)
    ensures
        r@ == "UPDATE \"game_scores\".\""@ + table@
            + "\" SET pp_v2 = $1, pp_v2_raw = $2, stars = $3 WHERE \"id\" = $4"@,
{
    let mut s = String::from_str("UPDATE \"game_scores\".\"");
    s.append(table);
    s.append("\" SET pp_v2 = $1, pp_v2_raw = $2, stars = $3 WHERE \"id\" = $4");
    s
}

/// The refresh request for a player after a recalculation in `mode` (0 when unset).
pub fn update_task_for(player_id: i32, mode: Option<u8>) -> (r: UpdateUserTask)
    ensures
        r.player_id == player_id,
        r.mode == (match mode {
            Some(m) => m,
            None => 0,
        }),
        !r.recalc,
{
    let m = match mode {
        Some(m) => m,
        None => 0,
    };
    UpdateUserTask { player_id, mode: m, recalc: false }
}

/// The bookkeeping of one pass of the worker over the queue.
#[derive(Debug)]
pub struct RecalcTick {
    pub update_user_tasks: Vec<UpdateUserTask>,
    pub process: u64,
    pub failed: u64,
}

impl RecalcTick {
    /// No task repeats.
    pub open spec fn wf(&self) -> bool {
        self.update_user_tasks@.no_duplicates()
    }

    pub fn new() -> (r: RecalcTick)
        ensures
            r.wf(),
            r.update_user_tasks@.len() == 0,
            r.process == 0,
            r.failed == 0,
    {
        RecalcTick { update_user_tasks: Vec::new(), process: 0, failed: 0 }
    }

    /// Adds a refresh request unless the same one is already there.
    pub fn record_update(&mut self, task: UpdateUserTask)
        requires
            old(self).wf(),
        ensures
            final(self).wf(),
            final(self).update_user_tasks@ == if old(self).update_user_tasks@.contains(task) {
                old(self).update_user_tasks@
            } else {
                old(self).update_user_tasks@.push(task)
            },
            final(self).process == old(self).process,
            final(self).failed == old(self).failed,
    {
        let mut i: usize = 0;
        while i < self.update_user_tasks.len()
            invariant
                *self == *old(self),
                self.wf(),
                i <= self.update_user_tasks@.len(),
                forall|j: int| 0 <= j < i ==> self.update_user_tasks@[j] != task,
            decreases self.update_user_tasks@.len() - i,
        {
            if self.update_user_tasks[i] == task {
                assert(self.update_user_tasks@[i as int] == task);
                return;
            }
            i = i + 1;
        }
        self.update_user_tasks.push(task);
    }

    /// Counts an entry taken up.
    pub fn count_process(&mut self)
        ensures
            final(self).process == (if old(self).process < u64::MAX { (old(self).process + 1) as u64 } else { old(self).process }),
            final(self).failed == old(self).failed,
            final(self).update_user_tasks == old(self).update_user_tasks,
    {
        if self.process < u64::MAX {
            self.process = self.process + 1;
        }
    }

    /// Counts an entry that failed.
    pub fn count_failed(&mut self)
        ensures
            final(self).failed == (if old(self).failed < u64::MAX { (old(self).failed + 1) as u64 } else { old(self).failed }),
            final(self).process == old(self).process,
            final(self).update_user_tasks == old(self).update_user_tasks,
    {
        if self.failed < u64::MAX {
            self.failed = self.failed + 1;
        }
    }
}

/// A failed try rewrites the entry as `<t + 1>:<params>`, which reads back as one
/// more try with the same parameters: the entry stays in the queue, one try further.
pub proof fn lemma_retry_round_trip(t: int, params: Seq<char>)
    requires
        i32::MIN <= t < i32::MAX,
        !params.contains(':'),
    ensures
        queue_value_of(retry_text(t, params)) == Some((t + 1, params)),
{
    lemma_decimal_round_trip(t + 1);
    lemma_split_two(decimal_text(t + 1), params);
}

} // verus!
