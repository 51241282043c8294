//! Work that the client and spawning examples plan before any I/O: the
//! HTTP request a download sends, the download jobs named on the command
//! line, the numbers the spawned tasks print, and the states that an
//! unfolded stream walks through.

use crate::text::{decimal, join, join3, u64_to_string};
use vstd::prelude::*;
use vstd::string::StringExecFns;

verus! {

/// The request that fetches `path` from `host` over HTTP/1.1 on port 80 and
/// asks the server to close the connection afterwards.
pub open spec fn download_request_text(host: Seq<char>, path: Seq<char>) -> Seq<char> {
    "GET "@ + path + " HTTP/1.1\r\nHost: "@ + host + ":80\r\nConnection: close\r\n\r\n"@
}

/// The HTTP request that a download of `path` from `host` writes.
pub fn download_request(host: &str, path: &str) -> (r: String)
    ensures
        r@ == download_request_text(host@, path@),
{
    join3("GET ", path, " HTTP/1.1\r\nHost: ").concat(host).concat(":80\r\nConnection: close\r\n\r\n")
}

/// How many command-line arguments come before the download jobs.
pub const JOB_ARGS_SKIPPED: usize = 4;

/// The number of download jobs that `n` command-line arguments hold: after
/// the first four, each full group of three (host, path, file name).
pub open spec fn job_count(n: nat) -> nat {
    if n <= JOB_ARGS_SKIPPED {
        0
    } else {
        ((n - JOB_ARGS_SKIPPED) / 3) as nat
    }
}

/// The download jobs named by the command-line arguments `args`: after the
/// first four arguments, each group of three is a host, a path and a file
/// name; a group cut short ends the list.
pub fn download_jobs(args: &Vec<String>) -> (jobs: Vec<(String, String, String)>)
    ensures
        jobs.len() == job_count(args.len() as nat),
        forall|k: int|
            0 <= k < jobs.len() ==> #[trigger] jobs[k] == (
                args[JOB_ARGS_SKIPPED + 3 * k],
                args[JOB_ARGS_SKIPPED + 3 * k + 1],
                args[JOB_ARGS_SKIPPED + 3 * k + 2],
            ),
{
    let mut jobs: Vec<(String, String, String)> = Vec::new();
    if args.len() <= JOB_ARGS_SKIPPED {
        return jobs;
    }
    let mut i: usize = JOB_ARGS_SKIPPED;
    while args.len() - i >= 3
        invariant
            JOB_ARGS_SKIPPED <= i <= args.len(),
            i == JOB_ARGS_SKIPPED + 3 * jobs.len(),
            forall|k: int|
                0 <= k < jobs.len() ==> #[trigger] jobs[k] == (
                    args[JOB_ARGS_SKIPPED + 3 * k],
                    args[JOB_ARGS_SKIPPED + 3 * k + 1],
                    args[JOB_ARGS_SKIPPED + 3 * k + 2],
                ),
        decreases args.len() - i,
    {
        let host = args[i].clone();
        let path = args[i + 1].clone();
        let filename = args[i + 2].clone();
        jobs.push((host, path, filename));
        i = i + 3;
    }
    proof {
        let n = args.len() - JOB_ARGS_SKIPPED;
        assert(jobs.len() == n / 3) by (nonlinear_arith)
            requires
                i == JOB_ARGS_SKIPPED + 3 * jobs.len(),
                i <= args.len(),
                args.len() < i + 3,
                n == args.len() - JOB_ARGS_SKIPPED,
        ;
    }
    jobs
}

/// The values of the range `x * 100 .. x * 110`.
pub open spec fn task_range(x: int) -> Seq<int> {
    Seq::new((10 * x) as nat, |j: int| 100 * x + j)
}

/// The values of `(0..n).flat_map(|x| x * 100 .. x * 110)`, in order.
pub open spec fn task_values(n: nat) -> Seq<int>
    decreases n,
{
    if n == 0 {
        Seq::empty()
    } else {
        task_values((n - 1) as nat) + task_range(n - 1)
    }
}

/// `(0..n).flat_map(|x| x * 100 .. x * 110)` has `5 * n * (n - 1)` values.
proof fn lemma_task_values_len(n: nat)
    ensures
        task_values(n).len() == 5 * n * (n - 1),
    decreases n,
{
    if n > 0 {
        let m = (n - 1) as nat;
        lemma_task_values_len(m);
        assert(task_range(m as int).len() == 10 * m);
        assert(task_values(n).len() == task_values(m).len() + task_range(m as int).len());
        assert(5 * m * (m - 1) + 10 * m == 5 * n * (n - 1)) by (nonlinear_arith)
            requires
                m == n - 1,
        ;
    } else {
        assert(5 * n * (n - 1) == 0) by (nonlinear_arith)
            requires
                n == 0,
        ;
    }
}

/// The numbered values of `(0..4).flat_map(|x| x * 100 .. x * 110)`: the
/// `k`-th pair is `k` and the `k`-th value, 60 pairs in all.
pub fn task_numbers() -> (r: Vec<(usize, i32)>)
    ensures
        r.len() == task_values(4).len(),
        r.len() == 60,
        forall|k: int|
            0 <= k < r.len() ==> #[trigger] r[k] == (k as usize, task_values(4)[k] as i32),
{
    let mut r: Vec<(usize, i32)> = Vec::new();
    let mut x: i32 = 0;
    while x < 4
        invariant
            0 <= x <= 4,
            r.len() == task_values(x as nat).len(),
            r.len() <= 60,
            forall|k: int|
                0 <= k < r.len() ==> #[trigger] r[k] == (k as usize, task_values(
                    x as nat,
                )[k] as i32),
        decreases 4 - x,
    {
        let ghost before = task_values(x as nat);
        proof {
            lemma_task_values_len(x as nat);
            assert(5 * x * (x - 1) + 10 * x <= 60) by (nonlinear_arith)
                requires
                    0 <= x < 4,
            ;
        }
        let mut y: i32 = x * 100;
        while y < x * 110
            invariant
                0 <= x < 4,
                x * 100 <= y <= x * 110,
                before == task_values(x as nat),
                r.len() == before.len() + (y - x * 100),
                before.len() + 10 * x <= 60,
                forall|k: int|
                    0 <= k < r.len() ==> #[trigger] r[k] == (k as usize, (before + task_range(
                        x as int,
                    ))[k] as i32),
            decreases x * 110 - y,
        {
            let k = r.len();
            assert((before + task_range(x as int))[k as int] == y);
            r.push((k, y));
            y = y + 1;
        }
        assert(task_values((x + 1) as nat) == before + task_range(x as int));
        x = x + 1;
    }
    assert(task_values(4).len() == 60) by {
        reveal_with_fuel(task_values, 5);
    }
    r
}

/// The message that spawned task `i` sends: "Message <i> from spawned task".
pub fn spawned_message(i: u64) -> (m: String)
    ensures
        m@ == "Message "@ + decimal(i as nat) + " from spawned task"@,
{
    let digits = u64_to_string(i);
    join3("Message ", digits.as_str(), " from spawned task")
}

/// The greeting of spawned task `i`: "Hello from task <i>".
pub fn task_greeting(i: u64) -> (m: String)
    ensures
        m@ == "Hello from task "@ + decimal(i as nat),
{
    let digits = u64_to_string(i);
    join("Hello from task ", digits.as_str())
}

/// One step of the folding example: the running sum with `x` added, which
/// must fit in an `i32`.
pub fn fold_add(acc: i32, x: i32) -> (r: i32)
    requires
        i32::MIN <= acc + x <= i32::MAX,
    ensures
        r == acc + x,
{
    acc + x
}

/// The value that the chained future computes from `a`: `a + 3`, which
/// must fit in an `i32`.
pub fn add_three(a: i32) -> (r: i32)
    requires
        a <= i32::MAX - 3,
    ensures
        r == a + 3,
{
    a + 3
}

/// One step of the unfolded stream: while the state is at most 2, yield
/// twice the state and move to the next state; then end.
pub fn unfold_step(state: i32) -> (r: Option<(i32, i32)>)
    requires
        state >= -1_073_741_824,
    ensures
        state <= 2 ==> r == Some(((2 * state) as i32, (state + 1) as i32)),
        state > 2 ==> r is None,
{
    if state <= 2 {
        let next_state = state + 1;
        let yielded = state * 2;
        Some((yielded, next_state))
    } else {
        None
    }
}

} // verus!
