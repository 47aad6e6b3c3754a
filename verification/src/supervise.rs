//! Decisions of the loops that wait on the client's debugging endpoint and on
//! the skin script, and the messages they end with. The waiting, polling and
//! sleeping stay with the caller, which hands in what it observed.

use vstd::prelude::*;
use crate::text::{decimal, last_lines, last_lines_text, push_decimal};

verus! {

/// What a polling loop does after one observation.
#[derive(PartialEq, Eq, Structural, Clone, Copy, Debug)]
pub enum Poll {
    /// The awaited thing happened: return success.
    Finish,
    /// The awaited thing ended badly: return its failure.
    Fail,
    /// The deadline passed first: give up with the timeout message.
    GiveUp,
    /// Sleep and observe again.
    Again,
}

/// The step of the wait for the debugging endpoint: success as soon as it
/// answers, else giving up once the deadline has passed.
pub open spec fn spec_wait_step(ready: bool, deadline_passed: bool) -> Poll {
    if ready {
        Poll::Finish
    } else if deadline_passed {
        Poll::GiveUp
    } else {
        Poll::Again
    }
}

/// What the wait for the debugging endpoint does after one probe.
pub fn wait_step(ready: bool, deadline_passed: bool) -> (res: Poll)
    ensures
        res == spec_wait_step(ready, deadline_passed),
{
    if ready {
        Poll::Finish
    } else if deadline_passed {
        Poll::GiveUp
    } else {
        Poll::Again
    }
}

/// The message when the client started but its debugging endpoint on `port` never answered.
pub open spec fn endpoint_timeout_text(port: u16) -> Seq<char> {
    "客户端已启动，但皮肤调试接口 127.0.0.1:"@ + decimal(port as nat) + " 未就绪。请完全退出客户端后勾选兼容启动重试。"@
}

/// The message when the client started but its debugging endpoint on `port` never answered.
pub fn endpoint_timeout_message(port: u16) -> (res: String)
    ensures
        res@ == endpoint_timeout_text(port),
{
    let mut m = "客户端已启动，但皮肤调试接口 127.0.0.1:".to_owned();
    push_decimal(&mut m, port as u64);
    m.append(" 未就绪。请完全退出客户端后勾选兼容启动重试。");
    m
}

/// The step of the wait for the skin script: its exit decides (success or
/// failure) even when the deadline has passed too; without an exit, the
/// deadline ends the wait.
pub open spec fn spec_run_step(exit_success: Option<bool>, deadline_passed: bool) -> Poll {
    match exit_success {
        Some(true) => Poll::Finish,
        Some(false) => Poll::Fail,
        None => if deadline_passed {
            Poll::GiveUp
        } else {
            Poll::Again
        },
    }
}

/// What the wait for the skin script does, given whether it has exited (and
/// then whether successfully) and whether the deadline has passed.
pub fn run_step(exit_success: Option<bool>, deadline_passed: bool) -> (res: Poll)
    ensures
        res == spec_run_step(exit_success, deadline_passed),
{
    match exit_success {
        Some(true) => Poll::Finish,
        Some(false) => Poll::Fail,
        None => if deadline_passed {
            Poll::GiveUp
        } else {
            Poll::Again
        },
    }
}

/// How many lines of the script's log a failure report quotes.
pub open spec fn quoted_log_lines() -> nat {
    6
}

/// The report of a failed skin script: its exit status, the last six lines
/// of its log, and where the log is.
pub open spec fn run_failure_text(status: Seq<char>, log: Seq<char>, log_path: Seq<char>) -> Seq<char> {
    "Dream Skin 应用失败（"@ + status + "）：\n"@ + last_lines_text(log, quoted_log_lines()) + "\n日志："@ + log_path
}

/// The report of a skin script that exited with status `status` and wrote `log` to `log_path`.
pub fn run_failure_message(status: &str, log: &str, log_path: &str) -> (res: String)
    ensures
        res@ == run_failure_text(status@, log@, log_path@),
{
    let mut m = "Dream Skin 应用失败（".to_owned();
    m.append(status);
    m.append("）：\n");
    let detail = last_lines(log, 6);
    m.append(detail.as_str());
    m.append("\n日志：");
    m.append(log_path);
    m
}

/// The report of a skin script that was still running at the deadline.
pub open spec fn run_timeout_text(log_path: Seq<char>) -> Seq<char> {
    "Dream Skin 验证超时，尚未确认皮肤生效，任务仍在后台运行。日志："@ + log_path
}

/// The report of a skin script still running at the deadline; its log is at `log_path`.
pub fn run_timeout_message(log_path: &str) -> (res: String)
    ensures
        res@ == run_timeout_text(log_path@),
{
    let mut m = "Dream Skin 验证超时，尚未确认皮肤生效，任务仍在后台运行。日志：".to_owned();
    m.append(log_path);
    m
}

/// Whether the client exited during the launcher's short look after starting it.
pub open spec fn early_exit_text(status: Seq<char>, ask_about_instances: bool) -> Seq<char> {
    if ask_about_instances {
        "客户端启动后提前退出："@ + status + "。请检查是否已有实例运行。"@
    } else {
        "客户端启动后提前退出："@ + status + "。"@
    }
}

/// The message when the client exited with `status` right after it was
/// started; the macOS form adds a hint about running instances.
pub fn early_exit_message(status: &str, ask_about_instances: bool) -> (res: String)
    ensures
        res@ == early_exit_text(status@, ask_about_instances),
{
    let mut m = "客户端启动后提前退出：".to_owned();
    m.append(status);
    if ask_about_instances {
        m.append("。请检查是否已有实例运行。");
    } else {
        m.append("。");
    }
    m
}

/// The wait for the endpoint succeeds whenever a probe finds it ready,
/// before or after the deadline; it gives up only when the endpoint is not
/// ready and the deadline has passed; and it probes again only when neither.
pub proof fn law_wait_step_meaning(ready: bool, deadline_passed: bool)
    ensures
        ready ==> spec_wait_step(ready, deadline_passed) == Poll::Finish,
        spec_wait_step(ready, deadline_passed) == Poll::GiveUp <==> !ready && deadline_passed,
        spec_wait_step(ready, deadline_passed) == Poll::Again <==> !ready && !deadline_passed,
        spec_wait_step(ready, deadline_passed) != Poll::Fail,
{
}

/// The wait for the skin script reports success exactly when it exited
/// successfully and failure exactly when it exited otherwise, whatever the
/// deadline; it gives up only when the script still runs at the deadline.
pub proof fn law_run_step_meaning(exit_success: Option<bool>, deadline_passed: bool)
    ensures
        spec_run_step(exit_success, deadline_passed) == Poll::Finish <==> exit_success == Some(true),
        spec_run_step(exit_success, deadline_passed) == Poll::Fail <==> exit_success == Some(false),
        spec_run_step(exit_success, deadline_passed) == Poll::GiveUp <==> exit_success is None && deadline_passed,
        spec_run_step(exit_success, deadline_passed) == Poll::Again <==> exit_success is None && !deadline_passed,
{
}

/// The waits end as their observations say: a script that exited is never
/// reported as timed out, one that failed never as a success, an endpoint
/// that answered is a success even at the deadline, and with no answer
/// before the deadline the loop keeps polling.
pub proof fn law_answer_beats_deadline(exit_success: Option<bool>, ready: bool)
    ensures
        exit_success is Some ==> spec_run_step(exit_success, true) != Poll::GiveUp,
        ready ==> spec_wait_step(ready, true) == Poll::Finish,
        spec_run_step(None, false) == Poll::Again,
        spec_run_step(Some(false), true) == Poll::Fail,
        spec_run_step(Some(false), false) == Poll::Fail,
        spec_wait_step(false, false) == Poll::Again,
{
}

} // verus!
