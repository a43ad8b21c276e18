//! Background-task bookkeeping: the task variants, the single-worker queue
//! model with its busy flag, the mapping from a confirmed dialog to the task
//! it submits, and the mapping from a task to the external command it runs.
use vstd::prelude::*;
use crate::dialog::{DialogState, DialogType};
use crate::text;

verus! {

/// One unit of background work; consumed exactly once by the worker.
#[derive(Debug, Clone)]
pub enum BackgroundTask {
    SearchPackages(String),
    InstallPackage(String),
    RemovePackage(String),
    UpdateSystem,
    CheckYay,
    InstallYay,
    ShutdownSystem,
    RebootSystem,
    CreateCustomModel,
    InstallToSystem,
    UninstallFromSystem,
}

/// Bookkeeping for the single background worker.
///
/// `queue` holds the submitted tasks oldest first; the worker takes them one
/// at a time, so no two ever overlap. `results` models the completion channel.
/// `busy` is set strictly before a task is queued and reset when a result is
/// recorded. `accepting` is false once the worker side is gone; a submission
/// then rolls the busy flag back instead of queueing.
pub struct TaskManager {
    pub queue: Vec<BackgroundTask>,
    pub results: Vec<String>,
    pub busy: bool,
    pub accepting: bool,
}

impl TaskManager {
    /// A manager with no queued work and an idle flag.
    pub fn new() -> (m: TaskManager)
        ensures
            m.queue@ =~= Seq::<BackgroundTask>::empty(),
            m.results@ =~= Seq::<String>::empty(),
            !m.busy,
            m.accepting,
    {
        TaskManager { queue: Vec::new(), results: Vec::new(), busy: false, accepting: true }
    }

    /// Submits a task: the busy flag is raised first, then the task is queued;
    /// if the worker is gone the flag is rolled back and nothing is queued.
    pub fn execute(&mut self, task: BackgroundTask)
        ensures
            final(self).results == old(self).results,
            final(self).accepting == old(self).accepting,
            old(self).accepting ==> final(self).queue@ == old(self).queue@.push(task)
                && final(self).busy,
            !old(self).accepting ==> final(self).queue == old(self).queue && !final(self).busy,
    {
        self.busy = true;
        if self.accepting {
            self.queue.push(task);
        } else {
            self.busy = false;
        }
    }

    /// Non-blocking snapshot of the busy flag.
    pub fn is_busy(&self) -> (r: bool)
        ensures
            r == self.busy,
    {
        self.busy
    }

    /// Marks the worker side as gone: later submissions roll back.
    pub fn disconnect(&mut self)
        ensures
            !final(self).accepting,
            final(self).queue == old(self).queue,
            final(self).results == old(self).results,
            final(self).busy == old(self).busy,
    {
        self.accepting = false;
    }

    /// The worker takes the oldest queued task; tasks leave in submission
    /// order, so the next task starts only after the previous one finished.
    pub fn take_next(&mut self) -> (r: Option<BackgroundTask>)
        ensures
            final(self).results == old(self).results,
            final(self).busy == old(self).busy,
            final(self).accepting == old(self).accepting,
            old(self).queue@.len() == 0 ==> r is None && final(self).queue == old(self).queue,
            old(self).queue@.len() > 0 ==> (r matches Some(t) && t == old(self).queue@[0])
                && final(self).queue@ == old(self).queue@.drop_first(),
    {
        if self.queue.len() == 0 {
            None
        } else {
            let t = self.queue.remove(0);
            proof {
                assert(self.queue@ =~= old(self).queue@.drop_first());
            }
            Some(t)
        }
    }

    /// Records the result of the task the worker just finished and lowers the
    /// busy flag.
    pub fn finish(&mut self, result: String)
        ensures
            final(self).queue == old(self).queue,
            final(self).accepting == old(self).accepting,
            !final(self).busy,
            final(self).results@ == old(self).results@.push(result),
    {
        self.results.push(result);
        self.busy = false;
    }

    /// Delivers a result that is not tied to a queued task (a model reply);
    /// the busy flag is untouched.
    pub fn push_result(&mut self, result: String)
        ensures
            final(self).queue == old(self).queue,
            final(self).accepting == old(self).accepting,
            final(self).busy == old(self).busy,
            final(self).results@ == old(self).results@.push(result),
    {
        self.results.push(result);
    }

    /// Non-blocking read of the oldest undelivered result.
    pub fn poll_result(&mut self) -> (r: Option<String>)
        ensures
            final(self).queue == old(self).queue,
            final(self).busy == old(self).busy,
            final(self).accepting == old(self).accepting,
            old(self).results@.len() == 0 ==> r is None && final(self).results == old(self).results,
            old(self).results@.len() > 0 ==> (r matches Some(s) && s == old(self).results@[0])
                && final(self).results@ == old(self).results@.drop_first(),
    {
        if self.results.len() == 0 {
            None
        } else {
            let s = self.results.remove(0);
            proof {
                assert(self.results@ =~= old(self).results@.drop_first());
            }
            Some(s)
        }
    }
}

/// Law: tasks leave the queue in submission order — with two tasks queued,
/// the worker takes the first, and the second only on the following round.
pub proof fn lemma_tasks_fifo(m: TaskManager, t1: BackgroundTask, t2: BackgroundTask)
    requires
        m.queue@ == seq![t1, t2],
    ensures
        m.queue@[0] == t1,
        m.queue@.drop_first() =~= seq![t2],
        m.queue@.drop_first()[0] == t2,
{
}

/// The payload the shutdown confirmation carries in place of a package name.
pub open spec fn shutdown_sentinel() -> Seq<char> {
    "__shutdown__"@
}

/// The payload the reboot confirmation carries in place of a package name.
pub open spec fn reboot_sentinel() -> Seq<char> {
    "__reboot__"@
}

/// Which task a confirmed dialog submits, decided from the dialog's title and
/// payload exactly as the confirm button does.
pub open spec fn confirm_task_spec(d: DialogState) -> Option<BackgroundTask> {
    match d.dialog_type {
        DialogType::PackageSearch => if d.input@.len() > 0 {
            Some(BackgroundTask::SearchPackages(d.input))
        } else {
            None
        },
        DialogType::Confirmation => if text::contains_seq(d.title@, "Установка"@) && d.package@.len()
            > 0 {
            Some(BackgroundTask::InstallPackage(d.package))
        } else if text::contains_seq(d.title@, "Удаление"@) && d.package@.len() > 0 {
            Some(BackgroundTask::RemovePackage(d.package))
        } else if text::contains_seq(d.title@, "Обновление"@) {
            Some(BackgroundTask::UpdateSystem)
        } else if d.package@ == shutdown_sentinel() {
            Some(BackgroundTask::ShutdownSystem)
        } else if d.package@ == reboot_sentinel() {
            Some(BackgroundTask::RebootSystem)
        } else {
            None
        },
        DialogType::Info => None,
    }
}

/// One external invocation: a program and its arguments.
#[derive(Debug, Clone)]
pub struct CommandSpec {
    pub program: String,
    pub args: Vec<String>,
}

/// Mathematical value of a [`CommandSpec`].
pub ghost struct CommandSpecView {
    pub program: Seq<char>,
    pub args: Seq<Seq<char>>,
}

impl View for CommandSpec {
    type V = CommandSpecView;

    open spec fn view(&self) -> CommandSpecView {
        CommandSpecView { program: self.program@, args: self.args.deep_view() }
    }
}

/// The single external command a task runs, if it runs exactly one: package
/// operations go through `pkexec yay`, the presence probe through `which`,
/// and the power actions through `shutdown`. Tasks that take several steps
/// (tool install, model creation, system install) map to none.
///
/// Privileged operations deliberately run directly under `pkexec`, whose
/// graphical prompt supplies the password entry, so their exit status can be
/// captured synchronously; the alternative of spawning a terminal emulator
/// for them is not used.
pub open spec fn task_command_spec(t: BackgroundTask) -> Option<CommandSpecView> {
    match t {
        BackgroundTask::SearchPackages(q) => Some(
            CommandSpecView { program: "yay"@, args: seq!["-Ss"@, q@] },
        ),
        BackgroundTask::InstallPackage(p) => Some(
            CommandSpecView { program: "pkexec"@, args: seq!["yay"@, "-S"@, "--noconfirm"@, p@] },
        ),
        BackgroundTask::RemovePackage(p) => Some(
            CommandSpecView { program: "pkexec"@, args: seq!["yay"@, "-R"@, "--noconfirm"@, p@] },
        ),
        BackgroundTask::UpdateSystem => Some(
            CommandSpecView { program: "pkexec"@, args: seq!["yay"@, "-Syu"@, "--noconfirm"@] },
        ),
        BackgroundTask::CheckYay => Some(
            CommandSpecView { program: "which"@, args: seq!["yay"@] },
        ),
        BackgroundTask::ShutdownSystem => Some(
            CommandSpecView { program: "shutdown"@, args: seq!["-h"@, "now"@] },
        ),
        BackgroundTask::RebootSystem => Some(
            CommandSpecView { program: "shutdown"@, args: seq!["-r"@, "now"@] },
        ),
        _ => None,
    }
}

fn two_args(a: &str, b: &str) -> (r: Vec<String>)
    ensures
        r.deep_view() =~= seq![a@, b@],
{
    let mut v: Vec<String> = Vec::new();
    v.push(a.to_owned());
    v.push(b.to_owned());
    proof {
        assert(v.deep_view() =~= seq![a@, b@]);
    }
    v
}

fn three_args(a: &str, b: &str, c: &str) -> (r: Vec<String>)
    ensures
        r.deep_view() =~= seq![a@, b@, c@],
{
    let mut v: Vec<String> = Vec::new();
    v.push(a.to_owned());
    v.push(b.to_owned());
    v.push(c.to_owned());
    proof {
        assert(v.deep_view() =~= seq![a@, b@, c@]);
    }
    v
}

fn four_args(a: &str, b: &str, c: &str, d: &str) -> (r: Vec<String>)
    ensures
        r.deep_view() =~= seq![a@, b@, c@, d@],
{
    let mut v: Vec<String> = Vec::new();
    v.push(a.to_owned());
    v.push(b.to_owned());
    v.push(c.to_owned());
    v.push(d.to_owned());
    proof {
        assert(v.deep_view() =~= seq![a@, b@, c@, d@]);
    }
    v
}

fn one_arg(a: &str) -> (r: Vec<String>)
    ensures
        r.deep_view() =~= seq![a@],
{
    let mut v: Vec<String> = Vec::new();
    v.push(a.to_owned());
    proof {
        assert(v.deep_view() =~= seq![a@]);
    }
    v
}

/// Executable mirror of [`task_command_spec`].
pub fn task_command(t: &BackgroundTask) -> (r: Option<CommandSpec>)
    ensures
        match task_command_spec(*t) {
            Some(c) => r matches Some(e) && e@ == c,
            None => r is None,
        },
{
    match t {
        BackgroundTask::SearchPackages(q) => Some(
            CommandSpec { program: "yay".to_owned(), args: two_args("-Ss", q.as_str()) },
        ),
        BackgroundTask::InstallPackage(p) => Some(
            CommandSpec {
                program: "pkexec".to_owned(),
                args: four_args("yay", "-S", "--noconfirm", p.as_str()),
            },
        ),
        BackgroundTask::RemovePackage(p) => Some(
            CommandSpec {
                program: "pkexec".to_owned(),
                args: four_args("yay", "-R", "--noconfirm", p.as_str()),
            },
        ),
        BackgroundTask::UpdateSystem => Some(
            CommandSpec { program: "pkexec".to_owned(), args: three_args("yay", "-Syu", "--noconfirm") },
        ),
        BackgroundTask::CheckYay => Some(
            CommandSpec { program: "which".to_owned(), args: one_arg("yay") },
        ),
        BackgroundTask::ShutdownSystem => Some(
            CommandSpec { program: "shutdown".to_owned(), args: two_args("-h", "now") },
        ),
        BackgroundTask::RebootSystem => Some(
            CommandSpec { program: "shutdown".to_owned(), args: two_args("-r", "now") },
        ),
        BackgroundTask::InstallYay => None,
        BackgroundTask::CreateCustomModel => None,
        BackgroundTask::InstallToSystem => None,
        BackgroundTask::UninstallFromSystem => None,
    }
}

/// What the worker observed of one external invocation.
#[derive(Debug, Clone)]
pub enum ProcessOutcome {
    /// The process could not be started; the text is the error description.
    SpawnFailed(String),
    /// The process ran; `success` is its exit status, `stdout` its captured
    /// output (empty where only the status was captured).
    Exited { success: bool, stdout: String },
}

/// The result text of a package search: the raw listing, a not-found notice
/// for an empty listing, or the spawn error.
pub fn search_packages(outcome: &ProcessOutcome) -> (r: String)
    ensures
        match outcome {
            ProcessOutcome::SpawnFailed(e) => r@ == "Ошибка выполнения yay: "@ + e@,
            ProcessOutcome::Exited { stdout, .. } => if text::trim_spec(stdout@).len() == 0 {
                r@ == "Ничего не найдено."@
            } else {
                r@ == stdout@
            },
        },
{
    match outcome {
        ProcessOutcome::SpawnFailed(e) => {
            let mut s = String::new();
            s.append("Ошибка выполнения yay: ");
            s.append(e.as_str());
            s
        },
        ProcessOutcome::Exited { stdout, .. } => {
            let trimmed = text::trim_chars(&text::to_chars(stdout.as_str()));
            if trimmed.len() == 0 {
                "Ничего не найдено.".to_owned()
            } else {
                stdout.clone()
            }
        },
    }
}

/// The result text of a package install.
pub fn install_package(package: &str, outcome: &ProcessOutcome) -> (r: String)
    ensures
        match outcome {
            ProcessOutcome::Exited { success: true, .. } => r@ == "Успешно: пакет '"@ + package@
                + "' установлен."@,
            _ => r@ == "Ошибка: не удалось установить '"@ + package@
                + "' (возможно, отмена или нет сети)."@,
        },
{
    match outcome {
        ProcessOutcome::Exited { success: true, .. } => {
            let mut s = String::new();
            s.append("Успешно: пакет '");
            s.append(package);
            s.append("' установлен.");
            s
        },
        _ => {
            let mut s = String::new();
            s.append("Ошибка: не удалось установить '");
            s.append(package);
            s.append("' (возможно, отмена или нет сети).");
            s
        },
    }
}

/// The result text of a package removal.
pub fn remove_package(package: &str, outcome: &ProcessOutcome) -> (r: String)
    ensures
        match outcome {
            ProcessOutcome::Exited { success: true, .. } => r@ == "Успешно: пакет '"@ + package@
                + "' удален."@,
            _ => r@ == "Ошибка при удалении '"@ + package@ + "'."@,
        },
{
    match outcome {
        ProcessOutcome::Exited { success: true, .. } => {
            let mut s = String::new();
            s.append("Успешно: пакет '");
            s.append(package);
            s.append("' удален.");
            s
        },
        _ => {
            let mut s = String::new();
            s.append("Ошибка при удалении '");
            s.append(package);
            s.append("'.");
            s
        },
    }
}

/// The result text of a system update.
pub fn update_system(outcome: &ProcessOutcome) -> (r: String)
    ensures
        match outcome {
            ProcessOutcome::Exited { success: true, .. } => r@ == "Система успешно обновлена!"@,
            _ => r@ == "Ошибка в процессе обновления системы."@,
        },
{
    match outcome {
        ProcessOutcome::Exited { success: true, .. } => "Система успешно обновлена!".to_owned(),
        _ => "Ошибка в процессе обновления системы.".to_owned(),
    }
}

/// The result text of the tool presence probe.
pub fn check_yay_installed(outcome: &ProcessOutcome) -> (r: String)
    ensures
        match outcome {
            ProcessOutcome::Exited { success: true, .. } => r@ == "yay найден и готов к работе."@,
            _ => r@ == "ВНИМАНИЕ: yay не найден. Установите его: sudo pacman -S yay"@,
        },
{
    match outcome {
        ProcessOutcome::Exited { success: true, .. } => "yay найден и готов к работе.".to_owned(),
        _ => "ВНИМАНИЕ: yay не найден. Установите его: sudo pacman -S yay".to_owned(),
    }
}

/// The result text of a power action: the command is fire-and-forget, so any
/// started process counts as sent.
pub fn power_action_result(outcome: &ProcessOutcome) -> (r: String)
    ensures
        match outcome {
            ProcessOutcome::SpawnFailed(e) => r@ == "Ошибка выполнения: "@ + e@,
            ProcessOutcome::Exited { .. } => r@ == "Команда отправлена успешно"@,
        },
{
    match outcome {
        ProcessOutcome::SpawnFailed(e) => {
            let mut s = String::new();
            s.append("Ошибка выполнения: ");
            s.append(e.as_str());
            s
        },
        ProcessOutcome::Exited { .. } => "Команда отправлена успешно".to_owned(),
    }
}

/// The result text of a single-command task, given what the worker observed
/// of the invocation; `None` for the multi-step tasks the worker handles on
/// its own.
pub fn task_result_message(t: &BackgroundTask, outcome: &ProcessOutcome) -> (r: Option<String>)
    ensures
        r is Some <==> task_command_spec(*t) is Some,
        ({
            let success = outcome matches ProcessOutcome::Exited { success: true, .. };
            match t {
                BackgroundTask::SearchPackages(_) => match outcome {
                    ProcessOutcome::SpawnFailed(e) => (r matches Some(s) && s@
                        == "Ошибка выполнения yay: "@ + e@),
                    ProcessOutcome::Exited { stdout, .. } => if text::trim_spec(stdout@).len()
                        == 0 {
                        r matches Some(s) && s@ == "Ничего не найдено."@
                    } else {
                        r matches Some(s) && s@ == stdout@
                    },
                },
                BackgroundTask::InstallPackage(p) => if success {
                    r matches Some(s) && s@ == "Успешно: пакет '"@ + p@ + "' установлен."@
                } else {
                    r matches Some(s) && s@ == "Ошибка: не удалось установить '"@ + p@
                        + "' (возможно, отмена или нет сети)."@
                },
                BackgroundTask::RemovePackage(p) => if success {
                    r matches Some(s) && s@ == "Успешно: пакет '"@ + p@ + "' удален."@
                } else {
                    r matches Some(s) && s@ == "Ошибка при удалении '"@ + p@ + "'."@
                },
                BackgroundTask::UpdateSystem => if success {
                    r matches Some(s) && s@ == "Система успешно обновлена!"@
                } else {
                    r matches Some(s) && s@ == "Ошибка в процессе обновления системы."@
                },
                BackgroundTask::CheckYay => if success {
                    r matches Some(s) && s@ == "yay найден и готов к работе."@
                } else {
                    r matches Some(s) && s@
                        == "ВНИМАНИЕ: yay не найден. Установите его: sudo pacman -S yay"@
                },
                BackgroundTask::ShutdownSystem | BackgroundTask::RebootSystem => match outcome {
                    ProcessOutcome::SpawnFailed(e) => (r matches Some(s) && s@
                        == "Ошибка выполнения: "@ + e@),
                    ProcessOutcome::Exited { .. } => (r matches Some(s) && s@
                        == "Команда отправлена успешно"@),
                },
                _ => r is None,
            }
        }),
{
    match t {
        BackgroundTask::SearchPackages(_) => Some(search_packages(outcome)),
        BackgroundTask::InstallPackage(p) => Some(install_package(p.as_str(), outcome)),
        BackgroundTask::RemovePackage(p) => Some(remove_package(p.as_str(), outcome)),
        BackgroundTask::UpdateSystem => Some(update_system(outcome)),
        BackgroundTask::CheckYay => Some(check_yay_installed(outcome)),
        BackgroundTask::ShutdownSystem => Some(power_action_result(outcome)),
        BackgroundTask::RebootSystem => Some(power_action_result(outcome)),
        BackgroundTask::InstallYay => None,
        BackgroundTask::CreateCustomModel => None,
        BackgroundTask::InstallToSystem => None,
        BackgroundTask::UninstallFromSystem => None,
    }
}

/// Resolves the dialog's confirm button: submits the task the dialog stands
/// for, if any, and hides the dialog.
pub fn handle_action(d: &mut DialogState, tasks: &mut TaskManager)
    ensures
        !final(d).visible,
        final(d).input@ == Seq::<char>::empty(),
        final(d).package@ == Seq::<char>::empty(),
        match confirm_task_spec(*old(d)) {
            Some(t) => final(tasks).results == old(tasks).results && (old(tasks).accepting
                ==> final(tasks).queue@ == old(tasks).queue@.push(t) && final(tasks).busy) && (
            !old(tasks).accepting ==> final(tasks).queue == old(tasks).queue
                && !final(tasks).busy),
            None => *final(tasks) == *old(tasks),
        },
{
    let submitted: Option<BackgroundTask> = match d.dialog_type {
        DialogType::PackageSearch => {
            if d.input.as_str().unicode_len() > 0 {
                Some(BackgroundTask::SearchPackages(d.input.clone()))
            } else {
                None
            }
        },
        DialogType::Confirmation => {
            let title_chars = text::to_chars(d.title.as_str());
            let pkg_len = d.package.as_str().unicode_len();
            if text::contains_lit(&title_chars, "Установка") && pkg_len > 0 {
                Some(BackgroundTask::InstallPackage(d.package.clone()))
            } else if text::contains_lit(&title_chars, "Удаление") && pkg_len > 0 {
                Some(BackgroundTask::RemovePackage(d.package.clone()))
            } else if text::contains_lit(&title_chars, "Обновление") {
                Some(BackgroundTask::UpdateSystem)
            } else if text::str_eq(d.package.as_str(), "__shutdown__") {
                Some(BackgroundTask::ShutdownSystem)
            } else if text::str_eq(d.package.as_str(), "__reboot__") {
                Some(BackgroundTask::RebootSystem)
            } else {
                None
            }
        },
        DialogType::Info => None,
    };
    match submitted {
        Some(t) => tasks.execute(t),
        None => (),
    }
    d.dismiss();
}

} // verus!
