use alfons::dialog::{DialogState, DialogType};
use alfons::tasks::{
    handle_action, task_command, task_result_message, BackgroundTask, ProcessOutcome, TaskManager,
};

#[test]
fn dialog_confirm_round_trip() {
    let mut d = DialogState::new();
    d.show_confirm("T", "M", "pkg");
    assert!(d.visible);
    assert_eq!(d.title, "T");
    assert_eq!(d.message, "M");
    assert_eq!(d.package, "pkg");
    d.dismiss();
    assert!(!d.visible);
    assert_eq!(d.input, "");
    assert_eq!(d.package, "");
}

#[test]
fn dialog_search_clears_input() {
    let mut d = DialogState::new();
    d.input = "stale".to_string();
    d.show_search();
    assert!(d.visible);
    assert!(matches!(d.dialog_type, DialogType::PackageSearch));
    assert_eq!(d.input, "");
    assert_eq!(d.title, "Поиск пакетов");
}

#[test]
fn busy_flag_lifecycle() {
    let mut tm = TaskManager::new();
    assert!(!tm.is_busy());
    tm.execute(BackgroundTask::CheckYay);
    assert!(tm.is_busy());
    let taken = tm.take_next();
    assert!(matches!(taken, Some(BackgroundTask::CheckYay)));
    tm.finish("готово".to_string());
    assert!(!tm.is_busy());
    assert_eq!(tm.poll_result().as_deref(), Some("готово"));
    assert!(tm.poll_result().is_none());
}

#[test]
fn busy_flag_rolls_back_when_disconnected() {
    let mut tm = TaskManager::new();
    tm.disconnect();
    tm.execute(BackgroundTask::UpdateSystem);
    assert!(!tm.is_busy());
    assert!(tm.take_next().is_none());
}

#[test]
fn tasks_run_in_submission_order() {
    let mut tm = TaskManager::new();
    tm.execute(BackgroundTask::SearchPackages("первый".to_string()));
    tm.execute(BackgroundTask::SearchPackages("второй".to_string()));
    match tm.take_next() {
        Some(BackgroundTask::SearchPackages(q)) => assert_eq!(q, "первый"),
        other => panic!("unexpected task: {:?}", other),
    }
    tm.finish("r1".to_string());
    match tm.take_next() {
        Some(BackgroundTask::SearchPackages(q)) => assert_eq!(q, "второй"),
        other => panic!("unexpected task: {:?}", other),
    }
}

#[test]
fn confirm_install_submits_task() {
    let mut d = DialogState::new();
    d.show_confirm("Установка пакета", "Установить 'vim' через yay?", "vim");
    let mut tm = TaskManager::new();
    handle_action(&mut d, &mut tm);
    assert!(!d.visible);
    assert_eq!(tm.queue.len(), 1);
    assert!(matches!(&tm.queue[0], BackgroundTask::InstallPackage(p) if p == "vim"));
}

#[test]
fn confirm_shutdown_sentinel() {
    let mut d = DialogState::new();
    d.show_confirm("Выключение компьютера", "Выключить компьютер сейчас?", "__shutdown__");
    let mut tm = TaskManager::new();
    handle_action(&mut d, &mut tm);
    assert!(matches!(tm.queue[0], BackgroundTask::ShutdownSystem));
}

#[test]
fn confirm_search_uses_input() {
    let mut d = DialogState::new();
    d.show_search();
    d.input = "htop".to_string();
    let mut tm = TaskManager::new();
    handle_action(&mut d, &mut tm);
    assert!(matches!(&tm.queue[0], BackgroundTask::SearchPackages(q) if q == "htop"));
    assert_eq!(d.input, "");
}

#[test]
fn cancelled_confirm_submits_nothing() {
    let mut d = DialogState::new();
    let mut tm = TaskManager::new();
    handle_action(&mut d, &mut tm);
    assert_eq!(tm.queue.len(), 0);
    assert!(!tm.is_busy());
}

#[test]
fn task_commands_match_package_manager() {
    let c = task_command(&BackgroundTask::SearchPackages("vim".to_string())).unwrap();
    assert_eq!(c.program, "yay");
    assert_eq!(c.args, vec!["-Ss".to_string(), "vim".to_string()]);

    let c = task_command(&BackgroundTask::InstallPackage("vim".to_string())).unwrap();
    assert_eq!(c.program, "pkexec");
    assert_eq!(c.args, vec!["yay", "-S", "--noconfirm", "vim"]);

    let c = task_command(&BackgroundTask::RemovePackage("vim".to_string())).unwrap();
    assert_eq!(c.args, vec!["yay", "-R", "--noconfirm", "vim"]);

    let c = task_command(&BackgroundTask::UpdateSystem).unwrap();
    assert_eq!(c.args, vec!["yay", "-Syu", "--noconfirm"]);

    let c = task_command(&BackgroundTask::ShutdownSystem).unwrap();
    assert_eq!(c.program, "shutdown");
    assert_eq!(c.args, vec!["-h", "now"]);

    let c = task_command(&BackgroundTask::RebootSystem).unwrap();
    assert_eq!(c.args, vec!["-r", "now"]);

    assert!(task_command(&BackgroundTask::InstallYay).is_none());
    assert!(task_command(&BackgroundTask::CreateCustomModel).is_none());
}

#[test]
fn task_results_report_success_and_failure() {
    let ok = ProcessOutcome::Exited { success: true, stdout: String::new() };
    let fail = ProcessOutcome::Exited { success: false, stdout: String::new() };
    let spawn = ProcessOutcome::SpawnFailed("нет такого файла".to_string());

    let r = task_result_message(&BackgroundTask::InstallPackage("vim".to_string()), &ok).unwrap();
    assert_eq!(r, "Успешно: пакет 'vim' установлен.");
    let r = task_result_message(&BackgroundTask::InstallPackage("vim".to_string()), &fail).unwrap();
    assert_eq!(r, "Ошибка: не удалось установить 'vim' (возможно, отмена или нет сети).");

    let r = task_result_message(&BackgroundTask::RemovePackage("vim".to_string()), &ok).unwrap();
    assert_eq!(r, "Успешно: пакет 'vim' удален.");

    let r = task_result_message(&BackgroundTask::UpdateSystem, &fail).unwrap();
    assert_eq!(r, "Ошибка в процессе обновления системы.");

    let r = task_result_message(&BackgroundTask::CheckYay, &ok).unwrap();
    assert_eq!(r, "yay найден и готов к работе.");
    let r = task_result_message(&BackgroundTask::CheckYay, &fail).unwrap();
    assert_eq!(r, "ВНИМАНИЕ: yay не найден. Установите его: sudo pacman -S yay");

    let r = task_result_message(&BackgroundTask::ShutdownSystem, &spawn).unwrap();
    assert_eq!(r, "Ошибка выполнения: нет такого файла");

    assert!(task_result_message(&BackgroundTask::InstallToSystem, &ok).is_none());
}

#[test]
fn search_result_formats_listing() {
    let listing = ProcessOutcome::Exited {
        success: true,
        stdout: "extra/vim 9.0-1\n    Vi Improved".to_string(),
    };
    let r = task_result_message(&BackgroundTask::SearchPackages("vim".to_string()), &listing)
        .unwrap();
    assert_eq!(r, "extra/vim 9.0-1\n    Vi Improved");

    let empty = ProcessOutcome::Exited { success: true, stdout: "  \n ".to_string() };
    let r = task_result_message(&BackgroundTask::SearchPackages("vim".to_string()), &empty)
        .unwrap();
    assert_eq!(r, "Ничего не найдено.");

    let spawn = ProcessOutcome::SpawnFailed("нет yay".to_string());
    let r = task_result_message(&BackgroundTask::SearchPackages("vim".to_string()), &spawn)
        .unwrap();
    assert_eq!(r, "Ошибка выполнения yay: нет yay");
}
