use alfons::dialog::{DialogState, DialogType};
use alfons::guides::GuideRegistry;
use alfons::router::{cmd_clear_chat, process_command};
use alfons::tasks::{BackgroundTask, TaskManager};

fn route(input: &str, d: &mut DialogState, t: &mut TaskManager) -> Option<String> {
    let g = GuideRegistry::new();
    process_command(input, "Альфонс", d, t, &g)
}

#[test]
fn empty_install_argument_is_rejected_without_dialog() {
    let mut d = DialogState::new();
    let mut t = TaskManager::new();
    let r = route("установить ", &mut d, &mut t);
    assert_eq!(r.as_deref(), Some("Укажите имя пакета. Пример: 'установить firefox'"));
    assert!(!d.visible);
    assert_eq!(t.queue.len(), 0);
}

#[test]
fn empty_remove_argument_is_rejected() {
    let mut d = DialogState::new();
    let mut t = TaskManager::new();
    let r = route("удалить ", &mut d, &mut t);
    assert_eq!(r.as_deref(), Some("Укажите имя пакета для удаления."));
    assert!(!d.visible);
}

#[test]
fn date_phrase_answers_with_todays_date() {
    let mut d = DialogState::new();
    let mut t = TaskManager::new();
    let r = route("какое сегодня число", &mut d, &mut t).unwrap();
    assert!(!r.is_empty());
    let today = chrono::Local::now().format("%d.%m.%Y").to_string();
    assert_eq!(r, format!("Сегодня: {}", today));
    assert!(!d.visible);
    assert_eq!(t.queue.len(), 0);
}

#[test]
fn time_phrase_answers_with_clock() {
    let mut d = DialogState::new();
    let mut t = TaskManager::new();
    let r = route("время", &mut d, &mut t).unwrap();
    assert!(r.starts_with("Текущее время: "));
    let time_part: Vec<char> = r.chars().skip("Текущее время: ".chars().count()).collect();
    assert_eq!(time_part.len(), 8);
    assert_eq!(time_part[2], ':');
    assert_eq!(time_part[5], ':');
}

#[test]
fn install_opens_confirmation_with_payload() {
    let mut d = DialogState::new();
    let mut t = TaskManager::new();
    let r = route("установить vim", &mut d, &mut t);
    assert_eq!(r.as_deref(), Some("Подготовка к установке 'vim'..."));
    assert!(d.visible);
    assert!(matches!(d.dialog_type, DialogType::Confirmation));
    assert_eq!(d.title, "Установка пакета");
    assert_eq!(d.package, "vim");
    assert_eq!(t.queue.len(), 0);
}

#[test]
fn install_confirm_then_result_marker() {
    let mut d = DialogState::new();
    let mut t = TaskManager::new();
    route("установить vim", &mut d, &mut t);
    alfons::tasks::handle_action(&mut d, &mut t);
    assert!(matches!(&t.queue[0], BackgroundTask::InstallPackage(p) if p == "vim"));
    let ok = alfons::tasks::ProcessOutcome::Exited { success: true, stdout: String::new() };
    let msg = alfons::tasks::task_result_message(&t.queue[0], &ok).unwrap();
    assert!(msg.starts_with("Успешно"));
    let fail = alfons::tasks::ProcessOutcome::Exited { success: false, stdout: String::new() };
    let msg = alfons::tasks::task_result_message(&t.queue[0], &fail).unwrap();
    assert!(msg.starts_with("Ошибка"));
}

#[test]
fn remove_opens_confirmation() {
    let mut d = DialogState::new();
    let mut t = TaskManager::new();
    let r = route("удалить nano", &mut d, &mut t);
    assert_eq!(r.as_deref(), Some("Подготовка к удалению 'nano'..."));
    assert_eq!(d.title, "Удаление пакета");
    assert_eq!(d.message, "Удалить 'nano' из системы?");
    assert_eq!(d.package, "nano");
}

#[test]
fn update_opens_confirmation_without_payload() {
    let mut d = DialogState::new();
    let mut t = TaskManager::new();
    let r = route("обновить систему", &mut d, &mut t);
    assert_eq!(r.as_deref(), Some("Подготовка к обновлению..."));
    assert_eq!(d.title, "Обновление системы");
    assert_eq!(d.message, "Выполнить полное обновление yay -Syu?");
    assert_eq!(d.package, "");
}

#[test]
fn bare_search_phrase_opens_dialog_only() {
    let mut d = DialogState::new();
    let mut t = TaskManager::new();
    let r = route("поиск пакетов", &mut d, &mut t);
    assert_eq!(r.as_deref(), Some("Открываю диалог для поиска пакетов..."));
    assert!(matches!(d.dialog_type, DialogType::PackageSearch));
    assert_eq!(d.message, "Введите название пакета для поиска:");
    assert_eq!(t.queue.len(), 0);
}

#[test]
fn prefixed_search_fires_background_task() {
    let mut d = DialogState::new();
    let mut t = TaskManager::new();
    let r = route("поиск firefox", &mut d, &mut t);
    assert_eq!(r.as_deref(), Some("Ищу пакеты по запросу 'firefox'..."));
    assert!(!d.visible);
    assert!(t.is_busy());
    assert!(matches!(&t.queue[0], BackgroundTask::SearchPackages(q) if q == "firefox"));
}

#[test]
fn package_group_outranks_guides() {
    // "поиск гайдов wifi" matches both the package search prefix and the
    // guide search phrase; the package group is tried first and wins.
    let mut d = DialogState::new();
    let mut t = TaskManager::new();
    let r = route("поиск гайдов wifi", &mut d, &mut t);
    assert_eq!(r.as_deref(), Some("Ищу пакеты по запросу 'гайдов wifi'..."));
    assert!(matches!(&t.queue[0], BackgroundTask::SearchPackages(q) if q == "гайдов wifi"));
}

#[test]
fn greeting_uses_assistant_name() {
    let mut d = DialogState::new();
    let mut t = TaskManager::new();
    let r = route("привет", &mut d, &mut t);
    assert_eq!(r.as_deref(), Some("Привет! Я Альфонс, твой ассистент на Arch Linux."));
}

#[test]
fn clear_phrase_returns_sentinel() {
    let mut d = DialogState::new();
    let mut t = TaskManager::new();
    let r = route("очистить чат", &mut d, &mut t);
    assert_eq!(r.as_deref(), Some(cmd_clear_chat()));
}

#[test]
fn say_echoes_and_rejects_empty() {
    let mut d = DialogState::new();
    let mut t = TaskManager::new();
    let r = route("скажи  привет мир ", &mut d, &mut t);
    assert_eq!(r.as_deref(), Some("привет мир"));
    let r = route("скажи ", &mut d, &mut t);
    assert_eq!(r.as_deref(), Some("Что именно сказать?"));
}

#[test]
fn input_is_trimmed_and_folded() {
    let mut d = DialogState::new();
    let mut t = TaskManager::new();
    let r = route("  ПРИВЕТ  ", &mut d, &mut t);
    assert_eq!(r.as_deref(), Some("Привет! Я Альфонс, твой ассистент на Arch Linux."));
    let r = route("Установить VIM", &mut d, &mut t);
    assert_eq!(r.as_deref(), Some("Подготовка к установке 'vim'..."));
    assert_eq!(d.package, "vim");
}

#[test]
fn shutdown_phrase_opens_confirmation_with_sentinel() {
    let mut d = DialogState::new();
    let mut t = TaskManager::new();
    let r = route("выключить пк", &mut d, &mut t);
    assert_eq!(r.as_deref(), Some("Открываю диалог подтверждения выключения..."));
    assert!(d.visible);
    assert_eq!(d.package, "__shutdown__");
    assert_eq!(t.queue.len(), 0);
    let r = route("перезагрузить", &mut d, &mut t);
    assert_eq!(r.as_deref(), Some("Открываю диалог подтверждения перезагрузки..."));
    assert_eq!(d.package, "__reboot__");
}

#[test]
fn unmatched_input_returns_none() {
    let mut d = DialogState::new();
    let mut t = TaskManager::new();
    let r = route("какая сегодня погода в париже", &mut d, &mut t);
    assert!(r.is_none());
    assert!(!d.visible);
    assert_eq!(t.queue.len(), 0);
}

#[test]
fn help_phrase_matches() {
    let mut d = DialogState::new();
    let mut t = TaskManager::new();
    let r = route("помощь", &mut d, &mut t);
    assert_eq!(r.as_deref(), Some("помощь"));
}
