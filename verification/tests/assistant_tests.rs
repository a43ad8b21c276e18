use alfons::assistant::{Assistant, InputOutcome};
use alfons::tasks::BackgroundTask;

#[test]
fn new_assistant_greets() {
    let a = Assistant::new("Альфонс");
    let msgs = a.chat.messages();
    assert_eq!(msgs.len(), 1);
    assert_eq!(msgs[0].sender, "Альфонс");
    assert_eq!(msgs[0].text, "Система готова. Введите команду или задайте вопрос ИИ.");
}

#[test]
fn blank_input_is_ignored() {
    let mut a = Assistant::new("Альфонс");
    let r = a.process_input("   ");
    assert!(matches!(r, InputOutcome::Ignored));
    assert_eq!(a.chat.messages().len(), 1);
    assert_eq!(a.input_history.entries.len(), 0);
}

#[test]
fn command_input_is_answered_in_chat() {
    let mut a = Assistant::new("Альфонс");
    let r = a.process_input("привет");
    assert!(matches!(r, InputOutcome::Handled));
    let msgs = a.chat.messages();
    assert_eq!(msgs.len(), 3);
    assert_eq!(msgs[1].sender, "Вы");
    assert_eq!(msgs[1].text, "привет");
    assert_eq!(msgs[2].sender, "Альфонс");
    assert_eq!(msgs[2].text, "Привет! Я Альфонс, твой ассистент на Arch Linux.");
    assert_eq!(a.input_history.entries[0], "привет");
}

#[test]
fn clear_command_resets_chat() {
    let mut a = Assistant::new("Альфонс");
    a.process_input("привет");
    let r = a.process_input("очистить");
    assert!(matches!(r, InputOutcome::Handled));
    let msgs = a.chat.messages();
    assert_eq!(msgs.len(), 1);
    assert_eq!(msgs[0].text, "История чата очищена. Чем могу помочь?");
}

#[test]
fn unmatched_input_is_forwarded() {
    let mut a = Assistant::new("Альфонс");
    let r = a.process_input("  расскажи анекдот  ");
    match r {
        InputOutcome::Forward(p) => assert_eq!(p, "расскажи анекдот"),
        other => panic!("unexpected outcome: {:?}", outcome_name(&other)),
    }
    let msgs = a.chat.messages();
    assert_eq!(msgs.len(), 2);
    assert_eq!(msgs[1].sender, "Вы");
    assert_eq!(msgs[1].text, "расскажи анекдот");
}

fn outcome_name(o: &InputOutcome) -> &'static str {
    match o {
        InputOutcome::Ignored => "Ignored",
        InputOutcome::Handled => "Handled",
        InputOutcome::Forward(_) => "Forward",
    }
}

#[test]
fn model_reply_is_shown_under_its_name() {
    let mut a = Assistant::new("Альфонс");
    a.tasks.push_result("Альфонс: Вот ответ".to_string());
    a.check_tasks();
    let msgs = a.chat.messages();
    assert_eq!(msgs.len(), 2);
    assert_eq!(msgs[1].sender, "Альфонс");
    assert_eq!(msgs[1].text, "Вот ответ");
    assert_eq!(a.tasks.results.len(), 0);
}

#[test]
fn plain_result_is_shown_as_system() {
    let mut a = Assistant::new("Альфонс");
    a.tasks.push_result("Ничего не найдено.".to_string());
    a.check_tasks();
    let msgs = a.chat.messages();
    assert_eq!(msgs[1].sender, "Система");
    assert_eq!(msgs[1].text, "Ничего не найдено.");
}

#[test]
fn recognized_cmd_marker_is_stripped_and_executed() {
    let mut a = Assistant::new("Альфонс");
    let r = a.process_ai_commands("Устанавливаю: [CMD:установить vim]");
    assert_eq!(r, "Устанавливаю: ");
    assert!(a.dialog.visible);
    assert_eq!(a.dialog.package, "vim");
}

#[test]
fn unrecognized_cmd_marker_is_annotated() {
    let mut a = Assistant::new("Альфонс");
    let r = a.process_ai_commands("Сделаю: [CMD:абракадабра]");
    assert_eq!(r, "Сделаю: [!] команда 'абракадабра' не распознана");
    assert!(!a.dialog.visible);
}

#[test]
fn cmd_marker_can_fire_background_search() {
    let mut a = Assistant::new("Альфонс");
    let r = a.process_ai_commands("[CMD:поиск vim]");
    assert_eq!(r, "");
    assert!(matches!(&a.tasks.queue[0], BackgroundTask::SearchPackages(q) if q == "vim"));
    assert!(a.tasks.is_busy());
}

#[test]
fn cmd_clear_marker_clears_chat() {
    let mut a = Assistant::new("Альфонс");
    a.process_input("привет");
    let reply = a.process_ai_commands("[CMD:очистить]");
    assert_eq!(reply, "");
    assert_eq!(a.chat.messages().len(), 1);
    assert_eq!(a.chat.messages()[0].text, "История чата очищена. Чем могу помочь?");
}

#[test]
fn model_reply_tool_markers_are_substituted() {
    let mut a = Assistant::new("Альфонс");
    let mut report = alfons::tools::SystemReport::new();
    report.time = "12:34:56".to_string();
    a.tools.set_report(report);
    a.tasks.push_result("Альфонс: Сейчас [TOOL:время]".to_string());
    a.check_tasks();
    let msgs = a.chat.messages();
    assert_eq!(msgs[1].text, "Сейчас 12:34:56");
}

#[test]
fn model_reply_with_markers_end_to_end() {
    let mut a = Assistant::new("Альфонс");
    a.tasks
        .push_result("Альфонс: Открываю гайд [CMD:гайд wifi] и [CMD:ерунда]".to_string());
    a.check_tasks();
    let msgs = a.chat.messages();
    let last = &msgs[msgs.len() - 1];
    assert_eq!(last.sender, "Альфонс");
    assert_eq!(last.text, "Открываю гайд  и [!] команда 'ерунда' не распознана");
}
