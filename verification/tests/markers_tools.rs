use alfons::markers::{find_cmd_payloads, replace_all, resolve_tools, split_at_first};
use alfons::tools::{SystemReport, ToolKind, ToolRegistry};

fn registry_with_report() -> ToolRegistry {
    let mut reg = ToolRegistry::new();
    reg.set_report(SystemReport {
        time: "12:34:56".to_string(),
        date: "01.02.2026".to_string(),
        datetime: "01.02.2026 12:34:56".to_string(),
        memory: "2G / 8G".to_string(),
        disk: "10G / 50G".to_string(),
        cpu: "TestCPU (загрузка: 0.5)".to_string(),
    });
    reg
}

#[test]
fn plain_text_is_unchanged() {
    let reg = ToolRegistry::new();
    let s = "просто текст без маркеров";
    assert_eq!(resolve_tools(s, &reg), s);
    assert!(find_cmd_payloads(s).is_empty());
}

#[test]
fn unknown_tool_marker_stays_visible() {
    let reg = ToolRegistry::new();
    let r = resolve_tools("[TOOL:xyz]", &reg);
    assert!(r.contains("xyz"));
    assert!(r.contains("[?"));
    assert_eq!(r, "[?xyz]");
}

#[test]
fn known_tool_is_substituted() {
    let reg = registry_with_report();
    assert_eq!(resolve_tools("Сейчас [TOOL:время].", &reg), "Сейчас 12:34:56.");
    assert_eq!(resolve_tools("[TOOL:память]", &reg), "2G / 8G");
    assert_eq!(
        resolve_tools("[TOOL:система]", &reg),
        "Память: 2G / 8G\nCPU: TestCPU (загрузка: 0.5)\nДиск: 10G / 50G"
    );
}

#[test]
fn unterminated_marker_is_left_alone() {
    let reg = registry_with_report();
    assert_eq!(resolve_tools("до [TOOL:время", &reg), "до [TOOL:время");
    assert_eq!(resolve_tools("[TOOL:]после", &reg), "[TOOL:]после");
}

#[test]
fn markers_resolve_left_to_right() {
    let reg = registry_with_report();
    assert_eq!(
        resolve_tools("[TOOL:дата] и [TOOL:нет]", &reg),
        "01.02.2026 и [?нет]"
    );
}

#[test]
fn cmd_payloads_are_collected_in_order() {
    let ps = find_cmd_payloads("a [CMD:гайды] b [CMD:поиск vim] c");
    assert_eq!(ps, vec!["гайды".to_string(), "поиск vim".to_string()]);
}

#[test]
fn cmd_payload_without_close_is_ignored() {
    assert!(find_cmd_payloads("x [CMD:обрыв").is_empty());
    assert!(find_cmd_payloads("x [CMD:]").is_empty());
}

#[test]
fn replace_all_replaces_every_occurrence() {
    assert_eq!(replace_all("aaa", "a", "b"), "bbb");
    assert_eq!(replace_all("[CMD:x] y [CMD:x]", "[CMD:x]", ""), " y ");
    assert_eq!(replace_all("без вхождений", "zzz", "!"), "без вхождений");
    assert_eq!(replace_all("абаба", "аба", "#"), "#ба");
}

#[test]
fn split_at_first_separates_sender() {
    let (a, b) = split_at_first("Альфонс: привет: мир", ": ").unwrap();
    assert_eq!(a, "Альфонс");
    assert_eq!(b, "привет: мир");
    assert!(split_at_first("без разделителя", ": ").is_none());
}

#[test]
fn tool_registry_lookup_and_prompt() {
    let reg = registry_with_report();
    assert_eq!(reg.execute("время").as_deref(), Some("12:34:56"));
    assert_eq!(
        reg.execute("список_гайдов").as_deref(),
        Some("pacman, aur, wifi, systemd, gpu, audio, locale, backup")
    );
    assert!(reg.execute("неизвестный").is_none());
    let prompt = reg.generate_system_prompt();
    assert!(prompt.contains("- [TOOL:время] - получить текущее время\n"));
    assert!(prompt.contains("Формат использования: [TOOL:название]"));
    assert!(prompt.starts_with("Ты помощник Альфонс для Arch Linux."));
}

#[test]
fn memory_summary_reads_second_line() {
    let free = "              total        used        free\nПамять:         8,2G        2,1G        4,0G\nSwap:             0B          0B          0B\n";
    assert_eq!(alfons::tools::memory_summary(free), "2,1G / 8,2G (использовано)");
    assert_eq!(alfons::tools::memory_summary("одна строка"), "Не удалось получить");
    assert_eq!(alfons::tools::memory_summary("a\nb c\n"), "Не удалось получить");
}

#[test]
fn disk_summary_reads_columns() {
    let df = "Файл.система   Размер Использовано  Дост Использовано% Cмонтировано в\n/dev/sda2        100G          40G   55G           42% /\n";
    assert_eq!(alfons::tools::disk_summary(df), "40G / 100G (42%)");
    assert_eq!(alfons::tools::disk_summary(""), "Не удалось получить");
}

#[test]
fn cpu_summary_reads_model_and_load() {
    let info = "processor\t: 0\nvendor_id\t: GenuineIntel\nmodel name\t: Intel(R) Core(TM) i7\nflags\t: fpu\n";
    let load = "0.42 0.37 0.30 1/234 5678\n";
    assert_eq!(
        alfons::tools::cpu_summary(info, load),
        "Intel(R) Core(TM) i7 (загрузка: 0.42)"
    );
    assert_eq!(alfons::tools::cpu_summary("", ""), "Неизвестно (загрузка: ?)");
}

#[test]
fn registered_tool_is_found() {
    let mut reg = registry_with_report();
    reg.register("эхо", "тестовый инструмент", ToolKind::GuideList);
    assert_eq!(
        reg.execute("эхо").as_deref(),
        Some("pacman, aur, wifi, systemd, gpu, audio, locale, backup")
    );
}
