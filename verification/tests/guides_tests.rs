use alfons::guides::{Guide, GuideRegistry, GuideStep};
use alfons::router::process_guide_command;

#[test]
fn get_known_guide_by_id() {
    let g = GuideRegistry::new();
    let pac = g.get("pacman").unwrap();
    assert_eq!(pac.title, "Основы Pacman");
    assert!(g.get("nonexistent").is_none());
}

#[test]
fn guide_command_renders_guide() {
    let g = GuideRegistry::new();
    let r = process_guide_command("гайд pacman", &g).unwrap();
    assert!(r.contains("Основы Pacman"));
    assert!(r.contains("1. Обновить список пакетов и систему"));
    assert!(r.contains("   $ sudo pacman -Syu"));
    assert!(r.contains("   ℹ Рекомендуется делать перед установкой новых пакетов"));
}

#[test]
fn guide_list_is_sorted_catalog() {
    let g = GuideRegistry::new();
    let r = process_guide_command("гайды", &g).unwrap();
    assert!(r.starts_with("📚 Доступные гайды:\n\n"));
    assert!(r.ends_with("\nИспользуйте: гайд <название>"));
    assert!(r.contains("• pacman — Основы Pacman\n"));
    // Sorted by title: "Драйверы видеокарты" (gpu) before "Настройка WiFi" (wifi).
    let gpu = r.find("• gpu — Драйверы видеокарты").unwrap();
    let wifi = r.find("• wifi — Настройка WiFi").unwrap();
    assert!(gpu < wifi);
}

#[test]
fn guide_miss_reports_not_found() {
    let g = GuideRegistry::new();
    let r = process_guide_command("гайд чепуха", &g).unwrap();
    assert_eq!(
        r,
        "Гайд 'чепуха' не найден.\n\nИспользуйте 'гайды' для списка доступных."
    );
}

#[test]
fn guide_falls_back_to_keyword_search() {
    let g = GuideRegistry::new();
    // "вайфай" is a tag of the wifi guide, not an id: one hit renders it.
    let r = process_guide_command("гайд вайфай", &g).unwrap();
    assert!(r.contains("Настройка WiFi"));
}

#[test]
fn find_guide_lists_matches() {
    let g = GuideRegistry::new();
    let r = process_guide_command("найти гайд вайфай", &g).unwrap();
    assert_eq!(
        r,
        "Найдено 1 гайдов:\n\n• wifi — Настройка WiFi\n\nИспользуйте: гайд <название>"
    );
}

#[test]
fn find_guide_reports_no_matches() {
    let g = GuideRegistry::new();
    let r = process_guide_command("найти гайд абракадабра", &g).unwrap();
    assert_eq!(r, "Гайды по запросу 'абракадабра' не найдены.");
}

#[test]
fn search_is_case_insensitive() {
    let g = GuideRegistry::new();
    let hits = g.search("PACMAN");
    assert_eq!(hits.len(), 1);
    assert_eq!(hits[0].id, "pacman");
}

#[test]
fn register_replaces_same_id() {
    let mut g = GuideRegistry::new();
    let before = g.list().len();
    g.register(Guide::new("pacman", "Другой заголовок", "замена"));
    assert_eq!(g.list().len(), before);
    assert_eq!(g.get("pacman").unwrap().title, "Другой заголовок");
}

#[test]
fn guide_builder_and_format() {
    let guide = Guide::new("x", "Заголовок", "Описание")
        .add_tags(&["один", "два"])
        .add_step(GuideStep::new("Первый шаг").with_command("echo 1"))
        .add_step(GuideStep::new("Второй шаг").with_note("заметка"));
    let text = guide.format();
    assert_eq!(
        text,
        " Заголовок\nОписание\n\n1. Первый шаг\n   $ echo 1\n\n2. Второй шаг\n   ℹ заметка\n\n"
    );
}

#[test]
fn list_pairs_ids_with_titles() {
    let g = GuideRegistry::new();
    let pairs = g.list();
    assert_eq!(pairs.len(), 8);
    assert!(pairs.iter().any(|(id, title)| id == "aur" && title == "Работа с AUR"));
}
