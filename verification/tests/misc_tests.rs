use alfons::clock;
use alfons::config::{default_ollama_model, Config};
use alfons::desktop::{default_accent_color, DesktopEnvironment};
use alfons::installer::{generate_desktop_file, generate_icon_svg, get_path_export_command};
use alfons::model::{generate_modelfile_content, plan_model_creation, ModelPlan};
use alfons::text;

#[test]
fn clock_stamp_shapes() {
    let s = clock::now_stamp();
    let t: Vec<char> = s.time.chars().collect();
    assert_eq!(t.len(), 8);
    assert_eq!(t[2], ':');
    assert_eq!(t[5], ':');
    assert!(s.date.chars().count() >= 10);
    let d: Vec<char> = s.date.chars().collect();
    assert_eq!(d[2], '.');
    assert_eq!(d[5], '.');
    assert!(s.datetime.chars().count() >= 19);
    assert!(s.datetime.starts_with(&s.date));
}

#[test]
fn decimal_rendering() {
    assert_eq!(text::u64_to_string(0), "0");
    assert_eq!(text::u64_to_string(7), "7");
    assert_eq!(text::u64_to_string(1234), "1234");
    assert_eq!(text::u64_to_string(1000000), "1000000");
}

#[test]
fn normalization_folds_latin_and_cyrillic() {
    let v = text::normalize("  ПрИвЕт WORLD Ёлка  ");
    let s: String = v.into_iter().collect();
    assert_eq!(s, "привет world ёлка");
}

#[test]
fn desktop_terminals() {
    assert_eq!(DesktopEnvironment::Kde.preferred_terminal(), "konsole");
    assert_eq!(DesktopEnvironment::Other.preferred_terminal(), "xterm");
    assert_eq!(
        DesktopEnvironment::Gnome.terminal_priority(),
        vec!["gnome-terminal", "kgx", "alacritty", "kitty", "xterm"]
    );
    assert_eq!(DesktopEnvironment::Xfce.name(), "Xfce");
}

#[test]
fn desktop_classification() {
    assert!(matches!(DesktopEnvironment::classify("ubuntu:gnome"), DesktopEnvironment::Gnome));
    assert!(matches!(DesktopEnvironment::classify("plasmax11"), DesktopEnvironment::Kde));
    assert!(matches!(DesktopEnvironment::classify("xfce4"), DesktopEnvironment::Xfce));
    assert!(matches!(DesktopEnvironment::classify("sway"), DesktopEnvironment::Other));
}

#[test]
fn accent_colors() {
    assert_eq!(default_accent_color(DesktopEnvironment::Gnome), [53, 132, 228]);
    assert_eq!(default_accent_color(DesktopEnvironment::Kde), [61, 174, 233]);
    assert_eq!(default_accent_color(DesktopEnvironment::Xfce), [44, 137, 218]);
}

#[test]
fn config_defaults() {
    let c = Config::default();
    assert_eq!(c.assistant_name, "Альфонс");
    assert_eq!(c.accent_color, [61, 174, 233]);
    assert_eq!(c.ollama_model, "llama3");
    assert_eq!(default_ollama_model(), "llama3");
}

#[test]
fn desktop_file_embeds_paths() {
    let f = generate_desktop_file("/home/u/.local/bin/alfons", "/home/u/.local/share/icons/alfons.png");
    assert!(f.starts_with("[Desktop Entry]\n"));
    assert!(f.contains("Exec=/home/u/.local/bin/alfons\n"));
    assert!(f.contains("Icon=/home/u/.local/share/icons/alfons.png\n"));
    assert!(f.ends_with("StartupNotify=true\n"));
}

#[test]
fn icon_and_path_advice() {
    assert!(generate_icon_svg().starts_with("<?xml"));
    assert_eq!(get_path_export_command(), "export PATH=\"$HOME/.local/bin:$PATH\"");
}

#[test]
fn model_plan_decision() {
    assert_eq!(plan_model_creation(false, false), ModelPlan::MissingBase);
    assert_eq!(plan_model_creation(false, true), ModelPlan::MissingBase);
    assert_eq!(plan_model_creation(true, true), ModelPlan::AlreadyExists);
    assert_eq!(plan_model_creation(true, false), ModelPlan::Create);
}

#[test]
fn modelfile_content_shape() {
    let m = generate_modelfile_content();
    assert!(m.starts_with("FROM llama3\n"));
    assert!(m.contains("PARAMETER num_ctx 4096"));
}
