//! What the system installer writes: the desktop entry, the fallback icon,
//! and the PATH advice. The file operations themselves are the shell's
//! concern; the library computes the exact contents.
use vstd::prelude::*;

verus! {

/// The outcome of an install or uninstall, as text for the chat.
#[derive(Debug, Clone)]
pub struct InstallResult {
    pub message: String,
}

/// The desktop entry for the given binary and icon paths.
pub open spec fn desktop_file_text(bin_path: Seq<char>, icon_path: Seq<char>) -> Seq<char> {
    "[Desktop Entry]\nName=Альфонс\nGenericName=AI Assistant\nComment=Помощник для Arch Linux с AI интеграцией\nExec="@
        + bin_path + "\nIcon="@ + icon_path
        + "\nTerminal=false\nType=Application\nCategories=Utility;System;\nKeywords=arch;linux;ai;assistant;ollama;\nStartupNotify=true\n"@
}

/// Renders the desktop entry.
pub fn generate_desktop_file(bin_path: &str, icon_path: &str) -> (r: String)
    ensures
        r@ == desktop_file_text(bin_path@, icon_path@),
{
    let mut s = String::new();
    s.append(
        "[Desktop Entry]\nName=Альфонс\nGenericName=AI Assistant\nComment=Помощник для Arch Linux с AI интеграцией\nExec=",
    );
    s.append(bin_path);
    s.append("\nIcon=");
    s.append(icon_path);
    s.append(
        "\nTerminal=false\nType=Application\nCategories=Utility;System;\nKeywords=arch;linux;ai;assistant;ollama;\nStartupNotify=true\n",
    );
    s
}

/// The fallback icon written when no custom icon is found.
pub fn generate_icon_svg() -> (r: &'static str)
    ensures
        r@ == "<?xml version=\"1.0\" encoding=\"UTF-8\"?>\n<svg width=\"128\" height=\"128\" viewBox=\"0 0 128 128\" xmlns=\"http://www.w3.org/2000/svg\">\n  <defs>\n    <linearGradient id=\"bg\" x1=\"0%\" y1=\"0%\" x2=\"100%\" y2=\"100%\">\n      <stop offset=\"0%\" style=\"stop-color:#3DAEE9\"/>\n      <stop offset=\"100%\" style=\"stop-color:#1D99F3\"/>\n    </linearGradient>\n  </defs>\n  <rect width=\"128\" height=\"128\" rx=\"24\" fill=\"url(#bg)\"/>\n  <text x=\"64\" y=\"80\" font-family=\"sans-serif\" font-size=\"64\" font-weight=\"bold\"\n        fill=\"white\" text-anchor=\"middle\">A</text>\n</svg>"@,
{
    "<?xml version=\"1.0\" encoding=\"UTF-8\"?>\n<svg width=\"128\" height=\"128\" viewBox=\"0 0 128 128\" xmlns=\"http://www.w3.org/2000/svg\">\n  <defs>\n    <linearGradient id=\"bg\" x1=\"0%\" y1=\"0%\" x2=\"100%\" y2=\"100%\">\n      <stop offset=\"0%\" style=\"stop-color:#3DAEE9\"/>\n      <stop offset=\"100%\" style=\"stop-color:#1D99F3\"/>\n    </linearGradient>\n  </defs>\n  <rect width=\"128\" height=\"128\" rx=\"24\" fill=\"url(#bg)\"/>\n  <text x=\"64\" y=\"80\" font-family=\"sans-serif\" font-size=\"64\" font-weight=\"bold\"\n        fill=\"white\" text-anchor=\"middle\">A</text>\n</svg>"
}

/// The line to add to a shell profile so the install directory is on PATH.
pub fn get_path_export_command() -> (r: String)
    ensures
        r@ == "export PATH=\"$HOME/.local/bin:$PATH\""@,
{
    "export PATH=\"$HOME/.local/bin:$PATH\"".to_owned()
}

} // verus!
