//! Desktop-environment specifics: which terminal emulators to try for
//! interactive privileged operations, and the environment's display name and
//! accent color.
use vstd::prelude::*;

verus! {

/// The desktop environment the assistant runs under.
#[derive(Debug, Clone, Copy, PartialEq, Eq, Structural)]
pub enum DesktopEnvironment {
    Gnome,
    Kde,
    Xfce,
    Other,
}

impl DesktopEnvironment {
    /// The terminal emulator the environment ships with.
    pub fn preferred_terminal(&self) -> (r: &'static str)
        ensures
            r@ == match *self {
                DesktopEnvironment::Gnome => "gnome-terminal"@,
                DesktopEnvironment::Kde => "konsole"@,
                DesktopEnvironment::Xfce => "xfce4-terminal"@,
                DesktopEnvironment::Other => "xterm"@,
            },
    {
        match self {
            DesktopEnvironment::Gnome => "gnome-terminal",
            DesktopEnvironment::Kde => "konsole",
            DesktopEnvironment::Xfce => "xfce4-terminal",
            DesktopEnvironment::Other => "xterm",
        }
    }

    /// The terminal emulators to try for this environment, best first.
    pub fn terminal_priority(&self) -> (r: Vec<&'static str>)
        ensures
            r.deep_view() == match *self {
                DesktopEnvironment::Gnome => seq![
                    "gnome-terminal"@,
                    "kgx"@,
                    "alacritty"@,
                    "kitty"@,
                    "xterm"@,
                ],
                DesktopEnvironment::Kde => seq!["konsole"@, "alacritty"@, "kitty"@, "xterm"@],
                DesktopEnvironment::Xfce => seq![
                    "xfce4-terminal"@,
                    "alacritty"@,
                    "kitty"@,
                    "xterm"@,
                ],
                DesktopEnvironment::Other => seq![
                    "alacritty"@,
                    "kitty"@,
                    "gnome-terminal"@,
                    "konsole"@,
                    "xfce4-terminal"@,
                    "xterm"@,
                ],
            },
    {
        let mut v: Vec<&'static str> = Vec::new();
        match self {
            DesktopEnvironment::Gnome => {
                v.push("gnome-terminal");
                v.push("kgx");
                v.push("alacritty");
                v.push("kitty");
                v.push("xterm");
                proof {
                    assert(v.deep_view() =~= seq![
                        "gnome-terminal"@,
                        "kgx"@,
                        "alacritty"@,
                        "kitty"@,
                        "xterm"@,
                    ]);
                }
            },
            DesktopEnvironment::Kde => {
                v.push("konsole");
                v.push("alacritty");
                v.push("kitty");
                v.push("xterm");
                proof {
                    assert(v.deep_view() =~= seq!["konsole"@, "alacritty"@, "kitty"@, "xterm"@]);
                }
            },
            DesktopEnvironment::Xfce => {
                v.push("xfce4-terminal");
                v.push("alacritty");
                v.push("kitty");
                v.push("xterm");
                proof {
                    assert(v.deep_view() =~= seq![
                        "xfce4-terminal"@,
                        "alacritty"@,
                        "kitty"@,
                        "xterm"@,
                    ]);
                }
            },
            DesktopEnvironment::Other => {
                v.push("alacritty");
                v.push("kitty");
                v.push("gnome-terminal");
                v.push("konsole");
                v.push("xfce4-terminal");
                v.push("xterm");
                proof {
                    assert(v.deep_view() =~= seq![
                        "alacritty"@,
                        "kitty"@,
                        "gnome-terminal"@,
                        "konsole"@,
                        "xfce4-terminal"@,
                        "xterm"@,
                    ]);
                }
            },
        }
        v
    }

    /// The environment's display name.
    pub fn name(&self) -> (r: &'static str)
        ensures
            r@ == match *self {
                DesktopEnvironment::Gnome => "GNOME"@,
                DesktopEnvironment::Kde => "KDE Plasma"@,
                DesktopEnvironment::Xfce => "Xfce"@,
                DesktopEnvironment::Other => "Linux"@,
            },
    {
        match self {
            DesktopEnvironment::Gnome => "GNOME",
            DesktopEnvironment::Kde => "KDE Plasma",
            DesktopEnvironment::Xfce => "Xfce",
            DesktopEnvironment::Other => "Linux",
        }
    }

    /// Classifies a desktop-session label (already folded to lower case, as
    /// read from the session environment).
    pub fn classify(label: &str) -> (r: DesktopEnvironment)
        ensures
            ({
                let l = label@;
                if crate::text::contains_seq(l, "gnome"@) || crate::text::contains_seq(l, "unity"@)
                    || crate::text::contains_seq(l, "budgie"@) || crate::text::contains_seq(
                    l,
                    "ubuntu"@,
                ) {
                    r == DesktopEnvironment::Gnome
                } else if crate::text::contains_seq(l, "kde"@) || crate::text::contains_seq(
                    l,
                    "plasma"@,
                ) {
                    r == DesktopEnvironment::Kde
                } else if crate::text::contains_seq(l, "xfce"@) {
                    r == DesktopEnvironment::Xfce
                } else {
                    r == DesktopEnvironment::Other
                }
            }),
    {
        let v = crate::text::to_chars(label);
        if crate::text::contains_lit(&v, "gnome") || crate::text::contains_lit(&v, "unity")
            || crate::text::contains_lit(&v, "budgie") || crate::text::contains_lit(&v, "ubuntu") {
            DesktopEnvironment::Gnome
        } else if crate::text::contains_lit(&v, "kde") || crate::text::contains_lit(&v, "plasma") {
            DesktopEnvironment::Kde
        } else if crate::text::contains_lit(&v, "xfce") {
            DesktopEnvironment::Xfce
        } else {
            DesktopEnvironment::Other
        }
    }
}

impl Default for DesktopEnvironment {
    /// An unrecognized environment.
    fn default() -> (r: DesktopEnvironment)
        ensures
            r == DesktopEnvironment::Other,
    {
        DesktopEnvironment::Other
    }
}

/// The default accent color of the environment, as an RGB triple.
pub fn default_accent_color(de: DesktopEnvironment) -> (r: [u8; 3])
    ensures
        r@ == match de {
            DesktopEnvironment::Gnome => seq![53u8, 132u8, 228u8],
            DesktopEnvironment::Kde => seq![61u8, 174u8, 233u8],
            DesktopEnvironment::Xfce => seq![44u8, 137u8, 218u8],
            DesktopEnvironment::Other => seq![61u8, 174u8, 233u8],
        },
{
    let r = match de {
        DesktopEnvironment::Gnome => [53u8, 132u8, 228u8],
        DesktopEnvironment::Kde => [61u8, 174u8, 233u8],
        DesktopEnvironment::Xfce => [44u8, 137u8, 218u8],
        DesktopEnvironment::Other => [61u8, 174u8, 233u8],
    };
    proof {
        assert(r@ =~= match de {
            DesktopEnvironment::Gnome => seq![53u8, 132u8, 228u8],
            DesktopEnvironment::Kde => seq![61u8, 174u8, 233u8],
            DesktopEnvironment::Xfce => seq![44u8, 137u8, 218u8],
            DesktopEnvironment::Other => seq![61u8, 174u8, 233u8],
        });
    }
    r
}

} // verus!
