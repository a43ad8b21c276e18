//! The user-visible settings: assistant name, accent color and model name.
//! Loading and saving them is the shell's concern; the library only defines
//! the value and its defaults.
use vstd::prelude::*;

verus! {

/// The settings the assistant runs with.
#[derive(Debug, Clone)]
pub struct Config {
    pub assistant_name: String,
    pub accent_color: [u8; 3],
    pub ollama_model: String,
}

/// The model used when the settings name none.
pub fn default_ollama_model() -> (r: String)
    ensures
        r@ == "llama3"@,
{
    "llama3".to_owned()
}

impl Default for Config {
    /// The stock settings: the assistant's original name, the default accent
    /// color and the default model.
    fn default() -> (c: Config)
        ensures
            c.assistant_name@ == "Альфонс"@,
            c.accent_color@ == seq![61u8, 174u8, 233u8],
            c.ollama_model@ == "llama3"@,
    {
        let c = Config {
            assistant_name: "Альфонс".to_owned(),
            accent_color: [61u8, 174u8, 233u8],
            ollama_model: default_ollama_model(),
        };
        proof {
            assert(c.accent_color@ =~= seq![61u8, 174u8, 233u8]);
        }
        c
    }
}

} // verus!
