//! The modal dialog state machine: hidden, a package-search prompt, or a
//! confirmation prompt carrying the payload needed to resume the action.
use vstd::prelude::*;

verus! {

/// Which kind of modal dialog is configured.
#[derive(Debug, Clone, PartialEq, Eq, Structural)]
pub enum DialogType {
    Info,
    PackageSearch,
    Confirmation,
}

/// State of the modal dialog window.
///
/// When `visible` is false, `input` and `package` have been cleared by the
/// last `hide`, so a stale payload can never leak into the next prompt.
#[derive(Debug, Clone)]
pub struct DialogState {
    pub visible: bool,
    pub dialog_type: DialogType,
    pub title: String,
    pub message: String,
    pub input: String,
    pub package: String,
}

impl DialogState {
    /// A hidden dialog with empty texts.
    pub fn new() -> (d: DialogState)
        ensures
            !d.visible,
            d.dialog_type == DialogType::Info,
            d.title@ == Seq::<char>::empty(),
            d.message@ == Seq::<char>::empty(),
            d.input@ == Seq::<char>::empty(),
            d.package@ == Seq::<char>::empty(),
    {
        DialogState {
            visible: false,
            dialog_type: DialogType::Info,
            title: String::new(),
            message: String::new(),
            input: String::new(),
            package: String::new(),
        }
    }

    /// Opens the package-search prompt with a cleared input field.
    pub fn show_search(&mut self)
        ensures
            final(self).visible,
            final(self).dialog_type == DialogType::PackageSearch,
            final(self).title@ == "Поиск пакетов"@,
            final(self).message@ == "Введите название пакета:"@,
            final(self).input@ == Seq::<char>::empty(),
            final(self).package == old(self).package,
    {
        self.visible = true;
        self.dialog_type = DialogType::PackageSearch;
        self.title = "Поиск пакетов".to_owned();
        self.message = "Введите название пакета:".to_owned();
        self.input = String::new();
    }

    /// Opens a confirmation prompt carrying `package` as its payload.
    pub fn show_confirm(&mut self, title: &str, message: &str, package: &str)
        ensures
            final(self).visible,
            final(self).dialog_type == DialogType::Confirmation,
            final(self).title@ == title@,
            final(self).message@ == message@,
            final(self).package@ == package@,
            final(self).input == old(self).input,
    {
        self.visible = true;
        self.dialog_type = DialogType::Confirmation;
        self.title = title.to_owned();
        self.message = message.to_owned();
        self.package = package.to_owned();
    }

    /// Hides the dialog and clears the input field and the payload.
    pub fn dismiss(&mut self)
        ensures
            !final(self).visible,
            final(self).input@ == Seq::<char>::empty(),
            final(self).package@ == Seq::<char>::empty(),
            final(self).dialog_type == old(self).dialog_type,
            final(self).title == old(self).title,
            final(self).message == old(self).message,
    {
        self.visible = false;
        self.input = String::new();
        self.package = String::new();
    }
}

impl Default for DialogState {
    /// Same state as [`DialogState::new`].
    fn default() -> (d: DialogState)
        ensures
            !d.visible,
            d.input@ == Seq::<char>::empty(),
            d.package@ == Seq::<char>::empty(),
    {
        DialogState::new()
    }
}

} // verus!
