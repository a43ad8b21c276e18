//! The command router: a raw input line, normalized, is tried against the
//! handler groups in fixed priority order — basic phrases, then power
//! actions, then the package manager, then the guides — and the first match
//! wins. No handler runs an external process itself: side effects are limited
//! to the dialog state and the task queue.
use vstd::prelude::*;
use crate::clock::{self, ClockStamp};
use crate::dialog::{DialogState, DialogType};
use crate::guides::{self, GuideRegistry, GuideView};
use crate::tasks::{self, BackgroundTask, TaskManager};
use crate::text;

verus! {

/// The distinguished response that tells the orchestrator to clear the chat
/// instead of showing the response text.
pub open spec fn clear_chat_sentinel() -> Seq<char> {
    "__clear_chat__"@
}

/// Executable form of [`clear_chat_sentinel`].
pub fn cmd_clear_chat() -> (r: &'static str)
    ensures
        r@ == clear_chat_sentinel(),
{
    "__clear_chat__"
}

// ------------------------------------------------------------------
// Group 1: basic phrases
// ------------------------------------------------------------------
/// Does a basic phrase handle this normalized command?
pub open spec fn basic_matches(cmd: Seq<char>) -> bool {
    ||| cmd == "привет"@
    ||| cmd == "здравствуй"@
    ||| cmd == "очистить"@
    ||| cmd == "очистить чат"@
    ||| text::has_prefix(cmd, "скажи "@)
    ||| cmd == "скажи"@
    ||| cmd == "время"@
    ||| cmd == "который час"@
    ||| cmd == "дата"@
    ||| cmd == "какое сегодня число"@
    ||| cmd == "дата и время"@
    ||| cmd == "помощь"@
}

/// The basic-phrase response, given the clock renderings in effect.
pub open spec fn basic_response_at(
    cmd: Seq<char>,
    name: Seq<char>,
    time: Seq<char>,
    date: Seq<char>,
    datetime: Seq<char>,
) -> Option<Seq<char>> {
    if cmd == "привет"@ || cmd == "здравствуй"@ {
        Some("Привет! Я "@ + name + ", твой ассистент на Arch Linux."@)
    } else if cmd == "очистить"@ || cmd == "очистить чат"@ {
        Some(clear_chat_sentinel())
    } else if text::has_prefix(cmd, "скажи "@) || cmd == "скажи"@ {
        let msg = if cmd == "скажи"@ {
            Seq::<char>::empty()
        } else {
            text::trim_spec(text::strip_rep(cmd, "скажи "@))
        };
        if msg.len() == 0 {
            Some("Что именно сказать?"@)
        } else {
            Some(msg)
        }
    } else if cmd == "время"@ || cmd == "который час"@ {
        Some("Текущее время: "@ + time)
    } else if cmd == "дата"@ || cmd == "какое сегодня число"@ {
        Some("Сегодня: "@ + date)
    } else if cmd == "дата и время"@ {
        Some("Текущие дата и время: "@ + datetime)
    } else if cmd == "помощь"@ {
        Some("помощь"@)
    } else {
        None
    }
}

/// The basic-phrase response for some well-formed clock reading: what the
/// handler guarantees when the clock itself is not pinned.
pub open spec fn basic_responds(cmd: Seq<char>, name: Seq<char>, r: Option<Seq<char>>) -> bool {
    exists|time: Seq<char>, date: Seq<char>, datetime: Seq<char>|
        time.len() == 8 && date.len() >= 10 && datetime.len() >= 19 && r == basic_response_at(
            cmd,
            name,
            time,
            date,
            datetime,
        )
}

/// Handles a normalized basic phrase against a fixed clock reading.
pub fn process_basic_command_at(cmd: &str, assistant_name: &str, stamp: &ClockStamp) -> (r: Option<
    String,
>)
    ensures
        r.deep_view() == basic_response_at(
            cmd@,
            assistant_name@,
            stamp.time@,
            stamp.date@,
            stamp.datetime@,
        ),
        r is Some <==> basic_matches(cmd@),
{
    let v = text::to_chars(cmd);
    if text::str_eq(cmd, "привет") || text::str_eq(cmd, "здравствуй") {
        let mut s = String::new();
        s.append("Привет! Я ");
        s.append(assistant_name);
        s.append(", твой ассистент на Arch Linux.");
        Some(s)
    } else if text::str_eq(cmd, "очистить") || text::str_eq(cmd, "очистить чат") {
        Some(cmd_clear_chat().to_owned())
    } else if text::starts_with_lit(&v, "скажи ") || text::str_eq(cmd, "скажи") {
        let rest = if text::str_eq(cmd, "скажи") {
            Vec::<char>::new()
        } else {
            text::trim_chars(&text::strip_prefix_rep(&v, "скажи "))
        };
        if rest.len() == 0 {
            Some("Что именно сказать?".to_owned())
        } else {
            Some(text::chars_to_string(rest.as_slice()))
        }
    } else if text::str_eq(cmd, "время") || text::str_eq(cmd, "который час") {
        let mut s = String::new();
        s.append("Текущее время: ");
        s.append(stamp.time.as_str());
        Some(s)
    } else if text::str_eq(cmd, "дата") || text::str_eq(cmd, "какое сегодня число") {
        let mut s = String::new();
        s.append("Сегодня: ");
        s.append(stamp.date.as_str());
        Some(s)
    } else if text::str_eq(cmd, "дата и время") {
        let mut s = String::new();
        s.append("Текущие дата и время: ");
        s.append(stamp.datetime.as_str());
        Some(s)
    } else if text::str_eq(cmd, "помощь") {
        Some("помощь".to_owned())
    } else {
        None
    }
}

/// Handles a normalized basic phrase, reading the clock where the phrase asks
/// for it.
pub fn process_basic_command(cmd: &str, assistant_name: &str) -> (r: Option<String>)
    ensures
        basic_responds(cmd@, assistant_name@, r.deep_view()),
        r is Some <==> basic_matches(cmd@),
{
    let stamp = clock::now_stamp();
    let r = process_basic_command_at(cmd, assistant_name, &stamp);
    proof {
        assert(stamp.time@.len() == 8 && stamp.date@.len() >= 10 && stamp.datetime@.len() >= 19
            && r.deep_view() == basic_response_at(
            cmd@,
            assistant_name@,
            stamp.time@,
            stamp.date@,
            stamp.datetime@,
        ));
    }
    r
}

// ------------------------------------------------------------------
// Group 2: power actions
// ------------------------------------------------------------------
/// Does a power-action phrase handle this normalized command?
pub open spec fn system_matches(cmd: Seq<char>) -> bool {
    ||| cmd == "выключить пк"@
    ||| cmd == "выключить компьютер"@
    ||| cmd == "перезагрузить"@
    ||| cmd == "рестарт"@
}

/// Is this a shutdown phrase (as opposed to a reboot phrase)?
pub open spec fn is_shutdown_phrase(cmd: Seq<char>) -> bool {
    cmd == "выключить пк"@ || cmd == "выключить компьютер"@
}

/// The power-action acknowledgment text.
pub open spec fn system_response(cmd: Seq<char>) -> Option<Seq<char>> {
    if is_shutdown_phrase(cmd) {
        Some("Открываю диалог подтверждения выключения..."@)
    } else if system_matches(cmd) {
        Some("Открываю диалог подтверждения перезагрузки..."@)
    } else {
        None
    }
}

/// How a power-action phrase changes the dialog: a confirmation prompt whose
/// payload is the matching sentinel; an unmatched phrase leaves it untouched.
pub open spec fn system_dialog_effect(cmd: Seq<char>, d0: DialogState, d1: DialogState) -> bool {
    if system_matches(cmd) {
        &&& d1.visible
        &&& d1.dialog_type == DialogType::Confirmation
        &&& d1.input == d0.input
        &&& if is_shutdown_phrase(cmd) {
            &&& d1.title@ == "Выключение компьютера"@
            &&& d1.message@ == "Выключить компьютер сейчас?"@
            &&& d1.package@ == tasks::shutdown_sentinel()
        } else {
            &&& d1.title@ == "Перезагрузка компьютера"@
            &&& d1.message@ == "Перезагрузить компьютер сейчас?"@
            &&& d1.package@ == tasks::reboot_sentinel()
        }
    } else {
        d1 == d0
    }
}

/// Handles a power-action phrase: the action never runs directly — it only
/// opens a confirmation dialog carrying the matching sentinel payload.
pub fn process_system_command(cmd: &str, dialog: &mut DialogState) -> (r: Option<String>)
    ensures
        r.deep_view() == system_response(cmd@),
        r is Some <==> system_matches(cmd@),
        system_dialog_effect(cmd@, *old(dialog), *final(dialog)),
{
    if text::str_eq(cmd, "выключить пк") || text::str_eq(cmd, "выключить компьютер") {
        dialog.show_confirm(
            "Выключение компьютера",
            "Выключить компьютер сейчас?",
            "__shutdown__",
        );
        Some("Открываю диалог подтверждения выключения...".to_owned())
    } else if text::str_eq(cmd, "перезагрузить") || text::str_eq(cmd, "рестарт") {
        dialog.show_confirm(
            "Перезагрузка компьютера",
            "Перезагрузить компьютер сейчас?",
            "__reboot__",
        );
        Some("Открываю диалог подтверждения перезагрузки...".to_owned())
    } else {
        None
    }
}

// ------------------------------------------------------------------
// Group 3: package manager
// ------------------------------------------------------------------
/// Does a package-manager phrase handle this normalized command?
pub open spec fn package_matches(cmd: Seq<char>) -> bool {
    ||| cmd == "поиск пакетов"@
    ||| cmd == "найти пакеты"@
    ||| text::has_prefix(cmd, "установить "@)
    ||| cmd == "установить"@
    ||| text::has_prefix(cmd, "удалить "@)
    ||| cmd == "удалить"@
    ||| cmd == "обновить систему"@
    ||| cmd == "обновление"@
    ||| text::has_prefix(cmd, "поиск "@)
}

/// The argument of a prefixed package phrase: what follows the repeated
/// prefix, trimmed.
pub open spec fn phrase_arg(cmd: Seq<char>, prefix: Seq<char>) -> Seq<char> {
    text::trim_spec(text::strip_rep(cmd, prefix))
}

/// The argument of a phrase that may also stand bare: the bare word carries
/// an empty argument.
pub open spec fn phrase_arg_or_empty(cmd: Seq<char>, bare: Seq<char>, prefix: Seq<char>) -> Seq<
    char,
> {
    if cmd == bare {
        Seq::<char>::empty()
    } else {
        phrase_arg(cmd, prefix)
    }
}

/// The package-manager response text.
pub open spec fn package_response(cmd: Seq<char>) -> Option<Seq<char>> {
    if cmd == "поиск пакетов"@ || cmd == "найти пакеты"@ {
        Some("Открываю диалог для поиска пакетов..."@)
    } else if text::has_prefix(cmd, "установить "@) || cmd == "установить"@ {
        let name = phrase_arg_or_empty(cmd, "установить"@, "установить "@);
        if name.len() == 0 {
            Some("Укажите имя пакета. Пример: 'установить firefox'"@)
        } else {
            Some("Подготовка к установке '"@ + name + "'..."@)
        }
    } else if text::has_prefix(cmd, "удалить "@) || cmd == "удалить"@ {
        let name = phrase_arg_or_empty(cmd, "удалить"@, "удалить "@);
        if name.len() == 0 {
            Some("Укажите имя пакета для удаления."@)
        } else {
            Some("Подготовка к удалению '"@ + name + "'..."@)
        }
    } else if cmd == "обновить систему"@ || cmd == "обновление"@ {
        Some("Подготовка к обновлению..."@)
    } else if text::has_prefix(cmd, "поиск "@) {
        Some("Ищу пакеты по запросу '"@ + phrase_arg(cmd, "поиск "@) + "'..."@)
    } else {
        None
    }
}

/// How a package-manager phrase changes the dialog.
pub open spec fn package_dialog_effect(cmd: Seq<char>, d0: DialogState, d1: DialogState) -> bool {
    if cmd == "поиск пакетов"@ || cmd == "найти пакеты"@ {
        &&& d1.visible
        &&& d1.dialog_type == DialogType::PackageSearch
        &&& d1.title@ == "Поиск пакетов"@
        &&& d1.message@ == "Введите название пакета для поиска:"@
        &&& d1.input@ == Seq::<char>::empty()
        &&& d1.package == d0.package
    } else if text::has_prefix(cmd, "установить "@) || cmd == "установить"@ {
        let name = phrase_arg_or_empty(cmd, "установить"@, "установить "@);
        if name.len() == 0 {
            d1 == d0
        } else {
            &&& d1.visible
            &&& d1.dialog_type == DialogType::Confirmation
            &&& d1.title@ == "Установка пакета"@
            &&& d1.message@ == "Установить '"@ + name
                + "' через yay?\nПотребуется ввод пароля в системном окне."@
            &&& d1.package@ == name
            &&& d1.input == d0.input
        }
    } else if text::has_prefix(cmd, "удалить "@) || cmd == "удалить"@ {
        let name = phrase_arg_or_empty(cmd, "удалить"@, "удалить "@);
        if name.len() == 0 {
            d1 == d0
        } else {
            &&& d1.visible
            &&& d1.dialog_type == DialogType::Confirmation
            &&& d1.title@ == "Удаление пакета"@
            &&& d1.message@ == "Удалить '"@ + name + "' из системы?"@
            &&& d1.package@ == name
            &&& d1.input == d0.input
        }
    } else if cmd == "обновить систему"@ || cmd == "обновление"@ {
        &&& d1.visible
        &&& d1.dialog_type == DialogType::Confirmation
        &&& d1.title@ == "Обновление системы"@
        &&& d1.message@ == "Выполнить полное обновление yay -Syu?"@
        &&& d1.package == d0.package
        &&& d1.input == d0.input
    } else {
        d1 == d0
    }
}

/// How a package-manager phrase changes the task queue: only the direct
/// search phrase submits work, everything else waits for the dialog.
pub open spec fn package_task_effect(cmd: Seq<char>, t0: TaskManager, t1: TaskManager) -> bool {
    if package_matches(cmd) && !(cmd == "поиск пакетов"@ || cmd == "найти пакеты"@)
        && !text::has_prefix(cmd, "установить "@) && !(cmd == "установить"@)
        && !text::has_prefix(cmd, "удалить "@) && !(cmd == "удалить"@) && !(cmd
        == "обновить систему"@ || cmd == "обновление"@) && text::has_prefix(cmd, "поиск "@) {
        let q = phrase_arg(cmd, "поиск "@);
        &&& t1.results == t0.results
        &&& t1.accepting == t0.accepting
        &&& t0.accepting ==> t1.queue@.len() == t0.queue@.len() + 1 && (t1.queue@.last() matches
        BackgroundTask::SearchPackages(s) && s@ == q) && t1.queue@.take(t0.queue@.len() as int)
            == t0.queue@ && t1.busy
        &&& !t0.accepting ==> t1.queue == t0.queue && !t1.busy
    } else {
        t1 == t0
    }
}

/// Handles a package-manager phrase: exact phrases open dialogs, prefixed
/// install/remove phrases open confirmations carrying the package name, an
/// empty name yields a usage hint instead, and the direct search phrase
/// submits a background search at once.
pub fn process_package_command(cmd: &str, dialog: &mut DialogState, tasks: &mut TaskManager) -> (r:
    Option<String>)
    ensures
        r.deep_view() == package_response(cmd@),
        r is Some <==> package_matches(cmd@),
        package_dialog_effect(cmd@, *old(dialog), *final(dialog)),
        package_task_effect(cmd@, *old(tasks), *final(tasks)),
{
    let v = text::to_chars(cmd);
    if text::str_eq(cmd, "поиск пакетов") || text::str_eq(cmd, "найти пакеты") {
        dialog.visible = true;
        dialog.dialog_type = DialogType::PackageSearch;
        dialog.title = "Поиск пакетов".to_owned();
        dialog.message = "Введите название пакета для поиска:".to_owned();
        dialog.input = String::new();
        Some("Открываю диалог для поиска пакетов...".to_owned())
    } else if text::starts_with_lit(&v, "установить ") || text::str_eq(cmd, "установить") {
        let name_chars = if text::str_eq(cmd, "установить") {
            Vec::<char>::new()
        } else {
            text::trim_chars(&text::strip_prefix_rep(&v, "установить "))
        };
        if name_chars.len() == 0 {
            Some("Укажите имя пакета. Пример: 'установить firefox'".to_owned())
        } else {
            let name = text::chars_to_string(name_chars.as_slice());
            let mut msg = String::new();
            msg.append("Установить '");
            msg.append(name.as_str());
            msg.append("' через yay?\nПотребуется ввод пароля в системном окне.");
            dialog.visible = true;
            dialog.dialog_type = DialogType::Confirmation;
            dialog.title = "Установка пакета".to_owned();
            dialog.message = msg;
            dialog.package = name;
            let mut r = String::new();
            r.append("Подготовка к установке '");
            r.append(dialog.package.as_str());
            r.append("'...");
            Some(r)
        }
    } else if text::starts_with_lit(&v, "удалить ") || text::str_eq(cmd, "удалить") {
        let name_chars = if text::str_eq(cmd, "удалить") {
            Vec::<char>::new()
        } else {
            text::trim_chars(&text::strip_prefix_rep(&v, "удалить "))
        };
        if name_chars.len() == 0 {
            Some("Укажите имя пакета для удаления.".to_owned())
        } else {
            let name = text::chars_to_string(name_chars.as_slice());
            let mut msg = String::new();
            msg.append("Удалить '");
            msg.append(name.as_str());
            msg.append("' из системы?");
            dialog.visible = true;
            dialog.dialog_type = DialogType::Confirmation;
            dialog.title = "Удаление пакета".to_owned();
            dialog.message = msg;
            dialog.package = name;
            let mut r = String::new();
            r.append("Подготовка к удалению '");
            r.append(dialog.package.as_str());
            r.append("'...");
            Some(r)
        }
    } else if text::str_eq(cmd, "обновить систему") || text::str_eq(cmd, "обновление") {
        dialog.visible = true;
        dialog.dialog_type = DialogType::Confirmation;
        dialog.title = "Обновление системы".to_owned();
        dialog.message = "Выполнить полное обновление yay -Syu?".to_owned();
        Some("Подготовка к обновлению...".to_owned())
    } else if text::starts_with_lit(&v, "поиск ") {
        let q_chars = text::trim_chars(&text::strip_prefix_rep(&v, "поиск "));
        let q = text::chars_to_string(q_chars.as_slice());
        let mut r = String::new();
        r.append("Ищу пакеты по запросу '");
        r.append(q.as_str());
        r.append("'...");
        tasks.execute(BackgroundTask::SearchPackages(q));
        proof {
            if old(tasks).accepting {
                assert(tasks.queue@.take(old(tasks).queue@.len() as int) =~= old(tasks).queue@);
            }
        }
        Some(r)
    } else {
        None
    }
}

// ------------------------------------------------------------------
// Group 4: guides
// ------------------------------------------------------------------
/// Does a guide phrase handle this normalized command?
pub open spec fn guide_matches(cmd: Seq<char>) -> bool {
    ||| cmd == "гайды"@
    ||| cmd == "guides"@
    ||| cmd == "обучение"@
    ||| text::has_prefix(cmd, "гайд "@)
    ||| text::has_prefix(cmd, "guide "@)
    ||| text::has_prefix(cmd, "найти гайд "@)
    ||| text::has_prefix(cmd, "поиск гайдов "@)
}

/// The keyword of a guide phrase: both prefix spellings stripped, trimmed.
pub open spec fn guide_arg(cmd: Seq<char>, p1: Seq<char>, p2: Seq<char>) -> Seq<char> {
    text::trim_spec(text::strip_rep(text::strip_rep(cmd, p1), p2))
}

/// The guides that a keyword search returns, in registration order.
pub open spec fn guide_results(reg: Seq<GuideView>, q: Seq<char>) -> Seq<GuideView> {
    reg.filter(|g: GuideView| guides::guide_hit(g, text::fold_seq(q)))
}

/// The catalog response to the list phrase.
pub open spec fn guide_catalog(reg: Seq<GuideView>) -> Seq<char> {
    "📚 Доступные гайды:\n\n"@ + guides::catalog_lines(guides::sort_by_title(reg))
        + "\nИспользуйте: гайд <название>"@
}

/// The guide-group response text, for a registry with unique ids.
pub open spec fn guide_response(cmd: Seq<char>, reg: Seq<GuideView>) -> Option<Seq<char>> {
    if cmd == "гайды"@ || cmd == "guides"@ || cmd == "обучение"@ {
        Some(guide_catalog(reg))
    } else if text::has_prefix(cmd, "гайд "@) || text::has_prefix(cmd, "guide "@) {
        let gid = guide_arg(cmd, "гайд "@, "guide "@);
        match guides::find_by_id(reg, gid) {
            Some(g) => Some(guides::guide_text(g)),
            None => {
                let results = guide_results(reg, gid);
                if results.len() == 0 {
                    Some(
                        "Гайд '"@ + gid + "' не найден.\n\nИспользуйте 'гайды' для списка доступных."@,
                    )
                } else if results.len() == 1 {
                    Some(guides::guide_text(results[0]))
                } else {
                    Some(
                        "Найдено "@ + text::dec_digits(results.len() as nat) + " гайдов по запросу '"@
                            + gid + "':\n\n"@ + guides::catalog_lines(results)
                            + "\nУточните запрос: гайд <название>"@,
                    )
                }
            },
        }
    } else if text::has_prefix(cmd, "найти гайд "@) || text::has_prefix(cmd, "поиск гайдов "@) {
        let q = guide_arg(cmd, "найти гайд "@, "поиск гайдов "@);
        let results = guide_results(reg, q);
        if results.len() == 0 {
            Some("Гайды по запросу '"@ + q + "' не найдены."@)
        } else {
            Some(
                "Найдено "@ + text::dec_digits(results.len() as nat) + " гайдов:\n\n"@
                    + guides::catalog_lines(results) + "\nИспользуйте: гайд <название>"@,
            )
        }
    } else {
        None
    }
}

/// Handles a guide phrase: the exact list phrase renders the catalog; a
/// prefixed guide phrase looks the topic up by id and falls back to keyword
/// search; the search phrases only ever search.
pub fn process_guide_command(cmd: &str, guides_db: &GuideRegistry) -> (r: Option<String>)
    requires
        guides_db.wf(),
    ensures
        r.deep_view() == guide_response(cmd@, guides_db.reg()),
        r is Some <==> guide_matches(cmd@),
{
    let v = text::to_chars(cmd);
    if text::str_eq(cmd, "гайды") || text::str_eq(cmd, "guides") || text::str_eq(cmd, "обучение") {
        Some(guides_db.format_list())
    } else if text::starts_with_lit(&v, "гайд ") || text::starts_with_lit(&v, "guide ") {
        let gid_chars = text::trim_chars(
            &text::strip_prefix_rep(&text::strip_prefix_rep(&v, "гайд "), "guide "),
        );
        let gid = text::chars_to_string(gid_chars.as_slice());
        match guides_db.get(gid.as_str()) {
            Some(g) => {
                proof {
                    let i = choose|i: int|
                        0 <= i < guides_db.reg().len() && (#[trigger] guides_db.reg()[i]).id == gid@
                            && g@ == guides_db.reg()[i];
                    guides::lemma_find_unique(guides_db.reg(), gid@, i);
                }
                Some(g.format())
            },
            None => {
                let results = guides_db.search(gid.as_str());
                if results.len() == 0 {
                    let mut r = String::new();
                    r.append("Гайд '");
                    r.append(gid.as_str());
                    r.append("' не найден.\n\nИспользуйте 'гайды' для списка доступных.");
                    Some(r)
                } else if results.len() == 1 {
                    proof {
                        assert(results.deep_view()[0] == results@[0]@);
                    }
                    Some(results[0].format())
                } else {
                    let mut r = String::new();
                    r.append("Найдено ");
                    r.append(text::u64_to_string(results.len() as u64).as_str());
                    r.append(" гайдов по запросу '");
                    r.append(gid.as_str());
                    r.append("':\n\n");
                    r.append(guides::render_catalog_lines(&results).as_str());
                    r.append("\nУточните запрос: гайд <название>");
                    Some(r)
                }
            },
        }
    } else if text::starts_with_lit(&v, "найти гайд ") || text::starts_with_lit(
        &v,
        "поиск гайдов ",
    ) {
        let q_chars = text::trim_chars(
            &text::strip_prefix_rep(&text::strip_prefix_rep(&v, "найти гайд "), "поиск гайдов "),
        );
        let q = text::chars_to_string(q_chars.as_slice());
        let results = guides_db.search(q.as_str());
        if results.len() == 0 {
            let mut r = String::new();
            r.append("Гайды по запросу '");
            r.append(q.as_str());
            r.append("' не найдены.");
            Some(r)
        } else {
            let mut r = String::new();
            r.append("Найдено ");
            r.append(text::u64_to_string(results.len() as u64).as_str());
            r.append(" гайдов:\n\n");
            r.append(guides::render_catalog_lines(&results).as_str());
            r.append("\nИспользуйте: гайд <название>");
            Some(r)
        }
    } else {
        None
    }
}

// ------------------------------------------------------------------
// The composed router
// ------------------------------------------------------------------
/// Does any handler group match?
pub open spec fn any_matches(cmd: Seq<char>) -> bool {
    basic_matches(cmd) || system_matches(cmd) || package_matches(cmd) || guide_matches(cmd)
}

/// The router's response: the groups are tried in fixed priority order and
/// the first matching group answers.
pub open spec fn route_response_at(
    cmd: Seq<char>,
    name: Seq<char>,
    time: Seq<char>,
    date: Seq<char>,
    datetime: Seq<char>,
    reg: Seq<GuideView>,
) -> Option<Seq<char>> {
    if basic_matches(cmd) {
        basic_response_at(cmd, name, time, date, datetime)
    } else if system_matches(cmd) {
        system_response(cmd)
    } else if package_matches(cmd) {
        package_response(cmd)
    } else {
        guide_response(cmd, reg)
    }
}

/// The router's response for some well-formed clock reading.
pub open spec fn route_responds(
    cmd: Seq<char>,
    name: Seq<char>,
    reg: Seq<GuideView>,
    r: Option<Seq<char>>,
) -> bool {
    exists|time: Seq<char>, date: Seq<char>, datetime: Seq<char>|
        time.len() == 8 && date.len() >= 10 && datetime.len() >= 19 && r == route_response_at(
            cmd,
            name,
            time,
            date,
            datetime,
            reg,
        )
}

/// The router's side effects: only the matching group touches the dialog or
/// the task queue, and the basic and guide groups touch neither.
pub open spec fn route_effect(
    cmd: Seq<char>,
    d0: DialogState,
    d1: DialogState,
    t0: TaskManager,
    t1: TaskManager,
) -> bool {
    if basic_matches(cmd) {
        d1 == d0 && t1 == t0
    } else if system_matches(cmd) {
        system_dialog_effect(cmd, d0, d1) && t1 == t0
    } else if package_matches(cmd) {
        package_dialog_effect(cmd, d0, d1) && package_task_effect(cmd, t0, t1)
    } else {
        d1 == d0 && t1 == t0
    }
}

/// Law: group order is stable — whenever a basic phrase matches, the router
/// answers with the basic-phrase response, whatever any later group would
/// have said.
pub proof fn lemma_router_priority(
    cmd: Seq<char>,
    name: Seq<char>,
    time: Seq<char>,
    date: Seq<char>,
    datetime: Seq<char>,
    reg: Seq<GuideView>,
)
    requires
        basic_matches(cmd),
    ensures
        route_response_at(cmd, name, time, date, datetime, reg) == basic_response_at(
            cmd,
            name,
            time,
            date,
            datetime,
        ),
{
}

/// Law: the package group outranks the guides — a phrase that both would
/// accept is answered by the package group.
pub proof fn lemma_package_over_guides(
    cmd: Seq<char>,
    name: Seq<char>,
    time: Seq<char>,
    date: Seq<char>,
    datetime: Seq<char>,
    reg: Seq<GuideView>,
)
    requires
        !basic_matches(cmd),
        !system_matches(cmd),
        package_matches(cmd),
    ensures
        route_response_at(cmd, name, time, date, datetime, reg) == package_response(cmd),
{
}

/// Routes a raw input line against a fixed clock reading: the input is
/// trimmed and folded to lower case, then the groups are tried in order.
/// `None` means no handler matched and the input is for the language model.
pub fn process_command_at(
    input: &str,
    assistant_name: &str,
    stamp: &ClockStamp,
    dialog: &mut DialogState,
    tasks: &mut TaskManager,
    guides_db: &GuideRegistry,
) -> (r: Option<String>)
    requires
        guides_db.wf(),
    ensures
        r.deep_view() == route_response_at(
            text::normalize_spec(input@),
            assistant_name@,
            stamp.time@,
            stamp.date@,
            stamp.datetime@,
            guides_db.reg(),
        ),
        r is Some <==> any_matches(text::normalize_spec(input@)),
        route_effect(
            text::normalize_spec(input@),
            *old(dialog),
            *final(dialog),
            *old(tasks),
            *final(tasks),
        ),
{
    let cmd_chars = text::normalize(input);
    let cmd = text::chars_to_string(cmd_chars.as_slice());
    let basic = process_basic_command_at(cmd.as_str(), assistant_name, stamp);
    match basic {
        Some(x) => {
            return Some(x);
        },
        None => (),
    }
    let system = process_system_command(cmd.as_str(), dialog);
    match system {
        Some(x) => {
            return Some(x);
        },
        None => (),
    }
    let package = process_package_command(cmd.as_str(), dialog, tasks);
    match package {
        Some(x) => {
            return Some(x);
        },
        None => (),
    }
    process_guide_command(cmd.as_str(), guides_db)
}

/// Routes a raw input line, reading the clock once for the time and date
/// phrases.
pub fn process_command(
    input: &str,
    assistant_name: &str,
    dialog: &mut DialogState,
    tasks: &mut TaskManager,
    guides_db: &GuideRegistry,
) -> (r: Option<String>)
    requires
        guides_db.wf(),
    ensures
        route_responds(
            text::normalize_spec(input@),
            assistant_name@,
            guides_db.reg(),
            r.deep_view(),
        ),
        r is Some <==> any_matches(text::normalize_spec(input@)),
        route_effect(
            text::normalize_spec(input@),
            *old(dialog),
            *final(dialog),
            *old(tasks),
            *final(tasks),
        ),
{
    let stamp = clock::now_stamp();
    let r = process_command_at(input, assistant_name, &stamp, dialog, tasks, guides_db);
    proof {
        assert(stamp.time@.len() == 8 && stamp.date@.len() >= 10 && stamp.datetime@.len() >= 19
            && r.deep_view() == route_response_at(
            text::normalize_spec(input@),
            assistant_name@,
            stamp.time@,
            stamp.date@,
            stamp.datetime@,
            guides_db.reg(),
        ));
    }
    r
}

} // verus!
