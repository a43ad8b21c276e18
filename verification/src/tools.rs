//! The info-tool registry: named zero-argument tools whose outputs are
//! substituted for `[TOOL:name]` markers in model responses.
//!
//! Tool outputs are drawn from a [`SystemReport`] snapshot that the caller
//! refreshes, so a registry with a given report answers deterministically.
use vstd::prelude::*;

verus! {

/// What a tool computes.
#[derive(Debug, Clone, Copy, PartialEq, Eq, Structural)]
pub enum ToolKind {
    TimeNow,
    DateNow,
    DateTimeNow,
    GuideList,
    MemoryInfo,
    DiskInfo,
    CpuInfo,
    SystemInfo,
}

/// One registered tool.
#[derive(Debug)]
pub struct Tool {
    pub name: String,
    pub description: String,
    pub kind: ToolKind,
}

/// Mathematical value of a [`Tool`].
pub ghost struct ToolView {
    pub name: Seq<char>,
    pub description: Seq<char>,
    pub kind: ToolKind,
}

impl View for Tool {
    type V = ToolView;

    open spec fn view(&self) -> ToolView {
        ToolView { name: self.name@, description: self.description@, kind: self.kind }
    }
}

impl DeepView for Tool {
    type V = ToolView;

    open spec fn deep_view(&self) -> ToolView {
        self.view()
    }
}

/// A snapshot of the system readings the tools report: clock renderings and
/// the memory, disk and processor summaries.
#[derive(Debug, Clone)]
pub struct SystemReport {
    pub time: String,
    pub date: String,
    pub datetime: String,
    pub memory: String,
    pub disk: String,
    pub cpu: String,
}

impl SystemReport {
    /// A report with every reading blank.
    pub fn new() -> (r: SystemReport)
        ensures
            r.time@ == Seq::<char>::empty(),
            r.date@ == Seq::<char>::empty(),
            r.datetime@ == Seq::<char>::empty(),
            r.memory@ == Seq::<char>::empty(),
            r.disk@ == Seq::<char>::empty(),
            r.cpu@ == Seq::<char>::empty(),
    {
        SystemReport {
            time: String::new(),
            date: String::new(),
            datetime: String::new(),
            memory: String::new(),
            disk: String::new(),
            cpu: String::new(),
        }
    }
}

/// What a tool of the given kind answers, for a given report.
pub open spec fn tool_output(kind: ToolKind, rep: SystemReport) -> Seq<char> {
    match kind {
        ToolKind::TimeNow => rep.time@,
        ToolKind::DateNow => rep.date@,
        ToolKind::DateTimeNow => rep.datetime@,
        ToolKind::GuideList => "pacman, aur, wifi, systemd, gpu, audio, locale, backup"@,
        ToolKind::MemoryInfo => rep.memory@,
        ToolKind::DiskInfo => rep.disk@,
        ToolKind::CpuInfo => rep.cpu@,
        ToolKind::SystemInfo => "Память: "@ + rep.memory@ + "\nCPU: "@ + rep.cpu@ + "\nДиск: "@
            + rep.disk@,
    }
}

/// The first tool of the run carrying the given name.
pub open spec fn find_tool(s: Seq<ToolView>, name: Seq<char>) -> Option<ToolView>
    decreases s.len(),
{
    if s.len() == 0 {
        None
    } else if s[0].name == name {
        Some(s[0])
    } else {
        find_tool(s.drop_first(), name)
    }
}

/// If the first `i` tools of the run miss the name, the search outcome is the
/// outcome over the rest.
pub proof fn lemma_find_tool_skip(s: Seq<ToolView>, name: Seq<char>, i: int)
    requires
        0 <= i <= s.len(),
        forall|k: int| 0 <= k < i ==> (#[trigger] s[k]).name != name,
    ensures
        find_tool(s, name) == find_tool(s.skip(i), name),
    decreases i,
{
    if i == 0 {
        assert(s.skip(0) =~= s);
    } else {
        assert(s[0].name != name);
        lemma_find_tool_skip(s.drop_first(), name, i - 1);
        assert(s.drop_first().skip(i - 1) =~= s.skip(i));
    }
}

/// The exact run of built-in tools, in registration order.
pub open spec fn default_tools() -> Seq<ToolView> {
    seq![
        ToolView { name: "время"@, description: "получить текущее время"@, kind: ToolKind::TimeNow },
        ToolView { name: "дата"@, description: "получить текущую дату"@, kind: ToolKind::DateNow },
        ToolView { name: "дата_и_время"@, description: "получить дату и время"@, kind: ToolKind::DateTimeNow },
        ToolView { name: "список_гайдов"@, description: "показать доступные обучающие гайды"@, kind: ToolKind::GuideList },
        ToolView { name: "память"@, description: "показать использование RAM"@, kind: ToolKind::MemoryInfo },
        ToolView { name: "диск"@, description: "показать использование дисков"@, kind: ToolKind::DiskInfo },
        ToolView { name: "cpu"@, description: "показать информацию о процессоре"@, kind: ToolKind::CpuInfo },
        ToolView { name: "система"@, description: "показать общую информацию о системе"@, kind: ToolKind::SystemInfo },
    ]
}

/// Container of all tools, with the report their outputs are drawn from.
#[derive(Debug)]
pub struct ToolRegistry {
    pub tools: Vec<Tool>,
    pub report: SystemReport,
}

impl ToolRegistry {
    /// The tools, in registration order.
    pub open spec fn reg(&self) -> Seq<ToolView> {
        self.tools.deep_view()
    }

    /// A registry holding the built-in tools, with a blank report.
    pub fn new() -> (r: ToolRegistry)
        ensures
            r.reg() == default_tools(),
            r.report.time@ == Seq::<char>::empty(),
            r.report.date@ == Seq::<char>::empty(),
            r.report.datetime@ == Seq::<char>::empty(),
            r.report.memory@ == Seq::<char>::empty(),
            r.report.disk@ == Seq::<char>::empty(),
            r.report.cpu@ == Seq::<char>::empty(),
            find_tool(r.reg(), "время"@) matches Some(t) && t.kind == ToolKind::TimeNow,
            find_tool(r.reg(), "дата"@) matches Some(t) && t.kind == ToolKind::DateNow,
            find_tool(r.reg(), "дата_и_время"@) matches Some(t) && t.kind == ToolKind::DateTimeNow,
            find_tool(r.reg(), "список_гайдов"@) matches Some(t) && t.kind == ToolKind::GuideList,
            find_tool(r.reg(), "память"@) matches Some(t) && t.kind == ToolKind::MemoryInfo,
            find_tool(r.reg(), "диск"@) matches Some(t) && t.kind == ToolKind::DiskInfo,
            find_tool(r.reg(), "cpu"@) matches Some(t) && t.kind == ToolKind::CpuInfo,
            find_tool(r.reg(), "система"@) matches Some(t) && t.kind == ToolKind::SystemInfo,
    {
        let mut r = ToolRegistry { tools: Vec::new(), report: SystemReport::new() };
        r.register("время", "получить текущее время", ToolKind::TimeNow);
        r.register("дата", "получить текущую дату", ToolKind::DateNow);
        r.register("дата_и_время", "получить дату и время", ToolKind::DateTimeNow);
        r.register("список_гайдов", "показать доступные обучающие гайды", ToolKind::GuideList);
        r.register("память", "показать использование RAM", ToolKind::MemoryInfo);
        r.register("диск", "показать использование дисков", ToolKind::DiskInfo);
        r.register("cpu", "показать информацию о процессоре", ToolKind::CpuInfo);
        r.register("система", "показать общую информацию о системе", ToolKind::SystemInfo);
        proof {
            broadcast use vstd::string::group_string_axioms;

            reveal_with_fuel(find_tool, 10);
            reveal_strlit("время");
            reveal_strlit("дата");
            reveal_strlit("дата_и_время");
            reveal_strlit("список_гайдов");
            reveal_strlit("память");
            reveal_strlit("диск");
            reveal_strlit("cpu");
            reveal_strlit("система");
            assert(r.reg() =~= default_tools());
            assert(r.reg().len() == 8);
            assert(r.reg()[0].name == "время"@);
            assert(r.reg()[1].name == "дата"@);
            assert(r.reg()[2].name == "дата_и_время"@);
            assert(r.reg()[3].name == "список_гайдов"@);
            assert(r.reg()[4].name == "память"@);
            assert(r.reg()[5].name == "диск"@);
            assert(r.reg()[6].name == "cpu"@);
            assert(r.reg()[7].name == "система"@);
            let names = seq![
                "время"@,
                "дата"@,
                "дата_и_время"@,
                "список_гайдов"@,
                "память"@,
                "диск"@,
                "cpu"@,
                "система"@,
            ];
            assert forall|a: int, b: int| 0 <= a < b < 8 implies names[a] != names[b] by {
                if names[a].len() == names[b].len() {
                    assert(names[a][0] != names[b][0] || names[a][1] != names[b][1]);
                }
            }
            assert forall|k: int| 0 <= k < 8 implies find_tool(r.reg(), names[k]) == Some(
                r.reg()[k],
            ) by {
                assert(forall|j: int| 0 <= j < k ==> (#[trigger] r.reg()[j]).name != names[k]);
                lemma_find_tool_skip(r.reg(), names[k], k);
                assert(r.reg().skip(k)[0] == r.reg()[k]);
                assert(r.reg().skip(k).len() == 8 - k);
                assert(find_tool(r.reg().skip(k), names[k]) == Some(r.reg()[k]));
            }
        }
        r
    }

    /// Registers a tool at the end of the run; an earlier tool with the same
    /// name keeps priority in lookups.
    pub fn register(&mut self, name: &str, description: &str, kind: ToolKind)
        ensures
            final(self).reg() == old(self).reg().push(
                ToolView { name: name@, description: description@, kind },
            ),
            final(self).report == old(self).report,
    {
        let ghost before = self.tools.deep_view();
        let tool = Tool { name: name.to_owned(), description: description.to_owned(), kind };
        let ghost tv = tool@;
        self.tools.push(tool);
        proof {
            assert forall|k: int| 0 <= k < self.tools.deep_view().len() implies self.tools.deep_view()[k]
                == before.push(tv)[k] by {
                if k < before.len() {
                    assert(self.tools.deep_view()[k] == before[k]);
                }
            }
            assert(self.tools.deep_view() =~= before.push(tv));
        }
    }

    /// Replaces the report the tools answer from.
    pub fn set_report(&mut self, report: SystemReport)
        ensures
            final(self).reg() == old(self).reg(),
            final(self).report == report,
    {
        self.report = report;
    }

    /// Runs the named tool against the current report.
    pub fn execute(&self, name: &str) -> (r: Option<String>)
        ensures
            match find_tool(self.reg(), name@) {
                Some(t) => r matches Some(s) && s@ == tool_output(t.kind, self.report),
                None => r is None,
            },
    {
        let n = self.tools.len();
        let mut i: usize = 0;
        while i < n
            invariant
                n == self.tools@.len(),
                i <= n,
                forall|k: int| 0 <= k < i ==> (#[trigger] self.reg()[k]).name != name@,
            decreases n - i,
        {
            if crate::text::str_eq(self.tools[i].name.as_str(), name) {
                proof {
                    lemma_find_tool_skip(self.reg(), name@, i as int);
                    assert(self.reg().skip(i as int)[0] == self.reg()[i as int]);
                    assert(self.reg().skip(i as int).len() > 0);
                }
                let out = self.render(self.tools[i].kind);
                return Some(out);
            }
            i = i + 1;
        }
        proof {
            lemma_find_tool_skip(self.reg(), name@, n as int);
            assert(self.reg().skip(n as int) =~= Seq::<ToolView>::empty());
        }
        None
    }

    /// Renders the output of one tool kind from the current report.
    fn render(&self, kind: ToolKind) -> (r: String)
        ensures
            r@ == tool_output(kind, self.report),
    {
        match kind {
            ToolKind::TimeNow => self.report.time.clone(),
            ToolKind::DateNow => self.report.date.clone(),
            ToolKind::DateTimeNow => self.report.datetime.clone(),
            ToolKind::GuideList => "pacman, aur, wifi, systemd, gpu, audio, locale, backup".to_owned(),
            ToolKind::MemoryInfo => self.report.memory.clone(),
            ToolKind::DiskInfo => self.report.disk.clone(),
            ToolKind::CpuInfo => self.report.cpu.clone(),
            ToolKind::SystemInfo => {
                let mut s = String::new();
                s.append("Память: ");
                s.append(self.report.memory.as_str());
                s.append("\nCPU: ");
                s.append(self.report.cpu.as_str());
                s.append("\nДиск: ");
                s.append(self.report.disk.as_str());
                s
            },
        }
    }

    /// One catalog line per tool, for the system prompt.
    fn tool_lines(&self) -> (r: String)
        ensures
            r@ == prompt_tool_lines(self.reg()),
    {
        let mut out = String::new();
        let mut i: usize = 0;
        while i < self.tools.len()
            invariant
                i <= self.tools@.len(),
                out@ == prompt_tool_lines(self.reg().take(i as int)),
            decreases self.tools@.len() - i,
        {
            let t = &self.tools[i];
            out.append("- [TOOL:");
            out.append(t.name.as_str());
            out.append("] - ");
            out.append(t.description.as_str());
            out.append("\n");
            i = i + 1;
            proof {
                reveal_with_fuel(prompt_tool_lines, 3);
                lemma_prompt_tool_lines_concat(self.reg().take(i - 1), seq![self.reg()[i - 1]]);
                assert(self.reg().take(i as int) =~= self.reg().take(i - 1) + seq![
                    self.reg()[i - 1],
                ]);
                assert(seq![self.reg()[i - 1]].drop_first() =~= Seq::<ToolView>::empty());
                assert(out@ =~= prompt_tool_lines(self.reg().take(i as int)));
            }
        }
        proof {
            assert(self.reg().take(self.reg().len() as int) =~= self.reg());
        }
        out
    }

    /// The system prompt handed to the model: the tool catalog between the
    /// fixed instructions.
    pub fn generate_system_prompt(&self) -> (r: String)
        ensures
            r@ == system_prompt_text(self.reg()),
    {
        let mut out = String::new();
        out.append(
            "Ты помощник Альфонс для Arch Linux. Отвечай кратко и по делу на русском языке.\n\nДОСТУПНЫЕ ИНСТРУМЕНТЫ:\n",
        );
        out.append(self.tool_lines().as_str());
        out.append(
            "\nФормат использования: [TOOL:название]\n\nДОСТУПНЫЕ КОМАНДЫ (ты можешь выполнять их за пользователя):\nФормат: [CMD:команда]\n\n▸ Базовые:\n  [CMD:очистить] - очистить чат\n  [CMD:помощь] - показать справку\n\n▸ Пакеты (yay/pacman):\n  [CMD:поиск <запрос>] - найти пакеты\n  [CMD:установить <пакет>] - запросить установку (откроется диалог подтверждения!)\n  [CMD:удалить <пакет>] - запросить удаление (откроется диалог подтверждения!)\n  [CMD:обновить систему] - запросить обновление (откроется диалог подтверждения!)\n\n▸ Система:\n  [CMD:выключить пк] - выключить компьютер\n  [CMD:перезагрузить] - перезагрузить компьютер\n\n▸ Гайды:\n  [CMD:гайды] - показать список всех гайдов\n  [CMD:гайд <тема>] - показать конкретный гайд\n  Доступные темы: pacman, aur, wifi, systemd, gpu, audio, locale, backup\n\nВАЖНЫЕ ПРАВИЛА:\n1. Используй [TOOL:...] для получения информации (время, дата)\n2. Используй [CMD:...] для выполнения команд за пользователя\n3. КОМАНДЫ установки/удаления/обновления ТОЛЬКО открывают диалог! НЕ говори \"установлено\" или \"обновлено\" сразу!\n4. После команды установки скажи \"откроется диалог подтверждения\" или просто используй команду\n5. Если спрашивают \"как установить\" - объясни или предложи [CMD:гайд pacman]\n6. ОПАСНЫЕ КОМАНДЫ (выключить пк, перезагрузить) выполняй ТОЛЬКО если пользователь ЯВНО попросил это сделать!\n7. На вопросы \"что ты умеешь?\" или \"какие команды есть?\" - ОТВЕЧАЙ ТЕКСТОМ, НЕ выполняй команды!\n\nПРИМЕРЫ:\n- \"Который час?\" -> \"Сейчас [TOOL:время]\"\n- \"Установи firefox\" -> \"[CMD:установить firefox]\" (НЕ говори \"установлен\"!)\n- \"Найди пакет vim\" -> \"[CMD:поиск vim]\"\n- \"Как настроить wifi?\" -> \"[CMD:гайд wifi]\"\n- \"Покажи гайды\" -> \"[CMD:гайды]\"\n- \"Обнови систему\" -> \"[CMD:обновить систему]\" (откроется диалог)\n- \"Что ты умеешь?\" -> Перечисли возможности ТЕКСТОМ, НЕ выполняй команды!\n- \"Выключи компьютер\" -> \"[CMD:выключить пк]\" (только по явному запросу!)\n\nОтвечай кратко. НЕ пиши текст после команд установки/удаления/обновления.",
        );
        out
    }
}

/// The text shown when a probe's output cannot be read.
pub open spec fn probe_failed_text() -> Seq<char> {
    "Не удалось получить"@
}

/// The memory reading from the output of `free -h --si`: used and total from
/// the second line, or the failure text.
pub open spec fn memory_summary_spec(out: Seq<char>) -> Seq<char> {
    let ls = crate::text::split_char_spec(out, '\n');
    if ls.len() >= 2 {
        let tk = crate::text::ws_tokens(ls[1]);
        if tk.len() >= 3 {
            tk[2] + " / "@ + tk[1] + " (использовано)"@
        } else {
            probe_failed_text()
        }
    } else {
        probe_failed_text()
    }
}

/// Executable mirror of [`memory_summary_spec`].
pub fn memory_summary(out: &str) -> (r: String)
    ensures
        r@ == memory_summary_spec(out@),
{
    let lines = crate::text::split_char(&crate::text::to_chars(out), '\n');
    if lines.len() >= 2 {
        proof {
            assert(lines.deep_view()[1] == lines@[1]@);
        }
        let toks = crate::text::words(&crate::text::to_chars(lines[1].as_str()));
        if toks.len() >= 3 {
            proof {
                assert(toks.deep_view()[1] == toks@[1]@);
                assert(toks.deep_view()[2] == toks@[2]@);
            }
            let mut s = String::new();
            s.append(toks[2].as_str());
            s.append(" / ");
            s.append(toks[1].as_str());
            s.append(" (использовано)");
            return s;
        }
    }
    "Не удалось получить".to_owned()
}

/// The disk reading from the output of `df -h /`: used, total and
/// percentage from the second line, or the failure text.
pub open spec fn disk_summary_spec(out: Seq<char>) -> Seq<char> {
    let ls = crate::text::split_char_spec(out, '\n');
    if ls.len() >= 2 {
        let tk = crate::text::ws_tokens(ls[1]);
        if tk.len() >= 5 {
            tk[2] + " / "@ + tk[1] + " ("@ + tk[4] + ")"@
        } else {
            probe_failed_text()
        }
    } else {
        probe_failed_text()
    }
}

/// Executable mirror of [`disk_summary_spec`].
pub fn disk_summary(out: &str) -> (r: String)
    ensures
        r@ == disk_summary_spec(out@),
{
    let lines = crate::text::split_char(&crate::text::to_chars(out), '\n');
    if lines.len() >= 2 {
        proof {
            assert(lines.deep_view()[1] == lines@[1]@);
        }
        let toks = crate::text::words(&crate::text::to_chars(lines[1].as_str()));
        if toks.len() >= 5 {
            proof {
                assert(toks.deep_view()[1] == toks@[1]@);
                assert(toks.deep_view()[2] == toks@[2]@);
                assert(toks.deep_view()[4] == toks@[4]@);
            }
            let mut s = String::new();
            s.append(toks[2].as_str());
            s.append(" / ");
            s.append(toks[1].as_str());
            s.append(" (");
            s.append(toks[4].as_str());
            s.append(")");
            return s;
        }
    }
    "Не удалось получить".to_owned()
}

/// The first line carrying the processor's model-name field.
pub open spec fn find_model_line(ls: Seq<Seq<char>>) -> Option<Seq<char>>
    decreases ls.len(),
{
    if ls.len() == 0 {
        None
    } else if crate::text::has_prefix(ls[0], "model name"@) {
        Some(ls[0])
    } else {
        find_model_line(ls.drop_first())
    }
}

proof fn lemma_find_model_line_skip(ls: Seq<Seq<char>>, i: int)
    requires
        0 <= i <= ls.len(),
        forall|k: int| 0 <= k < i ==> !crate::text::has_prefix(#[trigger] ls[k], "model name"@),
    ensures
        find_model_line(ls) == find_model_line(ls.skip(i)),
    decreases i,
{
    if i == 0 {
        assert(ls.skip(0) =~= ls);
    } else {
        assert(!crate::text::has_prefix(ls[0], "model name"@));
        lemma_find_model_line_skip(ls.drop_first(), i - 1);
        assert(ls.drop_first().skip(i - 1) =~= ls.skip(i));
    }
}

/// The processor reading: the model name from the kernel's processor table,
/// and the first load average.
pub open spec fn cpu_summary_spec(info: Seq<char>, load: Seq<char>) -> Seq<char> {
    let name = match find_model_line(crate::text::split_char_spec(info, '\n')) {
        Some(l) => {
            let fs = crate::text::split_char_spec(l, ':');
            if fs.len() >= 2 {
                crate::text::trim_spec(fs[1])
            } else {
                "Неизвестно"@
            }
        },
        None => "Неизвестно"@,
    };
    let lt = crate::text::ws_tokens(load);
    let first = if lt.len() >= 1 {
        lt[0]
    } else {
        "?"@
    };
    name + " (загрузка: "@ + first + ")"@
}

/// The index of the first line carrying the model-name field.
fn find_model_idx(lines: &Vec<String>) -> (r: Option<usize>)
    ensures
        match r {
            Some(i) => i < lines.deep_view().len() && find_model_line(lines.deep_view()) == Some(
                lines.deep_view()[i as int],
            ),
            None => find_model_line(lines.deep_view()) is None,
        },
{
    let ghost lv = lines.deep_view();
    let n = lines.len();
    let mut i: usize = 0;
    while i < n
        invariant
            lv == lines.deep_view(),
            n == lines@.len(),
            n == lv.len(),
            i <= n,
            forall|k: int| 0 <= k < i ==> !crate::text::has_prefix(#[trigger] lv[k], "model name"@),
        decreases n - i,
    {
        let line_chars = crate::text::to_chars(lines[i].as_str());
        proof {
            assert(lv[i as int] == lines@[i as int]@);
        }
        if crate::text::starts_with_lit(&line_chars, "model name") {
            proof {
                lemma_find_model_line_skip(lv, i as int);
                assert(lv.skip(i as int)[0] == lv[i as int]);
                assert(lv.skip(i as int).len() > 0);
            }
            return Some(i);
        }
        i = i + 1;
    }
    proof {
        lemma_find_model_line_skip(lv, lv.len() as int);
        assert(lv.skip(lv.len() as int) =~= Seq::<Seq<char>>::empty());
    }
    None
}

/// Executable mirror of [`cpu_summary_spec`].
pub fn cpu_summary(info: &str, load: &str) -> (r: String)
    ensures
        r@ == cpu_summary_spec(info@, load@),
{
    let lines = crate::text::split_char(&crate::text::to_chars(info), '\n');
    let name: String = match find_model_idx(&lines) {
        Some(i) => {
            proof {
                assert(lines.deep_view()[i as int] == lines@[i as int]@);
            }
            let fields = crate::text::split_char(&crate::text::to_chars(lines[i].as_str()), ':');
            if fields.len() >= 2 {
                proof {
                    assert(fields.deep_view()[1] == fields@[1]@);
                }
                let trimmed = crate::text::trim_chars(&crate::text::to_chars(fields[1].as_str()));
                crate::text::chars_to_string(trimmed.as_slice())
            } else {
                "Неизвестно".to_owned()
            }
        },
        None => "Неизвестно".to_owned(),
    };
    let load_toks = crate::text::words(&crate::text::to_chars(load));
    let mut s = name;
    s.append(" (загрузка: ");
    if load_toks.len() >= 1 {
        proof {
            assert(load_toks.deep_view()[0] == load_toks@[0]@);
        }
        s.append(load_toks[0].as_str());
    } else {
        s.append("?");
    }
    s.append(")");
    s
}

/// The tool-catalog lines of the system prompt.
pub open spec fn prompt_tool_lines(s: Seq<ToolView>) -> Seq<char>
    decreases s.len(),
{
    if s.len() == 0 {
        Seq::<char>::empty()
    } else {
        "- [TOOL:"@ + s[0].name + "] - "@ + s[0].description + "\n"@ + prompt_tool_lines(
            s.drop_first(),
        )
    }
}

proof fn lemma_prompt_tool_lines_concat(a: Seq<ToolView>, b: Seq<ToolView>)
    ensures
        prompt_tool_lines(a + b) == prompt_tool_lines(a) + prompt_tool_lines(b),
    decreases a.len(),
{
    if a.len() == 0 {
        assert(a + b =~= b);
        assert(prompt_tool_lines(a) + prompt_tool_lines(b) =~= prompt_tool_lines(b));
    } else {
        assert((a + b).drop_first() =~= a.drop_first() + b);
        lemma_prompt_tool_lines_concat(a.drop_first(), b);
        assert(prompt_tool_lines(a + b) =~= prompt_tool_lines(a) + prompt_tool_lines(b));
    }
}

/// The full system prompt for a given tool run.
pub open spec fn system_prompt_text(s: Seq<ToolView>) -> Seq<char> {
    "Ты помощник Альфонс для Arch Linux. Отвечай кратко и по делу на русском языке.\n\nДОСТУПНЫЕ ИНСТРУМЕНТЫ:\n"@
        + prompt_tool_lines(s)
        + "\nФормат использования: [TOOL:название]\n\nДОСТУПНЫЕ КОМАНДЫ (ты можешь выполнять их за пользователя):\nФормат: [CMD:команда]\n\n▸ Базовые:\n  [CMD:очистить] - очистить чат\n  [CMD:помощь] - показать справку\n\n▸ Пакеты (yay/pacman):\n  [CMD:поиск <запрос>] - найти пакеты\n  [CMD:установить <пакет>] - запросить установку (откроется диалог подтверждения!)\n  [CMD:удалить <пакет>] - запросить удаление (откроется диалог подтверждения!)\n  [CMD:обновить систему] - запросить обновление (откроется диалог подтверждения!)\n\n▸ Система:\n  [CMD:выключить пк] - выключить компьютер\n  [CMD:перезагрузить] - перезагрузить компьютер\n\n▸ Гайды:\n  [CMD:гайды] - показать список всех гайдов\n  [CMD:гайд <тема>] - показать конкретный гайд\n  Доступные темы: pacman, aur, wifi, systemd, gpu, audio, locale, backup\n\nВАЖНЫЕ ПРАВИЛА:\n1. Используй [TOOL:...] для получения информации (время, дата)\n2. Используй [CMD:...] для выполнения команд за пользователя\n3. КОМАНДЫ установки/удаления/обновления ТОЛЬКО открывают диалог! НЕ говори \"установлено\" или \"обновлено\" сразу!\n4. После команды установки скажи \"откроется диалог подтверждения\" или просто используй команду\n5. Если спрашивают \"как установить\" - объясни или предложи [CMD:гайд pacman]\n6. ОПАСНЫЕ КОМАНДЫ (выключить пк, перезагрузить) выполняй ТОЛЬКО если пользователь ЯВНО попросил это сделать!\n7. На вопросы \"что ты умеешь?\" или \"какие команды есть?\" - ОТВЕЧАЙ ТЕКСТОМ, НЕ выполняй команды!\n\nПРИМЕРЫ:\n- \"Который час?\" -> \"Сейчас [TOOL:время]\"\n- \"Установи firefox\" -> \"[CMD:установить firefox]\" (НЕ говори \"установлен\"!)\n- \"Найди пакет vim\" -> \"[CMD:поиск vim]\"\n- \"Как настроить wifi?\" -> \"[CMD:гайд wifi]\"\n- \"Покажи гайды\" -> \"[CMD:гайды]\"\n- \"Обнови систему\" -> \"[CMD:обновить систему]\" (откроется диалог)\n- \"Что ты умеешь?\" -> Перечисли возможности ТЕКСТОМ, НЕ выполняй команды!\n- \"Выключи компьютер\" -> \"[CMD:выключить пк]\" (только по явному запросу!)\n\nОтвечай кратко. НЕ пиши текст после команд установки/удаления/обновления."@
}

} // verus!
