//! The orchestrator: owns the chat history, dialog state, recall buffer,
//! tool and guide registries and the task queue, wires user input through
//! the command router, and reconciles asynchronous completions — model
//! replies with their command markers, and background-task results — back
//! into the chat.
use vstd::prelude::*;
use crate::chat::{self, ChatHistory, MessageView};
use crate::dialog::DialogState;
use crate::guides::GuideRegistry;
use crate::markers;
use crate::recall::{self, InputHistory};
use crate::router;
use crate::tasks::TaskManager;
use crate::text;
use crate::tools::ToolRegistry;

verus! {

/// The greeting the chat opens with.
pub open spec fn welcome_text() -> Seq<char> {
    "Система готова. Введите команду или задайте вопрос ИИ."@
}

/// The notice left after the chat is cleared.
pub open spec fn cleared_text() -> Seq<char> {
    "История чата очищена. Чем могу помочь?"@
}

/// The marker a command payload came wrapped in.
pub open spec fn cmd_marker(p: Seq<char>) -> Seq<char> {
    "[CMD:"@ + p + "]"@
}

/// The visible annotation left for a command the router did not recognize.
pub open spec fn cmd_annotation(p: Seq<char>) -> Seq<char> {
    "[!] команда '"@ + p + "' не распознана"@
}

/// What a command marker is replaced by: a recognized command is stripped —
/// its effect travels through the dialog and the task queue, not the text —
/// and an unrecognized one is annotated so the user sees it.
pub open spec fn cmd_replacement(p: Seq<char>) -> Seq<char> {
    if router::any_matches(text::normalize_spec(p)) {
        Seq::<char>::empty()
    } else {
        cmd_annotation(p)
    }
}

/// The response text after every command marker is replaced, left to right.
pub open spec fn apply_cmd_replacements(t: Seq<char>, ps: Seq<Seq<char>>) -> Seq<char>
    decreases ps.len(),
{
    if ps.len() == 0 {
        t
    } else {
        apply_cmd_replacements(
            markers::replace_all_spec(t, cmd_marker(ps[0]), cmd_replacement(ps[0])),
            ps.drop_first(),
        )
    }
}

proof fn lemma_apply_cmd_snoc(t: Seq<char>, ps: Seq<Seq<char>>, x: Seq<char>)
    ensures
        apply_cmd_replacements(t, ps.push(x)) == markers::replace_all_spec(
            apply_cmd_replacements(t, ps),
            cmd_marker(x),
            cmd_replacement(x),
        ),
    decreases ps.len(),
{
    if ps.len() == 0 {
        assert(ps.push(x)[0] == x);
        assert(ps.push(x).drop_first() =~= Seq::<Seq<char>>::empty());
        assert(apply_cmd_replacements(
            markers::replace_all_spec(t, cmd_marker(x), cmd_replacement(x)),
            Seq::<Seq<char>>::empty(),
        ) == markers::replace_all_spec(t, cmd_marker(x), cmd_replacement(x)));
        assert(apply_cmd_replacements(t, ps) == t);
    } else {
        assert(ps.push(x)[0] == ps[0]);
        assert(ps.push(x).drop_first() =~= ps.drop_first().push(x));
        lemma_apply_cmd_snoc(
            markers::replace_all_spec(t, cmd_marker(ps[0]), cmd_replacement(ps[0])),
            ps.drop_first(),
            x,
        );
    }
}

/// The payloads were routed one after the other: some sequence of
/// intermediate dialog and task states connects the start to the end, each
/// step obeying the router's effect.
pub open spec fn routed_chain(
    ps: Seq<Seq<char>>,
    d0: DialogState,
    d1: DialogState,
    t0: TaskManager,
    t1: TaskManager,
) -> bool
    decreases ps.len(),
{
    if ps.len() == 0 {
        d1 == d0 && t1 == t0
    } else {
        exists|dm: DialogState, tm: TaskManager|
            #![trigger router::route_effect(text::normalize_spec(ps[0]), d0, dm, t0, tm)]
            router::route_effect(text::normalize_spec(ps[0]), d0, dm, t0, tm) && routed_chain(
                ps.drop_first(),
                dm,
                d1,
                tm,
                t1,
            )
    }
}

proof fn lemma_routed_chain_snoc(
    ps: Seq<Seq<char>>,
    x: Seq<char>,
    d0: DialogState,
    dm: DialogState,
    d1: DialogState,
    t0: TaskManager,
    tm: TaskManager,
    t1: TaskManager,
)
    requires
        routed_chain(ps, d0, dm, t0, tm),
        router::route_effect(text::normalize_spec(x), dm, d1, tm, t1),
    ensures
        routed_chain(ps.push(x), d0, d1, t0, t1),
    decreases ps.len(),
{
    if ps.len() == 0 {
        assert(ps.push(x)[0] == x);
        assert(ps.push(x).drop_first() =~= Seq::<Seq<char>>::empty());
        assert(d0 == dm && t0 == tm);
        assert(routed_chain(ps.push(x).drop_first(), d1, d1, t1, t1));
        assert(router::route_effect(text::normalize_spec(ps.push(x)[0]), d0, d1, t0, t1)
            && routed_chain(ps.push(x).drop_first(), d1, d1, t1, t1));
    } else {
        assert(exists|da: DialogState, ta: TaskManager|
            #![trigger router::route_effect(text::normalize_spec(ps[0]), d0, da, t0, ta)]
            router::route_effect(text::normalize_spec(ps[0]), d0, da, t0, ta) && routed_chain(
                ps.drop_first(),
                da,
                dm,
                ta,
                tm,
            ));
        let (da, ta): (DialogState, TaskManager) = choose|da: DialogState, ta: TaskManager|
            #![trigger router::route_effect(text::normalize_spec(ps[0]), d0, da, t0, ta)]
            router::route_effect(text::normalize_spec(ps[0]), d0, da, t0, ta) && routed_chain(
                ps.drop_first(),
                da,
                dm,
                ta,
                tm,
            );
        lemma_routed_chain_snoc(ps.drop_first(), x, da, dm, d1, ta, tm, t1);
        assert(ps.push(x)[0] == ps[0]);
        assert(ps.push(x).drop_first() =~= ps.drop_first().push(x));
        assert(router::route_effect(text::normalize_spec(ps.push(x)[0]), d0, da, t0, ta)
            && routed_chain(ps.push(x).drop_first(), da, d1, ta, t1));
    }
}

/// One message was appended to a bounded log, stamped with some clock
/// reading.
pub open spec fn appended1(
    log0: Seq<MessageView>,
    log1: Seq<MessageView>,
    sender: Seq<char>,
    body: Seq<char>,
    cap: nat,
) -> bool {
    exists|ts: Seq<char>|
        ts.len() == 8 && log1 == chat::bounded_push(
            log0,
            MessageView { sender, text: body, timestamp: ts },
            cap,
        )
}

/// The log holds exactly the cleared notice under the assistant's name.
pub open spec fn cleared_log(log: Seq<MessageView>, name: Seq<char>) -> bool {
    exists|ts: Seq<char>|
        ts.len() == 8 && log == seq![
            MessageView { sender: name, text: cleared_text(), timestamp: ts },
        ]
}

/// How one routed command payload touches the chat: a payload whose response
/// is the clear-chat sentinel leaves exactly the cleared notice; any other
/// payload leaves the log as it was.
pub open spec fn cmd_chat_step(
    p: Seq<char>,
    name: Seq<char>,
    reg: Seq<crate::guides::GuideView>,
    log0: Seq<MessageView>,
    log1: Seq<MessageView>,
) -> bool {
    exists|resp: Option<Seq<char>>|
        #![trigger router::route_responds(text::normalize_spec(p), name, reg, resp)]
        router::route_responds(text::normalize_spec(p), name, reg, resp) && (resp is Some
            <==> router::any_matches(text::normalize_spec(p))) && match resp {
            Some(x) => if x == router::clear_chat_sentinel() {
                cleared_log(log1, name)
            } else {
                log1 == log0
            },
            None => log1 == log0,
        }
}

/// The chat after the payloads were routed one after the other.
pub open spec fn cmd_chat_chain(
    ps: Seq<Seq<char>>,
    name: Seq<char>,
    reg: Seq<crate::guides::GuideView>,
    log0: Seq<MessageView>,
    log1: Seq<MessageView>,
) -> bool
    decreases ps.len(),
{
    if ps.len() == 0 {
        log1 == log0
    } else {
        exists|mid: Seq<MessageView>|
            #![trigger cmd_chat_step(ps[0], name, reg, log0, mid)]
            cmd_chat_step(ps[0], name, reg, log0, mid) && cmd_chat_chain(
                ps.drop_first(),
                name,
                reg,
                mid,
                log1,
            )
    }
}

proof fn lemma_chat_chain_snoc(
    ps: Seq<Seq<char>>,
    x: Seq<char>,
    name: Seq<char>,
    reg: Seq<crate::guides::GuideView>,
    log0: Seq<MessageView>,
    logm: Seq<MessageView>,
    log1: Seq<MessageView>,
)
    requires
        cmd_chat_chain(ps, name, reg, log0, logm),
        cmd_chat_step(x, name, reg, logm, log1),
    ensures
        cmd_chat_chain(ps.push(x), name, reg, log0, log1),
    decreases ps.len(),
{
    if ps.len() == 0 {
        assert(ps.push(x)[0] == x);
        assert(ps.push(x).drop_first() =~= Seq::<Seq<char>>::empty());
        assert(log0 == logm);
        assert(cmd_chat_chain(ps.push(x).drop_first(), name, reg, log1, log1));
        assert(cmd_chat_step(ps.push(x)[0], name, reg, log0, log1) && cmd_chat_chain(
            ps.push(x).drop_first(),
            name,
            reg,
            log1,
            log1,
        ));
    } else {
        assert(exists|mid: Seq<MessageView>|
            #![trigger cmd_chat_step(ps[0], name, reg, log0, mid)]
            cmd_chat_step(ps[0], name, reg, log0, mid) && cmd_chat_chain(
                ps.drop_first(),
                name,
                reg,
                mid,
                logm,
            ));
        let mid = choose|mid: Seq<MessageView>|
            #![trigger cmd_chat_step(ps[0], name, reg, log0, mid)]
            cmd_chat_step(ps[0], name, reg, log0, mid) && cmd_chat_chain(
                ps.drop_first(),
                name,
                reg,
                mid,
                logm,
            );
        lemma_chat_chain_snoc(ps.drop_first(), x, name, reg, mid, logm, log1);
        assert(ps.push(x)[0] == ps[0]);
        assert(ps.push(x).drop_first() =~= ps.drop_first().push(x));
        assert(cmd_chat_step(ps.push(x)[0], name, reg, log0, mid) && cmd_chat_chain(
            ps.push(x).drop_first(),
            name,
            reg,
            mid,
            log1,
        ));
    }
}

/// How reconciling one completion changes the assistant: a model reply —
/// prefixed with the assistant's name and framed `sender: body` — has its
/// body passed through the marker engine (tool substitution, then command
/// resolution with its dialog, task and chat effects) and the processed text
/// appended under the name it came with; any other completion is appended as
/// a system message and touches nothing else. The result channel itself is
/// not consumed here.
pub open spec fn handle_step(a0: Assistant, a1: Assistant, result: Seq<char>) -> bool {
    &&& a1.name == a0.name
    &&& a1.guides == a0.guides
    &&& a1.tools == a0.tools
    &&& a1.input_history == a0.input_history
    &&& a1.chat.max_messages == a0.chat.max_messages
    &&& a1.tasks.results == a0.tasks.results
    &&& a1.tasks.accepting == a0.tasks.accepting
    &&& if a0.is_model_reply(result) {
        let i = markers::first_occ(result, ": "@)->Some_0;
        let body = result.skip(i + 2);
        let payloads = markers::cmd_payloads_spec(
            markers::resolve_tools_spec(body, a0.tools.reg(), a0.tools.report),
        );
        &&& routed_chain(payloads, a0.dialog, a1.dialog, a0.tasks, a1.tasks)
        &&& exists|mid: Seq<MessageView>|
            #![trigger cmd_chat_chain(payloads, a0.name@, a0.guides.reg(), a0.chat.log(), mid)]
            cmd_chat_chain(payloads, a0.name@, a0.guides.reg(), a0.chat.log(), mid) && appended1(
                mid,
                a1.chat.log(),
                result.take(i),
                a0.reply_text(body),
                a0.chat.max_messages as nat,
            )
    } else {
        &&& a1.dialog == a0.dialog
        &&& a1.tasks == a0.tasks
        &&& appended1(
            a0.chat.log(),
            a1.chat.log(),
            "Система"@,
            result,
            a0.chat.max_messages as nat,
        )
    }
}

/// One result left the channel: the head of the result queue, with
/// everything else untouched.
pub open spec fn pop_step(a0: Assistant, am: Assistant, r: Seq<char>) -> bool {
    &&& a0.tasks.results.deep_view().len() > 0
    &&& r == a0.tasks.results.deep_view()[0]
    &&& am.name == a0.name
    &&& am.chat == a0.chat
    &&& am.dialog == a0.dialog
    &&& am.guides == a0.guides
    &&& am.tools == a0.tools
    &&& am.input_history == a0.input_history
    &&& am.tasks.queue == a0.tasks.queue
    &&& am.tasks.busy == a0.tasks.busy
    &&& am.tasks.accepting == a0.tasks.accepting
    &&& am.tasks.results.deep_view() == a0.tasks.results.deep_view().drop_first()
}

/// The results were drained front to back, each one popped and then
/// reconciled per [`handle_step`].
pub open spec fn results_chain(a0: Assistant, a1: Assistant, rs: Seq<Seq<char>>) -> bool
    decreases rs.len(),
{
    if rs.len() == 0 {
        a1 == a0
    } else {
        exists|am: Assistant, ah: Assistant|
            #![trigger pop_step(a0, am, rs[0]), handle_step(am, ah, rs[0])]
            pop_step(a0, am, rs[0]) && handle_step(am, ah, rs[0]) && results_chain(
                ah,
                a1,
                rs.drop_first(),
            )
    }
}

proof fn lemma_results_chain_snoc(
    a0: Assistant,
    ap: Assistant,
    am: Assistant,
    ah: Assistant,
    rs: Seq<Seq<char>>,
    x: Seq<char>,
)
    requires
        results_chain(a0, ap, rs),
        pop_step(ap, am, x),
        handle_step(am, ah, x),
    ensures
        results_chain(a0, ah, rs.push(x)),
    decreases rs.len(),
{
    if rs.len() == 0 {
        assert(rs.push(x)[0] == x);
        assert(rs.push(x).drop_first() =~= Seq::<Seq<char>>::empty());
        assert(a0 == ap);
        assert(results_chain(ah, ah, rs.push(x).drop_first()));
        assert(pop_step(a0, am, rs.push(x)[0]) && handle_step(am, ah, rs.push(x)[0])
            && results_chain(ah, ah, rs.push(x).drop_first()));
    } else {
        assert(exists|bm: Assistant, bh: Assistant|
            #![trigger pop_step(a0, bm, rs[0]), handle_step(bm, bh, rs[0])]
            pop_step(a0, bm, rs[0]) && handle_step(bm, bh, rs[0]) && results_chain(
                bh,
                ap,
                rs.drop_first(),
            ));
        let (bm, bh): (Assistant, Assistant) = choose|bm: Assistant, bh: Assistant|
            #![trigger pop_step(a0, bm, rs[0]), handle_step(bm, bh, rs[0])]
            pop_step(a0, bm, rs[0]) && handle_step(bm, bh, rs[0]) && results_chain(
                bh,
                ap,
                rs.drop_first(),
            );
        lemma_results_chain_snoc(bh, ap, am, ah, rs.drop_first(), x);
        assert(rs.push(x)[0] == rs[0]);
        assert(rs.push(x).drop_first() =~= rs.drop_first().push(x));
        assert(pop_step(a0, bm, rs.push(x)[0]) && handle_step(bm, bh, rs.push(x)[0])
            && results_chain(bh, ah, rs.push(x).drop_first()));
    }
}

/// What the orchestrator does with one submitted line.
pub enum InputOutcome {
    /// The line was blank: nothing happened.
    Ignored,
    /// A command handler answered; the chat holds the outcome.
    Handled,
    /// No handler matched: the carried prompt is for the language model.
    Forward(String),
}

/// The assistant's whole interactive state.
pub struct Assistant {
    pub name: String,
    pub chat: ChatHistory,
    pub guides: GuideRegistry,
    pub tools: ToolRegistry,
    pub dialog: DialogState,
    pub input_history: InputHistory,
    pub tasks: TaskManager,
}

impl Assistant {
    /// Well-formedness of every owned component.
    pub open spec fn wf(&self) -> bool {
        &&& self.chat.wf()
        &&& self.guides.wf()
        &&& self.input_history.wf()
    }

    /// A fresh assistant: built-in guides and tools, an empty recall buffer,
    /// a hidden dialog, an idle task queue, and a chat holding the greeting.
    pub fn new(name: &str) -> (a: Assistant)
        ensures
            a.wf(),
            a.name@ == name@,
            a.chat.log().len() == 1,
            a.chat.log().len() > 0 ==> a.chat.log()[0].sender == name@ && a.chat.log()[0].text
                == welcome_text(),
            !a.dialog.visible,
            a.tasks.queue@.len() == 0,
            a.tasks.results@.len() == 0,
            !a.tasks.busy,
            a.tasks.accepting,
            a.input_history.entries@.len() == 0,
    {
        let mut chat_log = ChatHistory::new(chat::MAX_CHAT_MESSAGES);
        chat_log.add_message(name, "Система готова. Введите команду или задайте вопрос ИИ.");
        Assistant {
            name: name.to_owned(),
            chat: chat_log,
            guides: GuideRegistry::new(),
            tools: ToolRegistry::new(),
            dialog: DialogState::new(),
            input_history: InputHistory::new(),
            tasks: TaskManager::new(),
        }
    }

    /// Empties the chat and leaves the cleared notice.
    pub fn clear_chat(&mut self)
        requires
            old(self).wf(),
        ensures
            final(self).wf(),
            cleared_log(final(self).chat.log(), old(self).name@),
            final(self).chat.max_messages == old(self).chat.max_messages,
            final(self).name == old(self).name,
            final(self).guides == old(self).guides,
            final(self).tools == old(self).tools,
            final(self).dialog == old(self).dialog,
            final(self).input_history == old(self).input_history,
            final(self).tasks == old(self).tasks,
    {
        self.chat.clear();
        let ghost empty_log = self.chat.log();
        let name = self.name.clone();
        self.chat.add_message(name.as_str(), "История чата очищена. Чем могу помочь?");
        proof {
            let ts = choose|ts: Seq<char>|
                ts.len() == 8 && self.chat.log() == chat::bounded_push(
                    empty_log,
                    MessageView {
                        sender: old(self).name@,
                        text: cleared_text(),
                        timestamp: ts,
                    },
                    old(self).chat.max_messages as nat,
                );
            let m = MessageView { sender: old(self).name@, text: cleared_text(), timestamp: ts };
            assert(chat::bounded_push(empty_log, m, old(self).chat.max_messages as nat)
                =~= seq![m]);
        }
    }

    /// Resolves the command markers of a model response: each recognized
    /// command runs through the router — its effects land in the dialog and
    /// the task queue, and the clear-chat command empties the chat — and its
    /// marker is stripped from the text; an unrecognized command's marker is
    /// replaced by a visible annotation.
    pub fn process_ai_commands(&mut self, response: &str) -> (r: String)
        requires
            old(self).wf(),
        ensures
            final(self).wf(),
            r@ == apply_cmd_replacements(response@, markers::cmd_payloads_spec(response@)),
            routed_chain(
                markers::cmd_payloads_spec(response@),
                old(self).dialog,
                final(self).dialog,
                old(self).tasks,
                final(self).tasks,
            ),
            cmd_chat_chain(
                markers::cmd_payloads_spec(response@),
                old(self).name@,
                old(self).guides.reg(),
                old(self).chat.log(),
                final(self).chat.log(),
            ),
            final(self).name == old(self).name,
            final(self).guides == old(self).guides,
            final(self).tools == old(self).tools,
            final(self).input_history == old(self).input_history,
            final(self).chat.max_messages == old(self).chat.max_messages,
            final(self).tasks.results == old(self).tasks.results,
            final(self).tasks.accepting == old(self).tasks.accepting,
    {
        let payloads = markers::find_cmd_payloads(response);
        let ghost all = markers::cmd_payloads_spec(response@);
        let mut result = response.to_owned();
        let mut k: usize = 0;
        proof {
            assert(all.take(0) =~= Seq::<Seq<char>>::empty());
        }
        while k < payloads.len()
            invariant
                payloads.deep_view() == all,
                payloads@.len() == all.len(),
                k <= all.len(),
                result@ == apply_cmd_replacements(response@, all.take(k as int)),
                routed_chain(
                    all.take(k as int),
                    old(self).dialog,
                    self.dialog,
                    old(self).tasks,
                    self.tasks,
                ),
                cmd_chat_chain(
                    all.take(k as int),
                    old(self).name@,
                    old(self).guides.reg(),
                    old(self).chat.log(),
                    self.chat.log(),
                ),
                self.wf(),
                self.name == old(self).name,
                self.guides == old(self).guides,
                self.tools == old(self).tools,
                self.input_history == old(self).input_history,
                self.chat.max_messages == old(self).chat.max_messages,
                self.tasks.results == old(self).tasks.results,
                self.tasks.accepting == old(self).tasks.accepting,
            decreases all.len() - k,
        {
            let payload = payloads[k].clone();
            proof {
                assert(payload@ == all[k as int]);
            }
            let ghost d_before = self.dialog;
            let ghost t_before = self.tasks;
            let ghost log_before = self.chat.log();
            let cmd_response = router::process_command(
                payload.as_str(),
                self.name.as_str(),
                &mut self.dialog,
                &mut self.tasks,
                &self.guides,
            );
            let ghost resp = cmd_response.deep_view();
            let replacement: String = match cmd_response {
                Some(x) => {
                    if text::str_eq(x.as_str(), router::cmd_clear_chat()) {
                        self.clear_chat();
                    }
                    String::new()
                },
                None => {
                    let mut a = String::new();
                    a.append("[!] команда '");
                    a.append(payload.as_str());
                    a.append("' не распознана");
                    a
                },
            };
            proof {
                assert(replacement@ == cmd_replacement(payload@));
            }
            let mut marker = String::new();
            marker.append("[CMD:");
            marker.append(payload.as_str());
            marker.append("]");
            result = markers::replace_all(result.as_str(), marker.as_str(), replacement.as_str());
            k = k + 1;
            proof {
                assert(all.take(k as int) =~= all.take(k - 1).push(all[k - 1]));
                lemma_apply_cmd_snoc(response@, all.take(k - 1), all[k - 1]);
                lemma_routed_chain_snoc(
                    all.take(k - 1),
                    all[k - 1],
                    old(self).dialog,
                    d_before,
                    self.dialog,
                    old(self).tasks,
                    t_before,
                    self.tasks,
                );
                assert(router::route_responds(
                    text::normalize_spec(payload@),
                    old(self).name@,
                    old(self).guides.reg(),
                    resp,
                ) && (resp is Some <==> router::any_matches(text::normalize_spec(payload@)))
                    && match resp {
                    Some(x) => if x == router::clear_chat_sentinel() {
                        cleared_log(self.chat.log(), old(self).name@)
                    } else {
                        self.chat.log() == log_before
                    },
                    None => self.chat.log() == log_before,
                });
                assert(cmd_chat_step(
                    all[k - 1],
                    old(self).name@,
                    old(self).guides.reg(),
                    log_before,
                    self.chat.log(),
                ));
                lemma_chat_chain_snoc(
                    all.take(k - 1),
                    all[k - 1],
                    old(self).name@,
                    old(self).guides.reg(),
                    old(self).chat.log(),
                    log_before,
                    self.chat.log(),
                );
            }
        }
        proof {
            assert(all.take(all.len() as int) =~= all);
        }
        result
    }

    /// Handles one submitted line: a blank line is ignored; otherwise the
    /// line is recorded for recall, shown as the user's message, and routed —
    /// the clear-chat answer empties the chat, any other answer is shown as
    /// the assistant's message, and an unrouted line is handed back as a
    /// prompt for the language model.
    pub fn process_input(&mut self, input: &str) -> (r: InputOutcome)
        requires
            old(self).wf(),
        ensures
            final(self).wf(),
            final(self).name == old(self).name,
            final(self).guides == old(self).guides,
            final(self).tools == old(self).tools,
            final(self).chat.max_messages == old(self).chat.max_messages,
            ({
                let t = text::trim_spec(input@);
                let cmd = text::normalize_spec(input@);
                if t.len() == 0 {
                    r is Ignored && *final(self) == *old(self)
                } else {
                    &&& recall::push_effect(
                        input@,
                        old(self).input_history.entries.deep_view(),
                        final(self).input_history.entries.deep_view(),
                    )
                    &&& router::route_effect(
                        cmd,
                        old(self).dialog,
                        final(self).dialog,
                        old(self).tasks,
                        final(self).tasks,
                    )
                    &&& exists|resp: Option<Seq<char>>|
                        router::route_responds(cmd, old(self).name@, old(self).guides.reg(), resp)
                            && (resp is Some <==> router::any_matches(cmd)) && match resp {
                            None => r matches InputOutcome::Forward(p) && p@ == t && exists|mid: Seq<MessageView>|
                                appended1(
                                    old(self).chat.log(),
                                    mid,
                                    "Вы"@,
                                    t,
                                    old(self).chat.max_messages as nat,
                                ) && final(self).chat.log() == mid,
                            Some(x) => r is Handled && (x == router::clear_chat_sentinel()
                                ==> cleared_log(final(self).chat.log(), old(self).name@)) && (x
                                != router::clear_chat_sentinel() ==> exists|mid: Seq<MessageView>|
                                appended1(
                                    old(self).chat.log(),
                                    mid,
                                    "Вы"@,
                                    t,
                                    old(self).chat.max_messages as nat,
                                ) && appended1(
                                    mid,
                                    final(self).chat.log(),
                                    old(self).name@,
                                    x,
                                    old(self).chat.max_messages as nat,
                                )),
                        }
                }
            }),
    {
        let trimmed_chars = text::trim_chars(&text::to_chars(input));
        if trimmed_chars.len() == 0 {
            return InputOutcome::Ignored;
        }
        let trimmed = text::chars_to_string(trimmed_chars.as_slice());
        self.input_history.push(input);
        self.chat.add_message("Вы", trimmed.as_str());
        let ghost mid_log = self.chat.log();
        let ghost cmd = text::normalize_spec(input@);
        let response = router::process_command(
            input,
            self.name.as_str(),
            &mut self.dialog,
            &mut self.tasks,
            &self.guides,
        );
        proof {
            assert(appended1(
                old(self).chat.log(),
                mid_log,
                "Вы"@,
                text::trim_spec(input@),
                old(self).chat.max_messages as nat,
            ));
        }
        match response {
            Some(x) => {
                let ghost resp: Option<Seq<char>> = Some(x@);
                if text::str_eq(x.as_str(), router::cmd_clear_chat()) {
                    self.clear_chat();
                    proof {
                        assert(router::route_responds(cmd, old(self).name@, old(self).guides.reg(), resp)
                            && (resp is Some <==> router::any_matches(cmd)) && (resp matches Some(v)
                            && v == router::clear_chat_sentinel()) && cleared_log(
                            self.chat.log(),
                            old(self).name@,
                        ));
                    }
                } else {
                    let name = self.name.clone();
                    self.chat.add_message(name.as_str(), x.as_str());
                    proof {
                        assert(router::route_responds(cmd, old(self).name@, old(self).guides.reg(), resp)
                            && (resp is Some <==> router::any_matches(cmd)) && (resp matches Some(v)
                            && v != router::clear_chat_sentinel()) && appended1(
                            mid_log,
                            self.chat.log(),
                            old(self).name@,
                            x@,
                            old(self).chat.max_messages as nat,
                        ));
                    }
                }
                InputOutcome::Handled
            },
            None => {
                proof {
                    let resp: Option<Seq<char>> = None;
                    assert(router::route_responds(cmd, old(self).name@, old(self).guides.reg(), resp)
                        && (resp is Some <==> router::any_matches(cmd)));
                    assert(trimmed@ == text::trim_spec(input@));
                }
                InputOutcome::Forward(trimmed)
            },
        }
    }

    /// Is this completion a model reply: prefixed with the assistant's name
    /// and framed as `sender: body`?
    pub open spec fn is_model_reply(&self, result: Seq<char>) -> bool {
        text::has_prefix(result, self.name@) && markers::first_occ(result, ": "@) is Some
    }

    /// The visible text a model reply's body turns into: tool markers are
    /// substituted first, then every command marker of the substituted text
    /// is resolved — so a command marker is only ever read from the
    /// substituted text, exactly once.
    pub open spec fn reply_text(&self, body: Seq<char>) -> Seq<char> {
        let with_tools = markers::resolve_tools_spec(body, self.tools.reg(), self.tools.report);
        apply_cmd_replacements(with_tools, markers::cmd_payloads_spec(with_tools))
    }

    /// Reconciles one completion into the chat: a model reply's body is
    /// passed through the marker engine and shown under the name it came
    /// with; anything else is shown as a system message.
    pub fn handle_result(&mut self, result: String)
        requires
            old(self).wf(),
        ensures
            final(self).wf(),
            handle_step(*old(self), *final(self), result@),
    {
        let result_chars = text::to_chars(result.as_str());
        let from_model = text::starts_with_lit(&result_chars, self.name.as_str());
        if from_model {
            match markers::split_at_first(result.as_str(), ": ") {
                Some((sender, body)) => {
                    proof {
                        reveal_strlit(": ");
                        assert(": "@.len() == 2) by {
                            broadcast use vstd::string::group_string_axioms;

                        }
                    }
                    let with_tools = markers::resolve_tools(body.as_str(), &self.tools);
                    let processed = self.process_ai_commands(with_tools.as_str());
                    let ghost mid = self.chat.log();
                    self.chat.add_message(sender.as_str(), processed.as_str());
                    proof {
                        let i = markers::first_occ(result@, ": "@)->Some_0;
                        let payloads = markers::cmd_payloads_spec(
                            markers::resolve_tools_spec(
                                result@.skip(i + 2),
                                old(self).tools.reg(),
                                old(self).tools.report,
                            ),
                        );
                        assert(sender@ == result@.take(i));
                        assert(processed@ == old(self).reply_text(result@.skip(i + 2)));
                        assert(cmd_chat_chain(
                            payloads,
                            old(self).name@,
                            old(self).guides.reg(),
                            old(self).chat.log(),
                            mid,
                        ));
                        assert(appended1(
                            mid,
                            self.chat.log(),
                            result@.take(i),
                            old(self).reply_text(result@.skip(i + 2)),
                            old(self).chat.max_messages as nat,
                        ));
                    }
                    return ;
                },
                None => (),
            }
        }
        self.chat.add_message("Система", result.as_str());
    }

    /// Drains the completion channel: the final state is reached from the
    /// old one by popping and reconciling each pending result in arrival
    /// order, per [`pop_step`] and [`handle_step`].
    pub fn check_tasks(&mut self)
        requires
            old(self).wf(),
        ensures
            final(self).wf(),
            final(self).tasks.results@.len() == 0,
            results_chain(*old(self), *final(self), old(self).tasks.results.deep_view()),
            final(self).name == old(self).name,
            final(self).guides == old(self).guides,
            final(self).tools == old(self).tools,
            final(self).input_history == old(self).input_history,
            final(self).chat.max_messages == old(self).chat.max_messages,
    {
        let ghost all_rs = old(self).tasks.results.deep_view();
        let ghost mut k: int = 0;
        proof {
            assert(all_rs.take(0) =~= Seq::<Seq<char>>::empty());
            assert(all_rs.skip(0) =~= all_rs);
        }
        loop
            invariant
                self.wf(),
                all_rs == old(self).tasks.results.deep_view(),
                0 <= k <= all_rs.len(),
                self.tasks.results.deep_view() == all_rs.skip(k),
                results_chain(*old(self), *self, all_rs.take(k)),
                self.name == old(self).name,
                self.guides == old(self).guides,
                self.tools == old(self).tools,
                self.input_history == old(self).input_history,
                self.chat.max_messages == old(self).chat.max_messages,
            decreases self.tasks.results@.len(),
        {
            let ghost a_pre = *self;
            let next = self.tasks.poll_result();
            let result = match next {
                Some(x) => x,
                None => {
                    proof {
                        assert(all_rs.skip(k).len() == 0);
                        assert(k == all_rs.len());
                        assert(all_rs.take(k) =~= all_rs);
                    }
                    return ;
                },
            };
            let ghost a_mid = *self;
            let ghost rv = result@;
            proof {
                assert(a_pre.tasks.results.deep_view().len() > 0);
                assert(rv == a_pre.tasks.results.deep_view()[0]) by {
                    assert(result == a_pre.tasks.results@[0]);
                }
                assert forall|j: int| 0 <= j < a_mid.tasks.results.deep_view().len() implies
                    a_mid.tasks.results.deep_view()[j] == a_pre.tasks.results.deep_view().drop_first()[j] by {
                    assert(a_mid.tasks.results@[j] == a_pre.tasks.results@.drop_first()[j]);
                }
                assert(a_mid.tasks.results.deep_view() =~= a_pre.tasks.results.deep_view().drop_first());
                assert(pop_step(a_pre, a_mid, rv));
                assert(rv == all_rs[k]) by {
                    assert(a_pre.tasks.results.deep_view() == all_rs.skip(k));
                }
            }
            self.handle_result(result);
            proof {
                assert(handle_step(a_mid, *self, rv));
                lemma_results_chain_snoc(*old(self), a_pre, a_mid, *self, all_rs.take(k), rv);
                assert(all_rs.take(k).push(all_rs[k]) =~= all_rs.take(k + 1));
                k = k + 1;
                assert(self.tasks.results.deep_view() =~= all_rs.skip(k)) by {
                    assert(self.tasks.results == a_mid.tasks.results);
                    assert(all_rs.skip(k - 1).drop_first() =~= all_rs.skip(k));
                }
            }
        }
    }
}

} // verus!
