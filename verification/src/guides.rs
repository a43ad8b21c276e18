//! The guide database: step-by-step help texts, looked up by id or searched
//! by keyword, and rendered for the chat.
use vstd::prelude::*;
use crate::text;

verus! {

/// One step of a guide.
#[derive(Debug)]
pub struct GuideStep {
    pub instruction: String,
    pub command: Option<String>,
    pub note: Option<String>,
}

/// Mathematical value of a [`GuideStep`].
pub ghost struct StepView {
    pub instruction: Seq<char>,
    pub command: Option<Seq<char>>,
    pub note: Option<Seq<char>>,
}

impl View for GuideStep {
    type V = StepView;

    open spec fn view(&self) -> StepView {
        StepView {
            instruction: self.instruction@,
            command: match self.command {
                Some(c) => Some(c@),
                None => None,
            },
            note: match self.note {
                Some(n) => Some(n@),
                None => None,
            },
        }
    }
}

impl DeepView for GuideStep {
    type V = StepView;

    open spec fn deep_view(&self) -> StepView {
        self.view()
    }
}

impl GuideStep {
    /// A step with only an instruction.
    pub fn new(instruction: &str) -> (s: GuideStep)
        ensures
            s@.instruction == instruction@,
            s@.command is None,
            s@.note is None,
    {
        GuideStep { instruction: instruction.to_owned(), command: None, note: None }
    }

    /// The same step with a command line attached.
    pub fn with_command(self, cmd: &str) -> (s: GuideStep)
        ensures
            s@.instruction == self@.instruction,
            s@.command matches Some(c) && c == cmd@,
            s@.note == self@.note,
    {
        GuideStep { command: Some(cmd.to_owned()), ..self }
    }

    /// The same step with a note attached.
    pub fn with_note(self, note: &str) -> (s: GuideStep)
        ensures
            s@.instruction == self@.instruction,
            s@.command == self@.command,
            s@.note matches Some(n) && n == note@,
    {
        GuideStep { note: Some(note.to_owned()), ..self }
    }
}

/// A guide: an identified, titled list of steps with search tags.
#[derive(Debug)]
pub struct Guide {
    pub id: String,
    pub title: String,
    pub description: String,
    pub steps: Vec<GuideStep>,
    pub tags: Vec<String>,
}

/// Mathematical value of a [`Guide`].
pub ghost struct GuideView {
    pub id: Seq<char>,
    pub title: Seq<char>,
    pub description: Seq<char>,
    pub steps: Seq<StepView>,
    pub tags: Seq<Seq<char>>,
}

impl View for Guide {
    type V = GuideView;

    open spec fn view(&self) -> GuideView {
        GuideView {
            id: self.id@,
            title: self.title@,
            description: self.description@,
            steps: self.steps.deep_view(),
            tags: self.tags.deep_view(),
        }
    }
}

impl DeepView for Guide {
    type V = GuideView;

    open spec fn deep_view(&self) -> GuideView {
        self.view()
    }
}

impl Guide {
    /// A guide with no steps and no tags.
    pub fn new(id: &str, title: &str, description: &str) -> (g: Guide)
        ensures
            g@.id == id@,
            g@.title == title@,
            g@.description == description@,
            g@.steps.len() == 0,
            g@.tags.len() == 0,
    {
        let g = Guide {
            id: id.to_owned(),
            title: title.to_owned(),
            description: description.to_owned(),
            steps: Vec::new(),
            tags: Vec::new(),
        };
        proof {
            assert(g@.steps =~= Seq::<StepView>::empty());
            assert(g@.tags =~= Seq::<Seq<char>>::empty());
        }
        g
    }

    /// The same guide with one more step at the end.
    pub fn add_step(self, step: GuideStep) -> (g: Guide)
        ensures
            g@.id == self@.id,
            g@.title == self@.title,
            g@.description == self@.description,
            g@.steps == self@.steps.push(step@),
            g@.tags == self@.tags,
    {
        let ghost old_steps = self.steps.deep_view();
        let mut steps = self.steps;
        steps.push(step);
        let g = Guide { steps, ..self };
        proof {
            assert forall|i: int| 0 <= i < g@.steps.len() implies g@.steps[i] == old_steps.push(
                step@,
            )[i] by {}
            assert(g@.steps =~= old_steps.push(step@));
        }
        g
    }

    /// The same guide with the given tags appended.
    pub fn add_tags(self, tags: &[&str]) -> (g: Guide)
        ensures
            g@.id == self@.id,
            g@.title == self@.title,
            g@.description == self@.description,
            g@.steps == self@.steps,
            g@.tags == self@.tags + tags.deep_view(),
    {
        let ghost old_tags = self.tags.deep_view();
        let mut tv = self.tags;
        let mut i: usize = 0;
        while i < tags.len()
            invariant
                i <= tags@.len(),
                tv.deep_view() == old_tags + tags.deep_view().take(i as int),
            decreases tags@.len() - i,
        {
            let ghost before = tv.deep_view();
            let entry = tags[i].to_owned();
            let ghost ev = entry@;
            tv.push(entry);
            i = i + 1;
            proof {
                let rhs = old_tags + tags.deep_view().take(i as int);
                assert(ev == tags.deep_view()[i - 1]);
                assert forall|k: int| 0 <= k < tv.deep_view().len() implies tv.deep_view()[k]
                    == rhs[k] by {
                    if k < before.len() {
                        assert(tv.deep_view()[k] == before[k]);
                        if k < old_tags.len() {
                            assert(before[k] == old_tags[k]);
                        } else {
                            assert(before[k] == tags.deep_view().take(i - 1)[k - old_tags.len()]);
                        }
                    } else {
                        assert(k == before.len());
                        assert(tv.deep_view()[k] == ev);
                    }
                }
                assert(tv.deep_view().len() == before.len() + 1);
                assert(before.len() == old_tags.len() + i - 1);
                assert(tv.deep_view().len() == rhs.len());
                assert(tv.deep_view() =~= rhs);
            }
        }
        let g = Guide { tags: tv, ..self };
        proof {
            assert(tags.deep_view().take(tags@.len() as int) =~= tags.deep_view());
            assert(g@.tags =~= old_tags + tags.deep_view());
        }
        g
    }

    /// Renders the guide: title, description, then the numbered steps.
    pub fn format(&self) -> (r: String)
        ensures
            r@ == guide_text(self@),
    {
        let mut out = String::new();
        out.append(" ");
        out.append(self.title.as_str());
        out.append("\n");
        out.append(self.description.as_str());
        out.append("\n\n");
        let ghost head = out@;
        let mut i: usize = 0;
        let ghost steps = self@.steps;
        while i < self.steps.len()
            invariant
                i <= steps.len(),
                steps == self@.steps,
                self@.steps.len() == self.steps@.len(),
                out@ == head + step_blocks(steps.take(i as int), 1),
            decreases steps.len() - i,
        {
            let block = render_step((i as u64) + 1, &self.steps[i]);
            out.append(block.as_str());
            i = i + 1;
            proof {
                reveal_with_fuel(step_blocks, 3);
                lemma_step_blocks_concat(steps.take(i - 1), seq![steps[i - 1]], 1);
                assert(steps.take(i as int) =~= steps.take(i - 1) + seq![steps[i - 1]]);
                assert(seq![steps[i - 1]].drop_first() =~= Seq::<StepView>::empty());
                assert(step_block(i as nat, steps[i - 1]) + Seq::<char>::empty() =~= step_block(
                    i as nat,
                    steps[i - 1],
                ));
                assert(out@ =~= head + step_blocks(steps.take(i as int), 1));
            }
        }
        proof {
            assert(steps.take(steps.len() as int) =~= steps);
            assert(head + step_blocks(steps, 1) =~= guide_text(self@));
        }
        out
    }
}

/// Renders one numbered step.
fn render_step(n: u64, step: &GuideStep) -> (r: String)
    ensures
        r@ == step_block(n as nat, step@),
{
    let mut block = text::u64_to_string(n);
    block.append(". ");
    block.append(step.instruction.as_str());
    block.append("\n");
    match &step.command {
        Some(cmd) => {
            block.append("   $ ");
            block.append(cmd.as_str());
            block.append("\n");
        },
        None => (),
    }
    match &step.note {
        Some(note) => {
            block.append("   ℹ ");
            block.append(note.as_str());
            block.append("\n");
        },
        None => (),
    }
    block.append("\n");
    proof {
        assert(block@ =~= step_block(n as nat, step@));
    }
    block
}

/// The rendering of one numbered step.
pub open spec fn step_block(n: nat, st: StepView) -> Seq<char> {
    text::dec_digits(n) + ". "@ + st.instruction + "\n"@ + (match st.command {
        Some(c) => "   $ "@ + c + "\n"@,
        None => Seq::<char>::empty(),
    }) + (match st.note {
        Some(x) => "   ℹ "@ + x + "\n"@,
        None => Seq::<char>::empty(),
    }) + "\n"@
}

/// The renderings of a run of steps numbered from `n0`.
pub open spec fn step_blocks(steps: Seq<StepView>, n0: nat) -> Seq<char>
    decreases steps.len(),
{
    if steps.len() == 0 {
        Seq::<char>::empty()
    } else {
        step_block(n0, steps[0]) + step_blocks(steps.drop_first(), n0 + 1)
    }
}

proof fn lemma_step_blocks_concat(a: Seq<StepView>, b: Seq<StepView>, n0: nat)
    ensures
        step_blocks(a + b, n0) == step_blocks(a, n0) + step_blocks(b, n0 + a.len()),
    decreases a.len(),
{
    if a.len() == 0 {
        assert(a + b =~= b);
        assert(step_blocks(a, n0) + step_blocks(b, n0 + a.len()) =~= step_blocks(b, n0));
    } else {
        assert((a + b).drop_first() =~= a.drop_first() + b);
        lemma_step_blocks_concat(a.drop_first(), b, n0 + 1);
        assert(step_blocks(a + b, n0) =~= step_blocks(a, n0) + step_blocks(b, n0 + a.len()));
    }
}

/// The full rendering of a guide.
pub open spec fn guide_text(g: GuideView) -> Seq<char> {
    " "@ + g.title + "\n"@ + g.description + "\n\n"@ + step_blocks(g.steps, 1)
}

/// A guide matches a lower-cased keyword when the keyword occurs in the
/// folded title, description, any tag, or the id.
pub open spec fn guide_hit(g: GuideView, q: Seq<char>) -> bool {
    ||| text::contains_seq(text::fold_seq(g.title), q)
    ||| text::contains_seq(text::fold_seq(g.description), q)
    ||| exists|i: int|
        0 <= i < g.tags.len() && text::contains_seq(text::fold_seq(#[trigger] g.tags[i]), q)
    ||| text::contains_seq(text::fold_seq(g.id), q)
}

/// No two guides of the run share an id.
pub open spec fn unique_ids(s: Seq<GuideView>) -> bool {
    forall|i: int, j: int| 0 <= i < j < s.len() ==> (#[trigger] s[i]).id != (#[trigger] s[j]).id
}

/// The guide with the given id, if the run holds one.
pub open spec fn find_by_id(s: Seq<GuideView>, id: Seq<char>) -> Option<GuideView> {
    if exists|i: int| 0 <= i < s.len() && (#[trigger] s[i]).id == id {
        Some(s[choose|i: int| 0 <= i < s.len() && (#[trigger] s[i]).id == id])
    } else {
        None
    }
}

/// With unique ids, any index whose guide carries the id witnesses the value
/// of [`find_by_id`].
pub proof fn lemma_find_unique(s: Seq<GuideView>, id: Seq<char>, i: int)
    requires
        unique_ids(s),
        0 <= i < s.len(),
        s[i].id == id,
    ensures
        find_by_id(s, id) == Some(s[i]),
{
    let w = choose|k: int| 0 <= k < s.len() && (#[trigger] s[k]).id == id;
    if w < i {
        assert((#[trigger] s[w]).id != (#[trigger] s[i]).id);
    } else if i < w {
        assert((#[trigger] s[i]).id != (#[trigger] s[w]).id);
    }
}

/// After an insert, the inserted guide is found under its id.
pub proof fn lemma_insert_guide_finds(s: Seq<GuideView>, g: GuideView)
    requires
        unique_ids(s),
    ensures
        find_by_id(insert_guide(s, g), g.id) == Some(g),
{
    let t = insert_guide(s, g);
    if exists|i: int| 0 <= i < s.len() && (#[trigger] s[i]).id == g.id {
        let w = choose|i: int| 0 <= i < s.len() && (#[trigger] s[i]).id == g.id;
        assert(t == s.update(w, g));
        assert(t[w] == g);
        assert(exists|i: int| 0 <= i < t.len() && (#[trigger] t[i]).id == g.id);
        let k = choose|i: int| 0 <= i < t.len() && (#[trigger] t[i]).id == g.id;
        if k != w {
            assert(t[k] == s[k]);
            if k < w {
                assert((#[trigger] s[k]).id != (#[trigger] s[w]).id);
            } else {
                assert((#[trigger] s[w]).id != (#[trigger] s[k]).id);
            }
            assert(false);
        }
    } else {
        assert(t == s.push(g));
        assert(t[s.len() as int] == g);
        assert(exists|i: int| 0 <= i < t.len() && (#[trigger] t[i]).id == g.id);
        let k = choose|i: int| 0 <= i < t.len() && (#[trigger] t[i]).id == g.id;
        if k < s.len() {
            assert(t[k] == s[k]);
            assert(false);
        }
    }
}

/// An insert leaves every other id's lookup unchanged.
pub proof fn lemma_insert_guide_keeps(s: Seq<GuideView>, g: GuideView, id: Seq<char>)
    requires
        unique_ids(s),
        id != g.id,
    ensures
        find_by_id(insert_guide(s, g), id) == find_by_id(s, id),
{
    let t = insert_guide(s, g);
    if exists|i: int| 0 <= i < s.len() && (#[trigger] s[i]).id == g.id {
        let w = choose|i: int| 0 <= i < s.len() && (#[trigger] s[i]).id == g.id;
        assert(t == s.update(w, g));
        assert(forall|i: int| 0 <= i < t.len() && i != w ==> #[trigger] t[i] == s[i]);
        assert(t[w].id == g.id);
        if exists|i: int| 0 <= i < s.len() && (#[trigger] s[i]).id == id {
            let a = choose|i: int| 0 <= i < s.len() && (#[trigger] s[i]).id == id;
            assert(a != w);
            assert(t[a] == s[a]);
            assert(exists|i: int| 0 <= i < t.len() && (#[trigger] t[i]).id == id);
            let b = choose|i: int| 0 <= i < t.len() && (#[trigger] t[i]).id == id;
            assert(b != w);
            assert(t[b] == s[b]);
            if a != b {
                if a < b {
                    assert((#[trigger] s[a]).id != (#[trigger] s[b]).id);
                } else {
                    assert((#[trigger] s[b]).id != (#[trigger] s[a]).id);
                }
                assert(false);
            }
            assert(find_by_id(t, id) == Some(t[b]));
            assert(find_by_id(s, id) == Some(s[a]));
        } else {
            if exists|i: int| 0 <= i < t.len() && (#[trigger] t[i]).id == id {
                let b = choose|i: int| 0 <= i < t.len() && (#[trigger] t[i]).id == id;
                assert(b != w);
                assert(t[b] == s[b]);
                assert(false);
            }
        }
    } else {
        assert(t == s.push(g));
        assert(forall|i: int| 0 <= i < s.len() ==> #[trigger] t[i] == s[i]);
        if exists|i: int| 0 <= i < s.len() && (#[trigger] s[i]).id == id {
            let a = choose|i: int| 0 <= i < s.len() && (#[trigger] s[i]).id == id;
            assert(t[a].id == id);
            assert(exists|i: int| 0 <= i < t.len() && (#[trigger] t[i]).id == id);
            let b = choose|i: int| 0 <= i < t.len() && (#[trigger] t[i]).id == id;
            if b == s.len() {
                assert(t[b] == g);
                assert(false);
            }
            assert(t[b] == s[b]);
            if a != b {
                if a < b {
                    assert((#[trigger] s[a]).id != (#[trigger] s[b]).id);
                } else {
                    assert((#[trigger] s[b]).id != (#[trigger] s[a]).id);
                }
                assert(false);
            }
        } else {
            if exists|i: int| 0 <= i < t.len() && (#[trigger] t[i]).id == id {
                let b = choose|i: int| 0 <= i < t.len() && (#[trigger] t[i]).id == id;
                if b == s.len() {
                    assert(t[b] == g);
                    assert(false);
                }
                assert(t[b] == s[b]);
                assert(false);
            }
        }
    }
}

/// The registry resolves `id` to a guide with this id and title, holding at
/// least one step.
pub open spec fn has_guide(reg: Seq<GuideView>, id: Seq<char>, title: Seq<char>) -> bool {
    find_by_id(reg, id) matches Some(g) && g.id == id && g.title == title && g.steps.len() > 0
}

/// Inserting `g` into a registry with unique ids: replace the guide with the
/// same id, or append at the end.
pub open spec fn insert_guide(s: Seq<GuideView>, g: GuideView) -> Seq<GuideView> {
    if exists|i: int| 0 <= i < s.len() && (#[trigger] s[i]).id == g.id {
        s.update(choose|i: int| 0 <= i < s.len() && (#[trigger] s[i]).id == g.id, g)
    } else {
        s.push(g)
    }
}

/// Stable insertion into a title-sorted run: the new guide goes after every
/// guide whose title is at or before its own.
pub open spec fn insert_by_title(g: GuideView, s: Seq<GuideView>) -> Seq<GuideView>
    decreases s.len(),
{
    if s.len() == 0 {
        seq![g]
    } else if text::lex_le(s[0].title, g.title) {
        seq![s[0]] + insert_by_title(g, s.drop_first())
    } else {
        seq![g] + s
    }
}

/// The registry's guides sorted by title (stable).
pub open spec fn sort_by_title(s: Seq<GuideView>) -> Seq<GuideView>
    decreases s.len(),
{
    if s.len() == 0 {
        s
    } else {
        insert_by_title(s.last(), sort_by_title(s.drop_last()))
    }
}

/// One catalog line per guide: bullet, id, dash, title.
pub open spec fn catalog_lines(s: Seq<GuideView>) -> Seq<char>
    decreases s.len(),
{
    if s.len() == 0 {
        Seq::<char>::empty()
    } else {
        "• "@ + s[0].id + " — "@ + s[0].title + "\n"@ + catalog_lines(s.drop_first())
    }
}

proof fn lemma_catalog_lines_concat(a: Seq<GuideView>, b: Seq<GuideView>)
    ensures
        catalog_lines(a + b) == catalog_lines(a) + catalog_lines(b),
    decreases a.len(),
{
    if a.len() == 0 {
        assert(a + b =~= b);
        assert(catalog_lines(a) + catalog_lines(b) =~= catalog_lines(b));
    } else {
        assert((a + b).drop_first() =~= a.drop_first() + b);
        lemma_catalog_lines_concat(a.drop_first(), b);
        assert(catalog_lines(a + b) =~= catalog_lines(a) + catalog_lines(b));
    }
}

/// Renders the catalog lines of the given guides, in their order.
pub fn render_catalog_lines(v: &Vec<&Guide>) -> (r: String)
    ensures
        r@ == catalog_lines(v.deep_view()),
{
    let mut out = String::new();
    let mut i: usize = 0;
    while i < v.len()
        invariant
            i <= v@.len(),
            v@.len() == v.len(),
            out@ == catalog_lines(v.deep_view().take(i as int)),
        decreases v@.len() - i,
    {
        let g = v[i];
        out.append("• ");
        out.append(g.id.as_str());
        out.append(" — ");
        out.append(g.title.as_str());
        out.append("\n");
        i = i + 1;
        proof {
            reveal_with_fuel(catalog_lines, 3);
            let dv = v.deep_view();
            lemma_catalog_lines_concat(dv.take(i - 1), seq![dv[i - 1]]);
            assert(dv.take(i as int) =~= dv.take(i - 1) + seq![dv[i - 1]]);
            assert(seq![dv[i - 1]].drop_first() =~= Seq::<GuideView>::empty());
            assert(out@ =~= catalog_lines(dv.take(i as int)));
        }
    }
    proof {
        assert(v.deep_view().take(v.deep_view().len() as int) =~= v.deep_view());
    }
    out
}

/// Inserts a guide reference into a title-sorted run, after every guide whose
/// title is at or before its own.
fn insert_ref<'a>(g: &'a Guide, v: Vec<&'a Guide>) -> (r: Vec<&'a Guide>)
    ensures
        r.deep_view() == insert_by_title(g@, v.deep_view()),
    decreases v@.len(),
{
    if v.len() == 0 {
        let mut r: Vec<&Guide> = Vec::new();
        r.push(g);
        proof {
            assert(r.deep_view() =~= seq![g@]);
        }
        r
    } else {
        let mut v = v;
        let ghost dv = v.deep_view();
        let first = v.remove(0);
        let first_title = text::to_chars(first.title.as_str());
        let g_title = text::to_chars(g.title.as_str());
        if text::chars_le(&first_title, &g_title) {
            proof {
                assert forall|k: int| 0 <= k < v.deep_view().len() implies v.deep_view()[k]
                    == dv.drop_first()[k] by {}
                assert(v.deep_view() =~= dv.drop_first());
            }
            let mut r = insert_ref(g, v);
            let ghost rv = r.deep_view();
            r.insert(0, first);
            proof {
                assert forall|k: int| 0 <= k < r.deep_view().len() implies r.deep_view()[k] == (
                seq![dv[0]] + insert_by_title(g@, dv.drop_first()))[k] by {
                    if k == 0 {
                        assert(r.deep_view()[0] == first@);
                    } else {
                        assert(r.deep_view()[k] == rv[k - 1]);
                    }
                }
                assert(r.deep_view() =~= seq![dv[0]] + insert_by_title(g@, dv.drop_first()));
            }
            r
        } else {
            let mut r = v;
            r.insert(0, first);
            r.insert(0, g);
            proof {
                assert forall|k: int| 0 <= k < r.deep_view().len() implies r.deep_view()[k] == (
                seq![g@] + dv)[k] by {
                    if k == 0 {
                        assert(r.deep_view()[0] == g@);
                    } else if k == 1 {
                        assert(r.deep_view()[1] == first@);
                    } else {
                        assert(r.deep_view()[k] == dv.drop_first()[k - 2]);
                    }
                }
                assert(r.deep_view() =~= seq![g@] + dv);
            }
            r
        }
    }
}

/// Sorts guide references by title, keeping the original order of equal
/// titles.
fn sort_refs<'a>(v: Vec<&'a Guide>) -> (r: Vec<&'a Guide>)
    ensures
        r.deep_view() == sort_by_title(v.deep_view()),
    decreases v@.len(),
{
    if v.len() == 0 {
        v
    } else {
        let mut v = v;
        let ghost dv = v.deep_view();
        let last = match v.pop() {
            Some(x) => x,
            None => {
                proof {
                    assert(false);
                }
                return v;
            },
        };
        proof {
            assert forall|k: int| 0 <= k < v.deep_view().len() implies v.deep_view()[k]
                == dv.drop_last()[k] by {}
            assert(v.deep_view() =~= dv.drop_last());
            assert(last@ == dv.last());
        }
        let sorted = sort_refs(v);
        insert_ref(last, sorted)
    }
}

/// Container of all guides, keyed by unique id.
#[derive(Debug)]
pub struct GuideRegistry {
    pub guides: Vec<Guide>,
}

impl GuideRegistry {
    /// Well-formedness: no two guides share an id.
    pub open spec fn wf(&self) -> bool {
        unique_ids(self.guides.deep_view())
    }

    /// The registry's mathematical value: its guides, in registration order.
    pub open spec fn reg(&self) -> Seq<GuideView> {
        self.guides.deep_view()
    }

    /// A registry holding the built-in guides.
    pub fn new() -> (r: GuideRegistry)
        ensures
            r.wf(),
            has_guide(r.reg(), "pacman"@, "Основы Pacman"@),
            has_guide(r.reg(), "aur"@, "Работа с AUR"@),
            has_guide(r.reg(), "wifi"@, "Настройка WiFi"@),
            has_guide(r.reg(), "systemd"@, "Управление сервисами"@),
            has_guide(r.reg(), "gpu"@, "Драйверы видеокарты"@),
            has_guide(r.reg(), "audio"@, "Настройка звука"@),
            has_guide(r.reg(), "locale"@, "Локализация системы"@),
            has_guide(r.reg(), "backup"@, "Резервное копирование"@),
    {
        let mut r = GuideRegistry { guides: Vec::new() };
        proof {
            assert(r.guides.deep_view() =~= Seq::<GuideView>::empty());
        }
        r.register_default_guides();
        r
    }

    /// Registers the built-in guides: package management, AUR, WiFi, services,
    /// graphics drivers, audio, locales and backups.
    #[verifier::rlimit(60)]
    pub fn register_default_guides(&mut self)
        requires
            old(self).wf(),
        ensures
            final(self).wf(),
            has_guide(final(self).reg(), "pacman"@, "Основы Pacman"@),
            has_guide(final(self).reg(), "aur"@, "Работа с AUR"@),
            has_guide(final(self).reg(), "wifi"@, "Настройка WiFi"@),
            has_guide(final(self).reg(), "systemd"@, "Управление сервисами"@),
            has_guide(final(self).reg(), "gpu"@, "Драйверы видеокарты"@),
            has_guide(final(self).reg(), "audio"@, "Настройка звука"@),
            has_guide(final(self).reg(), "locale"@, "Локализация системы"@),
            has_guide(final(self).reg(), "backup"@, "Резервное копирование"@),
    {
        proof {
            broadcast use vstd::string::group_string_axioms;

            reveal_strlit("pacman");
            reveal_strlit("aur");
            reveal_strlit("wifi");
            reveal_strlit("systemd");
            reveal_strlit("gpu");
            reveal_strlit("audio");
            reveal_strlit("locale");
            reveal_strlit("backup");
            let ids = seq![
                "pacman"@,
                "aur"@,
                "wifi"@,
                "systemd"@,
                "gpu"@,
                "audio"@,
                "locale"@,
                "backup"@,
            ];
            assert forall|a: int, b: int| 0 <= a < b < 8 implies ids[a] != ids[b] by {
                if ids[a].len() == ids[b].len() {
                    assert(ids[a][0] != ids[b][0]);
                }
            }
        }
        let entry1 = 
            Guide::new("pacman", "Основы Pacman", "Базовые команды пакетного менеджера Arch Linux")
                .add_tags(&["пакеты", "установка", "обновление", "packages"])
                .add_step(GuideStep::new("Обновить список пакетов и систему")
                    .with_command("sudo pacman -Syu")
                    .with_note("Рекомендуется делать перед установкой новых пакетов"))
                .add_step(GuideStep::new("Установить пакет")
                    .with_command("sudo pacman -S <пакет>"))
                .add_step(GuideStep::new("Удалить пакет")
                    .with_command("sudo pacman -R <пакет>"))
                .add_step(GuideStep::new("Удалить пакет с зависимостями")
                    .with_command("sudo pacman -Rns <пакет>")
                    .with_note("Удаляет также неиспользуемые зависимости и конфиги"))
                .add_step(GuideStep::new("Поиск пакета")
                    .with_command("pacman -Ss <запрос>"))
                .add_step(GuideStep::new("Информация о пакете")
                    .with_command("pacman -Si <пакет>"))
                .add_step(GuideStep::new("Список установленных пакетов")
                    .with_command("pacman -Q"))
                .add_step(GuideStep::new("Очистить кэш пакетов")
                    .with_command("sudo pacman -Sc")
                    .with_note("Удаляет старые версии из /var/cache/pacman/pkg"))
        ;
        let ghost s0 = self.reg();
        let ghost gv0 = entry1@;
        proof {
            assert(gv0.id == "pacman"@);
            assert(gv0.steps.len() > 0);
        }
        self.register(entry1);
        proof {
            lemma_insert_guide_finds(s0, gv0);
        }
        let entry2 = 
            Guide::new("aur", "Работа с AUR", "Arch User Repository — пользовательские пакеты")
                .add_tags(&["yay", "aur", "пользовательские", "репозиторий"])
                .add_step(GuideStep::new("Установить yay (AUR helper)")
                    .with_command("sudo pacman -S --needed git base-devel && git clone https://aur.archlinux.org/yay.git && cd yay && makepkg -si"))
                .add_step(GuideStep::new("Поиск в AUR")
                    .with_command("yay -Ss <запрос>")
                    .with_note("Ищет и в официальных репозиториях, и в AUR"))
                .add_step(GuideStep::new("Установить пакет из AUR")
                    .with_command("yay -S <пакет>"))
                .add_step(GuideStep::new("Обновить все пакеты (включая AUR)")
                    .with_command("yay -Syu"))
                .add_step(GuideStep::new("Показать статистику AUR пакетов")
                    .with_command("yay -Ps"))
        ;
        let ghost s1 = self.reg();
        let ghost gv1 = entry2@;
        proof {
            assert(gv1.id == "aur"@);
            assert(gv1.steps.len() > 0);
        }
        self.register(entry2);
        proof {
            lemma_insert_guide_finds(s1, gv1);
            lemma_insert_guide_keeps(s1, gv1, "pacman"@);
        }
        let entry3 = 
            Guide::new("wifi", "Настройка WiFi", "Подключение к беспроводной сети")
                .add_tags(&["сеть", "интернет", "wireless", "network", "вайфай"])
                .add_step(GuideStep::new("Проверить сетевые интерфейсы")
                    .with_command("ip link")
                    .with_note("Найдите интерфейс wlan0 или похожий"))
                .add_step(GuideStep::new("Включить интерфейс")
                    .with_command("sudo ip link set wlan0 up"))
                .add_step(GuideStep::new("Сканировать доступные сети")
                    .with_command("sudo iwlist wlan0 scan | grep ESSID"))
                .add_step(GuideStep::new("Подключиться через iwctl (iwd)")
                    .with_command("iwctl station wlan0 connect <имя_сети>")
                    .with_note("Для WPA сетей запросит пароль"))
                .add_step(GuideStep::new("Или через NetworkManager")
                    .with_command("nmcli device wifi connect <имя_сети> password <пароль>"))
                .add_step(GuideStep::new("Проверить подключение")
                    .with_command("ping -c 3 archlinux.org"))
        ;
        let ghost s2 = self.reg();
        let ghost gv2 = entry3@;
        proof {
            assert(gv2.id == "wifi"@);
            assert(gv2.steps.len() > 0);
        }
        self.register(entry3);
        proof {
            lemma_insert_guide_finds(s2, gv2);
            lemma_insert_guide_keeps(s2, gv2, "pacman"@);
            lemma_insert_guide_keeps(s2, gv2, "aur"@);
        }
        let entry4 = 
            Guide::new("systemd", "Управление сервисами", "Основы работы с systemd")
                .add_tags(&["сервисы", "службы", "services", "демоны"])
                .add_step(GuideStep::new("Статус сервиса")
                    .with_command("systemctl status <сервис>"))
                .add_step(GuideStep::new("Запустить сервис")
                    .with_command("sudo systemctl start <сервис>"))
                .add_step(GuideStep::new("Остановить сервис")
                    .with_command("sudo systemctl stop <сервис>"))
                .add_step(GuideStep::new("Перезапустить сервис")
                    .with_command("sudo systemctl restart <сервис>"))
                .add_step(GuideStep::new("Включить автозапуск")
                    .with_command("sudo systemctl enable <сервис>"))
                .add_step(GuideStep::new("Отключить автозапуск")
                    .with_command("sudo systemctl disable <сервис>"))
                .add_step(GuideStep::new("Список всех сервисов")
                    .with_command("systemctl list-units --type=service"))
                .add_step(GuideStep::new("Просмотр логов сервиса")
                    .with_command("journalctl -u <сервис> -f")
                    .with_note("-f для отслеживания в реальном времени"))
        ;
        let ghost s3 = self.reg();
        let ghost gv3 = entry4@;
        proof {
            assert(gv3.id == "systemd"@);
            assert(gv3.steps.len() > 0);
        }
        self.register(entry4);
        proof {
            lemma_insert_guide_finds(s3, gv3);
            lemma_insert_guide_keeps(s3, gv3, "pacman"@);
            lemma_insert_guide_keeps(s3, gv3, "aur"@);
            lemma_insert_guide_keeps(s3, gv3, "wifi"@);
        }
        let entry5 = 
            Guide::new("gpu", "Драйверы видеокарты", "Установка драйверов для GPU")
                .add_tags(&["видеокарта", "драйверы", "nvidia", "amd", "intel", "графика"])
                .add_step(GuideStep::new("Определить видеокарту")
                    .with_command("lspci -v | grep -i vga"))
                .add_step(GuideStep::new("Для Intel")
                    .with_command("sudo pacman -S mesa intel-media-driver"))
                .add_step(GuideStep::new("Для AMD")
                    .with_command("sudo pacman -S mesa xf86-video-amdgpu vulkan-radeon"))
                .add_step(GuideStep::new("Для NVIDIA (проприетарный)")
                    .with_command("sudo pacman -S nvidia nvidia-utils nvidia-settings")
                    .with_note("После установки нужна перезагрузка"))
                .add_step(GuideStep::new("Для NVIDIA (открытый)")
                    .with_command("sudo pacman -S xf86-video-nouveau"))
                .add_step(GuideStep::new("Проверить драйвер")
                    .with_command("glxinfo | grep 'OpenGL renderer'"))
        ;
        let ghost s4 = self.reg();
        let ghost gv4 = entry5@;
        proof {
            assert(gv4.id == "gpu"@);
            assert(gv4.steps.len() > 0);
        }
        self.register(entry5);
        proof {
            lemma_insert_guide_finds(s4, gv4);
            lemma_insert_guide_keeps(s4, gv4, "pacman"@);
            lemma_insert_guide_keeps(s4, gv4, "aur"@);
            lemma_insert_guide_keeps(s4, gv4, "wifi"@);
            lemma_insert_guide_keeps(s4, gv4, "systemd"@);
        }
        let entry6 = 
            Guide::new("audio", "Настройка звука", "Pipewire и управление аудио")
                .add_tags(&["звук", "аудио", "pipewire", "pulseaudio", "sound"])
                .add_step(GuideStep::new("Установить Pipewire")
                    .with_command("sudo pacman -S pipewire pipewire-pulse pipewire-alsa wireplumber"))
                .add_step(GuideStep::new("Включить сервис")
                    .with_command("systemctl --user enable --now pipewire pipewire-pulse wireplumber"))
                .add_step(GuideStep::new("Установить графический микшер")
                    .with_command("sudo pacman -S pavucontrol"))
                .add_step(GuideStep::new("Проверить устройства вывода")
                    .with_command("wpctl status"))
                .add_step(GuideStep::new("Установить громкость")
                    .with_command("wpctl set-volume @DEFAULT_AUDIO_SINK@ 50%"))
                .add_step(GuideStep::new("Переключить устройство по умолчанию")
                    .with_command("wpctl set-default <ID>")
                    .with_note("ID можно узнать из wpctl status"))
        ;
        let ghost s5 = self.reg();
        let ghost gv5 = entry6@;
        proof {
            assert(gv5.id == "audio"@);
            assert(gv5.steps.len() > 0);
        }
        self.register(entry6);
        proof {
            lemma_insert_guide_finds(s5, gv5);
            lemma_insert_guide_keeps(s5, gv5, "pacman"@);
            lemma_insert_guide_keeps(s5, gv5, "aur"@);
            lemma_insert_guide_keeps(s5, gv5, "wifi"@);
            lemma_insert_guide_keeps(s5, gv5, "systemd"@);
            lemma_insert_guide_keeps(s5, gv5, "gpu"@);
        }
        let entry7 = 
            Guide::new("locale", "Локализация системы", "Настройка языка и раскладки")
                .add_tags(&["язык", "русский", "раскладка", "клавиатура", "локаль"])
                .add_step(GuideStep::new("Раскомментировать нужные локали")
                    .with_command("sudo nano /etc/locale.gen")
                    .with_note("Раскомментируйте en_US.UTF-8 и ru_RU.UTF-8"))
                .add_step(GuideStep::new("Сгенерировать локали")
                    .with_command("sudo locale-gen"))
                .add_step(GuideStep::new("Установить системную локаль")
                    .with_command("sudo localectl set-locale LANG=ru_RU.UTF-8"))
                .add_step(GuideStep::new("Настроить раскладку клавиатуры")
                    .with_command("sudo localectl set-x11-keymap us,ru pc105 , grp:alt_shift_toggle")
                    .with_note("Переключение по Alt+Shift"))
                .add_step(GuideStep::new("Проверить настройки")
                    .with_command("localectl status"))
        ;
        let ghost s6 = self.reg();
        let ghost gv6 = entry7@;
        proof {
            assert(gv6.id == "locale"@);
            assert(gv6.steps.len() > 0);
        }
        self.register(entry7);
        proof {
            lemma_insert_guide_finds(s6, gv6);
            lemma_insert_guide_keeps(s6, gv6, "pacman"@);
            lemma_insert_guide_keeps(s6, gv6, "aur"@);
            lemma_insert_guide_keeps(s6, gv6, "wifi"@);
            lemma_insert_guide_keeps(s6, gv6, "systemd"@);
            lemma_insert_guide_keeps(s6, gv6, "gpu"@);
            lemma_insert_guide_keeps(s6, gv6, "audio"@);
        }
        let entry8 = 
            Guide::new("backup", "Резервное копирование", "Создание бэкапов системы")
                .add_tags(&["бэкап", "backup", "timeshift", "снимки", "восстановление"])
                .add_step(GuideStep::new("Установить Timeshift")
                    .with_command("yay -S timeshift"))
                .add_step(GuideStep::new("Создать снимок системы")
                    .with_command("sudo timeshift --create --comments 'Мой бэкап'"))
                .add_step(GuideStep::new("Список снимков")
                    .with_command("sudo timeshift --list"))
                .add_step(GuideStep::new("Восстановить из снимка")
                    .with_command("sudo timeshift --restore")
                    .with_note("Выберите снимок интерактивно"))
                .add_step(GuideStep::new("Настроить автоматические снимки")
                    .with_command("sudo timeshift-gtk")
                    .with_note("Графический интерфейс для настройки"))
        ;
        let ghost s7 = self.reg();
        let ghost gv7 = entry8@;
        proof {
            assert(gv7.id == "backup"@);
            assert(gv7.steps.len() > 0);
        }
        self.register(entry8);
        proof {
            lemma_insert_guide_finds(s7, gv7);
            lemma_insert_guide_keeps(s7, gv7, "pacman"@);
            lemma_insert_guide_keeps(s7, gv7, "aur"@);
            lemma_insert_guide_keeps(s7, gv7, "wifi"@);
            lemma_insert_guide_keeps(s7, gv7, "systemd"@);
            lemma_insert_guide_keeps(s7, gv7, "gpu"@);
            lemma_insert_guide_keeps(s7, gv7, "audio"@);
            lemma_insert_guide_keeps(s7, gv7, "locale"@);
        }
    }

    /// Registers a guide: replaces the guide with the same id, if any, else
    /// appends.
    pub fn register(&mut self, guide: Guide)
        requires
            old(self).wf(),
        ensures
            final(self).wf(),
            final(self).reg() == insert_guide(old(self).reg(), guide@),
    {
        let ghost s = old(self).reg();
        let ghost gv = guide@;
        let n = self.guides.len();
        let mut i: usize = 0;
        while i < n
            invariant
                n == self.guides@.len(),
                i <= n,
                *self == *old(self),
                s == self.guides.deep_view(),
                gv == guide@,
                old(self).wf(),
                forall|k: int| 0 <= k < i ==> (#[trigger] s[k]).id != gv.id,
            decreases n - i,
        {
            if text::str_eq(self.guides[i].id.as_str(), guide.id.as_str()) {
                proof {
                    assert(s[i as int].id == gv.id);
                }
                let ghost pre = self.guides@;
                self.guides.remove(i);
                self.guides.insert(i, guide);
                proof {
                    let f = self.guides.deep_view();
                    assert(exists|k: int| 0 <= k < s.len() && (#[trigger] s[k]).id == gv.id);
                    let w = choose|k: int| 0 <= k < s.len() && (#[trigger] s[k]).id == gv.id;
                    if w < i {
                        assert((#[trigger] old(self).guides.deep_view()[w]).id != (
                        #[trigger] old(self).guides.deep_view()[i as int]).id);
                        assert(false);
                    } else if i < w {
                        assert((#[trigger] old(self).guides.deep_view()[i as int]).id != (
                        #[trigger] old(self).guides.deep_view()[w]).id);
                        assert(false);
                    }
                    assert(w == i);
                    assert(self.guides@ =~= pre.update(i as int, guide));
                    assert forall|k: int| 0 <= k < f.len() implies f[k] == s.update(i as int, gv)[k]
                        by {
                        if k != i {
                            assert(self.guides@[k] == pre[k]);
                        }
                    }
                    assert(f =~= s.update(i as int, gv));
                }
                return ;
            }
            i = i + 1;
        }
        let ghost pre = self.guides@;
        self.guides.push(guide);
        proof {
            let f = self.guides.deep_view();
            assert(forall|k: int| 0 <= k < s.len() ==> (#[trigger] s[k]).id != gv.id);
            assert forall|k: int| 0 <= k < f.len() implies f[k] == s.push(gv)[k] by {
                if k < s.len() {
                    assert(self.guides@[k] == pre[k]);
                }
            }
            assert(f =~= s.push(gv));
        }
    }

    /// Looks a guide up by exact id.
    pub fn get(&self, id: &str) -> (r: Option<&Guide>)
        ensures
            match r {
                Some(g) => exists|i: int|
                    0 <= i < self.reg().len() && (#[trigger] self.reg()[i]).id == id@ && g@
                        == self.reg()[i],
                None => forall|i: int|
                    0 <= i < self.reg().len() ==> (#[trigger] self.reg()[i]).id != id@,
            },
    {
        let n = self.guides.len();
        let mut i: usize = 0;
        while i < n
            invariant
                n == self.guides@.len(),
                i <= n,
                forall|k: int| 0 <= k < i ==> (#[trigger] self.reg()[k]).id != id@,
            decreases n - i,
        {
            if text::str_eq(self.guides[i].id.as_str(), id) {
                let g = &self.guides[i];
                proof {
                    assert(g@ == self.reg()[i as int]);
                    assert(self.reg()[i as int].id == id@);
                }
                return Some(g);
            }
            i = i + 1;
        }
        None
    }

    /// Keyword search over folded title, description, tags and id.
    pub fn search(&self, query: &str) -> (r: Vec<&Guide>)
        ensures
            r.deep_view() == self.reg().filter(
                |g: GuideView| guide_hit(g, text::fold_seq(query@)),
            ),
    {
        let q = text::fold_chars(&text::to_chars(query));
        let ghost pred = |g: GuideView| guide_hit(g, text::fold_seq(query@));
        let mut out: Vec<&Guide> = Vec::new();
        let mut i: usize = 0;
        while i < self.guides.len()
            invariant
                i <= self.guides@.len(),
                q@ == text::fold_seq(query@),
                pred == (|g: GuideView| guide_hit(g, text::fold_seq(query@))),
                out.deep_view() == self.reg().take(i as int).filter(pred),
            decreases self.guides@.len() - i,
        {
            let g = &self.guides[i];
            let hit = self.guide_matches(g, &q);
            proof {
                reveal(Seq::filter);
                assert(self.reg().take(i + 1).drop_last() =~= self.reg().take(i as int));
                assert(self.reg().take(i + 1).last() == self.reg()[i as int]);
            }
            if hit {
                let ghost before = out.deep_view();
                out.push(g);
                proof {
                    assert forall|k: int| 0 <= k < out.deep_view().len() implies out.deep_view()[k]
                        == before.push(g@)[k] by {
                        if k < before.len() {
                            assert(out.deep_view()[k] == before[k]);
                        }
                    }
                    assert(out.deep_view() =~= before.push(g@));
                    assert(out.deep_view() =~= self.reg().take(i + 1).filter(pred));
                }
            } else {
                proof {
                    assert(out.deep_view() =~= self.reg().take(i + 1).filter(pred));
                }
            }
            i = i + 1;
        }
        proof {
            assert(self.reg().take(self.reg().len() as int) =~= self.reg());
        }
        out
    }

    /// Does one guide match a folded keyword?
    fn guide_matches(&self, g: &Guide, q: &Vec<char>) -> (r: bool)
        ensures
            r == guide_hit(g@, q@),
    {
        let title_f = text::fold_chars(&text::to_chars(g.title.as_str()));
        if text::contains_vec(&title_f, q) {
            return true;
        }
        let desc_f = text::fold_chars(&text::to_chars(g.description.as_str()));
        if text::contains_vec(&desc_f, q) {
            return true;
        }
        let mut i: usize = 0;
        while i < g.tags.len()
            invariant
                i <= g.tags@.len(),
                forall|k: int|
                    0 <= k < i ==> !text::contains_seq(
                        text::fold_seq(#[trigger] g@.tags[k]),
                        q@,
                    ),
            decreases g.tags@.len() - i,
        {
            let tag_f = text::fold_chars(&text::to_chars(g.tags[i].as_str()));
            if text::contains_vec(&tag_f, q) {
                proof {
                    assert(g@.tags[i as int] == g.tags@[i as int]@);
                    assert(text::contains_seq(text::fold_seq(g@.tags[i as int]), q@));
                }
                return true;
            }
            i = i + 1;
        }
        let id_f = text::fold_chars(&text::to_chars(g.id.as_str()));
        if text::contains_vec(&id_f, q) {
            return true;
        }
        false
    }

    /// References to all guides, sorted by title.
    fn sorted_by_title<'a>(&'a self) -> (r: Vec<&'a Guide>)
        ensures
            r.deep_view() == sort_by_title(self.reg()),
    {
        let mut refs: Vec<&Guide> = Vec::new();
        let mut i: usize = 0;
        while i < self.guides.len()
            invariant
                i <= self.guides@.len(),
                refs.deep_view().len() == i,
                forall|k: int| 0 <= k < i ==> #[trigger] refs.deep_view()[k] == self.reg()[k],
            decreases self.guides@.len() - i,
        {
            let ghost before = refs.deep_view();
            let gr = &self.guides[i];
            proof {
                assert(gr@ == self.reg()[i as int]);
            }
            refs.push(gr);
            i = i + 1;
            proof {
                assert forall|k: int| 0 <= k < i implies #[trigger] refs.deep_view()[k]
                    == self.reg()[k] by {
                    if k < before.len() {
                        assert(refs.deep_view()[k] == before[k]);
                    } else {
                        assert(refs.deep_view()[k] == gr@);
                    }
                }
            }
        }
        proof {
            assert(refs.deep_view() =~= self.reg());
        }
        sort_refs(refs)
    }

    /// Renders the catalog: a header, one line per guide sorted by title, and
    /// a usage hint.
    pub fn format_list(&self) -> (r: String)
        ensures
            r@ == "📚 Доступные гайды:\n\n"@ + catalog_lines(sort_by_title(self.reg()))
                + "\nИспользуйте: гайд <название>"@,
    {
        let sorted = self.sorted_by_title();
        let lines = render_catalog_lines(&sorted);
        let mut out = String::new();
        out.append("📚 Доступные гайды:\n\n");
        out.append(lines.as_str());
        out.append("\nИспользуйте: гайд <название>");
        out
    }

    /// The id and title of every guide, in registration order.
    pub fn list(&self) -> (r: Vec<(String, String)>)
        ensures
            r.deep_view().len() == self.reg().len(),
            forall|k: int|
                0 <= k < self.reg().len() ==> #[trigger] r.deep_view()[k] == ((
                #[trigger] self.reg()[k]).id, self.reg()[k].title),
    {
        let mut out: Vec<(String, String)> = Vec::new();
        let mut i: usize = 0;
        while i < self.guides.len()
            invariant
                i <= self.guides@.len(),
                out.deep_view().len() == i,
                forall|k: int|
                    0 <= k < i ==> #[trigger] out.deep_view()[k] == ((#[trigger] self.reg()[k]).id,
                    self.reg()[k].title),
            decreases self.guides@.len() - i,
        {
            let g = &self.guides[i];
            let ghost before = out.deep_view();
            out.push((g.id.clone(), g.title.clone()));
            i = i + 1;
            proof {
                assert forall|k: int| 0 <= k < i implies #[trigger] out.deep_view()[k] == ((
                #[trigger] self.reg()[k]).id, self.reg()[k].title) by {
                    if k < before.len() {
                        assert(out.deep_view()[k] == before[k]);
                    } else {
                        assert(out.deep_view()[k] == (g.id@, g.title@));
                    }
                }
            }
        }
        out
    }
}

impl Default for GuideRegistry {
    /// Same contents as [`GuideRegistry::new`].
    fn default() -> (r: GuideRegistry)
        ensures
            r.wf(),
    {
        GuideRegistry::new()
    }
}

} // verus!
