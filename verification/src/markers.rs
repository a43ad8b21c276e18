//! The marker substitution engine: model responses may carry bracketed
//! markers — `[TOOL:name]` for inline info substitution and `[CMD:text]` for
//! re-entrant command execution. Markers are scanned non-overlapping, left to
//! right; a marker without a closing bracket, or with an empty payload, is
//! left as plain text.
use vstd::prelude::*;
use crate::text;
use crate::tools::{self, SystemReport, ToolRegistry, ToolView};

verus! {

/// The position of the first `]` at or after `from`.
pub open spec fn first_close(s: Seq<char>, from: int) -> Option<int>
    decreases s.len() - from,
{
    if from < 0 || from >= s.len() {
        None
    } else if s[from] == ']' {
        Some(from)
    } else {
        first_close(s, from + 1)
    }
}

/// A scan that saw no `]` up to `k` pins the value of [`first_close`].
pub proof fn lemma_first_close_at(s: Seq<char>, from: int, k: int)
    requires
        0 <= from <= k <= s.len(),
        forall|m: int| from <= m < k ==> s[m] != ']',
        k == s.len() || s[k] == ']',
    ensures
        first_close(s, from) == if k == s.len() {
            None::<int>
        } else {
            Some(k)
        },
    decreases k - from,
{
    if from == k {
    } else {
        assert(s[from] != ']');
        lemma_first_close_at(s, from + 1, k);
    }
}

/// The text with every well-formed `[TOOL:name]` marker replaced: a known
/// tool by its output for the given report, an unknown tool by a visible
/// `[?name]` placeholder.
pub open spec fn resolve_tools_spec(s: Seq<char>, reg: Seq<ToolView>, rep: SystemReport) -> Seq<
    char,
>
    decreases s.len(),
{
    if s.len() == 0 {
        Seq::<char>::empty()
    } else if text::has_prefix(s, "[TOOL:"@) {
        match first_close(s, 6) {
            Some(j) => {
                if 6 < j < s.len() {
                    let name = s.subrange(6, j);
                    let replacement = match tools::find_tool(reg, name) {
                        Some(t) => tools::tool_output(t.kind, rep),
                        None => "[?"@ + name + "]"@,
                    };
                    replacement + resolve_tools_spec(s.skip(j + 1), reg, rep)
                } else {
                    seq![s[0]] + resolve_tools_spec(s.drop_first(), reg, rep)
                }
            },
            None => s,
        }
    } else {
        seq![s[0]] + resolve_tools_spec(s.drop_first(), reg, rep)
    }
}

/// The payloads of the well-formed `[CMD:text]` markers, left to right.
pub open spec fn cmd_payloads_spec(s: Seq<char>) -> Seq<Seq<char>>
    decreases s.len(),
{
    if s.len() == 0 {
        Seq::<Seq<char>>::empty()
    } else if text::has_prefix(s, "[CMD:"@) {
        match first_close(s, 5) {
            Some(j) => {
                if 5 < j < s.len() {
                    seq![s.subrange(5, j)] + cmd_payloads_spec(s.skip(j + 1))
                } else {
                    cmd_payloads_spec(s.drop_first())
                }
            },
            None => Seq::<Seq<char>>::empty(),
        }
    } else {
        cmd_payloads_spec(s.drop_first())
    }
}

/// The position of the first occurrence of `pat` in `s`.
pub open spec fn first_occ(s: Seq<char>, pat: Seq<char>) -> Option<int>
    decreases s.len(),
{
    if text::occurs_at(s, pat, 0) {
        Some(0int)
    } else if s.len() == 0 {
        None
    } else {
        match first_occ(s.drop_first(), pat) {
            Some(i) => Some(i + 1),
            None => None,
        }
    }
}

/// `s` with every non-overlapping occurrence of `pat` replaced by `repl`,
/// left to right; replacements are not rescanned.
pub open spec fn replace_all_spec(s: Seq<char>, pat: Seq<char>, repl: Seq<char>) -> Seq<char>
    decreases s.len(),
{
    if pat.len() == 0 {
        s
    } else {
        match first_occ(s, pat) {
            Some(i) => {
                if 0 <= i && i + pat.len() <= s.len() {
                    s.take(i) + repl + replace_all_spec(s.skip(i + pat.len()), pat, repl)
                } else {
                    s
                }
            },
            None => s,
        }
    }
}

proof fn lemma_occurs_shift(s: Seq<char>, pat: Seq<char>, m: int)
    requires
        s.len() > 0,
        0 <= m,
    ensures
        text::occurs_at(s.drop_first(), pat, m) == text::occurs_at(s, pat, m + 1),
{
    if text::occurs_at(s.drop_first(), pat, m) {
        assert(s.subrange(m + 1, m + 1 + pat.len()) =~= s.drop_first().subrange(
            m,
            m + pat.len(),
        ));
    }
    if text::occurs_at(s, pat, m + 1) {
        assert(s.drop_first().subrange(m, m + pat.len()) =~= s.subrange(
            m + 1,
            m + 1 + pat.len(),
        ));
    }
}

/// A scan that saw no occurrence before `k` pins the value of [`first_occ`].
pub proof fn lemma_first_occ_at(s: Seq<char>, pat: Seq<char>, k: int)
    requires
        0 <= k <= s.len(),
        forall|m: int| 0 <= m < k ==> !text::occurs_at(s, pat, m),
        text::occurs_at(s, pat, k) || forall|m: int| !text::occurs_at(s, pat, m),
    ensures
        first_occ(s, pat) == if text::occurs_at(s, pat, k) {
            Some(k)
        } else {
            None::<int>
        },
    decreases k,
{
    if text::occurs_at(s, pat, k) {
        if k == 0 {
        } else {
            assert(!text::occurs_at(s, pat, 0));
            assert(s.len() > 0);
            let t = s.drop_first();
            assert forall|m: int| 0 <= m < k - 1 implies !text::occurs_at(t, pat, m) by {
                lemma_occurs_shift(s, pat, m);
            }
            lemma_occurs_shift(s, pat, k - 1);
            lemma_first_occ_at(t, pat, k - 1);
        }
    } else {
        assert(forall|m: int| !text::occurs_at(s, pat, m));
        lemma_first_occ_none(s, pat);
    }
}

proof fn lemma_first_occ_none(s: Seq<char>, pat: Seq<char>)
    requires
        forall|m: int| !text::occurs_at(s, pat, m),
    ensures
        first_occ(s, pat) is None,
    decreases s.len(),
{
    if s.len() == 0 {
    } else {
        let t = s.drop_first();
        assert forall|m: int| !text::occurs_at(t, pat, m) by {
            if 0 <= m {
                lemma_occurs_shift(s, pat, m);
            } else {
                assert(!text::occurs_at(t, pat, m));
            }
        }
        lemma_first_occ_none(t, pat);
    }
}

/// Replaces every non-overlapping occurrence of `pat` in `s` by `repl`.
pub fn replace_all(s: &str, pat: &str, repl: &str) -> (r: String)
    ensures
        r@ == replace_all_spec(s@, pat@, repl@),
{
    let v = text::to_chars(s);
    let n = v.len();
    let m = pat.unicode_len();
    if m == 0 {
        return text::chars_to_string(v.as_slice());
    }
    let mut out = String::new();
    let mut i: usize = 0;
    proof {
        assert(v@.skip(0) =~= v@);
        assert(out@ + replace_all_spec(v@, pat@, repl@) =~= replace_all_spec(v@, pat@, repl@));
    }
    while i < n
        invariant
            n == v@.len(),
            n == v.len(),
            v@ == s@,
            m == pat@.len(),
            m >= 1,
            i <= n,
            replace_all_spec(s@, pat@, repl@) == out@ + replace_all_spec(
                v@.skip(i as int),
                pat@,
                repl@,
            ),
        decreases n - i,
    {
        let ghost t = v@.skip(i as int);
        let ghost before = out@;
        let hit = n - i >= m && text::matches_at(&v, pat, i);
        proof {
            if n - i >= m {
                assert(v@.subrange(i as int, i + m) =~= t.subrange(0, m as int));
            }
            assert(hit == text::occurs_at(t, pat@, 0));
        }
        if hit {
            out.append(repl);
            proof {
                lemma_first_occ_at(t, pat@, 0);
                assert(first_occ(t, pat@) == Some(0int));
                assert(t.take(0) =~= Seq::<char>::empty());
                assert(t.skip(m as int) =~= v@.skip(i + m));
                assert(replace_all_spec(t, pat@, repl@) == t.take(0) + repl@ + replace_all_spec(
                    v@.skip(i + m),
                    pat@,
                    repl@,
                ));
                assert(out@ + replace_all_spec(v@.skip(i + m), pat@, repl@) =~= before + (t.take(0)
                    + repl@ + replace_all_spec(v@.skip(i + m), pat@, repl@)));
            }
            i = i + m;
        } else {
            text::push_char(&mut out, v[i]);
            proof {
                assert(!text::occurs_at(t, pat@, 0));
                assert(t.len() > 0);
                let t1 = t.drop_first();
                assert(t1 =~= v@.skip(i + 1));
                match first_occ(t1, pat@) {
                    Some(k) => {
                        lemma_first_occ_at_unfold(t, pat@);
                        assert(first_occ(t, pat@) == Some(k + 1));
                        assert(0 <= k && k + pat@.len() <= t1.len()) by {
                            lemma_first_occ_in_range(t1, pat@);
                        }
                        assert(t.take(k + 1) =~= seq![t[0]] + t1.take(k));
                        assert(t.skip(k + 1 + pat@.len()) =~= t1.skip(k + pat@.len()));
                        assert(replace_all_spec(t, pat@, repl@) == t.take(k + 1) + repl@
                            + replace_all_spec(t1.skip(k + pat@.len()), pat@, repl@));
                        assert(replace_all_spec(t1, pat@, repl@) == t1.take(k) + repl@
                            + replace_all_spec(t1.skip(k + pat@.len()), pat@, repl@));
                        assert(replace_all_spec(t, pat@, repl@) =~= seq![t[0]] + replace_all_spec(
                            t1,
                            pat@,
                            repl@,
                        ));
                    },
                    None => {
                        lemma_first_occ_at_unfold(t, pat@);
                        assert(first_occ(t, pat@) is None);
                        assert(replace_all_spec(t, pat@, repl@) == t);
                        assert(replace_all_spec(t1, pat@, repl@) == t1);
                        assert(replace_all_spec(t, pat@, repl@) =~= seq![t[0]] + replace_all_spec(
                            t1,
                            pat@,
                            repl@,
                        ));
                    },
                }
                assert(out@ + replace_all_spec(v@.skip(i + 1), pat@, repl@) =~= before + (seq![
                    t[0],
                ] + replace_all_spec(v@.skip(i + 1), pat@, repl@)));
            }
            i = i + 1;
        }
    }
    proof {
        assert(v@.skip(n as int) =~= Seq::<char>::empty());
        assert(out@ + replace_all_spec(Seq::<char>::empty(), pat@, repl@) =~= out@);
    }
    out
}

proof fn lemma_first_occ_at_unfold(s: Seq<char>, pat: Seq<char>)
    requires
        s.len() > 0,
        !text::occurs_at(s, pat, 0),
    ensures
        first_occ(s, pat) == match first_occ(s.drop_first(), pat) {
            Some(i) => Some(i + 1),
            None => None::<int>,
        },
{
}

proof fn lemma_first_occ_in_range(s: Seq<char>, pat: Seq<char>)
    requires
        first_occ(s, pat) matches Some(k),
    ensures
        first_occ(s, pat) matches Some(k) ==> 0 <= k && k + pat.len() <= s.len() && text::occurs_at(
            s,
            pat,
            k,
        ),
    decreases s.len(),
{
    if text::occurs_at(s, pat, 0) {
    } else if s.len() == 0 {
    } else {
        match first_occ(s.drop_first(), pat) {
            Some(i) => {
                lemma_first_occ_in_range(s.drop_first(), pat);
                lemma_occurs_shift(s, pat, i);
            },
            None => {},
        }
    }
}

/// Splits `s` at the first occurrence of `sep`: the part before it and the
/// part after it, or nothing when `sep` does not occur.
pub fn split_at_first(s: &str, sep: &str) -> (r: Option<(String, String)>)
    ensures
        match first_occ(s@, sep@) {
            Some(i) => r matches Some(p) && p.0@ == s@.take(i) && p.1@ == s@.skip(i + sep@.len()),
            None => r is None,
        },
{
    let v = text::to_chars(s);
    let n = v.len();
    let m = sep.unicode_len();
    if m > n {
        proof {
            assert(forall|k: int| !text::occurs_at(v@, sep@, k));
            lemma_first_occ_none(v@, sep@);
        }
        return None;
    }
    if m == 0 {
        proof {
            assert(v@.subrange(0, 0) =~= sep@);
            assert(text::occurs_at(v@, sep@, 0));
            assert(v@.take(0) =~= Seq::<char>::empty());
            assert(v@.skip(0) =~= v@);
        }
        let after = text::chars_to_string(v.as_slice());
        return Some((String::new(), after));
    }
    let limit = n - m;
    let mut i: usize = 0;
    while i <= limit
        invariant
            n == v@.len(),
            n == v.len(),
            v@ == s@,
            m == sep@.len(),
            1 <= m <= n,
            limit == n - m,
            i <= limit + 1,
            forall|k: int| 0 <= k < i ==> !text::occurs_at(v@, sep@, k),
        decreases limit + 1 - i,
    {
        if text::matches_at(&v, sep, i) {
            proof {
                lemma_first_occ_at(v@, sep@, i as int);
            }
            let before = text::chars_to_string(text::slice_range(&v, 0, i).as_slice());
            let after = text::chars_to_string(text::tail_from(&v, i + m).as_slice());
            proof {
                assert(before@ =~= v@.take(i as int));
            }
            return Some((before, after));
        }
        i = i + 1;
    }
    proof {
        assert(forall|k: int| text::occurs_at(v@, sep@, k) ==> 0 <= k && k + m <= v@.len());
        assert(forall|k: int| !text::occurs_at(v@, sep@, k));
        lemma_first_occ_none(v@, sep@);
    }
    None
}

/// Law: text without an opening bracket resolves to itself and carries no
/// command markers.
pub proof fn lemma_plain_text_unchanged(s: Seq<char>, reg: Seq<ToolView>, rep: SystemReport)
    requires
        forall|i: int| 0 <= i < s.len() ==> s[i] != '[',
    ensures
        resolve_tools_spec(s, reg, rep) == s,
        cmd_payloads_spec(s) == Seq::<Seq<char>>::empty(),
    decreases s.len(),
{
    reveal_strlit("[TOOL:");
    reveal_strlit("[CMD:");
    if s.len() == 0 {
        assert(resolve_tools_spec(s, reg, rep) =~= s);
    } else {
        assert(s[0] != '[');
        assert(!text::has_prefix(s, "[TOOL:"@)) by {
            if text::has_prefix(s, "[TOOL:"@) {
                assert(s.subrange(0, 6)[0] == '[');
            }
        }
        assert(!text::has_prefix(s, "[CMD:"@)) by {
            if text::has_prefix(s, "[CMD:"@) {
                assert(s.subrange(0, 5)[0] == '[');
            }
        }
        let t = s.drop_first();
        assert(forall|i: int| 0 <= i < t.len() ==> #[trigger] t[i] != '[');
        lemma_plain_text_unchanged(t, reg, rep);
        assert(seq![s[0]] + t =~= s);
    }
}

/// Resolves every well-formed `[TOOL:name]` marker against the registry and
/// its current report.
pub fn resolve_tools(input: &str, registry: &ToolRegistry) -> (r: String)
    ensures
        r@ == resolve_tools_spec(input@, registry.reg(), registry.report),
{
    let ghost reg = registry.reg();
    let ghost rep = registry.report;
    let v = text::to_chars(input);
    let n = v.len();
    let mut out = String::new();
    let mut i: usize = 0;
    proof {
        assert(v@.skip(0) =~= v@);
        assert(out@ + resolve_tools_spec(v@, reg, rep) =~= resolve_tools_spec(v@, reg, rep));
    }
    while i < n
        invariant
            n == v@.len(),
            v@ == input@,
            reg == registry.reg(),
            rep == registry.report,
            i <= n,
            resolve_tools_spec(input@, reg, rep) == out@ + resolve_tools_spec(
                v@.skip(i as int),
                reg,
                rep,
            ),
        decreases n - i,
    {
        let ghost s = v@.skip(i as int);
        let ghost before = out@;
        proof {
            reveal_strlit("[TOOL:");
            assert("[TOOL:"@.len() == 6) by {
                broadcast use vstd::string::group_string_axioms;

            }
        }
        let is_marker = n - i >= 6 && text::matches_at(&v, "[TOOL:", i);
        proof {
            assert(s.len() > 0);
            if n - i >= 6 {
                assert(v@.subrange(i as int, i + 6) =~= s.subrange(0, 6));
            } else {
                assert(!text::has_prefix(s, "[TOOL:"@));
            }
        }
        if is_marker {
            let mut j: usize = i + 6;
            while j < n && v[j] != ']'
                invariant
                    n == v@.len(),
                    n == v.len(),
                    i + 6 <= j <= n,
                    forall|m: int| i + 6 <= m < j ==> v@[m] != ']',
                decreases n - j,
            {
                j = j + 1;
            }
            proof {
                assert(forall|m: int|
                    6 <= m < j - i ==> #[trigger] s[m] == v@[i + m] && v@[i + m] != ']');
                if j < n {
                    assert(s[j - i] == ']');
                }
                lemma_first_close_at(s, 6, j - i);
            }
            if j == n {
                let rest = text::chars_to_string(text::tail_from(&v, i).as_slice());
                out.append(rest.as_str());
                proof {
                    assert(first_close(s, 6) is None);
                    assert(resolve_tools_spec(s, reg, rep) == s);
                    assert(out@ =~= before + resolve_tools_spec(s, reg, rep));
                }
                return out;
            }
            if j == i + 6 {
                text::push_char(&mut out, v[i]);
                proof {
                    assert(first_close(s, 6) == Some(6int));
                    assert(s.drop_first() =~= v@.skip(i + 1));
                    assert(resolve_tools_spec(s, reg, rep) == seq![s[0]] + resolve_tools_spec(
                        v@.skip(i + 1),
                        reg,
                        rep,
                    ));
                    assert(out@ + resolve_tools_spec(v@.skip(i + 1), reg, rep) =~= before + (seq![
                        s[0],
                    ] + resolve_tools_spec(v@.skip(i + 1), reg, rep)));
                }
                i = i + 1;
            } else {
                let name_chars = text::slice_range(&v, i + 6, j);
                let name = text::chars_to_string(name_chars.as_slice());
                proof {
                    assert(name@ =~= s.subrange(6, j - i));
                }
                let ghost replacement = match tools::find_tool(reg, s.subrange(6, j - i)) {
                    Some(t) => tools::tool_output(t.kind, rep),
                    None => "[?"@ + s.subrange(6, j - i) + "]"@,
                };
                match registry.execute(name.as_str()) {
                    Some(output) => {
                        out.append(output.as_str());
                    },
                    None => {
                        out.append("[?");
                        out.append(name.as_str());
                        out.append("]");
                    },
                }
                proof {
                    assert(out@ =~= before + replacement);
                    assert(first_close(s, 6) == Some(j - i));
                    assert(6 < j - i < s.len());
                    assert(s.skip(j - i + 1) =~= v@.skip(j + 1));
                    assert(resolve_tools_spec(s, reg, rep) == replacement + resolve_tools_spec(
                        v@.skip(j + 1),
                        reg,
                        rep,
                    ));
                    assert(out@ + resolve_tools_spec(v@.skip(j + 1), reg, rep) =~= before + (
                    replacement + resolve_tools_spec(v@.skip(j + 1), reg, rep)));
                }
                i = j + 1;
            }
        } else {
            text::push_char(&mut out, v[i]);
            proof {
                assert(s.drop_first() =~= v@.skip(i + 1));
                assert(resolve_tools_spec(s, reg, rep) == seq![s[0]] + resolve_tools_spec(
                    v@.skip(i + 1),
                    reg,
                    rep,
                ));
                assert(out@ + resolve_tools_spec(v@.skip(i + 1), reg, rep) =~= before + (seq![
                    s[0],
                ] + resolve_tools_spec(v@.skip(i + 1), reg, rep)));
            }
            i = i + 1;
        }
    }
    proof {
        assert(v@.skip(n as int) =~= Seq::<char>::empty());
        assert(out@ + resolve_tools_spec(Seq::<char>::empty(), reg, rep) =~= out@);
    }
    out
}

/// Collects the payloads of the well-formed `[CMD:text]` markers.
pub fn find_cmd_payloads(input: &str) -> (r: Vec<String>)
    ensures
        r.deep_view() == cmd_payloads_spec(input@),
{
    let v = text::to_chars(input);
    let n = v.len();
    let mut out: Vec<String> = Vec::new();
    let mut i: usize = 0;
    proof {
        assert(v@.skip(0) =~= v@);
        assert(out.deep_view() + cmd_payloads_spec(v@) =~= cmd_payloads_spec(v@));
    }
    while i < n
        invariant
            n == v@.len(),
            v@ == input@,
            i <= n,
            cmd_payloads_spec(input@) == out.deep_view() + cmd_payloads_spec(v@.skip(i as int)),
        decreases n - i,
    {
        let ghost s = v@.skip(i as int);
        let ghost before = out.deep_view();
        proof {
            reveal_strlit("[CMD:");
            assert("[CMD:"@.len() == 5) by {
                broadcast use vstd::string::group_string_axioms;

            }
        }
        let is_marker = n - i >= 5 && text::matches_at(&v, "[CMD:", i);
        proof {
            assert(s.len() > 0);
            if n - i >= 5 {
                assert(v@.subrange(i as int, i + 5) =~= s.subrange(0, 5));
            } else {
                assert(!text::has_prefix(s, "[CMD:"@));
            }
        }
        if is_marker {
            let mut j: usize = i + 5;
            while j < n && v[j] != ']'
                invariant
                    n == v@.len(),
                    n == v.len(),
                    i + 5 <= j <= n,
                    forall|m: int| i + 5 <= m < j ==> v@[m] != ']',
                decreases n - j,
            {
                j = j + 1;
            }
            proof {
                assert(forall|m: int|
                    5 <= m < j - i ==> #[trigger] s[m] == v@[i + m] && v@[i + m] != ']');
                if j < n {
                    assert(s[j - i] == ']');
                }
                lemma_first_close_at(s, 5, j - i);
            }
            if j == n {
                proof {
                    assert(first_close(s, 5) is None);
                    assert(out.deep_view() + cmd_payloads_spec(s) =~= out.deep_view());
                }
                return out;
            }
            if j == i + 5 {
                proof {
                    assert(first_close(s, 5) == Some(5int));
                    assert(s.drop_first() =~= v@.skip(i + 1));
                    assert(cmd_payloads_spec(s) == cmd_payloads_spec(v@.skip(i + 1)));
                }
                i = i + 1;
            } else {
                let payload_chars = text::slice_range(&v, i + 5, j);
                let payload = text::chars_to_string(payload_chars.as_slice());
                out.push(payload);
                proof {
                    assert forall|k: int| 0 <= k < out.deep_view().len() implies out.deep_view()[k]
                        == before.push(s.subrange(5, j - i))[k] by {
                        if k < before.len() {
                            assert(out.deep_view()[k] == before[k]);
                        } else {
                            assert(out.deep_view()[k] =~= s.subrange(5, j - i));
                        }
                    }
                    assert(out.deep_view() =~= before.push(s.subrange(5, j - i)));
                    assert(first_close(s, 5) == Some(j - i));
                    assert(5 < j - i < s.len());
                    assert(s.skip(j - i + 1) =~= v@.skip(j + 1));
                    assert(cmd_payloads_spec(s) == seq![s.subrange(5, j - i)] + cmd_payloads_spec(
                        v@.skip(j + 1),
                    ));
                    assert(out.deep_view() + cmd_payloads_spec(v@.skip(j + 1)) =~= before + (seq![
                        s.subrange(5, j - i),
                    ] + cmd_payloads_spec(v@.skip(j + 1))));
                }
                i = j + 1;
            }
        } else {
            proof {
                assert(s.drop_first() =~= v@.skip(i + 1));
                assert(cmd_payloads_spec(s) == cmd_payloads_spec(v@.skip(i + 1)));
            }
            i = i + 1;
        }
    }
    proof {
        assert(v@.skip(n as int) =~= Seq::<char>::empty());
        assert(out.deep_view() + cmd_payloads_spec(Seq::<char>::empty()) =~= out.deep_view());
    }
    out
}

} // verus!
