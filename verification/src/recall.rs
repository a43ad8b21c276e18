//! Input recall: a bounded history of submitted lines, navigable with a
//! cursor, that never stores the same line twice in a row.
use vstd::prelude::*;
use crate::text;

verus! {

/// Capacity of the recall buffer.
pub const MAX_INPUT_HISTORY: usize = 50;

/// History of submitted input lines for arrow-key recall.
///
/// `position` is `None` while not navigating; while navigating it indexes the
/// entry currently shown, and `current_input` holds the draft that was in the
/// input box when navigation began.
pub struct InputHistory {
    pub entries: Vec<String>,
    pub position: Option<usize>,
    pub current_input: String,
}

/// How recording a line changes the stored entries: blank lines and repeats
/// of the newest entry are dropped, and a full buffer evicts its oldest
/// entry.
pub open spec fn push_effect(input: Seq<char>, e: Seq<Seq<char>>, f: Seq<Seq<char>>) -> bool {
    let t = text::trim_spec(input);
    if t.len() == 0 || (e.len() > 0 && e.last() == t) {
        f == e
    } else if e.len() < MAX_INPUT_HISTORY {
        f == e.push(t)
    } else {
        f == e.push(t).skip(1)
    }
}

impl InputHistory {
    /// Well-formedness: the buffer is bounded and the cursor, when set, is in
    /// bounds.
    pub open spec fn wf(&self) -> bool {
        &&& self.entries@.len() <= MAX_INPUT_HISTORY
        &&& match self.position {
            Some(p) => p < self.entries@.len(),
            None => true,
        }
    }

    /// An empty history with no navigation in progress.
    pub fn new() -> (h: InputHistory)
        ensures
            h.wf(),
            h.entries@.len() == 0,
            h.position is None,
            h.current_input@ == Seq::<char>::empty(),
    {
        InputHistory { entries: Vec::new(), position: None, current_input: String::new() }
    }

    /// Records a submitted line: the line is trimmed, blank lines are ignored,
    /// a line equal to the most recent entry is not stored again, the oldest
    /// entry is evicted when the buffer is full, and the cursor is reset.
    pub fn push(&mut self, input: &str)
        requires
            old(self).wf(),
        ensures
            final(self).wf(),
            final(self).position is None,
            final(self).current_input == old(self).current_input,
            push_effect(input@, old(self).entries.deep_view(), final(self).entries.deep_view()),
    {
        let trimmed_vec = text::trim_chars(&text::to_chars(input));
        let trimmed = text::chars_to_string(trimmed_vec.as_slice());
        let ghost t = text::trim_spec(input@);
        let ghost e = old(self).entries.deep_view();
        if trimmed.as_str().unicode_len() == 0 {
            self.position = None;
            return ;
        }
        let n = self.entries.len();
        let is_dup = n > 0 && text::str_eq(self.entries[n - 1].as_str(), trimmed.as_str());
        proof {
            assert(e.len() > 0 ==> e.last() == old(self).entries@.last()@);
        }
        if !is_dup {
            self.entries.push(trimmed);
            if self.entries.len() > MAX_INPUT_HISTORY {
                self.entries.remove(0);
                proof {
                    let f = self.entries.deep_view();
                    assert(self.entries@ =~= old(self).entries@.push(trimmed).skip(1));
                    assert forall|i: int| 0 <= i < f.len() implies f[i] == e.push(t).skip(1)[i] by {
                        assert(self.entries@[i] == old(self).entries@.push(trimmed)[i + 1]);
                    }
                    assert(f =~= e.push(t).skip(1));
                }
            } else {
                proof {
                    let f = self.entries.deep_view();
                    assert forall|i: int| 0 <= i < f.len() implies f[i] == e.push(t)[i] by {
                        assert(self.entries@[i] == old(self).entries@.push(trimmed)[i]);
                    }
                    assert(f =~= e.push(t));
                }
            }
        }
        self.position = None;
    }

    /// Steps back through the history. On the first step the current draft is
    /// saved and the newest entry is returned; further steps walk toward the
    /// oldest entry and stay there.
    pub fn up(&mut self, current: &str) -> (r: Option<String>)
        requires
            old(self).wf(),
        ensures
            final(self).wf(),
            final(self).entries == old(self).entries,
            ({
                let e = old(self).entries.deep_view();
                match old(self).position {
                    None => {
                        if e.len() == 0 {
                            r is None && *final(self) == *old(self)
                        } else {
                            &&& final(self).position == Some((e.len() - 1) as usize)
                            &&& final(self).current_input@ == current@
                            &&& r matches Some(s) && s@ == e.last()
                        }
                    },
                    Some(p) => {
                        &&& final(self).current_input == old(self).current_input
                        &&& if p == 0 {
                            final(self).position == Some(0usize) && (r matches Some(s) && s@
                                == e[0])
                        } else {
                            final(self).position == Some((p - 1) as usize) && (r matches Some(s)
                                && s@ == e[p - 1])
                        }
                    },
                }
            }),
    {
        if self.entries.len() == 0 {
            return None;
        }
        match self.position {
            None => {
                self.current_input = text::chars_to_string(
                    text::to_chars(current).as_slice(),
                );
                let p = self.entries.len() - 1;
                self.position = Some(p);
                Some(self.entries[p].clone())
            },
            Some(p) => {
                if p == 0 {
                    Some(self.entries[0].clone())
                } else {
                    let q = p - 1;
                    self.position = Some(q);
                    Some(self.entries[q].clone())
                }
            },
        }
    }

    /// Steps forward through the history; stepping past the newest entry ends
    /// navigation and returns the saved draft.
    pub fn down(&mut self) -> (r: Option<String>)
        requires
            old(self).wf(),
        ensures
            final(self).wf(),
            final(self).entries == old(self).entries,
            final(self).current_input == old(self).current_input,
            ({
                let e = old(self).entries.deep_view();
                match old(self).position {
                    None => r is None && *final(self) == *old(self),
                    Some(p) => {
                        if p + 1 >= e.len() {
                            final(self).position is None && (r matches Some(s) && s@ == old(
                                self,
                            ).current_input@)
                        } else {
                            final(self).position == Some((p + 1) as usize) && (r matches Some(s)
                                && s@ == e[p + 1])
                        }
                    },
                }
            }),
    {
        match self.position {
            None => None,
            Some(p) => {
                if p + 1 >= self.entries.len() {
                    self.position = None;
                    Some(self.current_input.clone())
                } else {
                    self.position = Some(p + 1);
                    Some(self.entries[p + 1].clone())
                }
            },
        }
    }

    /// Ends navigation without touching the stored entries.
    pub fn reset(&mut self)
        ensures
            final(self).position is None,
            final(self).entries == old(self).entries,
            final(self).current_input == old(self).current_input,
    {
        self.position = None;
    }
}

impl Default for InputHistory {
    /// Same state as [`InputHistory::new`].
    fn default() -> (h: InputHistory)
        ensures
            h.wf(),
            h.entries@.len() == 0,
            h.position is None,
    {
        InputHistory::new()
    }
}

} // verus!
