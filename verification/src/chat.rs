//! The bounded chat history: an append-only ordered log of messages that
//! evicts its oldest entry on overflow.
use vstd::prelude::*;
use crate::clock;

verus! {

/// Capacity of the chat history.
pub const MAX_CHAT_MESSAGES: usize = 100;

/// One chat message; immutable once created.
#[derive(Debug, Clone)]
pub struct ChatMessage {
    pub sender: String,
    pub text: String,
    /// Wall-clock time of the append, rendered `HH:MM:SS`.
    pub timestamp: String,
}

/// Mathematical value of a [`ChatMessage`].
pub ghost struct MessageView {
    pub sender: Seq<char>,
    pub text: Seq<char>,
    pub timestamp: Seq<char>,
}

impl View for ChatMessage {
    type V = MessageView;

    open spec fn view(&self) -> MessageView {
        MessageView { sender: self.sender@, text: self.text@, timestamp: self.timestamp@ }
    }
}

impl DeepView for ChatMessage {
    type V = MessageView;

    open spec fn deep_view(&self) -> MessageView {
        self.view()
    }
}

/// Appending to a log of capacity `cap`: the message goes at the end, and if
/// the log was full the oldest entry leaves.
pub open spec fn bounded_push<T>(s: Seq<T>, m: T, cap: nat) -> Seq<T> {
    if s.len() < cap {
        s.push(m)
    } else {
        s.push(m).skip(s.len() + 1 - cap)
    }
}

/// All of `ms` appended in order, starting from `s`.
pub open spec fn bounded_push_all<T>(s: Seq<T>, ms: Seq<T>, cap: nat) -> Seq<T>
    decreases ms.len(),
{
    if ms.len() == 0 {
        s
    } else {
        bounded_push_all(bounded_push(s, ms[0], cap), ms.drop_first(), cap)
    }
}

/// Law: appending any sequence of messages to a bounded log keeps exactly the
/// newest `cap` of the appended-so-far messages, in order.
pub proof fn lemma_log_bounding<T>(s: Seq<T>, ms: Seq<T>, cap: nat)
    requires
        cap > 0,
        s.len() <= cap,
    ensures
        ({
            let total = s.len() + ms.len();
            let dropped: int = if total > cap {
                total - cap
            } else {
                0
            };
            bounded_push_all(s, ms, cap) == (s + ms).skip(dropped)
        }),
    decreases ms.len(),
{
    if ms.len() == 0 {
        assert((s + ms).skip(0) =~= s);
    } else {
        let m = ms[0];
        let rest = ms.drop_first();
        let s2 = bounded_push(s, m, cap);
        if s.len() < cap {
            assert(s2 =~= s.push(m));
            lemma_log_bounding(s2, rest, cap);
            assert(s2 + rest =~= s + ms);
        } else {
            assert(s.len() == cap);
            assert(s2 =~= s.push(m).skip(1));
            assert(s2.len() == cap);
            lemma_log_bounding(s2, rest, cap);
            let total = s.len() + ms.len();
            assert(total > cap);
            let t2 = s2.len() + rest.len();
            let d2: int = if t2 > cap {
                t2 - cap
            } else {
                0
            };
            assert((s2 + rest).skip(d2) =~= (s + ms).skip(total - cap));
        }
    }
}

/// Law specialized to a log that starts empty: after at least `cap` appends
/// the log holds exactly the last `cap` appended messages, in order.
pub proof fn lemma_log_keeps_newest<T>(ms: Seq<T>, cap: nat)
    requires
        cap > 0,
        ms.len() >= cap,
    ensures
        bounded_push_all(Seq::<T>::empty(), ms, cap) == ms.skip(ms.len() - cap),
        bounded_push_all(Seq::<T>::empty(), ms, cap).len() == cap,
{
    lemma_log_bounding(Seq::<T>::empty(), ms, cap);
    assert((Seq::<T>::empty() + ms) =~= ms);
    assert(bounded_push_all(Seq::<T>::empty(), ms, cap) =~= ms.skip(ms.len() - cap));
}

/// Ordered log of chat messages, never longer than its capacity.
pub struct ChatHistory {
    pub messages: Vec<ChatMessage>,
    pub max_messages: usize,
}

impl ChatHistory {
    /// Well-formedness: positive capacity, length within it.
    pub open spec fn wf(&self) -> bool {
        &&& self.max_messages > 0
        &&& self.messages@.len() <= self.max_messages
    }

    /// The log's mathematical value: its messages, oldest first.
    pub open spec fn log(&self) -> Seq<MessageView> {
        self.messages.deep_view()
    }

    /// An empty log with the given capacity.
    pub fn new(max_messages: usize) -> (h: ChatHistory)
        requires
            max_messages > 0,
        ensures
            h.wf(),
            h.log().len() == 0,
            h.max_messages == max_messages,
    {
        let h = ChatHistory { messages: Vec::new(), max_messages };
        proof {
            assert(h.log() =~= Seq::<MessageView>::empty());
        }
        h
    }

    /// Appends a message with the given timestamp, evicting the oldest entry
    /// if the log was full.
    pub fn add_message_at(&mut self, sender: &str, text: &str, timestamp: &str)
        requires
            old(self).wf(),
        ensures
            final(self).wf(),
            final(self).max_messages == old(self).max_messages,
            final(self).log() == bounded_push(
                old(self).log(),
                MessageView { sender: sender@, text: text@, timestamp: timestamp@ },
                old(self).max_messages as nat,
            ),
    {
        let ghost m = MessageView { sender: sender@, text: text@, timestamp: timestamp@ };
        let ghost e = old(self).log();
        let msg = ChatMessage {
            sender: sender.to_owned(),
            text: text.to_owned(),
            timestamp: timestamp.to_owned(),
        };
        self.messages.push(msg);
        if self.messages.len() > self.max_messages {
            self.messages.remove(0);
            proof {
                let f = self.log();
                assert forall|i: int| 0 <= i < f.len() implies f[i] == e.push(m).skip(1)[i] by {
                    assert(self.messages@[i] == old(self).messages@.push(msg)[i + 1]);
                }
                assert(f =~= e.push(m).skip(1));
            }
        } else {
            proof {
                let f = self.log();
                assert forall|i: int| 0 <= i < f.len() implies f[i] == e.push(m)[i] by {
                    assert(self.messages@[i] == old(self).messages@.push(msg)[i]);
                }
                assert(f =~= e.push(m));
            }
        }
    }

    /// Appends a message stamped with the current wall-clock time.
    pub fn add_message(&mut self, sender: &str, text: &str)
        requires
            old(self).wf(),
        ensures
            final(self).wf(),
            final(self).max_messages == old(self).max_messages,
            exists|ts: Seq<char>|
                ts.len() == 8 && final(self).log() == bounded_push(
                    old(self).log(),
                    MessageView { sender: sender@, text: text@, timestamp: ts },
                    old(self).max_messages as nat,
                ),
    {
        let stamp = clock::now_stamp();
        self.add_message_at(sender, text, stamp.time.as_str());
    }

    /// Removes every message.
    pub fn clear(&mut self)
        ensures
            final(self).wf() == (final(self).max_messages > 0),
            final(self).max_messages == old(self).max_messages,
            final(self).log().len() == 0,
    {
        self.messages = Vec::new();
        proof {
            assert(self.log() =~= Seq::<MessageView>::empty());
        }
    }

    /// The stored messages, oldest first.
    pub fn messages(&self) -> (r: &Vec<ChatMessage>)
        ensures
            r == &self.messages,
    {
        &self.messages
    }
}

impl Default for ChatHistory {
    /// An empty log with the default capacity.
    fn default() -> (h: ChatHistory)
        ensures
            h.wf(),
            h.log().len() == 0,
            h.max_messages == MAX_CHAT_MESSAGES,
    {
        ChatHistory::new(MAX_CHAT_MESSAGES)
    }
}

} // verus!
