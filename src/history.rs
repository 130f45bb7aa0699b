use vstd::prelude::*;

verus! {

/// One chat message as kept in the history. Immutable once appended.
#[derive(Debug, PartialEq, Eq)]
pub struct UserMessage {
    pub key: usize,
    pub user: String,
    pub content: String,
    pub timestamp: String,
    pub replying_to: Option<usize>,
}

impl UserMessage {
    /// A field-by-field copy.
    pub fn duplicate(&self) -> (r: UserMessage)
        ensures
            r == *self,
    {
        UserMessage {
            key: self.key,
            user: self.user.clone(),
            content: self.content.clone(),
            timestamp: self.timestamp.clone(),
            replying_to: self.replying_to,
        }
    }
}

/// Keys strictly increase along `s`.
pub open spec fn keys_increasing(s: Seq<UserMessage>) -> bool {
    forall|i: int, j: int| 0 <= i < j < s.len() ==> s[i].key < s[j].key
}

/// Whether a message with key `key` may follow the messages of `s`.
pub open spec fn may_follow(s: Seq<UserMessage>, key: usize) -> bool {
    s.len() == 0 || s.last().key < key
}

/// The append-only history of chat messages, in order of their keys.
pub struct MessageLog {
    pub messages: Vec<UserMessage>,
}

impl View for MessageLog {
    type V = Seq<UserMessage>;

    open spec fn view(&self) -> Seq<UserMessage> {
        self.messages@
    }
}

impl MessageLog {
    pub open spec fn wf(&self) -> bool {
        keys_increasing(self@)
    }

    pub fn new() -> (r: MessageLog)
        ensures
            r@ == Seq::<UserMessage>::empty(),
            r.wf(),
    {
        MessageLog { messages: Vec::new() }
    }

    pub fn len(&self) -> (r: usize)
        ensures
            r == self@.len(),
    {
        self.messages.len()
    }

    /// Whether `key` is greater than the key of every message in the log.
    pub fn accepts(&self, key: usize) -> (r: bool)
        requires
            self.wf(),
        ensures
            r == may_follow(self@, key),
    {
        let n = self.messages.len();
        n == 0 || self.messages[n - 1].key < key
    }

    /// Adds `message` at the tail. Its key was issued beforehand and is
    /// greater than every key already present.
    pub fn append(&mut self, message: UserMessage)
        requires
            old(self).wf(),
            may_follow(old(self)@, message.key),
        ensures
            final(self).wf(),
            final(self)@ == old(self)@.push(message),
    {
        self.messages.push(message);
        proof {
            let s = self@;
            assert forall|i: int, j: int| 0 <= i < j < s.len() implies s[i].key < s[j].key by {
                if j == s.len() - 1 && i < j {
                    if i < s.len() - 2 {
                        assert(old(self)@[i].key < old(self)@.last().key);
                    }
                }
            }
        }
    }

    /// A full, in-order copy of the log.
    pub fn snapshot(&self) -> (r: Vec<UserMessage>)
        ensures
            r@ == self@,
    {
        let mut r: Vec<UserMessage> = Vec::new();
        let mut i: usize = 0;
        while i < self.messages.len()
            invariant
                i <= self.messages@.len(),
                r@ == self@.subrange(0, i as int),
            decreases self.messages@.len() - i,
        {
            r.push(self.messages[i].duplicate());
            i = i + 1;
            assert(r@ =~= self@.subrange(0, i as int));
        }
        assert(r@ =~= self@);
        r
    }
}

/// After a run of appends that starts on an empty log, the log holds
/// exactly the appended messages, in the order of appending, with strictly
/// increasing keys: `logs[i]` is the log before append `i`, and
/// `appended[i]` the message it added.
pub proof fn lemma_log_after_appends(logs: Seq<Seq<UserMessage>>, appended: Seq<UserMessage>)
    requires
        logs.len() == appended.len() + 1,
        logs[0] == Seq::<UserMessage>::empty(),
        forall|i: int|
            0 <= i < appended.len() ==> may_follow(#[trigger] logs[i], appended[i].key)
                && logs[i + 1] == logs[i].push(appended[i]),
    ensures
        logs.last() == appended,
        logs.last().len() == appended.len(),
        keys_increasing(logs.last()),
{
    lemma_log_prefix(logs, appended, appended.len() as int);
}

proof fn lemma_log_prefix(logs: Seq<Seq<UserMessage>>, appended: Seq<UserMessage>, k: int)
    requires
        logs.len() == appended.len() + 1,
        logs[0] == Seq::<UserMessage>::empty(),
        forall|i: int|
            0 <= i < appended.len() ==> may_follow(#[trigger] logs[i], appended[i].key)
                && logs[i + 1] == logs[i].push(appended[i]),
        0 <= k <= appended.len(),
    ensures
        logs[k] == appended.subrange(0, k),
        keys_increasing(logs[k]),
    decreases k,
{
    if k == 0 {
        assert(logs[0] =~= appended.subrange(0, 0));
    } else {
        lemma_log_prefix(logs, appended, k - 1);
        assert(may_follow(logs[k - 1], appended[k - 1].key) && logs[k] == logs[k - 1].push(appended[k - 1]));
        assert(logs[k] =~= appended.subrange(0, k));
        let s = logs[k];
        assert forall|i: int, j: int| 0 <= i < j < s.len() implies s[i].key < s[j].key by {
            if j == k - 1 && i < k - 2 {
                assert(logs[k - 1][i].key < logs[k - 1].last().key);
            }
        }
    }
}

} // verus!
