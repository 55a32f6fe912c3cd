//! Bot commands: recognising them in chat messages and what each one does
//! and answers.

use vstd::prelude::*;
use vstd::string::*;
use crate::text::{char_is_whitespace, is_whitespace, tail_equals};

verus! {

/// Commands that the bot understands.
#[derive(Clone, Copy, PartialEq, Eq, Structural, Debug)]
pub enum AtsBotCommand {
    /// Register for receiving data.
    Start,
    /// Unsubscribe from receiving data.
    Stop,
    /// Show the subscription status.
    Status,
}

/// What the bot does for a command before it answers.
#[derive(Clone, Copy, PartialEq, Eq, Structural, Debug)]
pub enum CommandAction {
    /// Register the chat (or mark it active again).
    RegisterUser,
    /// Mark the chat inactive.
    DeactivateUser,
    /// Look up whether the chat is active.
    QueryStatus,
}

/// The text with every leading `/` removed (`str::trim_start_matches('/')`).
pub open spec fn strip_slashes(s: Seq<char>) -> Seq<char>
    decreases s.len(),
{
    if s.len() > 0 && s[0] == '/' {
        strip_slashes(s.drop_first())
    } else {
        s
    }
}

/// The command named by a word: `start`, `stop` or `status` after any
/// leading slashes.
pub open spec fn command_for_word(s: Seq<char>) -> Option<AtsBotCommand> {
    let t = strip_slashes(s);
    if t == seq!['s', 't', 'a', 'r', 't'] {
        Some(AtsBotCommand::Start)
    } else if t == seq!['s', 't', 'o', 'p'] {
        Some(AtsBotCommand::Stop)
    } else if t == seq!['s', 't', 'a', 't', 'u', 's'] {
        Some(AtsBotCommand::Status)
    } else {
        None
    }
}

/// The characters of `s` up to its first whitespace character.
pub open spec fn leading_word(s: Seq<char>) -> Seq<char>
    decreases s.len(),
{
    if s.len() == 0 || is_whitespace(s[0]) {
        Seq::empty()
    } else {
        seq![s[0]] + leading_word(s.drop_first())
    }
}

/// The first whitespace-separated word of `s` (`split_whitespace().next()`),
/// empty when `s` holds no word.
pub open spec fn first_word(s: Seq<char>) -> Seq<char>
    decreases s.len(),
{
    if s.len() > 0 && is_whitespace(s[0]) {
        first_word(s.drop_first())
    } else {
        leading_word(s)
    }
}

/// The command that a chat message carries: the command named by its first
/// word, if any; a message without text carries none.
pub open spec fn command_in_text(text: Option<Seq<char>>) -> Option<AtsBotCommand> {
    match text {
        Some(t) => {
            let w = first_word(t);
            if w.len() > 0 {
                command_for_word(w)
            } else {
                None
            }
        },
        None => None,
    }
}

/// Reply to `/start`.
pub open spec fn start_reply() -> Seq<char> {
    "✅ Вы успешно зарегистрированы для получения данных!"@
}

/// Reply to `/stop`.
pub open spec fn stop_reply() -> Seq<char> {
    "❌ Вы отписаны от получения данных."@
}

/// Reply to `/status`.
pub open spec fn status_reply(is_active: bool) -> Seq<char> {
    "📊 Ваш статус: "@ + if is_active {
        "активен"@
    } else {
        "не активен"@
    }
}

/// Removing leading slashes takes away a run of `/` from the front and nothing
/// else, and what is left does not start with `/`.
pub proof fn lemma_strip_slashes_shape(w: Seq<char>)
    ensures
        strip_slashes(w).len() <= w.len(),
        strip_slashes(w) == w.subrange(w.len() - strip_slashes(w).len(), w.len() as int),
        forall|j: int| 0 <= j < w.len() - strip_slashes(w).len() ==> w[j] == '/',
        strip_slashes(w).len() > 0 ==> strip_slashes(w)[0] != '/',
    decreases w.len(),
{
    if w.len() > 0 && w[0] == '/' {
        let t = w.drop_first();
        lemma_strip_slashes_shape(t);
        let n = strip_slashes(t).len();
        assert(t.subrange(t.len() - n, t.len() as int) =~= w.subrange(w.len() - n, w.len() as int));
        assert forall|j: int| 0 <= j < w.len() - n implies w[j] == '/' by {
            if j > 0 {
                assert(w[j] == t[j - 1]);
            }
        }
    } else {
        assert(w.subrange(0, w.len() as int) =~= w);
    }
}

/// A word names a command only when, with its leading slashes removed, it is
/// exactly `start`, `stop` or `status`, and each command comes only from its
/// own word; every other word names none.
pub proof fn lemma_command_words(w: Seq<char>)
    ensures
        command_for_word(w) == Some(AtsBotCommand::Start) <==> strip_slashes(w) == seq![
            's',
            't',
            'a',
            'r',
            't',
        ],
        command_for_word(w) == Some(AtsBotCommand::Stop) <==> strip_slashes(w) == seq![
            's',
            't',
            'o',
            'p',
        ],
        command_for_word(w) == Some(AtsBotCommand::Status) <==> strip_slashes(w) == seq![
            's',
            't',
            'a',
            't',
            'u',
            's',
        ],
        command_for_word(w) is None <==> (strip_slashes(w) != seq!['s', 't', 'a', 'r', 't']
            && strip_slashes(w) != seq!['s', 't', 'o', 'p'] && strip_slashes(w) != seq![
            's',
            't',
            'a',
            't',
            'u',
            's',
        ]),
{
    let t = strip_slashes(w);
    let a = seq!['s', 't', 'a', 'r', 't'];
    let b = seq!['s', 't', 'o', 'p'];
    let c = seq!['s', 't', 'a', 't', 'u', 's'];
    assert(a.len() != b.len() && a.len() != c.len() && b.len() != c.len());
    if t == a {
        assert(t != b && t != c);
    }
    if t == b {
        assert(t != c);
    }
}

/// The first word of a text is a run of non-whitespace characters that is
/// preceded only by whitespace and followed by whitespace or the end; it is
/// empty exactly when the text holds only whitespace. The returned `a` is
/// where the word starts.
pub proof fn lemma_first_word_shape(s: Seq<char>) -> (a: int)
    ensures
        0 <= a <= s.len(),
        a + first_word(s).len() <= s.len(),
        s.subrange(a, a + first_word(s).len()) == first_word(s),
        forall|j: int| 0 <= j < a ==> is_whitespace(#[trigger] s[j]),
        forall|j: int| a <= j < a + first_word(s).len() ==> !is_whitespace(#[trigger] s[j]),
        a + first_word(s).len() < s.len() ==> is_whitespace(s[a + first_word(s).len()]),
        first_word(s).len() == 0 <==> a == s.len(),
    decreases s.len(),
{
    if s.len() > 0 && is_whitespace(s[0]) {
        let t = s.drop_first();
        let b = lemma_first_word_shape(t);
        let w = first_word(t);
        assert(first_word(s) == w);
        assert(s.subrange(b + 1, b + 1 + w.len()) =~= t.subrange(b, b + w.len()));
        assert forall|j: int| 0 <= j < b + 1 implies is_whitespace(#[trigger] s[j]) by {
            if j > 0 {
                assert(s[j] == t[j - 1]);
            }
        }
        assert forall|j: int| b + 1 <= j < b + 1 + w.len() implies !is_whitespace(#[trigger] s[j]) by {
            assert(s[j] == t[j - 1]);
        }
        if b + 1 + w.len() < s.len() {
            assert(s[b + 1 + w.len()] == t[b + w.len()]);
        }
        b + 1
    } else {
        lemma_leading_word_shape(s);
        assert(first_word(s) == leading_word(s));
        if s.len() > 0 {
            assert(leading_word(s) == seq![s[0]] + leading_word(s.drop_first()));
        }
        0
    }
}

proof fn lemma_leading_word_shape(s: Seq<char>)
    ensures
        leading_word(s).len() <= s.len(),
        s.subrange(0, leading_word(s).len() as int) == leading_word(s),
        forall|j: int| 0 <= j < leading_word(s).len() ==> !is_whitespace(s[j]),
        leading_word(s).len() < s.len() ==> is_whitespace(s[leading_word(s).len() as int]),
    decreases s.len(),
{
    if s.len() == 0 || is_whitespace(s[0]) {
        assert(s.subrange(0, 0) =~= Seq::<char>::empty());
    } else {
        let t = s.drop_first();
        lemma_leading_word_shape(t);
        let k = leading_word(t).len() as int;
        assert(seq![s[0]] + t.subrange(0, k as int) =~= s.subrange(0, k + 1));
        assert forall|j: int| 0 <= j < k + 1 implies !is_whitespace(s[j]) by {
            if j > 0 {
                assert(s[j] == t[j - 1]);
            }
        }
        if k + 1 < s.len() {
            assert(s[k + 1] == t[k as int]);
        }
    }
}

/// A leading slash never changes which command a word names.
pub proof fn lemma_slash_prefix_ignored(w: Seq<char>)
    ensures
        command_for_word(seq!['/'] + w) == command_for_word(w),
{
    assert((seq!['/'] + w).drop_first() =~= w);
}

proof fn lemma_strip_suffix(s: Seq<char>, i: int)
    requires
        0 <= i <= s.len(),
        forall|j: int| 0 <= j < i ==> s[j] == '/',
    ensures
        strip_slashes(s) == strip_slashes(s.subrange(i, s.len() as int)),
    decreases i,
{
    if i > 0 {
        assert(s.drop_first().subrange(i - 1, s.drop_first().len() as int) =~= s.subrange(i, s.len() as int));
        lemma_strip_suffix(s.drop_first(), i - 1);
    } else {
        assert(s.subrange(0, s.len() as int) =~= s);
    }
}

impl AtsBotCommand {
    /// Parses a command word: leading slashes are dropped, then the word must
    /// be exactly `start`, `stop` or `status`.
    pub fn from_str(s: &str) -> (r: Option<AtsBotCommand>)
        ensures
            r == command_for_word(s@),
    {
        let n = s.unicode_len();
        let mut i: usize = 0;
        while i < n && s.get_char(i) == '/'
            invariant
                n == s@.len(),
                i <= n,
                forall|j: int| 0 <= j < i ==> s@[j] == '/',
            decreases n - i,
        {
            i = i + 1;
        }
        proof {
            lemma_strip_suffix(s@, i as int);
            let t = s@.subrange(i as int, n as int);
            if t.len() > 0 {
                assert(t[0] == s@[i as int]);
            }
            assert(strip_slashes(t) == t);
        }
        let start: [char; 5] = ['s', 't', 'a', 'r', 't'];
        let stop: [char; 4] = ['s', 't', 'o', 'p'];
        let status: [char; 6] = ['s', 't', 'a', 't', 'u', 's'];
        assert(start@ =~= seq!['s', 't', 'a', 'r', 't']);
        assert(stop@ =~= seq!['s', 't', 'o', 'p']);
        assert(status@ =~= seq!['s', 't', 'a', 't', 'u', 's']);
        if tail_equals(s, i, &start) {
            Some(AtsBotCommand::Start)
        } else if tail_equals(s, i, &stop) {
            Some(AtsBotCommand::Stop)
        } else if tail_equals(s, i, &status) {
            Some(AtsBotCommand::Status)
        } else {
            None
        }
    }

    /// What the bot does for this command.
    pub fn action(&self) -> (r: CommandAction)
        ensures
            *self == AtsBotCommand::Start ==> r == CommandAction::RegisterUser,
            *self == AtsBotCommand::Stop ==> r == CommandAction::DeactivateUser,
            *self == AtsBotCommand::Status ==> r == CommandAction::QueryStatus,
    {
        match self {
            AtsBotCommand::Start => CommandAction::RegisterUser,
            AtsBotCommand::Stop => CommandAction::DeactivateUser,
            AtsBotCommand::Status => CommandAction::QueryStatus,
        }
    }

    /// The answer sent to the chat; `is_active` is the looked-up status and
    /// matters for `/status` only.
    pub fn reply(&self, is_active: bool) -> (r: String)
        ensures
            *self == AtsBotCommand::Start ==> r@ == start_reply(),
            *self == AtsBotCommand::Stop ==> r@ == stop_reply(),
            *self == AtsBotCommand::Status ==> r@ == status_reply(is_active),
    {
        match self {
            AtsBotCommand::Start => String::from_str("✅ Вы успешно зарегистрированы для получения данных!"),
            AtsBotCommand::Stop => String::from_str("❌ Вы отписаны от получения данных."),
            AtsBotCommand::Status => {
                let mut r = String::from_str("📊 Ваш статус: ");
                if is_active {
                    r.append("активен");
                } else {
                    r.append("не активен");
                }
                r
            },
        }
    }
}

/// Index of the first non-whitespace character at or after `from`, or the length.
fn skip_whitespace(s: &str, from: usize) -> (r: usize)
    requires
        from <= s@.len(),
    ensures
        from <= r <= s@.len(),
        forall|j: int| from <= j < r ==> is_whitespace(s@[j]),
        r < s@.len() ==> !is_whitespace(s@[r as int]),
{
    let n = s.unicode_len();
    let mut i = from;
    while i < n && char_is_whitespace(s.get_char(i))
        invariant
            n == s@.len(),
            from <= i <= n,
            forall|j: int| from <= j < i ==> is_whitespace(s@[j]),
        decreases n - i,
    {
        i = i + 1;
    }
    i
}

/// Index of the first whitespace character at or after `from`, or the length.
fn skip_word(s: &str, from: usize) -> (r: usize)
    requires
        from <= s@.len(),
    ensures
        from <= r <= s@.len(),
        forall|j: int| from <= j < r ==> !is_whitespace(s@[j]),
        r < s@.len() ==> is_whitespace(s@[r as int]),
{
    let n = s.unicode_len();
    let mut i = from;
    while i < n && !char_is_whitespace(s.get_char(i))
        invariant
            n == s@.len(),
            from <= i <= n,
            forall|j: int| from <= j < i ==> !is_whitespace(s@[j]),
        decreases n - i,
    {
        i = i + 1;
    }
    i
}

proof fn lemma_first_word_skip(s: Seq<char>, i: int)
    requires
        0 <= i <= s.len(),
        forall|j: int| 0 <= j < i ==> is_whitespace(s[j]),
    ensures
        first_word(s) == first_word(s.subrange(i, s.len() as int)),
    decreases i,
{
    if i > 0 {
        assert(s.drop_first().subrange(i - 1, s.drop_first().len() as int) =~= s.subrange(i, s.len() as int));
        lemma_first_word_skip(s.drop_first(), i - 1);
    } else {
        assert(s.subrange(0, s.len() as int) =~= s);
    }
}

proof fn lemma_leading_word(s: Seq<char>, k: int)
    requires
        0 <= k <= s.len(),
        forall|j: int| 0 <= j < k ==> !is_whitespace(s[j]),
        k < s.len() ==> is_whitespace(s[k]),
    ensures
        leading_word(s) == s.subrange(0, k),
    decreases k,
{
    if k > 0 {
        lemma_leading_word(s.drop_first(), k - 1);
        assert(seq![s[0]] + s.drop_first().subrange(0, k - 1) =~= s.subrange(0, k));
    } else {
        assert(s.subrange(0, 0) =~= Seq::<char>::empty());
    }
}

/// The command carried by a chat message's text: its first
/// whitespace-separated word, parsed by [`AtsBotCommand::from_str`].
pub fn command_in_message(text: Option<&str>) -> (r: Option<AtsBotCommand>)
    ensures
        r == command_in_text(
            match text {
                Some(t) => Some(t@),
                None => None,
            },
        ),
{
    match text {
        None => None,
        Some(t) => {
            let a = skip_whitespace(t, 0);
            let b = skip_word(t, a);
            proof {
                lemma_first_word_skip(t@, a as int);
                let rest = t@.subrange(a as int, t@.len() as int);
                if rest.len() > 0 {
                    assert(rest[0] == t@[a as int]);
                }
                assert forall|j: int| 0 <= j < b - a implies !is_whitespace(#[trigger] rest[j]) by {
                    assert(rest[j] == t@[a + j]);
                }
                if b < t@.len() {
                    assert(rest[b - a] == t@[b as int]);
                }
                lemma_leading_word(rest, b - a);
                assert(rest.subrange(0, b - a) =~= t@.subrange(a as int, b as int));
            }
            if a == b {
                None
            } else {
                let word = t.substring_char(a, b);
                AtsBotCommand::from_str(word)
            }
        },
    }
}

} // verus!
