//! Questions to the user, and the replies that are already there.
//!
//! A step that needs a reply stops with the question. Once it has been asked, the reply is
//! recorded and the step runs again.

use vstd::prelude::*;

use crate::collections::StringMap;
use crate::error::{CliError, CliErrorV};
use crate::text;

verus! {

/// How a question is asked.
#[derive(Clone, Debug, PartialEq, Eq)]
pub enum Ask {
    /// A line of text, with what an empty line stands for.
    Text { default: Option<String> },
    /// One of several labels; the first is preselected.
    Select { labels: Vec<String> },
    /// Some of several labels, with those that are preselected.
    MultiSelect { labels: Vec<String>, defaults: Vec<bool> },
}

/// The model of [`Ask`].
#[verifier::ext_equal]
pub enum AskV {
    Text(Option<Seq<char>>),
    Select(Seq<Seq<char>>),
    MultiSelect(Seq<Seq<char>>, Seq<bool>),
}

impl View for Ask {
    type V = AskV;

    open spec fn view(&self) -> AskV {
        match self {
            Ask::Text { default } => AskV::Text(text::option_of(*default)),
            Ask::Select { labels } => AskV::Select(text::texts(labels@)),
            Ask::MultiSelect { labels, defaults } => AskV::MultiSelect(text::texts(labels@), defaults@),
        }
    }
}

/// A question to the user.
#[derive(Clone, Debug, PartialEq, Eq)]
pub struct Question {
    /// Under which key the reply is recorded.
    pub key: String,
    /// What the user reads.
    pub prompt: String,
    /// How it is asked.
    pub ask: Ask,
}

/// The model of [`Question`].
#[verifier::ext_equal]
pub struct QuestionV {
    pub key: Seq<char>,
    pub prompt: Seq<char>,
    pub ask: AskV,
}

impl View for Question {
    type V = QuestionV;

    open spec fn view(&self) -> QuestionV {
        QuestionV { key: self.key@, prompt: self.prompt@, ask: self.ask@ }
    }
}

/// What the user replied.
#[derive(Clone, Debug, PartialEq, Eq)]
pub enum Reply {
    Text(String),
    Choice(usize),
    Choices(Vec<usize>),
}

/// Why a step did not finish.
#[derive(Debug)]
pub enum Pause {
    /// It failed.
    Fail(CliError),
    /// It needs a reply.
    Ask(Question),
}

/// The model of [`Pause`].
#[verifier::ext_equal]
pub enum PauseV {
    Fail(CliErrorV),
    Ask(QuestionV),
}

impl View for Pause {
    type V = PauseV;

    open spec fn view(&self) -> PauseV {
        match self {
            Pause::Fail(error) => PauseV::Fail(error@),
            Pause::Ask(question) => PauseV::Ask(question@),
        }
    }
}

/// A result that succeeds exactly where nothing stops it, and reports what does otherwise.
pub open spec fn proceeds<T>(r: Result<T, Pause>, stop: Option<PauseV>) -> bool {
    match (r, stop) {
        (Ok(_), None) => true,
        (Err(e), Some(p)) => e@ == p,
        _ => false,
    }
}

/// The first of two stops.
pub open spec fn first(a: Option<PauseV>, b: Option<PauseV>) -> Option<PauseV> {
    if a is Some {
        a
    } else {
        b
    }
}

/// A failure as a stop.
pub open spec fn failed(problem: Option<CliErrorV>) -> Option<PauseV> {
    match problem {
        Some(e) => Some(PauseV::Fail(e)),
        None => None,
    }
}

/// A configuration error as a stop.
pub open spec fn refusal(message: Seq<char>) -> Option<PauseV> {
    Some(PauseV::Fail(CliErrorV::Config(message)))
}

/// Turns a failure into a stop.
pub fn lift<T>(r: Result<T, CliError>) -> (s: Result<T, Pause>)
    ensures
        match (r, s) {
            (Ok(a), Ok(b)) => a == b,
            (Err(e), Err(Pause::Fail(f))) => e == f,
            _ => false,
        },
{
    match r {
        Ok(v) => Ok(v),
        Err(e) => Err(Pause::Fail(e)),
    }
}

/// A configuration error as a stop.
pub fn refuse<T>(message: String) -> (r: Result<T, Pause>)
    ensures
        r matches Err(p) && Some(p@) == refusal(message@),
{
    Err(Pause::Fail(CliError::Config(message)))
}

/// Whether questions may be asked, and the replies so far.
#[derive(Clone, Debug, PartialEq, Eq)]
pub struct Dialogue {
    pub interactive: bool,
    pub replies: StringMap<Reply>,
}

impl Dialogue {
    /// The text that was replied.
    pub open spec fn text(self, key: Seq<char>) -> Option<Seq<char>> {
        match self.replies.at(key) {
            Some(Reply::Text(s)) => Some(s@),
            _ => None,
        }
    }

    /// The label that was chosen among `n`.
    pub open spec fn choice(self, key: Seq<char>, n: nat) -> Option<int> {
        match self.replies.at(key) {
            Some(Reply::Choice(i)) => if i < n {
                Some(i as int)
            } else {
                None
            },
            _ => None,
        }
    }

    /// The labels that were chosen among `n`.
    pub open spec fn choices(self, key: Seq<char>, n: nat) -> Option<Seq<usize>> {
        match self.replies.at(key) {
            Some(Reply::Choices(picked)) => if forall|k: int|
                0 <= k < picked@.len() ==> (#[trigger] picked@[k]) < n {
                Some(picked@)
            } else {
                None
            },
            _ => None,
        }
    }

    /// A dialogue in which nothing is asked.
    pub fn silent() -> (r: Dialogue)
        ensures
            !r.interactive,
            r.replies.wf(),
            forall|key: Seq<char>| #[trigger] r.replies.at(key) is None,
    {
        Dialogue { interactive: false, replies: StringMap::new() }
    }

    /// A dialogue in which questions may be asked, without replies yet.
    pub fn open() -> (r: Dialogue)
        ensures
            r.interactive,
            r.replies.wf(),
            forall|key: Seq<char>| #[trigger] r.replies.at(key) is None,
    {
        Dialogue { interactive: true, replies: StringMap::new() }
    }

    /// Records a reply.
    pub fn record(&mut self, key: String, reply: Reply)
        requires
            old(self).replies.wf(),
        ensures
            final(self).replies.wf(),
            final(self).interactive == old(self).interactive,
            final(self).replies.at(key@) == Some(reply),
            forall|other: Seq<char>|
                other != key@ ==> #[trigger] final(self).replies.at(other) == old(self).replies.at(other),
    {
        self.replies.insert(key, reply);
    }

    /// The text that was replied, or the question for it.
    pub fn ask_text(&self, key: &str, prompt: &str, default: Option<&str>) -> (r: Result<String, Pause>)
        ensures
            match (r, self.text(key@)) {
                (Ok(s), Some(t)) => s@ == t,
                (Err(p), None) => p@ == (PauseV::Ask(
                    text_question(
                        key@,
                        prompt@,
                        match default {
                            Some(s) => Some(s@),
                            None => None,
                        },
                    ),
                )),
                _ => false,
            },
    {
        if let Some(reply) = self.replies.get(key) {
            if let Reply::Text(s) = reply {
                return Ok(s.clone());
            }
        }
        let default = match default {
            Some(s) => Some(s.to_owned()),
            None => None,
        };
        Err(
            Pause::Ask(
                Question { key: key.to_owned(), prompt: prompt.to_owned(), ask: Ask::Text { default } },
            ),
        )
    }

    /// The label that was chosen, or the question for it.
    pub fn ask_choice(&self, key: &str, prompt: &str, labels: Vec<String>) -> (r: Result<usize, Pause>)
        ensures
            match (r, self.choice(key@, labels@.len())) {
                (Ok(i), Some(k)) => i == k,
                (Err(p), None) => p@ == (PauseV::Ask(
                    QuestionV { key: key@, prompt: prompt@, ask: AskV::Select(text::texts(labels@)) },
                )),
                _ => false,
            },
    {
        if let Some(reply) = self.replies.get(key) {
            if let Reply::Choice(i) = reply {
                if *i < labels.len() {
                    return Ok(*i);
                }
            }
        }
        Err(
            Pause::Ask(
                Question { key: key.to_owned(), prompt: prompt.to_owned(), ask: Ask::Select { labels } },
            ),
        )
    }

    /// The labels that were chosen, or the question for them.
    pub fn ask_choices(&self, key: &str, prompt: &str, labels: Vec<String>, defaults: Vec<bool>) -> (r: Result<
        Vec<usize>,
        Pause,
    >)
        ensures
            match (r, self.choices(key@, labels@.len())) {
                (Ok(picked), Some(model)) => picked@ == model,
                (Err(p), None) => p@ == (PauseV::Ask(
                    QuestionV {
                        key: key@,
                        prompt: prompt@,
                        ask: AskV::MultiSelect(text::texts(labels@), defaults@),
                    },
                )),
                _ => false,
            },
    {
        if let Some(reply) = self.replies.get(key) {
            if let Reply::Choices(picked) = reply {
                let n: usize = labels.len();
                let mut copy: Vec<usize> = Vec::new();
                let mut i: usize = 0;
                while i < picked.len() && picked[i] < n
                    invariant
                        i <= picked@.len(),
                        n == labels@.len(),
                        copy@ == picked@.take(i as int),
                        forall|k: int| 0 <= k < i ==> (#[trigger] picked@[k]) < n,
                    decreases picked.len() - i,
                {
                    copy.push(picked[i]);
                    assert(picked@.take(i + 1) =~= picked@.take(i as int).push(picked@[i as int]));
                    i += 1;
                }
                if i == picked.len() {
                    assert(picked@.take(i as int) =~= picked@);
                    return Ok(copy);
                }
                assert(!(picked@[i as int] < n));
            }
        }
        Err(
            Pause::Ask(
                Question {
                    key: key.to_owned(),
                    prompt: prompt.to_owned(),
                    ask: Ask::MultiSelect { labels, defaults },
                },
            ),
        )
    }
}

/// The question for a line of text.
pub open spec fn text_question(key: Seq<char>, prompt: Seq<char>, default: Option<Seq<char>>) -> QuestionV {
    QuestionV { key, prompt, ask: AskV::Text(default) }
}

} // verus!
