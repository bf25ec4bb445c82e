//! A question-and-answer board with up- and down-votes.
//!
//! Anyone may post a question; anyone may answer an existing question; anyone
//! may vote a question or an answer up or down. A caller's vote moves: voting
//! up withdraws the caller's down-vote on the same text, and the other way
//! round; voting the same way twice counts once. Votes are kept per text, so a
//! question and an answer with the same text share their votes.
use vstd::prelude::*;

use crate::text_map::TextMap;

verus! {

/// A 32-byte account identifier.
pub type AccountId = [u8; 32];

/// Why a request was refused.
#[derive(Debug, PartialEq, Eq, Structural, Clone, Copy)]
pub enum Error {
    QuestionAlreadyExists,
    QuestionNotExists,
    AnswerNotExists,
    QuestionIsClose,
    QuestionOrAnswerNotExist,
}

/// Emitted when a question is posted.
#[derive(Debug, PartialEq, Eq)]
pub struct CreateQuestion {
    pub question: String,
    pub from: AccountId,
}

/// Emitted when a question is answered.
#[derive(Debug, PartialEq, Eq)]
pub struct AnswerQuestion {
    pub answer: String,
    pub question: String,
    pub from: AccountId,
}

/// Emitted when a question or an answer is voted up.
#[derive(Debug, PartialEq, Eq)]
pub struct UpvoteQOrA {
    pub q_or_a: String,
    pub from: AccountId,
}

/// Emitted when a question or an answer is voted down.
#[derive(Debug, PartialEq, Eq)]
pub struct DownvoteQOrA {
    pub q_or_a: String,
    pub from: AccountId,
}

/// The list `votes` once `who` has voted for it: `who` is appended unless
/// already there.
pub open spec fn with_vote(votes: Seq<AccountId>, who: AccountId) -> Seq<AccountId> {
    if votes.contains(who) {
        votes
    } else {
        votes.push(who)
    }
}

/// Whether two account identifiers are the same.
pub fn same_account(a: &AccountId, b: &AccountId) -> (r: bool)
    ensures
        r == (*a == *b),
{
    let mut i: usize = 0;
    while i < 32
        invariant
            0 <= i <= 32,
            forall|j: int| 0 <= j < i ==> a@[j] == b@[j],
        decreases 32 - i,
    {
        if a[i] != b[i] {
            return false;
        }
        i = i + 1;
    }
    proof {
        broadcast use vstd::array::group_array_axioms;

        assert(*a =~= *b);
    }
    true
}

/// The first slot of `list` that holds `who`, if any.
fn position(list: &Vec<AccountId>, who: &AccountId) -> (r: Option<usize>)
    ensures
        r is None <==> !list@.contains(*who),
        r matches Some(i) ==> list@.index_of_first(*who) == Some(i as int) && i < list.len(),
{
    let n = list.len();
    let mut i: usize = 0;
    while i < n
        invariant
            n == list.len(),
            0 <= i <= n,
            forall|j: int| 0 <= j < i ==> list@[j] != *who,
        decreases n - i,
    {
        if same_account(&list[i], who) {
            proof {
                list@.index_of_first_ensures(*who);
                let f = list@.index_of_first(*who)->Some_0;
                assert(f == i) by {
                    if f < i {
                        assert(list@[f] != *who);
                    }
                    if i < f {
                        assert(list@[i as int] == *who);
                    }
                };
            }
            return Some(i);
        }
        i = i + 1;
    }
    None
}

/// After removing the first occurrence of `who` from a list without
/// duplicates, the list holds exactly the others and still has no duplicates.
proof fn lemma_remove_value(s: Seq<AccountId>, who: AccountId)
    requires
        s.no_duplicates(),
    ensures
        s.remove_value(who).no_duplicates(),
        forall|x: AccountId| #[trigger] s.remove_value(who).contains(x) <==> (s.contains(x) && x != who),
{
    s.index_of_first_ensures(who);
    match s.index_of_first(who) {
        Some(i) => {
            let r = s.remove(i);
            s.remove_ensures(i);
            assert(s.remove_value(who) == r);
            assert forall|a: int, b: int| 0 <= a < r.len() && 0 <= b < r.len() && a != b implies r[a] != r[b] by {
                let sa = if a < i { a } else { a + 1 };
                let sb = if b < i { b } else { b + 1 };
                assert(r[a] == s[sa] && r[b] == s[sb]);
            }
            assert forall|x: AccountId| #[trigger] r.contains(x) <==> (s.contains(x) && x != who) by {
                if r.contains(x) {
                    let a = choose|a: int| 0 <= a < r.len() && r[a] == x;
                    let sa = if a < i { a } else { a + 1 };
                    assert(s[sa] == x);
                    assert(sa != i);
                }
                if s.contains(x) && x != who {
                    let k = choose|k: int| 0 <= k < s.len() && s[k] == x;
                    assert(k != i);
                    let a = if k < i { k } else { k - 1 };
                    assert(r[a] == x);
                }
            }
        },
        None => {},
    }
}

/// Moving a voter onto one list and off the other keeps both lists free of
/// duplicates and apart from each other.
proof fn lemma_cast_keeps_lists(toward: Seq<AccountId>, away: Seq<AccountId>, who: AccountId)
    requires
        toward.no_duplicates(),
        away.no_duplicates(),
        toward.disjoint(away),
    ensures
        with_vote(toward, who).no_duplicates(),
        away.remove_value(who).no_duplicates(),
        with_vote(toward, who).disjoint(away.remove_value(who)),
        away.remove_value(who).disjoint(with_vote(toward, who)),
{
    lemma_remove_value(away, who);
    let t = with_vote(toward, who);
    let a = away.remove_value(who);
    assert forall|x: AccountId| #[trigger] t.contains(x) implies toward.contains(x) || x == who by {
        if !toward.contains(who) {
            let i = choose|i: int| 0 <= i < t.len() && t[i] == x;
            if i < toward.len() {
                assert(toward[i] == x);
            }
        }
    }
    assert forall|i: int, j: int| 0 <= i < t.len() && 0 <= j < a.len() implies t[i] != a[j] by {
        assert(t.contains(t[i]));
        assert(a.contains(a[j]));
        if t[i] == a[j] && toward.contains(t[i]) {
            let k = choose|k: int| 0 <= k < toward.len() && toward[k] == t[i];
            let l = choose|l: int| 0 <= l < away.len() && away[l] == a[j];
            assert(toward[k] != away[l]);
        }
    }
}

/// Adds `who` to `toward` unless already there, and withdraws `who` from `away`.
fn cast_vote(toward: &mut Vec<AccountId>, away: &mut Vec<AccountId>, who: AccountId)
    ensures
        final(toward)@ == with_vote(old(toward)@, who),
        final(away)@ == old(away)@.remove_value(who),
{
    match position(away, &who) {
        Some(index) => {
            away.remove(index);
        },
        None => {
            proof {
                old(away)@.index_of_first_ensures(who);
            }
        },
    }
    match position(toward, &who) {
        None => {
            toward.push(who);
        },
        Some(_) => {},
    }
}

/// What the board holds, as mathematics: the author of each question and of
/// each answer, and the up- and down-voters of each text in the order they
/// voted.
#[verifier::ext_equal]
pub struct BoardView {
    pub questions: Map<Seq<char>, AccountId>,
    pub answers: Map<Seq<char>, AccountId>,
    pub upvotes: Map<Seq<char>, Seq<AccountId>>,
    pub downvotes: Map<Seq<char>, Seq<AccountId>>,
}

/// A request to the board, with its caller.
pub enum Message {
    CreateQuestion { caller: AccountId, question: Seq<char> },
    AnswerToQuestion { caller: AccountId, answer: Seq<char>, question: Seq<char> },
    UpvoteQuestion { caller: AccountId, question: Seq<char> },
    DownvoteQuestion { caller: AccountId, question: Seq<char> },
    UpvoteAnswer { caller: AccountId, answer: Seq<char> },
    DownvoteAnswer { caller: AccountId, answer: Seq<char> },
}

impl Message {
    /// The text that the request posts, if it posts one.
    pub open spec fn posted(self) -> Option<Seq<char>> {
        match self {
            Message::CreateQuestion { question, .. } => Some(question),
            Message::AnswerToQuestion { answer, .. } => Some(answer),
            _ => None,
        }
    }

    /// The vote that the request casts, if it casts one: the text, the
    /// voter, and whether the vote is up.
    pub open spec fn vote(self) -> Option<(Seq<char>, AccountId, bool)> {
        match self {
            Message::UpvoteQuestion { caller, question } => Some((question, caller, true)),
            Message::DownvoteQuestion { caller, question } => Some((question, caller, false)),
            Message::UpvoteAnswer { caller, answer } => Some((answer, caller, true)),
            Message::DownvoteAnswer { caller, answer } => Some((answer, caller, false)),
            _ => None,
        }
    }
}

impl BoardView {
    /// The board with nothing posted.
    pub open spec fn empty() -> BoardView {
        BoardView {
            questions: Map::empty(),
            answers: Map::empty(),
            upvotes: Map::empty(),
            downvotes: Map::empty(),
        }
    }

    /// The board's invariant: exactly the posted questions and answers have
    /// vote lists, both an up- and a down-list; no list names a voter twice;
    /// and no voter is on both lists of one text.
    pub open spec fn wf(self) -> bool {
        &&& forall|k: Seq<char>| #[trigger]
            self.upvotes.dom().contains(k) <==> (self.questions.dom().contains(k)
                || self.answers.dom().contains(k))
        &&& forall|k: Seq<char>| #[trigger]
            self.downvotes.dom().contains(k) <==> self.upvotes.dom().contains(k)
        &&& forall|k: Seq<char>| #[trigger]
            self.upvotes.dom().contains(k) ==> {
                &&& self.upvotes[k].no_duplicates()
                &&& self.downvotes[k].no_duplicates()
                &&& self.upvotes[k].disjoint(self.downvotes[k])
            }
    }

    /// The board after `who` voted `key` up: `who` joins the up-voters (once)
    /// and leaves the down-voters.
    pub open spec fn upvoted(self, key: Seq<char>, who: AccountId) -> BoardView {
        BoardView {
            questions: self.questions,
            answers: self.answers,
            upvotes: self.upvotes.insert(key, with_vote(self.upvotes[key], who)),
            downvotes: self.downvotes.insert(key, self.downvotes[key].remove_value(who)),
        }
    }

    /// The board after `who` voted `key` down: `who` joins the down-voters
    /// (once) and leaves the up-voters.
    pub open spec fn downvoted(self, key: Seq<char>, who: AccountId) -> BoardView {
        BoardView {
            questions: self.questions,
            answers: self.answers,
            upvotes: self.upvotes.insert(key, self.upvotes[key].remove_value(who)),
            downvotes: self.downvotes.insert(key, with_vote(self.downvotes[key], who)),
        }
    }

    /// The board after `key` was posted: its vote lists start empty.
    pub open spec fn fresh_votes(self, key: Seq<char>) -> BoardView {
        BoardView {
            questions: self.questions,
            answers: self.answers,
            upvotes: self.upvotes.insert(key, Seq::empty()),
            downvotes: self.downvotes.insert(key, Seq::empty()),
        }
    }

    /// Why the board refuses the request `m`, if it does.
    pub open spec fn refusal(self, m: Message) -> Option<Error> {
        match m {
            Message::CreateQuestion { question, .. } => if self.questions.dom().contains(question) {
                Some(Error::QuestionAlreadyExists)
            } else {
                None
            },
            Message::AnswerToQuestion { question, .. } => if self.questions.dom().contains(
                question,
            ) {
                None
            } else {
                Some(Error::QuestionNotExists)
            },
            Message::UpvoteQuestion { question, .. } => if self.questions.dom().contains(question) {
                None
            } else {
                Some(Error::QuestionNotExists)
            },
            Message::DownvoteQuestion { question, .. } => if self.questions.dom().contains(
                question,
            ) {
                None
            } else {
                Some(Error::QuestionNotExists)
            },
            Message::UpvoteAnswer { answer, .. } => if self.answers.dom().contains(answer) {
                None
            } else {
                Some(Error::AnswerNotExists)
            },
            Message::DownvoteAnswer { answer, .. } => if self.answers.dom().contains(answer) {
                None
            } else {
                Some(Error::AnswerNotExists)
            },
        }
    }

    /// The board after it handled the request `m`: unchanged where it
    /// refuses it.
    pub open spec fn step(self, m: Message) -> BoardView {
        if self.refusal(m) is Some {
            self
        } else {
            match m {
                Message::CreateQuestion { caller, question } => BoardView {
                    questions: self.questions.insert(question, caller),
                    ..self
                }.fresh_votes(question),
                Message::AnswerToQuestion { caller, answer, .. } => BoardView {
                    answers: self.answers.insert(answer, caller),
                    ..self
                }.fresh_votes(answer),
                Message::UpvoteQuestion { caller, question } => self.upvoted(question, caller),
                Message::DownvoteQuestion { caller, question } => self.downvoted(question, caller),
                Message::UpvoteAnswer { caller, answer } => self.upvoted(answer, caller),
                Message::DownvoteAnswer { caller, answer } => self.downvoted(answer, caller),
            }
        }
    }

    /// The score of a text: its number of up-voters less its number of
    /// down-voters, where it has vote lists.
    pub open spec fn voting_point(self, q_or_a: Seq<char>) -> Option<int> {
        if self.upvotes.dom().contains(q_or_a) && self.downvotes.dom().contains(q_or_a) {
            Some(self.upvotes[q_or_a].len() - self.downvotes[q_or_a].len())
        } else {
            None
        }
    }
}

/// The board after it handled the requests `msgs` in order, from `start`.
pub open spec fn run(start: BoardView, msgs: Seq<Message>) -> BoardView
    decreases msgs.len(),
{
    if msgs.len() == 0 {
        start
    } else {
        run(start, msgs.drop_last()).step(msgs.last())
    }
}

/// The latest vote that `who` cast on `key` among the accepted requests of
/// `msgs` (handled in order from the empty board) since `key` was last
/// posted: `Some(true)` for up, `Some(false)` for down, `None` for no vote.
pub open spec fn latest_vote(msgs: Seq<Message>, key: Seq<char>, who: AccountId) -> Option<bool>
    decreases msgs.len(),
{
    if msgs.len() == 0 {
        None
    } else {
        let before = run(BoardView::empty(), msgs.drop_last());
        let m = msgs.last();
        if before.refusal(m) is None && m.posted() == Some(key) {
            None
        } else if before.refusal(m) is None && m.vote() is Some && m.vote()->Some_0.0 == key
            && m.vote()->Some_0.1 == who {
            Some(m.vote()->Some_0.2)
        } else {
            latest_vote(msgs.drop_last(), key, who)
        }
    }
}

/// Handling a request keeps the board's invariant.
proof fn lemma_step_keeps_wf(s: BoardView, m: Message)
    requires
        s.wf(),
    ensures
        s.step(m).wf(),
{
    if s.refusal(m) is None {
        match m {
            Message::UpvoteQuestion { caller, question } => {
                assert(s.downvotes.dom().contains(question));
                lemma_cast_keeps_lists(s.upvotes[question], s.downvotes[question], caller);
            },
            Message::UpvoteAnswer { caller, answer } => {
                assert(s.downvotes.dom().contains(answer));
                lemma_cast_keeps_lists(s.upvotes[answer], s.downvotes[answer], caller);
            },
            Message::DownvoteQuestion { caller, question } => {
                assert(s.downvotes.dom().contains(question));
                lemma_cast_keeps_lists(s.downvotes[question], s.upvotes[question], caller);
            },
            Message::DownvoteAnswer { caller, answer } => {
                assert(s.downvotes.dom().contains(answer));
                lemma_cast_keeps_lists(s.downvotes[answer], s.upvotes[answer], caller);
            },
            _ => {},
        }
    }
}

/// Every board reached from the empty one keeps the invariant.
pub proof fn run_keeps_wf(msgs: Seq<Message>)
    ensures
        run(BoardView::empty(), msgs).wf(),
    decreases msgs.len(),
{
    if msgs.len() > 0 {
        run_keeps_wf(msgs.drop_last());
        lemma_step_keeps_wf(run(BoardView::empty(), msgs.drop_last()), msgs.last());
    }
}

/// The board: who posted each question and each answer, and who voted each
/// text up and down.
pub struct Asignment5 {
    question_to_owner: TextMap<AccountId>,
    answer_to_owner: TextMap<AccountId>,
    q_and_a_upvote: TextMap<Vec<AccountId>>,
    q_and_a_downvote: TextMap<Vec<AccountId>>,
    default_address: AccountId,
}

impl View for Asignment5 {
    type V = BoardView;

    open spec fn view(&self) -> BoardView {
        BoardView {
            questions: self.questions(),
            answers: self.answers(),
            upvotes: self.upvotes(),
            downvotes: self.downvotes(),
        }
    }
}

impl Asignment5 {
    /// The author of each question.
    pub closed spec fn questions(&self) -> Map<Seq<char>, AccountId> {
        self.question_to_owner@
    }

    /// The author of each answer.
    pub closed spec fn answers(&self) -> Map<Seq<char>, AccountId> {
        self.answer_to_owner@
    }

    /// The up-voters of each text, in the order they voted.
    pub closed spec fn upvotes(&self) -> Map<Seq<char>, Seq<AccountId>> {
        Map::new(
            |k: Seq<char>| self.q_and_a_upvote@.dom().contains(k),
            |k: Seq<char>| self.q_and_a_upvote@[k]@,
        )
    }

    /// The down-voters of each text, in the order they voted.
    pub closed spec fn downvotes(&self) -> Map<Seq<char>, Seq<AccountId>> {
        Map::new(
            |k: Seq<char>| self.q_and_a_downvote@.dom().contains(k),
            |k: Seq<char>| self.q_and_a_downvote@[k]@,
        )
    }

    /// The stored default address.
    pub closed spec fn default_account(&self) -> AccountId {
        self.default_address
    }

    /// The maps underneath are well formed.
    pub closed spec fn storage_wf(&self) -> bool {
        &&& self.question_to_owner.wf()
        &&& self.answer_to_owner.wf()
        &&& self.q_and_a_upvote.wf()
        &&& self.q_and_a_downvote.wf()
    }

    /// The maps underneath are well formed, and the board keeps its
    /// invariant.
    pub open spec fn wf(&self) -> bool {
        &&& self.storage_wf()
        &&& self@.wf()
    }

    /// An empty board.
    pub fn new() -> (board: Self)
        ensures
            board.wf(),
            board@ == BoardView::empty(),
            forall|i: int| 0 <= i < 32 ==> #[trigger] board.default_account()@[i] == 0u8,
    {
        let board = Asignment5 {
            question_to_owner: TextMap::new(),
            answer_to_owner: TextMap::new(),
            q_and_a_upvote: TextMap::new(),
            q_and_a_downvote: TextMap::new(),
            default_address: [0u8; 32],
        };
        assert(board.upvotes() =~= Map::<Seq<char>, Seq<AccountId>>::empty());
        assert(board.downvotes() =~= Map::<Seq<char>, Seq<AccountId>>::empty());
        assert(board@ =~= BoardView::empty());
        board
    }

    /// Posts `question` on behalf of `caller`, with no votes yet.
    /// Refused, and nothing changes, where the question was posted before.
    pub fn create_question(&mut self, caller: AccountId, question: String) -> (r: Result<
        CreateQuestion,
        Error,
    >)
        requires
            old(self).wf(),
        ensures
            final(self).wf(),
            final(self)@ == old(self)@.step(Message::CreateQuestion { caller, question: question@ }),
            final(self).default_account() == old(self).default_account(),
            old(self)@.questions.dom().contains(question@) ==> {
                &&& r == Err::<CreateQuestion, Error>(Error::QuestionAlreadyExists)
                &&& *final(self) == *old(self)
            },
            !old(self)@.questions.dom().contains(question@) ==> (r matches Ok(ev) && ev.question@
                == question@ && ev.from == caller),
    {
        if self.question_to_owner.contains_key(&question) {
            return Err(Error::QuestionAlreadyExists);
        }
        self.question_to_owner.insert(question.clone(), caller);
        self.q_and_a_upvote.insert(question.clone(), Vec::new());
        self.q_and_a_downvote.insert(question.clone(), Vec::new());
        proof {
            assert(self.upvotes() =~= old(self).upvotes().insert(question@, Seq::empty()));
            assert(self.downvotes() =~= old(self).downvotes().insert(question@, Seq::empty()));
            assert(self@ =~= old(self)@.step(Message::CreateQuestion { caller, question: question@ }));
            lemma_step_keeps_wf(old(self)@, Message::CreateQuestion { caller, question: question@ });
        }
        Ok(CreateQuestion { question, from: caller })
    }

    /// Posts `answer` to `question` on behalf of `caller`, with no votes yet;
    /// an answer posted before under the same text is replaced, and its votes
    /// start over. Refused, and nothing changes, where the question was never
    /// posted.
    pub fn answer_to_question(&mut self, caller: AccountId, answer: String, question: String) -> (r:
        Result<AnswerQuestion, Error>)
        requires
            old(self).wf(),
        ensures
            final(self).wf(),
            final(self)@ == old(self)@.step(
                Message::AnswerToQuestion { caller, answer: answer@, question: question@ },
            ),
            final(self).default_account() == old(self).default_account(),
            final(self)@.questions == old(self)@.questions,
            !old(self)@.questions.dom().contains(question@) ==> {
                &&& r == Err::<AnswerQuestion, Error>(Error::QuestionNotExists)
                &&& *final(self) == *old(self)
            },
            old(self)@.questions.dom().contains(question@) ==> (r matches Ok(ev) && ev.answer@
                == answer@ && ev.question@ == question@ && ev.from == caller),
    {
        if !self.question_to_owner.contains_key(&question) {
            return Err(Error::QuestionNotExists);
        }
        self.answer_to_owner.insert(answer.clone(), caller);
        self.q_and_a_upvote.insert(answer.clone(), Vec::new());
        self.q_and_a_downvote.insert(answer.clone(), Vec::new());
        proof {
            let m = Message::AnswerToQuestion { caller, answer: answer@, question: question@ };
            assert(self.upvotes() =~= old(self).upvotes().insert(answer@, Seq::empty()));
            assert(self.downvotes() =~= old(self).downvotes().insert(answer@, Seq::empty()));
            assert(self@ =~= old(self)@.step(m));
            lemma_step_keeps_wf(old(self)@, m);
        }
        Ok(AnswerQuestion { answer, question, from: caller })
    }

    /// `caller` votes the question `question` up. Refused, and nothing
    /// changes, where the question was never posted.
    pub fn upvote_question(&mut self, caller: AccountId, question: String) -> (r: Result<
        UpvoteQOrA,
        Error,
    >)
        requires
            old(self).wf(),
        ensures
            final(self).wf(),
            final(self)@ == old(self)@.step(Message::UpvoteQuestion { caller, question: question@ }),
            final(self).default_account() == old(self).default_account(),
            !old(self)@.questions.dom().contains(question@) ==> {
                &&& r == Err::<UpvoteQOrA, Error>(Error::QuestionNotExists)
                &&& *final(self) == *old(self)
            },
            old(self)@.questions.dom().contains(question@) ==> (r matches Ok(ev) && ev.q_or_a@
                == question@ && ev.from == caller),
    {
        if !self.question_to_owner.contains_key(&question) {
            return Err(Error::QuestionNotExists);
        }
        assert(self@.upvotes.dom().contains(question@));
        Ok(self.upvoting(question, caller))
    }

    /// `caller` votes the question `question` down. Refused, and nothing
    /// changes, where the question was never posted.
    pub fn downvote_question(&mut self, caller: AccountId, question: String) -> (r: Result<
        DownvoteQOrA,
        Error,
    >)
        requires
            old(self).wf(),
        ensures
            final(self).wf(),
            final(self)@ == old(self)@.step(
                Message::DownvoteQuestion { caller, question: question@ },
            ),
            final(self).default_account() == old(self).default_account(),
            !old(self)@.questions.dom().contains(question@) ==> {
                &&& r == Err::<DownvoteQOrA, Error>(Error::QuestionNotExists)
                &&& *final(self) == *old(self)
            },
            old(self)@.questions.dom().contains(question@) ==> (r matches Ok(ev) && ev.q_or_a@
                == question@ && ev.from == caller),
    {
        if !self.question_to_owner.contains_key(&question) {
            return Err(Error::QuestionNotExists);
        }
        assert(self@.upvotes.dom().contains(question@));
        Ok(self.downvoting(question, caller))
    }

    /// `caller` votes the answer `answer` up. Refused, and nothing changes,
    /// where the answer was never posted.
    pub fn upvote_answer(&mut self, caller: AccountId, answer: String) -> (r: Result<
        UpvoteQOrA,
        Error,
    >)
        requires
            old(self).wf(),
        ensures
            final(self).wf(),
            final(self)@ == old(self)@.step(Message::UpvoteAnswer { caller, answer: answer@ }),
            final(self).default_account() == old(self).default_account(),
            !old(self)@.answers.dom().contains(answer@) ==> {
                &&& r == Err::<UpvoteQOrA, Error>(Error::AnswerNotExists)
                &&& *final(self) == *old(self)
            },
            old(self)@.answers.dom().contains(answer@) ==> (r matches Ok(ev) && ev.q_or_a@ == answer@
                && ev.from == caller),
    {
        if !self.answer_to_owner.contains_key(&answer) {
            return Err(Error::AnswerNotExists);
        }
        assert(self@.upvotes.dom().contains(answer@));
        Ok(self.upvoting(answer, caller))
    }

    /// `caller` votes the answer `answer` down. Refused, and nothing changes,
    /// where the answer was never posted.
    pub fn downvote_anwser(&mut self, caller: AccountId, answer: String) -> (r: Result<
        DownvoteQOrA,
        Error,
    >)
        requires
            old(self).wf(),
        ensures
            final(self).wf(),
            final(self)@ == old(self)@.step(Message::DownvoteAnswer { caller, answer: answer@ }),
            final(self).default_account() == old(self).default_account(),
            !old(self)@.answers.dom().contains(answer@) ==> {
                &&& r == Err::<DownvoteQOrA, Error>(Error::AnswerNotExists)
                &&& *final(self) == *old(self)
            },
            old(self)@.answers.dom().contains(answer@) ==> (r matches Ok(ev) && ev.q_or_a@ == answer@
                && ev.from == caller),
    {
        if !self.answer_to_owner.contains_key(&answer) {
            return Err(Error::AnswerNotExists);
        }
        assert(self@.upvotes.dom().contains(answer@));
        Ok(self.downvoting(answer, caller))
    }

    /// The score of `q_or_a`, or `None` where no question or answer has that
    /// text.
    pub fn get_voting_point(&self, q_or_a: String) -> (r: Option<i128>)
        requires
            self.wf(),
        ensures
            r is None <==> self@.voting_point(q_or_a@) is None,
            r matches Some(p) ==> self@.voting_point(q_or_a@) == Some(p as int),
    {
        let upvoting_list = self.q_and_a_upvote.get(&q_or_a);
        let downvoting_list = self.q_and_a_downvote.get(&q_or_a);
        match (upvoting_list, downvoting_list) {
            (Some(up), Some(down)) => Some(up.len() as i128 - down.len() as i128),
            _ => None,
        }
    }

    /// Records an up-vote of `caller` on `q_or_a`, which has vote lists.
    fn upvoting(&mut self, q_or_a: String, caller: AccountId) -> (ev: UpvoteQOrA)
        requires
            old(self).wf(),
            old(self)@.upvotes.dom().contains(q_or_a@),
        ensures
            final(self).wf(),
            final(self)@ == old(self)@.upvoted(q_or_a@, caller),
            final(self).default_account() == old(self).default_account(),
            ev.q_or_a@ == q_or_a@,
            ev.from == caller,
    {
        let ghost key = q_or_a@;
        assert(old(self)@.downvotes.dom().contains(key));
        let mut upvoting_list = match self.q_and_a_upvote.take(&q_or_a) {
            Some(list) => list,
            None => Vec::new(),
        };
        let mut downvoting_list = match self.q_and_a_downvote.take(&q_or_a) {
            Some(list) => list,
            None => Vec::new(),
        };
        proof {
            lemma_cast_keeps_lists(upvoting_list@, downvoting_list@, caller);
        }
        cast_vote(&mut upvoting_list, &mut downvoting_list, caller);
        self.q_and_a_upvote.insert(q_or_a.clone(), upvoting_list);
        self.q_and_a_downvote.insert(q_or_a.clone(), downvoting_list);
        proof {
            let after = old(self)@.upvoted(key, caller);
            assert(self.upvotes() =~= after.upvotes);
            assert(self.downvotes() =~= after.downvotes);
            assert(self@ =~= after);
        }
        UpvoteQOrA { q_or_a, from: caller }
    }

    /// Records a down-vote of `caller` on `q_or_a`, which has vote lists.
    fn downvoting(&mut self, q_or_a: String, caller: AccountId) -> (ev: DownvoteQOrA)
        requires
            old(self).wf(),
            old(self)@.upvotes.dom().contains(q_or_a@),
        ensures
            final(self).wf(),
            final(self)@ == old(self)@.downvoted(q_or_a@, caller),
            final(self).default_account() == old(self).default_account(),
            ev.q_or_a@ == q_or_a@,
            ev.from == caller,
    {
        let ghost key = q_or_a@;
        assert(old(self)@.downvotes.dom().contains(key));
        let mut upvoting_list = match self.q_and_a_upvote.take(&q_or_a) {
            Some(list) => list,
            None => Vec::new(),
        };
        let mut downvoting_list = match self.q_and_a_downvote.take(&q_or_a) {
            Some(list) => list,
            None => Vec::new(),
        };
        proof {
            lemma_cast_keeps_lists(downvoting_list@, upvoting_list@, caller);
        }
        cast_vote(&mut downvoting_list, &mut upvoting_list, caller);
        self.q_and_a_upvote.insert(q_or_a.clone(), upvoting_list);
        self.q_and_a_downvote.insert(q_or_a.clone(), downvoting_list);
        proof {
            let after = old(self)@.downvoted(key, caller);
            assert(self.upvotes() =~= after.upvotes);
            assert(self.downvotes() =~= after.downvotes);
            assert(self@ =~= after);
        }
        DownvoteQOrA { q_or_a, from: caller }
    }
}

} // verus!

verus! {

/// Who is on a list once `who` voted for it.
proof fn lemma_with_vote(s: Seq<AccountId>, who: AccountId)
    ensures
        forall|x: AccountId| #[trigger] with_vote(s, who).contains(x) <==> (s.contains(x) || x == who),
{
    if !s.contains(who) {
        let t = s.push(who);
        assert(t[s.len() as int] == who);
        assert forall|x: AccountId| #[trigger] t.contains(x) implies s.contains(x) || x == who by {
            let i = choose|i: int| 0 <= i < t.len() && t[i] == x;
            if i < s.len() {
                assert(s[i] == x);
            }
        }
        assert forall|x: AccountId| s.contains(x) implies #[trigger] t.contains(x) by {
            let i = choose|i: int| 0 <= i < s.len() && s[i] == x;
            assert(t[i] == x);
        }
    }
}

/// The length of a list once `who` voted for it, and once `who` withdrew
/// from it.
proof fn lemma_vote_lengths(s: Seq<AccountId>, who: AccountId)
    ensures
        with_vote(s, who).len() == s.len() + (if s.contains(who) { 0int } else { 1int }),
        s.remove_value(who).len() == s.len() - (if s.contains(who) { 1int } else { 0int }),
{
    s.index_of_first_ensures(who);
    if s.contains(who) {
        let i = s.index_of_first(who)->Some_0;
        s.remove_ensures(i);
    }
}

/// Voting a text up a second time in a row changes nothing.
pub proof fn upvote_twice_counts_once(s: BoardView, key: Seq<char>, who: AccountId)
    requires
        s.wf(),
        s.upvotes.dom().contains(key),
    ensures
        s.upvoted(key, who).upvoted(key, who) == s.upvoted(key, who),
{
    assert(s.downvotes.dom().contains(key));
    let once = s.upvoted(key, who);
    lemma_remove_value(s.downvotes[key], who);
    lemma_with_vote(s.upvotes[key], who);
    let down = once.downvotes[key];
    down.index_of_first_ensures(who);
    assert(down.remove_value(who) == down);
    assert(once.upvoted(key, who) =~= once);
}

/// Voting a text down a second time in a row changes nothing.
pub proof fn downvote_twice_counts_once(s: BoardView, key: Seq<char>, who: AccountId)
    requires
        s.wf(),
        s.upvotes.dom().contains(key),
    ensures
        s.downvoted(key, who).downvoted(key, who) == s.downvoted(key, who),
{
    let once = s.downvoted(key, who);
    lemma_remove_value(s.upvotes[key], who);
    lemma_with_vote(s.downvotes[key], who);
    let up = once.upvotes[key];
    up.index_of_first_ensures(who);
    assert(up.remove_value(who) == up);
    assert(once.downvoted(key, who) =~= once);
}

/// After `who` votes a text up, `who` is on its up-list and off its
/// down-list, every other voter is on the same list as before, the other
/// texts keep their votes, and the score rises by one for a new voter, by
/// two for a voter who had voted it down, and not at all for one who had
/// voted it up.
pub proof fn upvote_moves_the_vote(s: BoardView, key: Seq<char>, who: AccountId)
    requires
        s.wf(),
        s.upvotes.dom().contains(key),
    ensures
        s.upvoted(key, who).wf(),
        s.upvoted(key, who).upvotes[key].contains(who),
        !s.upvoted(key, who).downvotes[key].contains(who),
        forall|x: AccountId|
            x != who ==> (#[trigger] s.upvoted(key, who).upvotes[key].contains(x) <==> s.upvotes[key].contains(x)),
        forall|x: AccountId|
            x != who ==> (#[trigger] s.upvoted(key, who).downvotes[key].contains(x) <==> s.downvotes[key].contains(x)),
        forall|k: Seq<char>|
            k != key ==> #[trigger] s.upvoted(key, who).voting_point(k) == s.voting_point(k),
        s.upvoted(key, who).voting_point(key) == Some(
            s.voting_point(key)->Some_0 + (if s.upvotes[key].contains(who) {
                0int
            } else {
                1int
            }) + (if s.downvotes[key].contains(who) {
                1int
            } else {
                0int
            }),
        ),
{
    assert(s.downvotes.dom().contains(key));
    lemma_remove_value(s.downvotes[key], who);
    lemma_with_vote(s.upvotes[key], who);
    lemma_vote_lengths(s.upvotes[key], who);
    lemma_vote_lengths(s.downvotes[key], who);
    lemma_step_keeps_wf(s, Message::UpvoteAnswer { caller: who, answer: key });
    if s.answers.dom().contains(key) {
        assert(s.step(Message::UpvoteAnswer { caller: who, answer: key }) == s.upvoted(key, who));
    } else {
        lemma_step_keeps_wf(s, Message::UpvoteQuestion { caller: who, question: key });
        assert(s.step(Message::UpvoteQuestion { caller: who, question: key }) == s.upvoted(key, who));
    }
}

/// After `who` votes a text down, `who` is on its down-list and off its
/// up-list, every other voter is on the same list as before, the other texts
/// keep their votes, and the score falls by one for a new voter, by two for
/// a voter who had voted it up, and not at all for one who had voted it
/// down.
pub proof fn downvote_moves_the_vote(s: BoardView, key: Seq<char>, who: AccountId)
    requires
        s.wf(),
        s.upvotes.dom().contains(key),
    ensures
        s.downvoted(key, who).wf(),
        s.downvoted(key, who).downvotes[key].contains(who),
        !s.downvoted(key, who).upvotes[key].contains(who),
        forall|x: AccountId|
            x != who ==> (#[trigger] s.downvoted(key, who).upvotes[key].contains(x) <==> s.upvotes[key].contains(x)),
        forall|x: AccountId|
            x != who ==> (#[trigger] s.downvoted(key, who).downvotes[key].contains(x) <==> s.downvotes[key].contains(x)),
        forall|k: Seq<char>|
            k != key ==> #[trigger] s.downvoted(key, who).voting_point(k) == s.voting_point(k),
        s.downvoted(key, who).voting_point(key) == Some(
            s.voting_point(key)->Some_0 - (if s.downvotes[key].contains(who) {
                0int
            } else {
                1int
            }) - (if s.upvotes[key].contains(who) {
                1int
            } else {
                0int
            }),
        ),
{
    assert(s.downvotes.dom().contains(key));
    lemma_remove_value(s.upvotes[key], who);
    lemma_with_vote(s.downvotes[key], who);
    lemma_vote_lengths(s.upvotes[key], who);
    lemma_vote_lengths(s.downvotes[key], who);
    if s.answers.dom().contains(key) {
        lemma_step_keeps_wf(s, Message::DownvoteAnswer { caller: who, answer: key });
        assert(s.step(Message::DownvoteAnswer { caller: who, answer: key }) == s.downvoted(key, who));
    } else {
        lemma_step_keeps_wf(s, Message::DownvoteQuestion { caller: who, question: key });
        assert(s.step(Message::DownvoteQuestion { caller: who, question: key }) == s.downvoted(
            key,
            who,
        ));
    }
}

/// The last vote wins: an up-vote followed by a down-vote of the same voter
/// leaves the up-list as the down-vote alone leaves it, and the down-list
/// with the same voters and length (only the voter's place in it may
/// differ), so the same score; and the other way round.
pub proof fn last_vote_wins(s: BoardView, key: Seq<char>, who: AccountId)
    requires
        s.wf(),
        s.upvotes.dom().contains(key),
    ensures
        s.upvoted(key, who).downvoted(key, who).upvotes == s.downvoted(key, who).upvotes,
        s.upvoted(key, who).downvoted(key, who).downvotes[key].to_set() == s.downvoted(
            key,
            who,
        ).downvotes[key].to_set(),
        s.upvoted(key, who).downvoted(key, who).downvotes[key].len() == s.downvoted(
            key,
            who,
        ).downvotes[key].len(),
        s.upvoted(key, who).downvoted(key, who).downvotes.remove(key) == s.downvoted(
            key,
            who,
        ).downvotes.remove(key),
        s.upvoted(key, who).downvoted(key, who).voting_point(key) == s.downvoted(
            key,
            who,
        ).voting_point(key),
        s.downvoted(key, who).upvoted(key, who).downvotes == s.upvoted(key, who).downvotes,
        s.downvoted(key, who).upvoted(key, who).upvotes[key].to_set() == s.upvoted(
            key,
            who,
        ).upvotes[key].to_set(),
        s.downvoted(key, who).upvoted(key, who).upvotes[key].len() == s.upvoted(
            key,
            who,
        ).upvotes[key].len(),
        s.downvoted(key, who).upvoted(key, who).upvotes.remove(key) == s.upvoted(
            key,
            who,
        ).upvotes.remove(key),
        s.downvoted(key, who).upvoted(key, who).voting_point(key) == s.upvoted(
            key,
            who,
        ).voting_point(key),
{
    assert(s.downvotes.dom().contains(key));
    let up = s.upvotes[key];
    let down = s.downvotes[key];
    lemma_remove_value(up, who);
    lemma_remove_value(down, who);
    lemma_with_vote(up, who);
    lemma_with_vote(down, who);
    lemma_vote_lengths(up, who);
    lemma_vote_lengths(down, who);
    // Withdrawing a vote just cast, or never cast, gives the list back.
    lemma_withdraw_after_vote(up, who);
    lemma_withdraw_after_vote(down, who);
    lemma_remove_value(with_vote(up, who), who);
    lemma_remove_value(with_vote(down, who), who);
    lemma_with_vote(down.remove_value(who), who);
    lemma_with_vote(up.remove_value(who), who);
    lemma_vote_lengths(down.remove_value(who), who);
    lemma_vote_lengths(up.remove_value(who), who);
    let a = s.upvoted(key, who).downvoted(key, who);
    let b = s.downvoted(key, who);
    assert(a.upvotes =~= b.upvotes);
    assert(a.downvotes[key].to_set() =~= b.downvotes[key].to_set());
    assert(a.downvotes.remove(key) =~= b.downvotes.remove(key));
    let c = s.downvoted(key, who).upvoted(key, who);
    let d = s.upvoted(key, who);
    assert(c.downvotes =~= d.downvotes);
    assert(c.upvotes[key].to_set() =~= d.upvotes[key].to_set());
    assert(c.upvotes.remove(key) =~= d.upvotes.remove(key));
}

/// Withdrawing `who` from a list that `who` just voted for gives back the
/// list as it was without `who`.
proof fn lemma_withdraw_after_vote(s: Seq<AccountId>, who: AccountId)
    requires
        s.no_duplicates(),
    ensures
        with_vote(s, who).remove_value(who) == s.remove_value(who),
{
    if !s.contains(who) {
        let t = s.push(who);
        assert(t[s.len() as int] == who);
        assert(t.contains(who));
        s.index_of_first_ensures(who);
        t.index_of_first_ensures(who);
        let i = t.index_of_first(who)->Some_0;
        assert(i == s.len()) by {
            if i < s.len() {
                assert(s[i] == who);
            }
        }
        assert(t.remove(i) =~= s);
    }
}

/// A posted question keeps its author whatever requests follow, and posting
/// it again is refused.
pub proof fn posted_question_keeps_owner(start: BoardView, msgs: Seq<Message>, question: Seq<char>)
    requires
        start.questions.dom().contains(question),
    ensures
        run(start, msgs).questions.dom().contains(question),
        run(start, msgs).questions[question] == start.questions[question],
        forall|caller: AccountId|
            #[trigger] run(start, msgs).refusal(Message::CreateQuestion { caller, question })
                == Some(Error::QuestionAlreadyExists),
    decreases msgs.len(),
{
    if msgs.len() > 0 {
        posted_question_keeps_owner(start, msgs.drop_last(), question);
    }
}

/// On every board reached from the empty one, a text has vote lists
/// exactly when it was posted, and a voter is on its up-list (its down-list)
/// exactly when the voter's latest accepted vote on it since it was last
/// posted is up (down).
pub proof fn votes_are_latest_votes(msgs: Seq<Message>, key: Seq<char>, who: AccountId)
    ensures
        run(BoardView::empty(), msgs).upvotes.dom().contains(key) <==> (run(
            BoardView::empty(),
            msgs,
        ).questions.dom().contains(key) || run(BoardView::empty(), msgs).answers.dom().contains(
            key,
        )),
        run(BoardView::empty(), msgs).upvotes.dom().contains(key) ==> {
            &&& run(BoardView::empty(), msgs).upvotes[key].contains(who) <==> latest_vote(
                msgs,
                key,
                who,
            ) == Some(true)
            &&& run(BoardView::empty(), msgs).downvotes[key].contains(who) <==> latest_vote(
                msgs,
                key,
                who,
            ) == Some(false)
        },
    decreases msgs.len(),
{
    run_keeps_wf(msgs);
    if msgs.len() > 0 {
        let prev = msgs.drop_last();
        let b = run(BoardView::empty(), prev);
        let m = msgs.last();
        votes_are_latest_votes(prev, key, who);
        run_keeps_wf(prev);
        assert(run(BoardView::empty(), msgs) == b.step(m));
        if b.refusal(m) is None {
            match m {
                Message::UpvoteQuestion { caller, question } => {
                    if question == key {
                        assert(b.downvotes.dom().contains(key));
                        lemma_remove_value(b.downvotes[key], caller);
                        lemma_with_vote(b.upvotes[key], caller);
                    }
                },
                Message::UpvoteAnswer { caller, answer } => {
                    if answer == key {
                        assert(b.downvotes.dom().contains(key));
                        lemma_remove_value(b.downvotes[key], caller);
                        lemma_with_vote(b.upvotes[key], caller);
                    }
                },
                Message::DownvoteQuestion { caller, question } => {
                    if question == key {
                        assert(b.downvotes.dom().contains(key));
                        lemma_remove_value(b.upvotes[key], caller);
                        lemma_with_vote(b.downvotes[key], caller);
                    }
                },
                Message::DownvoteAnswer { caller, answer } => {
                    if answer == key {
                        assert(b.downvotes.dom().contains(key));
                        lemma_remove_value(b.upvotes[key], caller);
                        lemma_with_vote(b.downvotes[key], caller);
                    }
                },
                _ => {},
            }
        }
    }
}

/// On every board reached from the empty one, the score of a posted text is
/// the number of voters whose latest vote on it since it was last posted is
/// up, less the number whose latest such vote is down.
pub proof fn score_counts_latest_votes(msgs: Seq<Message>, key: Seq<char>)
    requires
        run(BoardView::empty(), msgs).upvotes.dom().contains(key),
    ensures
        run(BoardView::empty(), msgs).voting_point(key) == Some(
            Set::new(|w: AccountId| latest_vote(msgs, key, w) == Some(true)).len() - Set::new(
                |w: AccountId| latest_vote(msgs, key, w) == Some(false),
            ).len(),
        ),
{
    let b = run(BoardView::empty(), msgs);
    run_keeps_wf(msgs);
    assert(b.downvotes.dom().contains(key));
    assert forall|w: AccountId| #[trigger] b.upvotes[key].contains(w) <==> latest_vote(msgs, key, w) == Some(true) by {
        votes_are_latest_votes(msgs, key, w);
    }
    assert forall|w: AccountId| #[trigger] b.downvotes[key].contains(w) <==> latest_vote(msgs, key, w) == Some(false) by {
        votes_are_latest_votes(msgs, key, w);
    }
    assert(b.upvotes[key].to_set() =~= Set::new(|w: AccountId| latest_vote(msgs, key, w) == Some(true)));
    assert(b.downvotes[key].to_set() =~= Set::new(|w: AccountId| latest_vote(msgs, key, w) == Some(false)));
    b.upvotes[key].unique_seq_to_set();
    b.downvotes[key].unique_seq_to_set();
}

/// A posted text has a score, and a text just posted scores 0.
pub proof fn posted_texts_have_a_score(s: BoardView, m: Message)
    requires
        s.wf(),
        s.refusal(m) is None,
        m.posted() is Some,
    ensures
        s.step(m).voting_point(m.posted()->Some_0) == Some(0int),
        forall|k: Seq<char>|
            (s.questions.dom().contains(k) || s.answers.dom().contains(k)) ==> #[trigger] s.voting_point(k) is Some,
{
    assert forall|k: Seq<char>|
        (s.questions.dom().contains(k) || s.answers.dom().contains(k)) implies #[trigger] s.voting_point(k) is Some by {
        assert(s.upvotes.dom().contains(k));
        assert(s.downvotes.dom().contains(k));
    }
}

/// Posting a question touches only the questions and that question's vote
/// lists, which start empty; the answers stay as they are. A question posted
/// before is refused and nothing changes.
pub proof fn posting_a_question(s: BoardView, caller: AccountId, question: Seq<char>)
    ensures
        s.step(Message::CreateQuestion { caller, question }).answers == s.answers,
        s.questions.dom().contains(question) ==> s.step(Message::CreateQuestion { caller, question })
            == s,
        s.questions.dom().contains(question) ==> s.refusal(Message::CreateQuestion { caller, question })
            == Some(Error::QuestionAlreadyExists),
        !s.questions.dom().contains(question) ==> {
            &&& s.refusal(Message::CreateQuestion { caller, question }) is None
            &&& s.step(Message::CreateQuestion { caller, question }).questions == s.questions.insert(
                question,
                caller,
            )
            &&& s.step(Message::CreateQuestion { caller, question }).upvotes == s.upvotes.insert(
                question,
                Seq::empty(),
            )
            &&& s.step(Message::CreateQuestion { caller, question }).downvotes == s.downvotes.insert(
                question,
                Seq::empty(),
            )
        },
{
}

/// Answering a question touches only the answers and that answer's vote
/// lists, which start empty; the posted questions stay as they are, so an
/// answer is never also a question. Answering a question never posted is
/// refused and nothing changes.
pub proof fn answering_a_question(
    s: BoardView,
    caller: AccountId,
    answer: Seq<char>,
    question: Seq<char>,
)
    ensures
        s.step(Message::AnswerToQuestion { caller, answer, question }).questions == s.questions,
        !s.questions.dom().contains(question) ==> s.step(
            Message::AnswerToQuestion { caller, answer, question },
        ) == s,
        !s.questions.dom().contains(question) ==> s.refusal(
            Message::AnswerToQuestion { caller, answer, question },
        ) == Some(Error::QuestionNotExists),
        s.questions.dom().contains(question) ==> {
            &&& s.refusal(Message::AnswerToQuestion { caller, answer, question }) is None
            &&& s.step(Message::AnswerToQuestion { caller, answer, question }).answers
                == s.answers.insert(answer, caller)
            &&& s.step(Message::AnswerToQuestion { caller, answer, question }).upvotes
                == s.upvotes.insert(answer, Seq::empty())
            &&& s.step(Message::AnswerToQuestion { caller, answer, question }).downvotes
                == s.downvotes.insert(answer, Seq::empty())
        },
{
}

/// A vote touches only the vote lists of its text: the questions and the
/// answers stay as they are. A vote on a question is refused exactly when no
/// such question was posted, and a vote on an answer exactly when no such
/// answer was posted (a question of the same text does not count).
pub proof fn voting_touches_only_votes(s: BoardView, caller: AccountId, key: Seq<char>)
    ensures
        s.step(Message::UpvoteQuestion { caller, question: key }).questions == s.questions,
        s.step(Message::UpvoteQuestion { caller, question: key }).answers == s.answers,
        s.step(Message::DownvoteQuestion { caller, question: key }).questions == s.questions,
        s.step(Message::DownvoteQuestion { caller, question: key }).answers == s.answers,
        s.step(Message::UpvoteAnswer { caller, answer: key }).questions == s.questions,
        s.step(Message::UpvoteAnswer { caller, answer: key }).answers == s.answers,
        s.step(Message::DownvoteAnswer { caller, answer: key }).questions == s.questions,
        s.step(Message::DownvoteAnswer { caller, answer: key }).answers == s.answers,
        s.refusal(Message::UpvoteQuestion { caller, question: key }) == (if s.questions.dom().contains(
            key,
        ) {
            None
        } else {
            Some(Error::QuestionNotExists)
        }),
        s.refusal(Message::DownvoteQuestion { caller, question: key }) == (
        if s.questions.dom().contains(key) {
            None
        } else {
            Some(Error::QuestionNotExists)
        }),
        s.refusal(Message::UpvoteAnswer { caller, answer: key }) == (if s.answers.dom().contains(key) {
            None
        } else {
            Some(Error::AnswerNotExists)
        }),
        s.refusal(Message::DownvoteAnswer { caller, answer: key }) == (if s.answers.dom().contains(
            key,
        ) {
            None
        } else {
            Some(Error::AnswerNotExists)
        }),
        s.questions.dom().contains(key) ==> s.step(Message::UpvoteQuestion { caller, question: key })
            == s.upvoted(key, caller) && s.step(Message::DownvoteQuestion { caller, question: key })
            == s.downvoted(key, caller),
        s.answers.dom().contains(key) ==> s.step(Message::UpvoteAnswer { caller, answer: key })
            == s.upvoted(key, caller) && s.step(Message::DownvoteAnswer { caller, answer: key })
            == s.downvoted(key, caller),
{
}

/// A vote is appended: the voters already on the list keep their places,
/// and a voter not yet on it comes last.
pub proof fn votes_are_appended(votes: Seq<AccountId>, who: AccountId)
    ensures
        with_vote(votes, who).len() >= votes.len(),
        with_vote(votes, who).subrange(0, votes.len() as int) == votes,
        votes.contains(who) ==> with_vote(votes, who).len() == votes.len(),
        !votes.contains(who) ==> with_vote(votes, who).len() == votes.len() + 1 && with_vote(
            votes,
            who,
        )[votes.len() as int] == who,
{
    assert(with_vote(votes, who).subrange(0, votes.len() as int) =~= votes);
}

} // verus!
