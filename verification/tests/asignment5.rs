use lib::asignment5::{
    same_account, AccountId, Asignment5, CreateQuestion, DownvoteQOrA, Error, UpvoteQOrA,
};

const ALICE: AccountId = [1u8; 32];
const BOB: AccountId = [2u8; 32];
const CAROL: AccountId = [3u8; 32];

fn text(s: &str) -> String {
    s.to_string()
}

fn board_with_question(q: &str) -> Asignment5 {
    let mut board = Asignment5::new();
    board.create_question(ALICE, text(q)).unwrap();
    board
}

#[test]
fn new_board_knows_no_text() {
    let board = Asignment5::new();
    assert_eq!(board.get_voting_point(text("anything")), None);
}

#[test]
fn create_question_reports_author_and_scores_zero() {
    let mut board = Asignment5::new();
    let ev = board.create_question(ALICE, text("why?")).unwrap();
    assert_eq!(ev, CreateQuestion { question: text("why?"), from: ALICE });
    assert_eq!(board.get_voting_point(text("why?")), Some(0));
}

#[test]
fn create_question_twice_is_refused() {
    let mut board = board_with_question("why?");
    board.upvote_question(BOB, text("why?")).unwrap();
    assert_eq!(board.create_question(CAROL, text("why?")), Err(Error::QuestionAlreadyExists));
    assert_eq!(board.get_voting_point(text("why?")), Some(1));
}

#[test]
fn answer_to_unknown_question_is_refused() {
    let mut board = board_with_question("why?");
    assert_eq!(
        board.answer_to_question(BOB, text("because"), text("how?")).map(|_| ()),
        Err(Error::QuestionNotExists)
    );
    assert_eq!(board.get_voting_point(text("because")), None);
}

#[test]
fn answer_reports_question_and_author() {
    let mut board = board_with_question("why?");
    let ev = board.answer_to_question(BOB, text("because"), text("why?")).unwrap();
    assert_eq!(ev.answer, text("because"));
    assert_eq!(ev.question, text("why?"));
    assert_eq!(ev.from, BOB);
    assert_eq!(board.get_voting_point(text("because")), Some(0));
}

#[test]
fn answering_again_starts_the_votes_over() {
    let mut board = board_with_question("why?");
    board.answer_to_question(BOB, text("because"), text("why?")).unwrap();
    board.upvote_answer(CAROL, text("because")).unwrap();
    assert_eq!(board.get_voting_point(text("because")), Some(1));
    board.answer_to_question(CAROL, text("because"), text("why?")).unwrap();
    assert_eq!(board.get_voting_point(text("because")), Some(0));
}

#[test]
fn votes_on_unknown_texts_are_refused() {
    let mut board = board_with_question("why?");
    assert_eq!(board.upvote_question(BOB, text("how?")).map(|_| ()), Err(Error::QuestionNotExists));
    assert_eq!(board.downvote_question(BOB, text("how?")).map(|_| ()), Err(Error::QuestionNotExists));
    assert_eq!(board.upvote_answer(BOB, text("why?")).map(|_| ()), Err(Error::AnswerNotExists));
    assert_eq!(board.downvote_anwser(BOB, text("why?")).map(|_| ()), Err(Error::AnswerNotExists));
    assert_eq!(board.get_voting_point(text("why?")), Some(0));
}

#[test]
fn upvote_reports_the_voter() {
    let mut board = board_with_question("why?");
    let ev = board.upvote_question(BOB, text("why?")).unwrap();
    assert_eq!(ev, UpvoteQOrA { q_or_a: text("why?"), from: BOB });
    let ev = board.downvote_question(CAROL, text("why?")).unwrap();
    assert_eq!(ev, DownvoteQOrA { q_or_a: text("why?"), from: CAROL });
    assert_eq!(board.get_voting_point(text("why?")), Some(0));
}

#[test]
fn upvote_twice_counts_once_on_concrete_values() {
    let mut board = board_with_question("why?");
    board.upvote_question(BOB, text("why?")).unwrap();
    board.upvote_question(BOB, text("why?")).unwrap();
    assert_eq!(board.get_voting_point(text("why?")), Some(1));
    board.downvote_question(CAROL, text("why?")).unwrap();
    board.downvote_question(CAROL, text("why?")).unwrap();
    assert_eq!(board.get_voting_point(text("why?")), Some(0));
}

#[test]
fn a_vote_moves_from_down_to_up_and_back() {
    let mut board = board_with_question("why?");
    board.downvote_question(BOB, text("why?")).unwrap();
    assert_eq!(board.get_voting_point(text("why?")), Some(-1));
    board.upvote_question(BOB, text("why?")).unwrap();
    assert_eq!(board.get_voting_point(text("why?")), Some(1));
    board.downvote_question(BOB, text("why?")).unwrap();
    assert_eq!(board.get_voting_point(text("why?")), Some(-1));
}

#[test]
fn answer_votes_count_per_answer() {
    let mut board = board_with_question("why?");
    board.answer_to_question(BOB, text("because"), text("why?")).unwrap();
    board.answer_to_question(CAROL, text("no idea"), text("why?")).unwrap();
    board.upvote_answer(ALICE, text("because")).unwrap();
    board.upvote_answer(BOB, text("because")).unwrap();
    board.downvote_anwser(ALICE, text("no idea")).unwrap();
    assert_eq!(board.get_voting_point(text("because")), Some(2));
    assert_eq!(board.get_voting_point(text("no idea")), Some(-1));
    assert_eq!(board.get_voting_point(text("why?")), Some(0));
}

#[test]
fn question_and_answer_with_same_text_share_votes() {
    let mut board = board_with_question("same");
    board.upvote_question(BOB, text("same")).unwrap();
    board.answer_to_question(CAROL, text("same"), text("same")).unwrap();
    assert_eq!(board.get_voting_point(text("same")), Some(0));
    board.upvote_answer(BOB, text("same")).unwrap();
    assert_eq!(board.get_voting_point(text("same")), Some(1));
}

#[test]
fn accounts_compare_by_every_byte() {
    let mut other = ALICE;
    other[31] = 9;
    assert!(same_account(&ALICE, &ALICE));
    assert!(!same_account(&ALICE, &other));
    assert!(!same_account(&ALICE, &BOB));
}

#[test]
fn last_vote_wins_on_concrete_values() {
    let mut both = board_with_question("why?");
    both.upvote_question(CAROL, text("why?")).unwrap();
    both.upvote_question(BOB, text("why?")).unwrap();
    both.downvote_question(BOB, text("why?")).unwrap();
    let mut down_only = board_with_question("why?");
    down_only.upvote_question(CAROL, text("why?")).unwrap();
    down_only.downvote_question(BOB, text("why?")).unwrap();
    assert_eq!(both.get_voting_point(text("why?")), Some(0));
    assert_eq!(both.get_voting_point(text("why?")), down_only.get_voting_point(text("why?")));
}

#[test]
fn posted_question_stays_posted() {
    let mut board = board_with_question("why?");
    board.answer_to_question(BOB, text("why?"), text("why?")).unwrap();
    board.downvote_question(CAROL, text("why?")).unwrap();
    board.upvote_answer(BOB, text("why?")).unwrap();
    assert_eq!(board.create_question(BOB, text("why?")), Err(Error::QuestionAlreadyExists));
    assert_eq!(board.create_question(ALICE, text("why?")), Err(Error::QuestionAlreadyExists));
}

#[test]
fn score_counts_latest_votes_on_concrete_values() {
    let mut board = board_with_question("why?");
    board.upvote_question(ALICE, text("why?")).unwrap();
    board.downvote_question(BOB, text("why?")).unwrap();
    board.upvote_question(CAROL, text("why?")).unwrap();
    board.downvote_question(ALICE, text("why?")).unwrap();
    board.upvote_question(BOB, text("why?")).unwrap();
    // Latest votes: ALICE down, BOB up, CAROL up.
    assert_eq!(board.get_voting_point(text("why?")), Some(1));
    board.answer_to_question(ALICE, text("why?"), text("why?")).unwrap();
    // Posting the text again starts its votes over.
    assert_eq!(board.get_voting_point(text("why?")), Some(0));
}
