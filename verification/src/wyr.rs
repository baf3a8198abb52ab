//! "Would you rather": the texts of a question and its answers, the poll
//! under a question, and which questions were asked lately.

use vstd::prelude::*;
use crate::models::Question;
use crate::text::{signed_decimal, decimal, join, views, join_strings, push_signed_decimal, push_decimal, occurs_at, str_eq};

verus! {

/// The tally of a question: how many chose each option.
pub open spec fn results_text(q: Question) -> Seq<char> {
    "A total of "@ + signed_decimal(q.choice1_answers as int) + " would **"@ + q.choice1@
        + "**, while "@ + signed_decimal(q.choice2_answers as int) + " would **"@ + q.choice2@
        + "**"@
}

/// Writes the tally of a question.
pub fn format_results(question: &Question) -> (r: String)
    ensures
        r@ == results_text(*question),
{
    let mut r = String::new();
    r.append("A total of ");
    push_signed_decimal(&mut r, question.choice1_answers as i64);
    r.append(" would **");
    r.append(question.choice1.as_str());
    r.append("**, while ");
    push_signed_decimal(&mut r, question.choice2_answers as i64);
    r.append(" would **");
    r.append(question.choice2.as_str());
    r.append("**");
    r
}

/// How a member is mentioned.
pub open spec fn mention(user_id: u64) -> Seq<char> {
    "<@"@ + decimal(user_id as nat) + ">"@
}

/// The line of a member's answer: who chose what.
pub open spec fn response_text(user_id: u64, choice: Seq<char>) -> Seq<char> {
    "**"@ + mention(user_id) + "** would **"@ + choice + "**!"@
}

/// Writes the line of a member's answer.
pub fn format_response(user_id: u64, choice: &String) -> (r: String)
    ensures
        r@ == response_text(user_id, choice@),
{
    let mut r = String::new();
    r.append("**<@");
    push_decimal(&mut r, user_id);
    r.append(">** would **");
    r.append(choice.as_str());
    r.append("**!");
    proof {
        reveal_strlit("**<@");
        reveal_strlit(">** would **");
        reveal_strlit("**");
        reveal_strlit("<@");
        reveal_strlit(">");
        reveal_strlit("** would **");
        assert(r@ =~= response_text(user_id, choice@));
    }
    r
}

/// A question with the answers given so far, one per line.
pub open spec fn question_text(q: Question, responses: Seq<Seq<char>>) -> Seq<char> {
    "Would you rather \u{1f7e2} **"@ + q.choice1@ + "** or \u{1f534} **"@ + q.choice2@ + "**?\n\n"@
        + join(responses, "\n"@)
}

/// Writes a question with the answers given so far.
pub fn format_question(question: &Question, responses: &Vec<String>) -> (r: String)
    ensures
        r@ == question_text(*question, views(responses@)),
{
    let mut r = String::new();
    r.append("Would you rather \u{1f7e2} **");
    r.append(question.choice1.as_str());
    r.append("** or \u{1f534} **");
    r.append(question.choice2.as_str());
    r.append("**?\n\n");
    let joined = join_strings(responses, "\n");
    r.append(joined.as_str());
    r
}

/// The final text of a poll: the question with its answers, then the
/// tally.
pub fn format_poll_result(question: &Question, responses: &Vec<String>) -> (r: String)
    ensures
        r@ == question_text(*question, views(responses@)) + "\n\n"@ + results_text(*question),
{
    let mut r = format_question(question, responses);
    r.append("\n\n");
    let t = format_results(question);
    r.append(t.as_str());
    r
}

/// A poll under a question: the question with its running tally, the
/// answer lines, and who answered.
#[derive(Debug, Clone)]
pub struct Poll {
    pub question: Question,
    pub responses: Vec<String>,
    pub replies: Vec<u64>,
}

/// A button press under a poll.
#[derive(Debug, Clone, Copy, PartialEq, Eq, Structural)]
pub enum PollButton {
    Choice1,
    Choice2,
    Other,
}

/// The button that a component id names.
pub open spec fn poll_button_named(id: Seq<char>) -> PollButton {
    if id == "choice_1"@ {
        PollButton::Choice1
    } else if id == "choice_2"@ {
        PollButton::Choice2
    } else {
        PollButton::Other
    }
}

/// Reads the button from an interaction's component id.
pub fn poll_button(custom_id: &str) -> (r: PollButton)
    ensures
        r == poll_button_named(custom_id@),
{
    if str_eq(custom_id, "choice_1") {
        PollButton::Choice1
    } else if str_eq(custom_id, "choice_2") {
        PollButton::Choice2
    } else {
        PollButton::Other
    }
}

/// What the poll answers a press.
#[derive(Debug, Clone, Copy, PartialEq, Eq, Structural)]
pub enum PollReply {
    /// The member answered before: they are told so, privately.
    AlreadyAnswered,
    /// The answer was counted: the question is shown again.
    Counted,
    /// An unknown button: the member is told that something went wrong.
    Unknown,
}

impl Poll {
    /// A poll with no answers yet.
    pub fn new(question: Question) -> (r: Self)
        ensures
            r.question == question,
            r.responses@.len() == 0,
            r.replies@.len() == 0,
    {
        Poll { question, responses: Vec::new(), replies: Vec::new() }
    }

    /// Takes the press of `button` by the member `user_id`: an answer
    /// counts once per member, for the chosen option.
    pub fn press(&mut self, user_id: u64, button: PollButton) -> (r: PollReply)
        requires
            old(self).question.choice1_answers < i32::MAX,
            old(self).question.choice2_answers < i32::MAX,
        ensures
            old(self).replies@.contains(user_id) ==> r == PollReply::AlreadyAnswered && *final(self)
                == *old(self),
            !old(self).replies@.contains(user_id) && button == PollButton::Other ==> r
                == PollReply::Unknown && *final(self) == *old(self),
            !old(self).replies@.contains(user_id) && button == PollButton::Choice1 ==> {
                &&& r == PollReply::Counted
                &&& final(self).replies@ == old(self).replies@.push(user_id)
                &&& views(final(self).responses@) == views(old(self).responses@).push(
                    response_text(user_id, old(self).question.choice1@),
                )
                &&& final(self).question == (Question {
                    choice1_answers: (old(self).question.choice1_answers + 1) as i32,
                    ..old(self).question
                })
            },
            !old(self).replies@.contains(user_id) && button == PollButton::Choice2 ==> {
                &&& r == PollReply::Counted
                &&& final(self).replies@ == old(self).replies@.push(user_id)
                &&& views(final(self).responses@) == views(old(self).responses@).push(
                    response_text(user_id, old(self).question.choice2@),
                )
                &&& final(self).question == (Question {
                    choice2_answers: (old(self).question.choice2_answers + 1) as i32,
                    ..old(self).question
                })
            },
    {
        let mut i: usize = 0;
        while i < self.replies.len()
            invariant
                i <= self.replies@.len(),
                forall|j: int| 0 <= j < i ==> self.replies@[j] != user_id,
            decreases self.replies@.len() - i,
        {
            if self.replies[i] == user_id {
                assert(self.replies@.contains(user_id)) by {
                    assert(self.replies@[i as int] == user_id);
                }
                return PollReply::AlreadyAnswered;
            }
            i = i + 1;
        }
        assert(!self.replies@.contains(user_id));
        match button {
            PollButton::Choice1 => {
                self.replies.push(user_id);
                let line = format_response(user_id, &self.question.choice1);
                self.responses.push(line);
                self.question.choice1_answers = self.question.choice1_answers + 1;
                assert(views(self.responses@) =~= views(old(self).responses@).push(
                    response_text(user_id, old(self).question.choice1@),
                ));
                PollReply::Counted
            },
            PollButton::Choice2 => {
                self.replies.push(user_id);
                let line = format_response(user_id, &self.question.choice2);
                self.responses.push(line);
                self.question.choice2_answers = self.question.choice2_answers + 1;
                assert(views(self.responses@) =~= views(old(self).responses@).push(
                    response_text(user_id, old(self).question.choice2@),
                ));
                PollReply::Counted
            },
            PollButton::Other => PollReply::Unknown,
        }
    }
}

/// A member who answered is refused afterwards, whatever they press.
pub proof fn lemma_answer_once(replies: Seq<u64>, user_id: u64)
    ensures
        replies.push(user_id).contains(user_id),
{
    assert(replies.push(user_id)[replies.len() as int] == user_id);
}

/// The list of recently asked questions after `id` is asked, when
/// `total` questions exist: `id` joins at the end, and the oldest leaves
/// once the list holds more than half of all questions.
pub open spec fn recent_after(recent: Seq<i32>, id: i32, total: i64) -> Seq<i32> {
    if 2 * (recent.len() + 1) > total {
        recent.push(id).drop_first()
    } else {
        recent.push(id)
    }
}

/// Records that question `id` was asked.
pub fn add_recent_question(recent: &mut Vec<i32>, id: i32, total: i64)
    requires
        old(recent)@.len() < usize::MAX,
    ensures
        final(recent)@ == recent_after(old(recent)@, id, total),
{
    recent.push(id);
    let len = recent.len();
    let over = if total < 0 {
        true
    } else {
        let half = total / 2;
        (len as i128) > (half as i128)
    };
    proof {
        if total >= 0 {
            assert(((len as int) > total / 2) == (2 * len > total));
        }
    }
    if over {
        recent.remove(0);
        assert(recent@ =~= old(recent)@.push(id).drop_first());
    }
}

/// Whether question `id` was asked lately.
pub fn is_recent(recent: &Vec<i32>, id: i32) -> (r: bool)
    ensures
        r == recent@.contains(id),
{
    let mut i: usize = 0;
    while i < recent.len()
        invariant
            i <= recent@.len(),
            forall|j: int| 0 <= j < i ==> recent@[j] != id,
        decreases recent@.len() - i,
    {
        if recent[i] == id {
            assert(recent@[i as int] == id);
            return true;
        }
        i = i + 1;
    }
    false
}

/// The separator between the two options of a question.
pub open spec fn separator() -> Seq<char> {
    " or "@
}

/// The first position at or after `from` where `" or "` starts, if any.
pub open spec fn next_separator(s: Seq<char>, from: int) -> Option<int>
    decreases s.len() - from,
{
    if from < 0 || from + 4 > s.len() {
        None
    } else if occurs_at(s, from, separator()) {
        Some(from)
    } else {
        next_separator(s, from + 1)
    }
}

/// The two options of a question written as `<option 1> or <option 2>`:
/// the text before the first `" or "`, and the text after it up to the
/// next `" or "` or the end.
pub open spec fn split_choices(s: Seq<char>) -> Option<(Seq<char>, Seq<char>)> {
    match next_separator(s, 0) {
        None => None,
        Some(i) => match next_separator(s, i + 4) {
            Some(j) => Some((s.subrange(0, i), s.subrange(i + 4, j))),
            None => Some((s.subrange(0, i), s.subrange(i + 4, s.len() as int))),
        },
    }
}

proof fn lemma_next_separator(s: Seq<char>, from: int)
    ensures
        next_separator(s, from) matches Some(i) ==> from <= i && i + 4 <= s.len() && occurs_at(
            s,
            i,
            separator(),
        ),
    decreases s.len() - from,
{
    if !(from < 0 || from + 4 > s.len()) && !occurs_at(s, from, separator()) {
        lemma_next_separator(s, from + 1);
    }
}

fn next_separator_exec(v: &Vec<char>, sep: &Vec<char>, from: usize) -> (r: Option<usize>)
    requires
        sep@ == separator(),
    ensures
        match r {
            Some(i) => next_separator(v@, from as int) == Some(i as int),
            None => next_separator(v@, from as int) is None,
        },
    decreases v@.len() - from,
{
    if from > v.len() || v.len() - from < 4 {
        return None;
    }
    if crate::text::occurs_at_exec(v, from, sep) {
        Some(from)
    } else {
        next_separator_exec(v, sep, from + 1)
    }
}

/// Splits a question into its two options; `None` when it has no
/// `" or "`.
pub fn parse_choices(question: &str) -> (r: Option<(String, String)>)
    ensures
        match (r, split_choices(question@)) {
            (Some((a, b)), Some((x, y))) => a@ == x && b@ == y,
            (None, None) => true,
            _ => false,
        },
{
    let v = crate::text::chars_of(question);
    let sep = crate::text::chars_of(" or ");
    proof {
        reveal_strlit(" or ");
    }
    match next_separator_exec(&v, &sep, 0) {
        None => None,
        Some(i) => {
            let n = v.len();
            proof {
                lemma_next_separator(v@, 0);
                assert(i + 4 <= n);
                lemma_next_separator(v@, i + 4);
            }
            let mut a = String::new();
            crate::text::push_chars(&mut a, &v, 0, i);
            let end = match next_separator_exec(&v, &sep, i + 4) {
                Some(j) => j,
                None => v.len(),
            };
            proof {
                assert(occurs_at(v@, i as int, separator()));
            }
            let mut b = String::new();
            crate::text::push_chars(&mut b, &v, i + 4, end);
            Some((a, b))
        },
    }
}

/// Calls `rand::random_range(0..n)`: a random number below `n`. Its
/// documentation promises a value in the range; which one is left to
/// chance, so nothing else is stated.
#[verifier::external_body]
fn random_below(n: usize) -> (r: usize)
    requires
        n > 0,
    ensures
        r < n,
{
    rand::random_range(0..n)
}

/// The bot's own answer to a question it was asked: one of the options,
/// picked at random.
pub fn pick_choice(choice_1: &String, choice_2: &String) -> (r: String)
    ensures
        r@ == "I would "@ + choice_1@ + "!"@ || r@ == "I would "@ + choice_2@ + "!"@,
{
    let pick = random_below(2);
    let mut r = String::new();
    r.append("I would ");
    if pick == 0 {
        r.append(choice_1.as_str());
    } else {
        r.append(choice_2.as_str());
    }
    r.append("!");
    r
}

/// Whether a stored question already offers these two options, in
/// either order.
pub open spec fn asked_before(questions: Seq<Question>, choice_1: Seq<char>, choice_2: Seq<char>) -> bool {
    exists|i: int|
        0 <= i < questions.len() && ((#[trigger] questions[i]).choice1@ == choice_1
            && questions[i].choice2@ == choice_2 || questions[i].choice1@ == choice_2
            && questions[i].choice2@ == choice_1)
}

/// Whether a new question with these options may be stored: `false` when
/// one with the same options, in either order, is stored already.
pub fn check_for_duplicates(questions: &Vec<Question>, choice_1: &String, choice_2: &String) -> (r: bool)
    ensures
        r == !asked_before(questions@, choice_1@, choice_2@),
{
    let mut i: usize = 0;
    while i < questions.len()
        invariant
            i <= questions@.len(),
            forall|j: int|
                0 <= j < i ==> !((#[trigger] questions@[j]).choice1@ == choice_1@
                    && questions@[j].choice2@ == choice_2@ || questions@[j].choice1@ == choice_2@
                    && questions@[j].choice2@ == choice_1@),
        decreases questions@.len() - i,
    {
        let q = &questions[i];
        let same = str_eq(q.choice1.as_str(), choice_1.as_str()) && str_eq(
            q.choice2.as_str(),
            choice_2.as_str(),
        );
        let swapped = str_eq(q.choice1.as_str(), choice_2.as_str()) && str_eq(
            q.choice2.as_str(),
            choice_1.as_str(),
        );
        if same || swapped {
            assert(questions@[i as int] == *q);
            return false;
        }
        i = i + 1;
    }
    true
}

/// Picks a stored question that was not asked lately, at random among
/// those (drawing again until one is not recent picks each of them with
/// the same chance); `None` when every stored question was asked lately.
pub fn pick_question(questions: &Vec<Question>, recent: &Vec<i32>) -> (r: Option<usize>)
    ensures
        match r {
            Some(i) => i < questions@.len() && !recent@.contains(questions@[i as int].id),
            None => forall|i: int| 0 <= i < questions@.len() ==> recent@.contains(#[trigger] questions@[i].id),
        },
{
    let mut fresh: Vec<usize> = Vec::new();
    let mut i: usize = 0;
    while i < questions.len()
        invariant
            i <= questions@.len(),
            forall|k: int| 0 <= k < fresh@.len() ==> fresh@[k] < questions@.len()
                && !recent@.contains(questions@[fresh@[k] as int].id),
            fresh@.len() == 0 ==> forall|j: int| 0 <= j < i ==> recent@.contains(#[trigger] questions@[j].id),
        decreases questions@.len() - i,
    {
        if !is_recent(recent, questions[i].id) {
            fresh.push(i);
        }
        i = i + 1;
    }
    if fresh.len() == 0 {
        None
    } else {
        let k = random_below(fresh.len());
        Some(fresh[k])
    }
}

/// Whether the stored questions have pairwise different ids.
pub open spec fn distinct_ids(questions: Seq<Question>) -> bool {
    forall|i: int, j: int|
        0 <= i < j < questions.len() ==> (#[trigger] questions[i]).id != (#[trigger] questions[j]).id
}

/// Recording an asked question keeps the list of recent questions at
/// most half as long as the number of stored questions.
pub proof fn lemma_recent_under_half(recent: Seq<i32>, id: i32, total: i64)
    requires
        2 * recent.len() <= total,
    ensures
        2 * recent_after(recent, id, total).len() <= total,
{
}

/// While the recent questions are at most half of the stored ones, and
/// the stored questions have different ids, some stored question was not
/// asked lately: a question can always be picked.
pub proof fn lemma_fresh_question_exists(questions: Seq<Question>, recent: Seq<i32>)
    requires
        questions.len() > 0,
        2 * recent.len() <= questions.len(),
        distinct_ids(questions),
    ensures
        exists|i: int| 0 <= i < questions.len() && !recent.contains(#[trigger] questions[i].id),
{
    if forall|i: int| 0 <= i < questions.len() ==> recent.contains(#[trigger] questions[i].id) {
        let ids = questions.map_values(|q: Question| q.id);
        assert(ids.no_duplicates()) by {
            assert forall|i: int, j: int| 0 <= i < ids.len() && 0 <= j < ids.len() && i != j
                implies ids[i] != ids[j] by {
                if i < j {
                    assert(questions[i].id != questions[j].id);
                } else {
                    assert(questions[j].id != questions[i].id);
                }
            }
        }
        ids.unique_seq_to_set();
        recent.lemma_cardinality_of_set();
        assert(ids.to_set().subset_of(recent.to_set())) by {
            assert forall|x: i32| ids.to_set().contains(x) implies recent.to_set().contains(x) by {
                let k = choose|k: int| 0 <= k < ids.len() && ids[k] == x;
                assert(recent.contains(questions[k].id));
            }
        }
        vstd::set_lib::lemma_len_subset(ids.to_set(), recent.to_set());
        assert(false);
    }
}

} // verus!
