//! Chat summaries: a Markov chain is fed the stored messages and asked
//! for a message short enough to post.

use markov::Chain;
use vstd::prelude::*;
use crate::text::{join, join_strings, views};

verus! {

/// A Markov chain over words (`markov::Chain<String>`), kept whole in a
/// private field: the chain's transition table is read and written only
/// by the chain's own methods.
#[verifier::external_body]
pub struct WordChain {
    chain: Chain<String>,
}

/// Whether nothing has been fed into a chain (`Chain::is_empty`).
pub uninterp spec fn chain_is_empty(c: WordChain) -> bool;

/// The words that have been fed into a chain: the tokens of its
/// transition table.
pub uninterp spec fn chain_words(c: WordChain) -> Set<Seq<char>>;

/// The words of a list of tokens, as a set.
pub open spec fn word_set(tokens: Seq<String>) -> Set<Seq<char>> {
    views(tokens).to_set()
}

/// Calls `Chain::of_order`, which asserts that the order is not zero; a
/// new chain has been fed nothing.
#[verifier::external_body]
fn chain_of_order(order: usize) -> (r: WordChain)
    requires
        order > 0,
    ensures
        chain_is_empty(r),
        chain_words(r) == Set::<Seq<char>>::empty(),
{
    WordChain { chain: Chain::of_order(order) }
}

/// Calls `Chain::feed`. Feeding no tokens returns at once; feeding some
/// makes the chain non-empty and adds them to its words. Which
/// transitions the chain learns is not stated.
#[verifier::external_body]
fn chain_feed(c: &mut WordChain, tokens: Vec<String>)
    ensures
        tokens@.len() == 0 ==> chain_is_empty(*final(c)) == chain_is_empty(*old(c)),
        tokens@.len() > 0 ==> !chain_is_empty(*final(c)),
        chain_words(*final(c)) == chain_words(*old(c)).union(word_set(tokens@)),
{
    c.chain.feed(tokens);
}

/// Calls `Chain::generate`, which needs a chain that was fed something
/// (it draws from a range that is empty otherwise). From the start state
/// of a fed chain only fed words follow, so a draw is a non-empty list of
/// fed words; which words, and how many, is left to chance.
#[verifier::external_body]
fn chain_generate(c: &WordChain) -> (r: Vec<String>)
    requires
        !chain_is_empty(*c),
    ensures
        r@.len() > 0,
        forall|i: int| 0 <= i < r@.len() ==> chain_words(*c).contains(#[trigger] r@[i]@),
{
    c.chain.generate()
}

/// Whether `words` is a draw of the given chain's words: non-empty, and
/// each of them fed into the chain.
pub open spec fn drawn_from(words: Seq<String>, fed: Set<Seq<char>>) -> bool {
    &&& words.len() > 0
    &&& forall|i: int| 0 <= i < words.len() ==> fed.contains(#[trigger] words[i]@)
}

/// How many characters a posted message may have.
pub const MAX_MESSAGE_CHARS: usize = 2000;

/// How many times a message that is too long is drawn again.
pub const MAX_TRIES: usize = 1000;

/// The message a draw of words makes: the words joined by spaces, if
/// that has at most 2000 characters; `None` if it is longer.
pub fn accept_draw(words: &Vec<String>) -> (r: Option<String>)
    ensures
        match r {
            Some(s) => s@ == join(views(words@), " "@) && s@.len() <= 2000,
            None => join(views(words@), " "@).len() > 2000,
        },
{
    let text = join_strings(words, " ");
    if text.as_str().unicode_len() > 2000 {
        None
    } else {
        Some(text)
    }
}

/// What a draw leads to.
#[derive(Debug, Clone)]
pub enum DrawStep {
    /// The draw makes a message that is short enough: it is posted.
    Accept(String),
    /// The draw is too long, and another may be made.
    Retry,
    /// The draw is too long, and it was the last one allowed.
    GiveUp,
}

/// Whether a draw joined by spaces is longer than a message may be.
pub open spec fn too_long(words: Seq<String>) -> bool {
    join(views(words), " "@).len() > 2000
}

/// The step after a draw, when `tries` draws were already redrawn: the
/// message if the draw is short enough; otherwise another draw while
/// fewer than 1000 redraws were made, and giving up after that.
pub fn draw_step(tries: usize, words: &Vec<String>) -> (r: DrawStep)
    ensures
        match r {
            DrawStep::Accept(s) => s@ == join(views(words@), " "@) && !too_long(words@),
            DrawStep::Retry => too_long(words@) && tries < 1000,
            DrawStep::GiveUp => too_long(words@) && tries >= 1000,
        },
{
    match accept_draw(words) {
        Some(message) => DrawStep::Accept(message),
        None => if tries >= 1000 {
            DrawStep::GiveUp
        } else {
            DrawStep::Retry
        },
    }
}

/// Draws a message from the chain: the generated words joined by spaces,
/// drawn again while it is longer than 2000 characters, at most 1000
/// more times; `None` if no draw was short enough. Each draw is taken as
/// `draw_step` says.
pub fn generate_message(chain: WordChain) -> (r: Option<String>)
    requires
        !chain_is_empty(chain),
    ensures
        r matches Some(s) ==> s@.len() <= 2000 && exists|words: Seq<String>|
            drawn_from(words, chain_words(chain)) && s@ == join(#[trigger] views(words), " "@),
{
    let mut tries: usize = 0;
    loop
        invariant
            !chain_is_empty(chain),
            tries <= 1000,
        decreases 1000 - tries,
    {
        let words = chain_generate(&chain);
        match draw_step(tries, &words) {
            DrawStep::Accept(message) => {
                assert(drawn_from(words@, chain_words(chain)));
                return Some(message);
            },
            DrawStep::GiveUp => {
                return None;
            },
            DrawStep::Retry => {
                tries = tries + 1;
            },
        }
    }
}

/// Whether some stored sentence has a word in it.
pub open spec fn some_sentence(sentences: Seq<Vec<String>>) -> bool {
    exists|i: int| 0 <= i < sentences.len() && sentences[i]@.len() > 0
}

/// The words of the stored sentences.
pub open spec fn fed_words(sentences: Seq<Vec<String>>) -> Set<Seq<char>> {
    Set::new(
        |w: Seq<char>|
            exists|i: int, j: int|
                0 <= i < sentences.len() && 0 <= j < sentences[i]@.len() && (#[trigger] sentences[i]@[j])@
                    == w,
    )
}

proof fn lemma_fed_words_step(all: Seq<Vec<String>>, i: int)
    requires
        0 <= i < all.len(),
    ensures
        fed_words(all.take(i + 1)) == fed_words(all.take(i)).union(word_set(all[i]@)),
{
    let t1 = all.take(i + 1);
    let t0 = all.take(i);
    let s = all[i];
    assert forall|w: Seq<char>| fed_words(t1).contains(w) == fed_words(t0).union(word_set(s@)).contains(w) by {
        if fed_words(t1).contains(w) {
            let (a, b) = choose|a: int, b: int|
                0 <= a < t1.len() && 0 <= b < t1[a]@.len() && (#[trigger] t1[a]@[b])@ == w;
            if a < i {
                assert(t0[a] == t1[a]);
                assert(fed_words(t0).contains(w));
            } else {
                assert(views(s@)[b] == w);
                assert(word_set(s@).contains(w));
            }
        }
        if fed_words(t0).contains(w) {
            let (a, b) = choose|a: int, b: int|
                0 <= a < t0.len() && 0 <= b < t0[a]@.len() && (#[trigger] t0[a]@[b])@ == w;
            assert(t1[a] == t0[a]);
            assert(t1[a]@[b]@ == w);
        }
        if word_set(s@).contains(w) {
            let b = choose|b: int| 0 <= b < views(s@).len() && views(s@)[b] == w;
            assert(t1[i] == s);
            assert(t1[i]@[b]@ == w);
        }
    }
    assert(fed_words(t1) =~= fed_words(t0).union(word_set(s@)));
}

/// A chain of the given order fed every sentence, in order.
pub fn build_chain(order: usize, sentences: Vec<Vec<String>>) -> (r: WordChain)
    requires
        order > 0,
    ensures
        chain_is_empty(r) == !some_sentence(sentences@),
        chain_words(r) == fed_words(sentences@),
{
    let mut chain = chain_of_order(order);
    let ghost all = sentences@;
    let mut rest = sentences;
    let mut i: usize = 0;
    let n = rest.len();
    let mut backwards: Vec<Vec<String>> = Vec::new();
    while rest.len() > 0
        invariant
            backwards@ + rest@.reverse() == all.reverse(),
        decreases rest@.len(),
    {
        let ghost before = rest@;
        let s = rest.pop().unwrap();
        backwards.push(s);
        proof {
            assert(before =~= rest@.push(s));
            assert(before.reverse() =~= seq![s] + rest@.reverse());
        }
    }
    proof {
        assert(backwards@ =~= all.reverse());
    }
    while backwards.len() > 0
        invariant
            n == all.len(),
            backwards@.len() + i == n,
            forall|k: int| 0 <= k < backwards@.len() ==> backwards@[k] == all[n - 1 - k],
            chain_is_empty(chain) == !some_sentence(all.take(i as int)),
            chain_words(chain) == fed_words(all.take(i as int)),
        decreases backwards@.len(),
    {
        let s = backwards.pop().unwrap();
        proof {
            assert(s == all[i as int]);
            let t1 = all.take(i + 1);
            let t0 = all.take(i as int);
            assert(some_sentence(t1) == (some_sentence(t0) || s@.len() > 0)) by {
                if some_sentence(t1) {
                    let k = choose|k: int| 0 <= k < t1.len() && t1[k]@.len() > 0;
                    if k < i {
                        assert(t0[k] == all[k]);
                    }
                }
                if some_sentence(t0) {
                    let k = choose|k: int| 0 <= k < t0.len() && t0[k]@.len() > 0;
                    assert(t1[k] == all[k]);
                }
                if s@.len() > 0 {
                    assert(t1[i as int] == s);
                }
            }
        }
        proof {
            lemma_fed_words_step(all, i as int);
        }
        chain_feed(&mut chain, s);
        i = i + 1;
    }
    assert(all.take(n as int) =~= all);
    chain
}

/// The reply to a summary request: a note when no message matched, else
/// a generated message, or a note that none could be made.
pub fn summarize(order: usize, sentences: Vec<Vec<String>>) -> (r: String)
    requires
        order > 0,
        sentences@.len() == 0 || some_sentence(sentences@),
    ensures
        sentences@.len() == 0 ==> r@ == "No messages matching filters."@,
        sentences@.len() > 0 ==> r@ == "Unable to generate a response."@ || (r@.len() <= 2000
            && exists|words: Seq<String>|
            drawn_from(words, fed_words(sentences@)) && r@ == join(#[trigger] views(words), " "@)),
{
    if sentences.len() == 0 {
        return String::from_str("No messages matching filters.");
    }
    let chain = build_chain(order, sentences);
    match generate_message(chain) {
        Some(m) => m,
        None => String::from_str("Unable to generate a response."),
    }
}

} // verus!
