//! The [Dictionary] trait, the vocabulary a game draws its answer from and
//! checks guesses against, and [EnglishDictionary], which holds a word list.
use vstd::prelude::*;
use indexmap::IndexSet;
use rand::Rng;
use crate::scoring::WORD_LEN;
use crate::text::{chars_of, is_white_space, is_word, push_char, to_upper, upper_of, word_letters};

verus! {

/// The vocabulary of a game: a source of answers and a check for guesses.
pub trait Dictionary {
    /// Whether the dictionary accepts `w` as a word. A dictionary that does
    /// not say accepts nothing, and then cannot promise its methods' contracts:
    /// each dictionary that is verified states its own.
    open spec fn accepts(&self, w: Seq<char>) -> bool {
        false
    }

    /// A word of the dictionary, picked at random.
    fn random_word(&self) -> (r: &str)
        ensures
            self.accepts(r@),
    ;

    /// Whether `word` is in the dictionary. A pure query.
    fn is_valid_word(&self, word: &str) -> (r: bool)
        ensures
            r == self.accepts(word@),
    ;
}

#[verifier::external_type_specification]
#[verifier::external_body]
#[verifier::reject_recursive_types(T)]
#[verifier::reject_recursive_types(S)]
pub struct ExIndexSet<T, S>(IndexSet<T, S>);

/// The words an `IndexSet` holds, in the order of their insertion.
pub uninterp spec fn set_words(s: IndexSet<String>) -> Seq<Seq<char>>;

/// Relies on `IndexSet::new`: the new set is empty.
#[verifier::external_body]
fn empty_words() -> (r: IndexSet<String>)
    ensures
        set_words(r) == Seq::<Seq<char>>::empty(),
{
    IndexSet::new()
}

/// Relies on `IndexSet::insert`: a word not yet present goes to the end; a
/// present one leaves the set and its order as they were.
#[verifier::external_body]
fn insert_word(s: &mut IndexSet<String>, w: String)
    ensures
        set_words(*final(s)) == if set_words(*old(s)).contains(w@) {
            set_words(*old(s))
        } else {
            set_words(*old(s)).push(w@)
        },
{
    s.insert(w);
}

/// Relies on `IndexSet::contains`: whether an equal word is present.
#[verifier::external_body]
fn has_word(s: &IndexSet<String>, w: &str) -> (r: bool)
    ensures
        r == set_words(*s).contains(w@),
{
    s.contains(w)
}

/// Relies on `IndexSet::len`: the number of words.
#[verifier::external_body]
fn word_count(s: &IndexSet<String>) -> (r: usize)
    ensures
        r == set_words(*s).len(),
{
    s.len()
}

/// Relies on `IndexSet::get_index`: the word at a valid index.
#[verifier::external_body]
fn word_at_index(s: &IndexSet<String>, i: usize) -> (r: Option<&String>)
    ensures
        i < set_words(*s).len() ==> r is Some && r->0@ == set_words(*s)[i as int],
        i >= set_words(*s).len() ==> r is None,
{
    s.get_index(i)
}

/// Relies on rand's `Rng::gen_range` on `thread_rng()`: a number below `n`.
/// It panics on an empty range, which `requires` rules out.
#[verifier::external_body]
fn random_index(n: usize) -> (r: usize)
    requires
        n > 0,
    ensures
        r < n,
{
    rand::thread_rng().gen_range(0..n)
}

/// Whether `c` has Unicode's White_Space property.
pub fn is_space(c: char) -> (r: bool)
    ensures
        r == is_white_space(c),
{
    ('\u{9}' <= c && c <= '\u{d}') || c == ' ' || c == '\u{85}' || c == '\u{a0}' || c
        == '\u{1680}' || ('\u{2000}' <= c && c <= '\u{200a}') || c == '\u{2028}' || c
        == '\u{2029}' || c == '\u{202f}' || c == '\u{205f}' || c == '\u{3000}'
}

/// `s[p..q]` is a maximal run of characters that are not white space.
pub open spec fn is_token_at(s: Seq<char>, p: int, q: int) -> bool {
    &&& 0 <= p < q <= s.len()
    &&& p == 0 || is_white_space(s[p - 1])
    &&& q == s.len() || is_white_space(s[q])
    &&& forall|t: int| p <= t < q ==> !is_white_space(#[trigger] s[t])
}

/// `w` is the entry that the token `s[p..q]` gives, where `q < n`: the token
/// has five characters and uppercases to five letters `w`.
pub open spec fn is_entry_before(s: Seq<char>, w: Seq<char>, n: int) -> bool {
    exists|p: int, q: int|
        q < n && #[trigger] is_token_at(s, p, q) && q - p == WORD_LEN && w == upper_of(
            s.subrange(p, q),
        ) && is_word(w)
}

/// `w` is an entry of the word list `s`: the uppercase form, five letters
/// long, of a token of five characters of `s`.
pub open spec fn is_entry(s: Seq<char>, w: Seq<char>) -> bool {
    is_entry_before(s, w, s.len() as int + 1)
}

/// Two tokens that end at the same place start at the same place.
proof fn lemma_token_start_unique(s: Seq<char>, p: int, start: int, q: int)
    requires
        0 <= p < q <= s.len(),
        0 <= start < q,
        p == 0 || is_white_space(s[p - 1]),
        start == 0 || is_white_space(s[start - 1]),
        forall|t: int| p <= t < q ==> !is_white_space(#[trigger] s[t]),
        forall|t: int| start <= t < q ==> !is_white_space(#[trigger] s[t]),
    ensures
        p == start,
{
    if p < start {
        assert(!is_white_space(s[start - 1]));
    } else if p > start {
        assert(!is_white_space(s[p - 1]));
    }
}

/// Why a word list gave no dictionary.
#[derive(Debug, Clone, Copy, PartialEq, Eq, Structural)]
pub enum DictionaryError {
    /// The list holds no word of five letters.
    EmptyVocabulary,
}

/// Implements [Dictionary] over a list of five-letter words, held in the
/// order in which they first occur.
#[derive(Debug)]
pub struct EnglishDictionary {
    words: IndexSet<String>,
}

impl EnglishDictionary {
    /// The words of the dictionary.
    pub closed spec fn words(&self) -> Seq<Seq<char>> {
        set_words(self.words)
    }

    /// A dictionary holds at least one word, each word once, and each one is
    /// five letters.
    #[verifier::type_invariant]
    spec fn holds_words(&self) -> bool {
        &&& set_words(self.words).len() > 0
        &&& set_words(self.words).no_duplicates()
        &&& forall|i: int|
            0 <= i < set_words(self.words).len() ==> is_word(#[trigger] set_words(self.words)[i])
    }

    /// Create a new English Dictionary of the five-letter words of a word
    /// list: its tokens, separated by white space, of five characters, each
    /// uppercased, each once. A game's letters are A to Z, so a token whose
    /// uppercase form holds anything else (an apostrophe, an accented letter)
    /// is left out.
    pub fn new(contents: &str) -> (r: Result<EnglishDictionary, DictionaryError>)
        ensures
            r is Err <==> !exists|w: Seq<char>| is_entry(contents@, w),
            r matches Err(e) ==> e == DictionaryError::EmptyVocabulary,
            r matches Ok(d) ==> forall|w: Seq<char>| #[trigger]
                d.words().contains(w) <==> is_entry(contents@, w),
            r matches Ok(d) ==> d.words().no_duplicates(),
    {
        let cs = chars_of(contents);
        let ghost s = contents@;
        let mut words = empty_words();
        let mut token = String::new();
        let mut token_len: usize = 0;
        let ghost mut start: int = 0;
        for i in 0..cs.len()
            invariant
                cs@ == s,
                token_len == token@.len(),
                token_len == 0 ==> (i == 0 || is_white_space(s[i - 1])),
                token_len > 0 ==> {
                    &&& 0 <= start < i
                    &&& token@ == s.subrange(start, i as int)
                    &&& start == 0 || is_white_space(s[start - 1])
                    &&& forall|t: int| start <= t < i ==> !is_white_space(#[trigger] s[t])
                },
                forall|w: Seq<char>| #[trigger]
                    set_words(words).contains(w) <==> is_entry_before(s, w, i as int),
                set_words(words).no_duplicates(),
                forall|k: int|
                    0 <= k < set_words(words).len() ==> is_word(#[trigger] set_words(words)[k]),
        {
            let c = cs[i];
            if is_space(c) {
                if token_len == WORD_LEN {
                    Self::add_token(&mut words, &token);
                }
                proof {
                    assert forall|w: Seq<char>| #[trigger]
                        set_words(words).contains(w) <==> is_entry_before(
                            s,
                            w,
                            i as int + 1,
                        ) by {
                        if is_entry_before(s, w, i as int + 1) {
                            let (p, q) = choose|p: int, q: int|
                                q < i as int + 1 && #[trigger] is_token_at(s, p, q) && q - p
                                    == WORD_LEN && w == upper_of(s.subrange(p, q)) && is_word(w);
                            if q == i {
                                assert(!is_white_space(s[q - 1]));
                                lemma_token_start_unique(s, p, start, q);
                            }
                        }
                        if token_len == WORD_LEN && w == upper_of(token@) && is_word(w) {
                            assert(is_token_at(s, start, i as int));
                        }
                    }
                }
                token = String::new();
                token_len = 0;
            } else {
                if token_len == 0 {
                    proof {
                        start = i as int;
                    }
                }
                push_char(&mut token, c);
                token_len = token_len + 1;
                proof {
                    assert(token@ =~= s.subrange(start, i as int + 1));
                    assert forall|w: Seq<char>| #[trigger]
                        set_words(words).contains(w) <==> is_entry_before(
                            s,
                            w,
                            i as int + 1,
                        ) by {
                        if is_entry_before(s, w, i as int + 1) {
                            let (p, q) = choose|p: int, q: int|
                                q < i as int + 1 && #[trigger] is_token_at(s, p, q) && q - p
                                    == WORD_LEN && w == upper_of(s.subrange(p, q)) && is_word(w);
                            assert(q != i);
                        }
                    }
                }
            }
        }
        if token_len == WORD_LEN {
            Self::add_token(&mut words, &token);
        }
        proof {
            let n = s.len() as int;
            assert forall|w: Seq<char>| #[trigger]
                set_words(words).contains(w) <==> is_entry(s, w) by {
                if is_entry(s, w) {
                    let (p, q) = choose|p: int, q: int|
                        q < n + 1 && #[trigger] is_token_at(s, p, q) && q - p == WORD_LEN && w
                            == upper_of(s.subrange(p, q)) && is_word(w);
                    if q == n {
                        assert(!is_white_space(s[q - 1]));
                        lemma_token_start_unique(s, p, start, q);
                    }
                }
                if token_len == WORD_LEN && w == upper_of(token@) && is_word(w) {
                    assert(is_token_at(s, start, n));
                }
            }
        }
        if word_count(&words) == 0 {
            proof {
                if exists|w: Seq<char>| is_entry(s, w) {
                    let w = choose|w: Seq<char>| is_entry(s, w);
                    assert(set_words(words).contains(w));
                }
            }
            return Err(DictionaryError::EmptyVocabulary);
        }
        proof {
            assert(set_words(words).contains(set_words(words)[0]));
        }
        Ok(EnglishDictionary { words })
    }

    /// Adds the entry of a five-character token: its uppercase form, where
    /// that is five letters.
    fn add_token(words: &mut IndexSet<String>, token: &String)
        requires
            set_words(*old(words)).no_duplicates(),
            forall|k: int|
                0 <= k < set_words(*old(words)).len() ==> is_word(
                    #[trigger] set_words(*old(words))[k],
                ),
        ensures
            set_words(*final(words)).no_duplicates(),
            forall|k: int|
                0 <= k < set_words(*final(words)).len() ==> is_word(
                    #[trigger] set_words(*final(words))[k],
                ),
            forall|w: Seq<char>| #[trigger]
                set_words(*final(words)).contains(w) <==> set_words(*old(words)).contains(w) || (w
                    == upper_of(token@) && is_word(w)),
    {
        let u = to_upper(token.as_str());
        let ghost pre = set_words(*words);
        if word_letters(u.as_str()).is_some() {
            let ghost added = u@;
            insert_word(words, u);
            proof {
                assert forall|w: Seq<char>| #[trigger]
                    set_words(*words).contains(w) <==> pre.contains(w) || w == added by {
                    if !pre.contains(added) {
                        let post = pre.push(added);
                        if post.contains(w) {
                            let k = choose|k: int| 0 <= k < post.len() && post[k] == w;
                            if k < pre.len() {
                                assert(pre[k] == w);
                            }
                        }
                        if pre.contains(w) {
                            let k = choose|k: int| 0 <= k < pre.len() && pre[k] == w;
                            assert(post[k] == w);
                        }
                        assert(post[pre.len() as int] == added);
                    }
                }
                assert forall|k: int| 0 <= k < set_words(*words).len() implies is_word(
                    #[trigger] set_words(*words)[k],
                ) by {
                    if !pre.contains(added) && k == pre.len() {
                        assert(set_words(*words)[k] == added);
                    } else {
                        assert(set_words(*words)[k] == pre[k]);
                    }
                }
            }
        }
    }

    /// Whether `word` is one of the dictionary's words, as it is written.
    pub fn contains(&self, word: &str) -> (r: bool)
        ensures
            r == self.words().contains(word@),
    {
        has_word(&self.words, word)
    }

    /// Whether `word`, uppercased, is one of the dictionary's words.
    pub fn contains_uppercased(&self, word: &str) -> (r: bool)
        ensures
            r == self.words().contains(upper_of(word@)),
    {
        let w = to_upper(word);
        has_word(&self.words, w.as_str())
    }

    /// The number of words of the dictionary, which holds at least one word,
    /// each once, each five letters.
    pub fn len(&self) -> (n: usize)
        ensures
            n == self.words().len(),
            n > 0,
            self.words().no_duplicates(),
            forall|i: int| 0 <= i < self.words().len() ==> is_word(#[trigger] self.words()[i]),
    {
        proof {
            use_type_invariant(self);
        }
        word_count(&self.words)
    }

    /// The word at `index` in the order of first occurrence.
    pub fn word_at(&self, index: usize) -> (r: &str)
        requires
            index < self.words().len(),
        ensures
            r@ == self.words()[index as int],
    {
        match word_at_index(&self.words, index) {
            Some(w) => w.as_str(),
            None => {
                proof {
                    assert(false);
                }
                ""
            },
        }
    }

    /// A word of the dictionary, picked uniformly at random.
    pub fn sample(&self) -> (r: &str)
        ensures
            self.words().contains(r@),
    {
        let n = self.len();
        let i = random_index(n);
        self.word_at(i)
    }
}

impl Dictionary for EnglishDictionary {
    /// A word is accepted when its uppercase form is one of the words.
    open spec fn accepts(&self, w: Seq<char>) -> bool {
        self.words().contains(upper_of(w))
    }

    fn random_word(&self) -> (r: &str) {
        let r = self.sample();
        proof {
            let k = choose|k: int| 0 <= k < self.words().len() && self.words()[k] == r@;
            use_type_invariant(self);
            assert(is_word(self.words()[k]));
        }
        // A word of capitals is its own uppercase form; the call shows it.
        let u = to_upper(r);
        proof {
            assert(u@ =~= r@);
        }
        r
    }

    fn is_valid_word(&self, word: &str) -> bool {
        self.contains_uppercased(word)
    }
}

} // verus!
