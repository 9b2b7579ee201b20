//! Completion suggestions gathered from language keywords and buffer words.
use vstd::prelude::*;

use crate::text::{
    chars_to_lowercase, copy_string, insert_sorted_unique, lowercase, starts_with,
    starts_with_exec, str_chars, strictly_sorted, texts,
};

verus! {

pub struct Autocomplete {
    pub visible: bool,
    pub query: String,
    pub suggestions: Vec<String>,
    pub selected: usize,
}

/// `c` is offered for the partial word `word`: it starts with `word`, ignoring
/// case, and is not `word` itself.
pub open spec fn is_candidate(c: Seq<char>, word: Seq<char>) -> bool {
    starts_with(lowercase(c), lowercase(word)) && c != word
}

/// Everything offered for `word` from the keywords and buffer words.
pub open spec fn candidate_set(word: Seq<char>, keywords: Seq<Seq<char>>, buffer_words: Seq<Seq<char>>) -> Set<Seq<char>> {
    Set::new(|c: Seq<char>| (keywords.contains(c) || buffer_words.contains(c)) && is_candidate(c, word))
}

/// The texts of string slices.
pub open spec fn strs_view(v: Seq<&str>) -> Seq<Seq<char>> {
    v.map_values(|s: &str| s@)
}

/// What is offered for a typed word is exactly the keywords and buffer words
/// whose lower-cased text begins with the lower-cased word, other than the
/// word itself.
pub proof fn lemma_offered_words_extend_the_word(
    word: Seq<char>,
    keywords: Seq<Seq<char>>,
    buffer_words: Seq<Seq<char>>,
    c: Seq<char>,
)
    ensures
        candidate_set(word, keywords, buffer_words).contains(c) <==> {
            &&& keywords.contains(c) || buffer_words.contains(c)
            &&& c != word
            &&& lowercase(word).len() <= lowercase(c).len()
            &&& lowercase(c).subrange(0, lowercase(word).len() as int) == lowercase(word)
        },
{
}

fn is_candidate_exec(c: &str, lower: &Vec<char>, word: &str) -> (b: bool)
    requires
        lower@ == lowercase(word@),
    ensures
        b == is_candidate(c@, word@),
{
    let cv = str_chars(c);
    let lc = chars_to_lowercase(&cv);
    if !starts_with_exec(&lc, lower) {
        return false;
    }
    let wv = str_chars(word);
    !crate::text::chars_eq(&cv, &wv)
}

impl Autocomplete {
    /// A selection is only shown when it points at a suggestion.
    pub open spec fn wf(&self) -> bool {
        self.visible ==> self.selected < self.suggestions@.len()
    }

    pub fn new() -> (a: Self)
        ensures
            !a.visible,
            a.query@.len() == 0,
            a.suggestions@.len() == 0,
            a.selected == 0,
            a.wf(),
    {
        Autocomplete { visible: false, query: String::new(), suggestions: Vec::new(), selected: 0 }
    }

    /// Recompute suggestions based on the partial word being typed: nothing for
    /// fewer than two characters; otherwise every keyword or buffer word that
    /// extends it, sorted, without repeats.
    pub fn update(&mut self, word: &str, buffer_words: &[String], lang_keywords: &[&str])
        ensures
            word@.len() < 2 ==> !final(self).visible && final(self).query == old(self).query
                && final(self).suggestions == old(self).suggestions && final(self).selected == old(self).selected,
            word@.len() >= 2 ==> {
                &&& final(self).query@ == word@
                &&& strictly_sorted(texts(final(self).suggestions@))
                &&& texts(final(self).suggestions@).to_set() == candidate_set(word@, strs_view(lang_keywords@), texts(buffer_words@))
                &&& final(self).selected == 0
                &&& final(self).visible == (final(self).suggestions@.len() > 0)
            },
            final(self).wf(),
    {
        let wv = str_chars(word);
        if wv.len() < 2 {
            self.visible = false;
            return;
        }
        self.query = crate::text::owned(word);
        let lower = chars_to_lowercase(&wv);
        let mut suggestions: Vec<String> = Vec::new();
        let ghost kws = strs_view(lang_keywords@);
        let ghost bws = texts(buffer_words@);
        proof {
            assert(texts(suggestions@).to_set() =~= Set::empty());
        }
        let mut i: usize = 0;
        while i < lang_keywords.len()
            invariant
                i <= lang_keywords.len(),
                lower@ == lowercase(word@),
                kws == strs_view(lang_keywords@),
                strictly_sorted(texts(suggestions@)),
                texts(suggestions@).to_set() == Set::new(|c: Seq<char>| kws.take(i as int).contains(c) && is_candidate(c, word@)),
            decreases lang_keywords.len() - i,
        {
            let kw = lang_keywords[i];
            let ghost before = texts(suggestions@).to_set();
            if is_candidate_exec(kw, &lower, word) {
                insert_sorted_unique(&mut suggestions, crate::text::owned(kw));
            }
            proof {
                assert(kws.take(i + 1) =~= kws.take(i as int).push(kw@));
                assert forall|c: Seq<char>| #[trigger] texts(suggestions@).to_set().contains(c) <==> ((kws.take(i + 1).contains(c)) && is_candidate(c, word@)) by {
                    vstd::seq_lib::lemma_seq_contains_after_push(kws.take(i as int), kw@, c);
                    assert(before.contains(c) <==> ((kws.take(i as int).contains(c)) && is_candidate(c, word@)));
                }
                assert(texts(suggestions@).to_set() =~= Set::new(|c: Seq<char>| (kws.take(i + 1).contains(c)) && is_candidate(c, word@)));
            }
            i += 1;
        }
        proof {
            assert(kws.take(lang_keywords@.len() as int) =~= kws);
        }
        let mut j: usize = 0;
        while j < buffer_words.len()
            invariant
                j <= buffer_words.len(),
                lower@ == lowercase(word@),
                kws == strs_view(lang_keywords@),
                bws == texts(buffer_words@),
                strictly_sorted(texts(suggestions@)),
                texts(suggestions@).to_set() == Set::new(|c: Seq<char>| (kws.contains(c) || bws.take(j as int).contains(c)) && is_candidate(c, word@)),
            decreases buffer_words.len() - j,
        {
            let bw = &buffer_words[j];
            let ghost before = texts(suggestions@).to_set();
            if is_candidate_exec(bw.as_str(), &lower, word) {
                insert_sorted_unique(&mut suggestions, copy_string(bw));
            }
            proof {
                assert(bws.take(j + 1) =~= bws.take(j as int).push(bw@));
                assert forall|c: Seq<char>| #[trigger] texts(suggestions@).to_set().contains(c) <==> ((kws.contains(c) || bws.take(j + 1).contains(c)) && is_candidate(c, word@)) by {
                    vstd::seq_lib::lemma_seq_contains_after_push(bws.take(j as int), bw@, c);
                    assert(before.contains(c) <==> ((kws.contains(c) || bws.take(j as int).contains(c)) && is_candidate(c, word@)));
                }
                assert(texts(suggestions@).to_set() =~= Set::new(|c: Seq<char>| (kws.contains(c) || bws.take(j + 1).contains(c)) && is_candidate(c, word@)));
            }
            j += 1;
        }
        proof {
            assert(bws.take(buffer_words@.len() as int) =~= bws);
            assert(texts(suggestions@).to_set() =~= candidate_set(word@, kws, bws));
        }
        self.suggestions = suggestions;
        self.selected = 0;
        self.visible = self.suggestions.len() > 0;
    }

    /// Returns the suggestion to confirm, if any.
    pub fn confirm(&self) -> (r: Option<&str>)
        requires
            self.wf(),
        ensures
            (self.visible && self.suggestions@.len() > 0) ==> (r matches Some(s) && s@ == self.suggestions@[self.selected as int]@),
            !(self.visible && self.suggestions@.len() > 0) ==> r is None,
    {
        if self.visible && self.suggestions.len() > 0 {
            Some(self.suggestions[self.selected].as_str())
        } else {
            None
        }
    }

    /// Moves the selection up one suggestion (stopping at the first).
    pub fn move_up(&mut self)
        ensures
            final(self).selected == (if old(self).selected > 0 { old(self).selected - 1 } else { 0 }),
            final(self).visible == old(self).visible,
            final(self).suggestions == old(self).suggestions,
            final(self).query == old(self).query,
            old(self).wf() ==> final(self).wf(),
    {
        self.selected = if self.selected > 0 {
            self.selected - 1
        } else {
            0
        };
    }

    /// Moves the selection down one suggestion (stopping at the last).
    pub fn move_down(&mut self)
        ensures
            old(self).suggestions@.len() > 0 ==> final(self).selected == (if old(self).selected + 1 < old(self).suggestions@.len() {
                old(self).selected + 1
            } else {
                old(self).suggestions@.len() - 1
            }),
            old(self).suggestions@.len() == 0 ==> final(self).selected == old(self).selected,
            final(self).visible == old(self).visible,
            final(self).suggestions == old(self).suggestions,
            final(self).query == old(self).query,
            old(self).wf() ==> final(self).wf(),
    {
        if self.suggestions.len() > 0 {
            let last = self.suggestions.len() - 1;
            self.selected = if self.selected < last {
                self.selected + 1
            } else {
                last
            };
        }
    }

    /// Populate suggestions directly from LSP completion labels and show the popup.
    pub fn set_lsp_suggestions(&mut self, labels: Vec<String>)
        ensures
            labels@.len() == 0 ==> *final(self) == *old(self),
            labels@.len() > 0 ==> final(self).suggestions@ == labels@ && final(self).selected == 0
                && final(self).visible && final(self).query == old(self).query,
            old(self).wf() ==> final(self).wf(),
    {
        if labels.len() == 0 {
            return;
        }
        self.suggestions = labels;
        self.selected = 0;
        self.visible = true;
    }
}

} // verus!
