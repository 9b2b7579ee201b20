//! A plugin that counts the words, lines and characters of the open text.
use vstd::prelude::*;

use crate::plugin::types::{PluginCommand, PluginContext, PluginResponse};
use crate::text::{
    append_chars, char_is_whitespace, chars_string, decimal, decimal_exec, is_ws, lines, seqs_of,
    split_lines, str_chars,
};

verus! {

pub struct WordCountPlugin {
    pub word_count: usize,
    pub line_count: usize,
    pub char_count: usize,
}

/// The number of words of `s` (`str::split_whitespace`): maximal runs of
/// characters that are not white space.
pub open spec fn word_count_of(s: Seq<char>) -> nat
    decreases s.len(),
{
    if s.len() == 0 {
        0
    } else {
        let starts_word = !is_ws(s.last()) && (s.len() == 1 || is_ws(s[s.len() - 2]));
        word_count_of(s.drop_last()) + if starts_word { 1nat } else { 0nat }
    }
}

/// The status line: `<words> words | <lines> lines`.
pub open spec fn word_count_status(words: nat, lines: nat) -> Seq<char> {
    decimal(words) + " words | "@ + decimal(lines) + " lines"@
}

impl WordCountPlugin {
    pub fn new() -> (p: Self)
        ensures
            p.word_count == 0 && p.line_count == 0 && p.char_count == 0,
    {
        WordCountPlugin { word_count: 0, line_count: 0, char_count: 0 }
    }

    pub fn name(&self) -> (r: &'static str)
        ensures
            r@ == "Word Count"@,
    {
        "Word Count"
    }

    /// The command the plugin contributes.
    pub fn commands(&self) -> (r: Vec<PluginCommand>)
        ensures
            r@.len() == 1,
            r@[0].id@ == "word-count.show"@,
            r@[0].title@ == "Word Count: Show Statistics"@,
            r@[0].keybinding is None,
    {
        let mut r: Vec<PluginCommand> = Vec::new();
        r.push(PluginCommand {
            id: crate::text::owned("word-count.show"),
            title: crate::text::owned("Word Count: Show Statistics"),
            keybinding: None,
        });
        r
    }

    /// Counts the words, lines and characters of the open text and reports
    /// the words and lines in the status bar.
    pub fn update(&mut self, ctx: &PluginContext) -> (r: PluginResponse)
        ensures
            final(self).word_count == word_count_of(ctx.buffer_text@),
            final(self).line_count == lines(ctx.buffer_text@).len(),
            final(self).char_count == ctx.buffer_text@.len(),
            r.status_text matches Some(t) && t@ == word_count_status(word_count_of(ctx.buffer_text@), lines(ctx.buffer_text@).len()),
            r.notifications@.len() == 0,
    {
        let s = str_chars(ctx.buffer_text);
        let mut words: usize = 0;
        let mut i: usize = 0;
        while i < s.len()
            invariant
                i <= s.len(),
                words == word_count_of(s@.take(i as int)),
                words <= i,
            decreases s.len() - i,
        {
            proof {
                assert(s@.take(i + 1).drop_last() =~= s@.take(i as int));
            }
            let ws = char_is_whitespace(s[i]);
            if !ws && (i == 0 || char_is_whitespace(s[i - 1])) {
                words += 1;
            }
            i += 1;
        }
        proof {
            assert(s@.take(s@.len() as int) =~= s@);
        }
        let ls = split_lines(&s);
        self.word_count = words;
        self.line_count = ls.len();
        self.char_count = s.len();
        let mut out = decimal_exec(words);
        append_chars(&mut out, &str_chars(" words | "));
        append_chars(&mut out, &decimal_exec(ls.len()));
        append_chars(&mut out, &str_chars(" lines"));
        PluginResponse { status_text: Some(chars_string(&out)), notifications: Vec::new() }
    }
}

} // verus!
