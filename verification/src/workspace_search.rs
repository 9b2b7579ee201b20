//! Finding where a symbol is defined in a text.
use vstd::prelude::*;

use crate::editor::word_analysis::{around, around_exec};
use crate::paths::{extension_of, path_extension};
use crate::text::{
    chars_eq, contains, contains_exec, starts_with, lowercase, chars_to_lowercase,
    find_from_exec, first_match, is_ascii_alnum, lines, match_at, seqs_of, split_lines, str_chars, to_strings, texts, trim, trim_exec,
};

verus! {

/// `c` is an ASCII letter or digit, or an underscore.
pub open spec fn ascii_word_char(c: char) -> bool {
    is_ascii_alnum(c) || c == '_'
}

/// `line` holds `pattern`, and the first occurrence of `word` from there on
/// stands alone: the character before it and the one after it are not ASCII
/// letters, digits or underscores (the start and the end of the line count
/// as boundaries).
pub open spec fn is_definition(line: Seq<char>, pattern: Seq<char>, word: Seq<char>) -> bool {
    match first_match(line, pattern, 0) {
        None => false,
        Some(p) => match first_match(line, word, p) {
            None => false,
            Some(m) => {
                let before = if m > 0 { line[m - 1] } else { ' ' };
                let end = m + word.len();
                let after = if end < line.len() { line[end as int] } else { ' ' };
                !ascii_word_char(before) && !ascii_word_char(after)
            },
        },
    }
}

fn ascii_word_char_exec(c: char) -> (b: bool)
    ensures
        b == ascii_word_char(c),
{
    ('a' <= c && c <= 'z') || ('A' <= c && c <= 'Z') || ('0' <= c && c <= '9') || c == '_'
}

fn is_definition_exec(line: &Vec<char>, pattern: &Vec<char>, word: &Vec<char>) -> (b: bool)
    ensures
        b == is_definition(line@, pattern@, word@),
{
    let p = match find_from_exec(line, pattern, 0) {
        Some(p) => p,
        None => return false,
    };
    let m = match find_from_exec(line, word, p) {
        Some(m) => m,
        None => return false,
    };
    proof {
        assert(crate::text::match_at(line@, word@, m as int));
        assert(m + word@.len() <= line@.len());
    }
    let before = if m > 0 {
        line[m - 1]
    } else {
        ' '
    };
    let wl = word.len();
    assert(m + wl <= line.len());
    let end = m + wl;
    let after = if end < line.len() {
        line[end]
    } else {
        ' '
    };
    !ascii_word_char_exec(before) && !ascii_word_char_exec(after)
}

/// Whether `line` holds `pattern` with `word` standing alone (see `is_definition`).
pub fn contains_as_definition(line: &str, pattern: &str, word: &str) -> (b: bool)
    ensures
        b == is_definition(line@, pattern@, word@),
{
    is_definition_exec(&str_chars(line), &str_chars(pattern), &str_chars(word))
}

/// The ways `w` is defined in Rust, JavaScript, TypeScript and Python source.
pub open spec fn definition_patterns(w: Seq<char>) -> Seq<Seq<char>> {
    seq![
        around("fn "@, w, "("@),
        around("fn "@, w, " ("@),
        around("pub fn "@, w, "("@),
        around("pub fn "@, w, " ("@),
        around("pub async fn "@, w, "("@),
        around("pub async fn "@, w, " ("@),
        around("pub(crate) fn "@, w, "("@),
        around("pub(super) fn "@, w, "("@),
        around("pub unsafe fn "@, w, "("@),
        around("async fn "@, w, "("@),
        around("async fn "@, w, " ("@),
        around("const fn "@, w, "("@),
        around("unsafe fn "@, w, "("@),
        around("  fn "@, w, "("@),
        around("    fn "@, w, "("@),
        around("fn "@, w, "(&"@),
        around("fn "@, w, "(&mut"@),
        around("struct "@, w, ""@),
        around("enum "@, w, ""@),
        around("trait "@, w, ""@),
        around("impl "@, w, ""@),
        around("type "@, w, " ="@),
        around("const "@, w, ""@),
        around("let "@, w, " ="@),
        around("macro_rules! "@, w, ""@),
        around("function "@, w, "("@),
        around("function "@, w, " ("@),
        around("class "@, w, ""@),
        around("interface "@, w, ""@),
        around("export function "@, w, ""@),
        around("export class "@, w, ""@),
        around("export const "@, w, " ="@),
        around("export default function "@, w, ""@),
        around("get "@, w, "("@),
        around("set "@, w, "("@),
        around("async "@, w, "("@),
        around(""@, w, ":"@),
        around("def "@, w, "("@),
        around("def "@, w, " ("@),
        around("async def "@, w, "("@),
        around("  def "@, w, "("@),
        around("    def "@, w, "("@),
    ]
}

/// Some pattern of `pats` makes `line` a definition of `w`.
pub open spec fn defines(line: Seq<char>, pats: Seq<Seq<char>>, w: Seq<char>) -> bool {
    exists|i: int| 0 <= i < pats.len() && #[trigger] is_definition(line, pats[i], w)
}

/// The first of lines `ls` (numbered from `start`) whose trimmed text defines
/// `w`: the untrimmed line and its number.
pub open spec fn first_definition(ls: Seq<Seq<char>>, w: Seq<char>, start: nat) -> Option<(Seq<char>, nat)>
    decreases ls.len(),
{
    if ls.len() == 0 {
        None
    } else if defines(trim(ls[0]), definition_patterns(w), w) {
        Some((ls[0], start))
    } else {
        first_definition(ls.drop_first(), w, start + 1)
    }
}

/// When line `k` defines `w`, the first definition is that line or an
/// earlier one.
proof fn lemma_first_definition_at_most(ls: Seq<Seq<char>>, w: Seq<char>, start: nat, k: int)
    requires
        0 <= k < ls.len(),
        defines(trim(ls[k]), definition_patterns(w), w),
    ensures
        first_definition(ls, w, start) matches Some((l, j)) && start <= j <= start + k,
    decreases k,
{
    if k > 0 && !defines(trim(ls[0]), definition_patterns(w), w) {
        assert(ls.drop_first()[k - 1] == ls[k]);
        lemma_first_definition_at_most(ls.drop_first(), w, start + 1, k - 1);
    }
}

/// A trimmed line that starts with a pattern `kw w sfx` of the list (the
/// keyword ending in a space, `w` not met inside the keyword, and no name
/// character right after `w`) defines `w`.
proof fn lemma_pattern_line_defines(ls: Seq<Seq<char>>, w: Seq<char>, k: int, idx: int, kw: Seq<char>, sfx: Seq<char>)
    requires
        0 <= k < ls.len(),
        0 <= idx < definition_patterns(w).len(),
        definition_patterns(w)[idx] == around(kw, w, sfx),
        kw.len() > 0 && kw.last() == ' ',
        starts_with(trim(ls[k]), kw + w + sfx),
        forall|i: int| 0 <= i < kw.len() ==> !match_at(trim(ls[k]), w, i),
        kw.len() + w.len() < trim(ls[k]).len() ==> !ascii_word_char(trim(ls[k])[(kw.len() + w.len()) as int]),
    ensures
        first_definition(ls, w, 0) matches Some((l, j)) && j <= k,
{
    let l = trim(ls[k]);
    let pat = around(kw, w, sfx);
    crate::text::lemma_first_match(l, pat, 0);
    assert(first_match(l, pat, 0) == Some(0nat));
    let kl = kw.len() as int;
    assert(l.subrange(kl, (kl + w.len()) as int) =~= w) by {
        assert(l.subrange(0, pat.len() as int) == pat);
        assert forall|i: int| 0 <= i < w.len() implies l.subrange(kl, (kl + w.len()) as int)[i] == w[i] by {
            assert(l[kl + i] == l.subrange(0, pat.len() as int)[kl + i]);
            assert(pat[kl + i] == w[i]);
        }
    }
    assert(match_at(l, w, kl));
    crate::text::lemma_first_match(l, w, 0);
    assert(first_match(l, w, 0) == Some(kl as nat));
    assert(l[kl - 1] == ' ') by {
        assert(l.subrange(0, pat.len() as int)[kl - 1] == pat[kl - 1]);
    }
    assert(is_definition(l, definition_patterns(w)[idx], w));
    lemma_first_definition_at_most(ls, w, 0, k);
}

/// A line whose trimmed text starts with `struct W`, followed by a
/// character that cannot continue a name or by nothing, is a definition of
/// W: the definition found in the lines is that line or an earlier one.
/// (W must not already occur inside the keyword, as `uc` does in `struct`.)
pub proof fn lemma_struct_line_defines(ls: Seq<Seq<char>>, w: Seq<char>, k: int)
    requires
        0 <= k < ls.len(),
        starts_with(trim(ls[k]), "struct "@ + w),
        forall|i: int| 0 <= i < "struct "@.len() ==> !match_at(trim(ls[k]), w, i),
        "struct "@.len() + w.len() < trim(ls[k]).len() ==> !ascii_word_char(
            trim(ls[k])[("struct "@.len() + w.len()) as int],
        ),
    ensures
        first_definition(ls, w, 0) matches Some((l, j)) && j <= k,
{
    reveal_strlit("struct ");
    reveal_strlit("");
    assert("struct "@ + w + ""@ =~= "struct "@ + w);
    lemma_pattern_line_defines(ls, w, k, 17, "struct "@, ""@);
}

/// The same for the other declarations by keyword: a trimmed line that
/// starts with `enum W`, `trait W`, `impl W`, `class W` or `interface W`,
/// with no name character right after W, defines W.
pub proof fn lemma_declaration_line_defines(ls: Seq<Seq<char>>, w: Seq<char>, k: int, kw: Seq<char>)
    requires
        kw == "enum "@ || kw == "trait "@ || kw == "impl "@ || kw == "class "@ || kw == "interface "@,
        0 <= k < ls.len(),
        starts_with(trim(ls[k]), kw + w),
        forall|i: int| 0 <= i < kw.len() ==> !match_at(trim(ls[k]), w, i),
        kw.len() + w.len() < trim(ls[k]).len() ==> !ascii_word_char(trim(ls[k])[(kw.len() + w.len()) as int]),
    ensures
        first_definition(ls, w, 0) matches Some((l, j)) && j <= k,
{
    reveal_strlit("enum ");
    reveal_strlit("trait ");
    reveal_strlit("impl ");
    reveal_strlit("class ");
    reveal_strlit("interface ");
    reveal_strlit("");
    assert(kw + w + ""@ =~= kw + w);
    let idx: int = if kw == "enum "@ {
        18
    } else if kw == "trait "@ {
        19
    } else if kw == "impl "@ {
        20
    } else if kw == "class "@ {
        27
    } else {
        28
    };
    lemma_pattern_line_defines(ls, w, k, idx, kw, ""@);
}

/// A trimmed line that starts with `fn W(` (a function W) defines W.
pub proof fn lemma_fn_line_defines(ls: Seq<Seq<char>>, w: Seq<char>, k: int)
    requires
        0 <= k < ls.len(),
        starts_with(trim(ls[k]), "fn "@ + w + "("@),
        forall|i: int| 0 <= i < "fn "@.len() ==> !match_at(trim(ls[k]), w, i),
    ensures
        first_definition(ls, w, 0) matches Some((l, j)) && j <= k,
{
    reveal_strlit("fn ");
    reveal_strlit("(");
    let l = trim(ls[k]);
    let pat = "fn "@ + w + "("@;
    assert(l.subrange(0, pat.len() as int) == pat);
    assert(l[(3 + w.len()) as int] == l.subrange(0, pat.len() as int)[(3 + w.len()) as int]);
    assert(pat[(3 + w.len()) as int] == '(');
    lemma_pattern_line_defines(ls, w, k, 0, "fn "@, "("@);
}

/// Whether some pattern of `pats` makes `line` a definition of `w`.
fn line_defines(line: &Vec<char>, pats: &Vec<Vec<char>>, w: &Vec<char>) -> (b: bool)
    ensures
        b == defines(line@, seqs_of(pats@), w@),
{
    let mut k: usize = 0;
    while k < pats.len()
        invariant
            k <= pats@.len(),
            forall|j: int| 0 <= j < k ==> !#[trigger] is_definition(line@, seqs_of(pats@)[j], w@),
        decreases pats.len() - k,
    {
        if is_definition_exec(line, &pats[k], w) {
            proof {
                assert(seqs_of(pats@)[k as int] == pats@[k as int]@);
                assert(is_definition(line@, seqs_of(pats@)[k as int], w@));
            }
            return true;
        }
        proof {
            assert(seqs_of(pats@)[k as int] == pats@[k as int]@);
        }
        k += 1;
    }
    false
}

/// The first line of `content` that defines `word`, untrimmed, with its
/// 0-based number.
pub fn find_definition_in_buffer(content: &str, word: &str) -> (r: Option<(String, usize)>)
    ensures
        match r {
            Some((l, i)) => first_definition(lines(content@), word@, 0) == Some((l@, i as nat)),
            None => first_definition(lines(content@), word@, 0) is None,
        },
{
    let w = str_chars(word);
    let mut pats: Vec<Vec<char>> = Vec::new();
    pats.push(around_exec("fn ", &w, "("));
    pats.push(around_exec("fn ", &w, " ("));
    pats.push(around_exec("pub fn ", &w, "("));
    pats.push(around_exec("pub fn ", &w, " ("));
    pats.push(around_exec("pub async fn ", &w, "("));
    pats.push(around_exec("pub async fn ", &w, " ("));
    pats.push(around_exec("pub(crate) fn ", &w, "("));
    pats.push(around_exec("pub(super) fn ", &w, "("));
    pats.push(around_exec("pub unsafe fn ", &w, "("));
    pats.push(around_exec("async fn ", &w, "("));
    pats.push(around_exec("async fn ", &w, " ("));
    pats.push(around_exec("const fn ", &w, "("));
    pats.push(around_exec("unsafe fn ", &w, "("));
    pats.push(around_exec("  fn ", &w, "("));
    pats.push(around_exec("    fn ", &w, "("));
    pats.push(around_exec("fn ", &w, "(&"));
    pats.push(around_exec("fn ", &w, "(&mut"));
    pats.push(around_exec("struct ", &w, ""));
    pats.push(around_exec("enum ", &w, ""));
    pats.push(around_exec("trait ", &w, ""));
    pats.push(around_exec("impl ", &w, ""));
    pats.push(around_exec("type ", &w, " ="));
    pats.push(around_exec("const ", &w, ""));
    pats.push(around_exec("let ", &w, " ="));
    pats.push(around_exec("macro_rules! ", &w, ""));
    pats.push(around_exec("function ", &w, "("));
    pats.push(around_exec("function ", &w, " ("));
    pats.push(around_exec("class ", &w, ""));
    pats.push(around_exec("interface ", &w, ""));
    pats.push(around_exec("export function ", &w, ""));
    pats.push(around_exec("export class ", &w, ""));
    pats.push(around_exec("export const ", &w, " ="));
    pats.push(around_exec("export default function ", &w, ""));
    pats.push(around_exec("get ", &w, "("));
    pats.push(around_exec("set ", &w, "("));
    pats.push(around_exec("async ", &w, "("));
    pats.push(around_exec("", &w, ":"));
    pats.push(around_exec("def ", &w, "("));
    pats.push(around_exec("def ", &w, " ("));
    pats.push(around_exec("async def ", &w, "("));
    pats.push(around_exec("  def ", &w, "("));
    pats.push(around_exec("    def ", &w, "("));
    proof {
        assert(seqs_of(pats@) =~= definition_patterns(word@));
    }
    let all = split_lines(&str_chars(content));
    let mut i: usize = 0;
    proof {
        assert(seqs_of(all@).skip(0) =~= seqs_of(all@));
    }
    while i < all.len()
        invariant
            i <= all.len(),
            w@ == word@,
            seqs_of(pats@) == definition_patterns(word@),
            seqs_of(all@) == lines(content@),
            first_definition(seqs_of(all@), word@, 0) == first_definition(seqs_of(all@).skip(i as int), word@, i as nat),
        decreases all.len() - i,
    {
        let trimmed = trim_exec(&all[i]);
        proof {
            let rest = seqs_of(all@).skip(i as int);
            assert(rest[0] == all@[i as int]@);
            assert(rest.drop_first() =~= seqs_of(all@).skip(i + 1));
        }
        if line_defines(&trimmed, &pats, &w) {
            let line = crate::text::chars_string(&all[i]);
            return Some((line, i));
        }
        i += 1;
    }
    proof {
        assert(seqs_of(all@).skip(i as int) =~= seq![]);
    }
    None
}

/// Some pattern of `pats` occurs in `line`.
pub open spec fn holds_some(line: Seq<char>, pats: Seq<Seq<char>>) -> bool {
    exists|k: int| 0 <= k < pats.len() && #[trigger] contains(line, pats[k])
}

/// The number of the first of lines `ls` (counted from `start`) whose
/// trimmed text holds one of `pats`.
pub open spec fn first_line_holding(ls: Seq<Seq<char>>, pats: Seq<Seq<char>>, start: nat) -> Option<nat>
    decreases ls.len(),
{
    if ls.len() == 0 {
        None
    } else if holds_some(trim(ls[0]), pats) {
        Some(start)
    } else {
        first_line_holding(ls.drop_first(), pats, start + 1)
    }
}

fn holds_some_exec(line: &Vec<char>, pats: &Vec<Vec<char>>) -> (b: bool)
    ensures
        b == holds_some(line@, seqs_of(pats@)),
{
    let mut k: usize = 0;
    while k < pats.len()
        invariant
            k <= pats@.len(),
            forall|j: int| 0 <= j < k ==> !#[trigger] contains(line@, seqs_of(pats@)[j]),
        decreases pats.len() - k,
    {
        proof {
            assert(seqs_of(pats@)[k as int] == pats@[k as int]@);
        }
        if contains_exec(line, &pats[k]) {
            return true;
        }
        k += 1;
    }
    false
}

/// The 0-based number of the first line of `content` whose trimmed text
/// holds one of `patterns` (the file's text, read by the caller).
pub fn search_file_for_patterns(content: &str, patterns: &Vec<String>) -> (r: Option<usize>)
    ensures
        match r {
            Some(i) => first_line_holding(lines(content@), texts(patterns@), 0) == Some(i as nat),
            None => first_line_holding(lines(content@), texts(patterns@), 0) is None,
        },
{
    let mut pats: Vec<Vec<char>> = Vec::new();
    let mut j: usize = 0;
    while j < patterns.len()
        invariant
            j <= patterns@.len(),
            seqs_of(pats@) == texts(patterns@).take(j as int),
        decreases patterns.len() - j,
    {
        let ghost before = pats@;
        let pc = str_chars(patterns[j].as_str());
        pats.push(pc);
        proof {
            assert(seqs_of(pats@) =~= seqs_of(before).push(pc@));
            assert(texts(patterns@).take(j + 1) =~= texts(patterns@).take(j as int).push(patterns@[j as int]@));
            assert(seqs_of(pats@) =~= texts(patterns@).take(j + 1));
        }
        j += 1;
    }
    proof {
        assert(texts(patterns@).take(patterns@.len() as int) =~= texts(patterns@));
    }
    let all = split_lines(&str_chars(content));
    let mut i: usize = 0;
    proof {
        assert(seqs_of(all@).skip(0) =~= seqs_of(all@));
    }
    while i < all.len()
        invariant
            i <= all.len(),
            seqs_of(pats@) == texts(patterns@),
            seqs_of(all@) == lines(content@),
            first_line_holding(seqs_of(all@), seqs_of(pats@), 0) == first_line_holding(seqs_of(all@).skip(i as int), seqs_of(pats@), i as nat),
        decreases all.len() - i,
    {
        proof {
            let rest = seqs_of(all@).skip(i as int);
            assert(rest[0] == all@[i as int]@);
            assert(rest.drop_first() =~= seqs_of(all@).skip(i + 1));
        }
        let trimmed = trim_exec(&all[i]);
        if holds_some_exec(&trimmed, &pats) {
            return Some(i);
        }
        i += 1;
    }
    proof {
        assert(seqs_of(all@).skip(i as int) =~= seq![]);
    }
    None
}

/// Whether an extension, lower-cased, is one of an image format shown.
pub open spec fn is_image_extension(e: Seq<char>) -> bool {
    e == "png"@ || e == "jpg"@ || e == "jpeg"@ || e == "bmp"@ || e == "webp"@ || e == "ico"@
}

/// Whether `path` has an image extension (in any case) that can be shown.
pub fn is_image_file(path: &str) -> (b: bool)
    ensures
        b == (extension_of(path@) matches Some(e) && is_image_extension(lowercase(e))),
{
    match path_extension(path) {
        Some(e) => {
            let l = chars_to_lowercase(&str_chars(e.as_str()));
            chars_eq(&l, &str_chars("png")) || chars_eq(&l, &str_chars("jpg")) || chars_eq(&l, &str_chars("jpeg"))
                || chars_eq(&l, &str_chars("bmp")) || chars_eq(&l, &str_chars("webp")) || chars_eq(&l, &str_chars("ico"))
        },
        None => false,
    }
}

/// The patterns a workspace search for the definition of `w` looks for,
/// most specific first (the bare `fn w` last).
pub open spec fn workspace_patterns(w: Seq<char>) -> Seq<Seq<char>> {
    seq![
        around("fn "@, w, "("@),
        around("fn "@, w, " ("@),
        around("pub fn "@, w, "("@),
        around("pub fn "@, w, " ("@),
        around("pub async fn "@, w, "("@),
        around("async fn "@, w, "("@),
        around("fn "@, w, "(&self"@),
        around("fn "@, w, "(&mut self"@),
        around("struct "@, w, ""@),
        around("enum "@, w, ""@),
        around("trait "@, w, ""@),
        around("class "@, w, ""@),
        around("interface "@, w, ""@),
        around("type "@, w, " ="@),
        around("const "@, w, ""@),
        around("let "@, w, " ="@),
        around("def "@, w, "("@),
        around("function "@, w, "("@),
        around("export function "@, w, "("@),
        around("export class "@, w, ""@),
        around("fn "@, w, ""@),
    ]
}

fn push_pattern(r: &mut Vec<String>, p: Vec<char>)
    ensures
        texts(final(r)@) == texts(old(r)@).push(p@),
{
    let ghost before = r@;
    let s = crate::text::chars_string(&p);
    r.push(s);
    proof {
        assert(texts(r@) =~= texts(before).push(p@));
    }
}

/// The patterns a workspace search for the definition of `word` looks for.
pub fn workspace_definition_patterns(word: &str) -> (r: Vec<String>)
    ensures
        texts(r@) == workspace_patterns(word@),
{
    let w = str_chars(word);
    let mut r: Vec<String> = Vec::new();
    push_pattern(&mut r, around_exec("fn ", &w, "("));
    push_pattern(&mut r, around_exec("fn ", &w, " ("));
    push_pattern(&mut r, around_exec("pub fn ", &w, "("));
    push_pattern(&mut r, around_exec("pub fn ", &w, " ("));
    push_pattern(&mut r, around_exec("pub async fn ", &w, "("));
    push_pattern(&mut r, around_exec("async fn ", &w, "("));
    push_pattern(&mut r, around_exec("fn ", &w, "(&self"));
    push_pattern(&mut r, around_exec("fn ", &w, "(&mut self"));
    push_pattern(&mut r, around_exec("struct ", &w, ""));
    push_pattern(&mut r, around_exec("enum ", &w, ""));
    push_pattern(&mut r, around_exec("trait ", &w, ""));
    push_pattern(&mut r, around_exec("class ", &w, ""));
    push_pattern(&mut r, around_exec("interface ", &w, ""));
    push_pattern(&mut r, around_exec("type ", &w, " ="));
    push_pattern(&mut r, around_exec("const ", &w, ""));
    push_pattern(&mut r, around_exec("let ", &w, " ="));
    push_pattern(&mut r, around_exec("def ", &w, "("));
    push_pattern(&mut r, around_exec("function ", &w, "("));
    push_pattern(&mut r, around_exec("export function ", &w, "("));
    push_pattern(&mut r, around_exec("export class ", &w, ""));
    push_pattern(&mut r, around_exec("fn ", &w, ""));
    proof {
        assert(texts(r@) =~= workspace_patterns(word@));
    }
    r
}

/// A directory entry the workspace search skips: hidden ones, `target`,
/// `node_modules` and `.git`.
pub open spec fn search_skips(name: Seq<char>) -> bool {
    starts_with(name, "."@) || name == "target"@ || name == "node_modules"@ || name == ".git"@
}

/// The extensions of the source files the workspace search reads.
pub open spec fn is_source_extension(e: Seq<char>) -> bool {
    e == "rs"@ || e == "ts"@ || e == "tsx"@ || e == "js"@ || e == "jsx"@ || e == "py"@ || e == "go"@ || e == "java"@
        || e == "kt"@ || e == "c"@ || e == "cpp"@ || e == "h"@
}

/// Whether the workspace search skips an entry named `name`.
pub fn search_skips_entry(name: &str) -> (b: bool)
    ensures
        b == search_skips(name@),
{
    let n = str_chars(name);
    crate::text::starts_with_exec(&n, &str_chars(".")) || chars_eq(&n, &str_chars("target"))
        || chars_eq(&n, &str_chars("node_modules")) || chars_eq(&n, &str_chars(".git"))
}

/// Whether the workspace search reads a file with extension `ext`.
pub fn is_searched_source(ext: &str) -> (b: bool)
    ensures
        b == is_source_extension(ext@),
{
    let e = str_chars(ext);
    chars_eq(&e, &str_chars("rs")) || chars_eq(&e, &str_chars("ts")) || chars_eq(&e, &str_chars("tsx"))
        || chars_eq(&e, &str_chars("js")) || chars_eq(&e, &str_chars("jsx")) || chars_eq(&e, &str_chars("py"))
        || chars_eq(&e, &str_chars("go")) || chars_eq(&e, &str_chars("java")) || chars_eq(&e, &str_chars("kt"))
        || chars_eq(&e, &str_chars("c")) || chars_eq(&e, &str_chars("cpp")) || chars_eq(&e, &str_chars("h"))
}

} // verus!
