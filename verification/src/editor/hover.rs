//! Reading hover documentation: splitting markdown into sections, and prose
//! into styled runs.
use vstd::prelude::*;

use crate::text::{
    chars_string, copy_chars, join_lines, join_nl, lines, seqs_of, split_lines, starts_with, starts_with_exec,
    str_chars, trim, trim_exec, trim_start, trim_start_char, trim_start_char_exec, trim_start_exec,
};

verus! {

/// A section of a hover document.
pub enum HoverSection {
    /// A fenced code block.
    CodeBlock { lang: String, code: String },
    /// A prose paragraph, which may hold inline markup.
    Text(String),
    /// A horizontal rule.
    Separator,
}

/// A section as plain values.
pub enum SectionModel {
    Code(Seq<char>, Seq<char>),
    Text(Seq<char>),
    Separator,
}

pub open spec fn section_view(s: HoverSection) -> SectionModel {
    match s {
        HoverSection::CodeBlock { lang, code } => SectionModel::Code(lang@, code@),
        HoverSection::Text(t) => SectionModel::Text(t@),
        HoverSection::Separator => SectionModel::Separator,
    }
}

pub open spec fn sections_view(v: Seq<HoverSection>) -> Seq<SectionModel> {
    v.map_values(|s: HoverSection| section_view(s))
}

/// Where the scan of a hover document stands after some lines.
pub struct HoverScan {
    pub sections: Seq<SectionModel>,
    pub in_code: bool,
    pub lang: Seq<char>,
    pub code: Seq<Seq<char>>,
    pub text: Seq<Seq<char>>,
}

/// The paragraph of pending prose lines, unless it is blank.
pub open spec fn text_section(ls: Seq<Seq<char>>) -> Seq<SectionModel> {
    if trim(join_nl(ls)).len() > 0 {
        seq![SectionModel::Text(join_nl(ls))]
    } else {
        seq![]
    }
}

/// A line that opens or closes a fence.
pub open spec fn is_fence(line: Seq<char>) -> bool {
    starts_with(trim_start(line), "```"@)
}

/// A horizontal rule: `---`, `___` or `***` with white space around.
pub open spec fn is_rule(line: Seq<char>) -> bool {
    trim(line) == "---"@ || trim(line) == "___"@ || trim(line) == "***"@
}

/// One line of the scan: a fence closes the open code block (after the
/// pending prose) or opens one, naming its language; inside a block lines
/// are code; a rule ends the paragraph; other lines are prose.
pub open spec fn scan_step(st: HoverScan, line: Seq<char>) -> HoverScan {
    if is_fence(line) {
        if st.in_code {
            HoverScan {
                sections: st.sections + text_section(st.text) + seq![SectionModel::Code(st.lang, join_nl(st.code))],
                in_code: false,
                lang: st.lang,
                code: seq![],
                text: seq![],
            }
        } else {
            HoverScan {
                sections: st.sections + text_section(st.text),
                in_code: true,
                lang: trim(trim_start_char(line, '`')),
                code: st.code,
                text: seq![],
            }
        }
    } else if st.in_code {
        HoverScan { code: st.code.push(line), ..st }
    } else if is_rule(line) {
        HoverScan { sections: st.sections + text_section(st.text) + seq![SectionModel::Separator], text: seq![], ..st }
    } else {
        HoverScan { text: st.text.push(line), ..st }
    }
}

/// The scan after the lines `ls`.
pub open spec fn scan_lines(ls: Seq<Seq<char>>) -> HoverScan
    decreases ls.len(),
{
    if ls.len() == 0 {
        HoverScan { sections: seq![], in_code: false, lang: seq![], code: seq![], text: seq![] }
    } else {
        scan_step(scan_lines(ls.drop_last()), ls.last())
    }
}

/// The sections of a hover document: an unterminated code block with some
/// code is kept; otherwise pending prose ends the document.
pub open spec fn hover_sections(text: Seq<char>) -> Seq<SectionModel> {
    let st = scan_lines(lines(text));
    if st.in_code && st.code.len() > 0 {
        st.sections.push(SectionModel::Code(st.lang, join_nl(st.code)))
    } else {
        st.sections + text_section(st.text)
    }
}

/// Moves the pending prose into a paragraph, unless it is blank.
fn flush_text(sections: &mut Vec<HoverSection>, text: &mut Vec<Vec<char>>)
    ensures
        sections_view(final(sections)@) == sections_view(old(sections)@) + text_section(seqs_of(old(text)@)),
        final(text)@.len() == 0,
{
    let t = join_lines(text);
    if trim_exec(&t).len() > 0 {
        let ghost before = sections@;
        sections.push(HoverSection::Text(chars_string(&t)));
        proof {
            assert(sections_view(sections@) =~= sections_view(before) + text_section(seqs_of(old(text)@)));
        }
    } else {
        proof {
            assert(sections_view(sections@) =~= sections_view(old(sections)@) + text_section(seqs_of(old(text)@)));
        }
    }
    *text = Vec::new();
}

fn push_code(sections: &mut Vec<HoverSection>, lang: &Vec<char>, code: &Vec<Vec<char>>)
    ensures
        sections_view(final(sections)@) == sections_view(old(sections)@).push(
            SectionModel::Code(lang@, join_nl(seqs_of(code@))),
        ),
{
    let ghost before = sections@;
    let c = join_lines(code);
    sections.push(HoverSection::CodeBlock { lang: chars_string(lang), code: chars_string(&c) });
    proof {
        assert(sections_view(sections@) =~= sections_view(before).push(SectionModel::Code(lang@, join_nl(seqs_of(code@)))));
    }
}

fn is_rule_exec(line: &Vec<char>) -> (b: bool)
    ensures
        b == is_rule(line@),
{
    let t = trim_exec(line);
    crate::text::chars_eq(&t, &str_chars("---")) || crate::text::chars_eq(&t, &str_chars("___"))
        || crate::text::chars_eq(&t, &str_chars("***"))
}

/// Splits hover markdown into code blocks, paragraphs and rules.
pub fn parse_hover_sections(text: &str) -> (r: Vec<HoverSection>)
    ensures
        sections_view(r@) == hover_sections(text@),
{
    let ls = split_lines(&str_chars(text));
    let mut sections: Vec<HoverSection> = Vec::new();
    let mut in_code = false;
    let mut lang: Vec<char> = Vec::new();
    let mut code: Vec<Vec<char>> = Vec::new();
    let mut pending: Vec<Vec<char>> = Vec::new();
    let fence = str_chars("```");
    let mut i: usize = 0;
    proof {
        assert(seqs_of(ls@).take(0) =~= seq![]);
    }
    while i < ls.len()
        invariant
            i <= ls@.len(),
            seqs_of(ls@) == lines(text@),
            fence@ == "```"@,
            sections_view(sections@) == scan_lines(seqs_of(ls@).take(i as int)).sections,
            in_code == scan_lines(seqs_of(ls@).take(i as int)).in_code,
            lang@ == scan_lines(seqs_of(ls@).take(i as int)).lang,
            seqs_of(code@) == scan_lines(seqs_of(ls@).take(i as int)).code,
            seqs_of(pending@) == scan_lines(seqs_of(ls@).take(i as int)).text,
        decreases ls.len() - i,
    {
        proof {
            assert(seqs_of(ls@).take(i + 1).drop_last() =~= seqs_of(ls@).take(i as int));
            assert(seqs_of(ls@).take(i + 1).last() == ls@[i as int]@);
        }
        let line = &ls[i];
        let ts = trim_start_exec(line);
        if starts_with_exec(&ts, &fence) {
            if in_code {
                flush_text(&mut sections, &mut pending);
                push_code(&mut sections, &lang, &code);
                code = Vec::new();
                in_code = false;
                proof {
                    assert(seqs_of(code@) =~= seq![]);
                    assert(seqs_of(pending@) =~= seq![]);
                }
            } else {
                flush_text(&mut sections, &mut pending);
                lang = trim_exec(&trim_start_char_exec(line, '`'));
                in_code = true;
                proof {
                    assert(seqs_of(pending@) =~= seq![]);
                }
            }
        } else if in_code {
            let ghost before = code@;
            code.push(copy_chars(line));
            proof {
                assert(seqs_of(code@) =~= seqs_of(before).push(line@));
            }
        } else if is_rule_exec(line) {
            flush_text(&mut sections, &mut pending);
            let ghost before = sections@;
            sections.push(HoverSection::Separator);
            proof {
                assert(sections_view(sections@) =~= sections_view(before).push(SectionModel::Separator));
                assert(seqs_of(pending@) =~= seq![]);
            }
        } else {
            let ghost before = pending@;
            pending.push(copy_chars(line));
            proof {
                assert(seqs_of(pending@) =~= seqs_of(before).push(line@));
            }
        }
        i += 1;
    }
    proof {
        assert(seqs_of(ls@).take(ls@.len() as int) =~= seqs_of(ls@));
    }
    if in_code && code.len() > 0 {
        push_code(&mut sections, &lang, &code);
    } else {
        flush_text(&mut sections, &mut pending);
    }
    sections
}

// ---- inline markup ----

/// How a run of prose is shown.
#[derive(Clone, Copy, Debug, PartialEq, Eq, Structural)]
pub enum SpanStyle {
    Normal,
    Bold,
    Italic,
    Code,
}

/// A styled run of text.
pub type SpanModel = (SpanStyle, Seq<char>);

/// A doubled marker `**` or `__` starts at `i`.
pub open spec fn pair_at(c: Seq<char>, i: int, m: char) -> bool {
    i + 1 < c.len() && c[i] == m && c[i + 1] == m
}

/// Where bold text from `j` ends: the next doubled marker, or the last
/// character (which is left unread) when there is none.
pub open spec fn bold_end(c: Seq<char>, j: int, m: char) -> int
    decreases c.len() - j,
{
    if j + 1 >= c.len() || pair_at(c, j, m) {
        j
    } else {
        bold_end(c, j + 1, m)
    }
}

/// Where text from `j` up to the marker `m` ends: the marker, or the end.
pub open spec fn run_end(c: Seq<char>, j: int, m: char) -> int
    decreases c.len() - j,
{
    if j >= c.len() || c[j] == m {
        j
    } else {
        run_end(c, j + 1, m)
    }
}

/// A run, unless it is empty.
pub open spec fn run(style: SpanStyle, t: Seq<char>) -> Seq<SpanModel> {
    if t.len() > 0 {
        seq![(style, t)]
    } else {
        seq![]
    }
}

/// Code shown with a space on each side, unless it is empty.
pub open spec fn code_runs(t: Seq<char>) -> Seq<SpanModel> {
    if t.len() > 0 {
        seq![(SpanStyle::Code, seq![' ']), (SpanStyle::Code, t), (SpanStyle::Code, seq![' '])]
    } else {
        seq![]
    }
}

pub proof fn lemma_bold_end(c: Seq<char>, j: int, m: char)
    requires
        j <= c.len(),
    ensures
        j <= bold_end(c, j, m) <= c.len(),
        bold_end(c, j, m) + 1 >= c.len() || pair_at(c, bold_end(c, j, m), m),
    decreases c.len() - j,
{
    if !(j + 1 >= c.len() || pair_at(c, j, m)) {
        lemma_bold_end(c, j + 1, m);
    }
}

pub proof fn lemma_run_end(c: Seq<char>, j: int, m: char)
    requires
        0 <= j <= c.len(),
    ensures
        j <= run_end(c, j, m) <= c.len(),
        run_end(c, j, m) < c.len() ==> c[run_end(c, j, m)] == m,
    decreases c.len() - j,
{
    if !(j >= c.len() || c[j] == m) {
        lemma_run_end(c, j + 1, m);
    }
}

/// The styled runs of `c` from `i`, with `cur` the plain text gathered so
/// far: `**x**` and `__x__` are bold, `*x*` and `_x_` italic, `` `x` ``
/// code; an unclosed run goes to the end of the text.
pub open spec fn md_runs(c: Seq<char>, i: int, cur: Seq<char>) -> Seq<SpanModel>
    decreases c.len() - i,
{
    if i < 0 || i >= c.len() {
        run(SpanStyle::Normal, cur)
    } else if i + 1 < c.len() && ((c[i] == '*' && c[i + 1] == '*') || (c[i] == '_' && c[i + 1] == '_')) {
        let m = c[i];
        let e = bold_end(c, i + 2, m);
        let next = if e + 1 < c.len() { e + 2 } else { e };
        if next <= i || next > c.len() {
            seq![]
        } else {
            run(SpanStyle::Normal, cur) + run(SpanStyle::Bold, c.subrange(i + 2, e)) + md_runs(c, next, seq![])
        }
    } else if (c[i] == '*' || c[i] == '_') && (i + 1 >= c.len() || c[i + 1] != c[i]) {
        let m = c[i];
        let e = run_end(c, i + 1, m);
        let next = if e < c.len() { e + 1 } else { e };
        if next <= i || next > c.len() {
            seq![]
        } else {
            run(SpanStyle::Normal, cur) + run(SpanStyle::Italic, c.subrange(i + 1, e)) + md_runs(c, next, seq![])
        }
    } else if c[i] == '`' {
        let e = run_end(c, i + 1, '`');
        let next = if e < c.len() { e + 1 } else { e };
        if next <= i || next > c.len() {
            seq![]
        } else {
            run(SpanStyle::Normal, cur) + code_runs(c.subrange(i + 1, e)) + md_runs(c, next, seq![])
        }
    } else {
        md_runs(c, i + 1, cur.push(c[i]))
    }
}

/// A run as plain values.
pub open spec fn span_view(s: (SpanStyle, String)) -> SpanModel {
    (s.0, s.1@)
}

pub open spec fn spans_view(v: Seq<(SpanStyle, String)>) -> Seq<SpanModel> {
    v.map_values(|s: (SpanStyle, String)| span_view(s))
}

fn push_run(out: &mut Vec<(SpanStyle, String)>, style: SpanStyle, t: &Vec<char>)
    ensures
        spans_view(final(out)@) == spans_view(old(out)@) + run(style, t@),
{
    if t.len() > 0 {
        let ghost before = out@;
        out.push((style, chars_string(t)));
        proof {
            assert(spans_view(out@) =~= spans_view(before) + run(style, t@));
        }
    } else {
        proof {
            assert(spans_view(out@) =~= spans_view(old(out)@) + run(style, t@));
        }
    }
}

fn push_code_runs(out: &mut Vec<(SpanStyle, String)>, t: &Vec<char>)
    ensures
        spans_view(final(out)@) == spans_view(old(out)@) + code_runs(t@),
{
    if t.len() > 0 {
        let ghost before = out@;
        let sp = vec![' '];
        out.push((SpanStyle::Code, chars_string(&sp)));
        out.push((SpanStyle::Code, chars_string(t)));
        out.push((SpanStyle::Code, chars_string(&sp)));
        proof {
            assert(sp@ =~= seq![' ']);
            assert(spans_view(out@) =~= spans_view(before) + code_runs(t@));
        }
    } else {
        proof {
            assert(spans_view(out@) =~= spans_view(old(out)@) + code_runs(t@));
        }
    }
}

/// Splits a line of prose into styled runs (what the hover popup draws).
pub fn inline_markdown_spans(text: &str) -> (r: Vec<(SpanStyle, String)>)
    ensures
        spans_view(r@) == md_runs(text@, 0, seq![]),
{
    let c = str_chars(text);
    let n = c.len();
    let mut out: Vec<(SpanStyle, String)> = Vec::new();
    let mut cur: Vec<char> = Vec::new();
    let mut i: usize = 0;
    while i < n
        invariant
            n == c@.len(),
            c@ == text@,
            i <= n,
            md_runs(c@, 0, seq![]) == spans_view(out@) + md_runs(c@, i as int, cur@),
        decreases n - i,
    {
        if i + 1 < n && ((c[i] == '*' && c[i + 1] == '*') || (c[i] == '_' && c[i + 1] == '_')) {
            let m = c[i];
            let ghost before = out@;
            let ghost cur0 = cur@;
            push_run(&mut out, SpanStyle::Normal, &cur);
            cur = Vec::new();
            let start = i + 2;
            let mut j = start;
            let mut bold: Vec<char> = Vec::new();
            proof {
                lemma_bold_end(c@, start as int, m);
            }
            while j < n && j + 1 < n && !(c[j] == m && c[j + 1] == m)
                invariant
                    n == c@.len(),
                    start <= j <= n,
                    bold_end(c@, start as int, m) == bold_end(c@, j as int, m),
                    bold@ == c@.subrange(start as int, j as int),
                decreases n - j,
            {
                bold.push(c[j]);
                j += 1;
                proof {
                    assert(bold@ =~= c@.subrange(start as int, j as int));
                }
            }
            proof {
                assert(bold_end(c@, j as int, m) == j);
            }
            let next = if j < n && j + 1 < n {
                j + 2
            } else {
                j
            };
            push_run(&mut out, SpanStyle::Bold, &bold);
            proof {
                assert(spans_view(out@) =~= spans_view(before) + run(SpanStyle::Normal, cur0) + run(SpanStyle::Bold, bold@));
            }
            i = next;
            proof {
                assert(cur@ =~= seq![]);
            }
        } else if (c[i] == '*' || c[i] == '_') && (i + 1 >= n || c[i + 1] != c[i]) {
            let m = c[i];
            let ghost before = out@;
            let ghost cur0 = cur@;
            push_run(&mut out, SpanStyle::Normal, &cur);
            cur = Vec::new();
            let start = i + 1;
            let mut j = start;
            let mut italic: Vec<char> = Vec::new();
            proof {
                lemma_run_end(c@, start as int, m);
            }
            while j < n && c[j] != m
                invariant
                    n == c@.len(),
                    start <= j <= n,
                    run_end(c@, start as int, m) == run_end(c@, j as int, m),
                    italic@ == c@.subrange(start as int, j as int),
                decreases n - j,
            {
                italic.push(c[j]);
                j += 1;
                proof {
                    assert(italic@ =~= c@.subrange(start as int, j as int));
                }
            }
            let next = if j < n {
                j + 1
            } else {
                j
            };
            push_run(&mut out, SpanStyle::Italic, &italic);
            proof {
                assert(spans_view(out@) =~= spans_view(before) + run(SpanStyle::Normal, cur0) + run(SpanStyle::Italic, italic@));
            }
            i = next;
            proof {
                assert(cur@ =~= seq![]);
            }
        } else if c[i] == '`' {
            let ghost before = out@;
            let ghost cur0 = cur@;
            push_run(&mut out, SpanStyle::Normal, &cur);
            cur = Vec::new();
            let start = i + 1;
            let mut j = start;
            let mut code: Vec<char> = Vec::new();
            proof {
                lemma_run_end(c@, start as int, '`');
            }
            while j < n && c[j] != '`'
                invariant
                    n == c@.len(),
                    start <= j <= n,
                    run_end(c@, start as int, '`') == run_end(c@, j as int, '`'),
                    code@ == c@.subrange(start as int, j as int),
                decreases n - j,
            {
                code.push(c[j]);
                j += 1;
                proof {
                    assert(code@ =~= c@.subrange(start as int, j as int));
                }
            }
            let next = if j < n {
                j + 1
            } else {
                j
            };
            push_code_runs(&mut out, &code);
            proof {
                assert(spans_view(out@) =~= spans_view(before) + run(SpanStyle::Normal, cur0) + code_runs(code@));
            }
            i = next;
            proof {
                assert(cur@ =~= seq![]);
            }
        } else {
            cur.push(c[i]);
            i += 1;
        }
    }
    push_run(&mut out, SpanStyle::Normal, &cur);
    proof {
        assert(spans_view(out@) =~= spans_view(out@));
    }
    out
}

} // verus!

verus! {

/// Text with no markup character (`*`, `_` or `` ` ``) is one plain run
/// (none when it is empty).
pub proof fn lemma_plain_text_is_one_run(c: Seq<char>)
    requires
        forall|k: int| 0 <= k < c.len() ==> c[k] != '*' && c[k] != '_' && c[k] != '`',
    ensures
        md_runs(c, 0, seq![]) == run(SpanStyle::Normal, c),
{
    lemma_plain_from(c, 0, seq![]);
    assert(seq![] + c.skip(0) =~= c);
}

proof fn lemma_plain_from(c: Seq<char>, i: int, cur: Seq<char>)
    requires
        0 <= i <= c.len(),
        forall|k: int| 0 <= k < c.len() ==> c[k] != '*' && c[k] != '_' && c[k] != '`',
    ensures
        md_runs(c, i, cur) == run(SpanStyle::Normal, cur + c.skip(i)),
    decreases c.len() - i,
{
    if i < c.len() {
        lemma_plain_from(c, i + 1, cur.push(c[i]));
        assert(cur.push(c[i]) + c.skip(i + 1) =~= cur + c.skip(i));
    } else {
        assert(cur + c.skip(i) =~= cur);
    }
}

} // verus!
