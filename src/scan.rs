//! The per-line decision: whether a line is reported, and how it is rendered.
use vstd::prelude::*;
use vstd::string::StringExecFns;
use colored::Colorize;
use crate::config::Config;
use crate::text::{
    chars_of, contains, occurs_at, decimal, decimal_string, find_first, is_first_occurrence, lines_of,
    split_lines, string_of, views,
};

verus! {

/// What `str::to_lowercase` makes of a string.
pub uninterp spec fn lower_of(s: Seq<char>) -> Seq<char>;

/// Relies on `str::to_lowercase`: its result depends on the characters alone.
#[verifier::external_body]
fn lowercase(s: &str) -> (r: String)
    ensures
        r@ == lower_of(s@),
{
    s.to_lowercase()
}

/// `t` is framed by terminal colour codes: it starts with `ESC [` and ends with
/// the reset sequence `ESC [ 0 m`.
pub open spec fn sgr_framed(t: Seq<char>) -> bool {
    &&& t.len() >= 6
    &&& t[0] == '\u{1b}'
    &&& t[1] == '['
    &&& t.subrange(t.len() - 4, t.len() as int) == seq!['\u{1b}', '[', '0', 'm']
}

/// What painting `s` red may give: `s` itself where the terminal is not to be
/// coloured, else a text framed by colour codes.
pub open spec fn painted_from(s: Seq<char>, t: Seq<char>) -> bool {
    t == s || sgr_framed(t)
}

/// Relies on colored's `Colorize::red` and the `Display` of `ColoredString`:
/// the input unchanged when colouring is off (by environment or terminal),
/// else a style code starting with `ESC [`, the text, and `ESC [ 0 m`.
#[verifier::external_body]
fn paint_red(s: &str) -> (r: String)
    ensures
        painted_from(s@, r@),
{
    s.red().to_string()
}

/// Literal containment of `pattern` in `line`, folded to lower case when
/// `case_insensitive` is set.
pub open spec fn raw_match(line: Seq<char>, pattern: Seq<char>, case_insensitive: bool) -> bool {
    if case_insensitive {
        contains(lower_of(line), lower_of(pattern))
    } else {
        contains(line, pattern)
    }
}

/// Whether the line is reported: the raw match, flipped when `invert` is set.
pub open spec fn effective_match(
    line: Seq<char>,
    pattern: Seq<char>,
    case_insensitive: bool,
    invert: bool,
) -> bool {
    if invert {
        !raw_match(line, pattern, case_insensitive)
    } else {
        raw_match(line, pattern, case_insensitive)
    }
}

/// Whether `line` is reported under `cfg`.
pub open spec fn selected(cfg: Config, line: Seq<char>) -> bool {
    effective_match(line, cfg.search_string@, cfg.is_case_insensitive, cfg.invert_match)
}

/// The matched span of `line` is emphasized under `cfg`.
pub open spec fn highlight_applies(cfg: Config, line: Seq<char>) -> bool {
    &&& cfg.coloured_output
    &&& !cfg.invert_match
    &&& !cfg.is_case_insensitive
    &&& raw_match(line, cfg.search_string@, cfg.is_case_insensitive)
}

/// The rendering of a reported line's text.
pub enum BodyModel {
    Plain(Seq<char>),
    Highlighted(Seq<char>, Seq<char>, Seq<char>),
}

/// A reported line: its number, the file name and number annotations, its text.
pub struct EmittedModel {
    pub line_no: nat,
    pub prefix: Seq<char>,
    pub body: BodyModel,
}

/// The first position of `p` in `s` (meaningful where `p` occurs in `s`).
pub open spec fn first_index(s: Seq<char>, p: Seq<char>) -> int {
    choose|k: int| is_first_occurrence(s, p, k)
}

/// `<file>: ` when file names are shown, then `<line number>: ` when numbers are shown.
pub open spec fn prefix_of(cfg: Config, file: Seq<char>, line_no: nat) -> Seq<char> {
    (if cfg.print_filenames {
        file + ": "@
    } else {
        Seq::empty()
    }) + (if cfg.print_line_no {
        decimal(line_no) + ": "@
    } else {
        Seq::empty()
    })
}

/// The text of a reported line: split around the first occurrence of the
/// pattern where highlighting applies, else the line unchanged.
pub open spec fn body_of(cfg: Config, line: Seq<char>) -> BodyModel {
    if highlight_applies(cfg, line) {
        let p = cfg.search_string@;
        let k = first_index(line, p);
        BodyModel::Highlighted(line.subrange(0, k), p, line.subrange(k + p.len(), line.len() as int))
    } else {
        BodyModel::Plain(line)
    }
}

/// What line `line_no` of `file`, holding `line`, contributes to the output.
pub open spec fn emit_of(cfg: Config, file: Seq<char>, line_no: nat, line: Seq<char>) -> Option<
    EmittedModel,
> {
    if selected(cfg, line) {
        Some(EmittedModel { line_no, prefix: prefix_of(cfg, file, line_no), body: body_of(cfg, line) })
    } else {
        None
    }
}

/// The output for the lines of `file`, numbered from 1.
pub open spec fn scan_of(cfg: Config, file: Seq<char>, lines: Seq<Seq<char>>) -> Seq<EmittedModel>
    decreases lines.len(),
{
    if lines.len() == 0 {
        Seq::empty()
    } else {
        let before = scan_of(cfg, file, lines.drop_last());
        match emit_of(cfg, file, lines.len(), lines.last()) {
            Some(e) => before.push(e),
            None => before,
        }
    }
}

/// The text of a reported line.
pub enum LineBody {
    Plain(String),
    /// The text before the match, the match, and the text after it.
    Highlighted(String, String, String),
}

impl View for LineBody {
    type V = BodyModel;

    open spec fn view(&self) -> BodyModel {
        match self {
            LineBody::Plain(t) => BodyModel::Plain(t@),
            LineBody::Highlighted(b, m, a) => BodyModel::Highlighted(b@, m@, a@),
        }
    }
}

/// A reported line.
pub struct Emitted {
    pub line_no: usize,
    pub prefix: String,
    pub body: LineBody,
}

impl View for Emitted {
    type V = EmittedModel;

    open spec fn view(&self) -> EmittedModel {
        EmittedModel { line_no: self.line_no as nat, prefix: self.prefix@, body: self.body@ }
    }
}

/// Whether `pattern` occurs literally in `line`.
pub fn contains_text(line: &str, pattern: &str) -> (r: bool)
    ensures
        r == contains(line@, pattern@),
{
    let l = chars_of(line);
    let p = chars_of(pattern);
    find_first(&l, &p).is_some()
}

/// Whether `pattern` occurs in `line`; with `case_insensitive`, both are folded
/// to lower case first.
pub fn line_matches(line: &str, pattern: &str, case_insensitive: bool) -> (r: bool)
    ensures
        case_insensitive ==> r == contains(lower_of(line@), lower_of(pattern@)),
        !case_insensitive ==> r == contains(line@, pattern@),
{
    if case_insensitive {
        let l = lowercase(line);
        let p = lowercase(pattern);
        contains_text(l.as_str(), p.as_str())
    } else {
        contains_text(line, pattern)
    }
}

/// Whether `line` is reported: whether it matches, flipped by `invert`.
pub fn is_selected(line: &str, pattern: &str, case_insensitive: bool, invert: bool) -> (r: bool)
    ensures
        r == effective_match(line@, pattern@, case_insensitive, invert),
{
    let m = line_matches(line, pattern, case_insensitive);
    if invert {
        !m
    } else {
        m
    }
}

/// The annotations in front of line `line_no` of `file`.
fn line_prefix(cfg: &Config, file: &str, line_no: usize) -> (r: String)
    ensures
        r@ == prefix_of(*cfg, file@, line_no as nat),
{
    let mut out = String::new();
    if cfg.print_filenames {
        out.append(file);
        out.append(": ");
    }
    if cfg.print_line_no {
        let digits = decimal_string(line_no);
        out.append(digits.as_str());
        out.append(": ");
    }
    assert(out@ =~= prefix_of(*cfg, file@, line_no as nat));
    out
}

/// What line `line_no` of `file`, holding `line`, contributes to the output:
/// nothing when it is not selected, else its annotations and its text, the
/// first occurrence of the pattern set apart where highlighting applies.
pub fn render_line(cfg: &Config, file: &str, line_no: usize, line: &str) -> (r: Option<Emitted>)
    ensures
        r is Some <==> selected(*cfg, line@),
        r matches Some(e) ==> e@ == emit_of(*cfg, file@, line_no as nat, line@)->Some_0,
{
    let pattern = cfg.search_string.as_str();
    if !is_selected(line, pattern, cfg.is_case_insensitive, cfg.invert_match) {
        return None;
    }
    let prefix = line_prefix(cfg, file, line_no);
    if cfg.coloured_output && !cfg.invert_match && !cfg.is_case_insensitive {
        let l = chars_of(line);
        let p = chars_of(pattern);
        match find_first(&l, &p) {
            Some(k) => {
                assert(occurs_at(l@, p@, k as int));
                assert(k + p@.len() <= l.len());
                let before = string_of(&l, 0, k);
                let span = string_of(&l, k, k + p.len());
                let after = string_of(&l, k + p.len(), l.len());
                proof {
                    assert(is_first_occurrence(line@, pattern@, first_index(line@, pattern@)));
                    assert(first_index(line@, pattern@) == k);
                }
                Some(Emitted { line_no, prefix, body: LineBody::Highlighted(before, span, after) })
            },
            None => {
                assert(false);
                None
            },
        }
    } else {
        Some(Emitted { line_no, prefix, body: LineBody::Plain(String::from_str(line)) })
    }
}

/// The models of a sequence of reported lines.
pub open spec fn emitted_views(v: Seq<Emitted>) -> Seq<EmittedModel> {
    v.map_values(|e: Emitted| e@)
}

/// The output for the text `contents` of `file`.
pub open spec fn lines_of_emitted(cfg: Config, file: Seq<char>, contents: Seq<char>) -> Seq<
    EmittedModel,
> {
    scan_of(cfg, file, lines_of(contents))
}

/// The output for `lines`, the lines of `file`, numbered from 1.
pub fn scan_lines(cfg: &Config, file: &str, lines: &Vec<String>) -> (r: Vec<Emitted>)
    ensures
        emitted_views(r@) == scan_of(*cfg, file@, views(lines@)),
{
    let ghost all = views(lines@);
    let mut out: Vec<Emitted> = Vec::new();
    let mut i: usize = 0;
    while i < lines.len()
        invariant
            all == views(lines@),
            i <= lines@.len(),
            emitted_views(out@) == scan_of(*cfg, file@, all.subrange(0, i as int)),
        decreases lines@.len() - i,
    {
        let ghost done = all.subrange(0, i as int);
        let ghost next = all.subrange(0, i + 1);
        assert(next.drop_last() =~= done);
        assert(next.last() == lines@[i as int]@);
        let ghost before = out@;
        match render_line(cfg, file, i + 1, lines[i].as_str()) {
            Some(e) => {
                let ghost m = e@;
                out.push(e);
                assert(emitted_views(out@) =~= emitted_views(before).push(m));
            },
            None => {},
        }
        i = i + 1;
    }
    assert(all.subrange(0, lines@.len() as int) =~= all);
    out
}

/// The output for the text `contents` of `file`: one entry for each reported
/// line, in order, numbered from 1.
pub fn scan_text(cfg: &Config, file: &str, contents: &str) -> (r: Vec<Emitted>)
    ensures
        emitted_views(r@) == lines_of_emitted(*cfg, file@, contents@),
{
    let cs = chars_of(contents);
    let lines = split_lines(&cs);
    scan_lines(cfg, file, &lines)
}

/// The text printed for a reported line: its annotations and its text, with the
/// match, where it is set apart, painted red (or left as it is where the
/// terminal is not to be coloured).
pub fn render(e: &Emitted) -> (r: String)
    ensures
        e.body matches LineBody::Plain(t) ==> r@ == e.prefix@ + t@,
        e.body matches LineBody::Highlighted(b, m, a) ==> exists|p: Seq<char>|
            painted_from(m@, p) && r@ == e.prefix@ + b@ + p + a@,
{
    let mut out = String::from_str(e.prefix.as_str());
    match &e.body {
        LineBody::Plain(t) => {
            out.append(t.as_str());
        },
        LineBody::Highlighted(b, m, a) => {
            out.append(b.as_str());
            let painted = paint_red(m.as_str());
            out.append(painted.as_str());
            out.append(a.as_str());
            assert(out@ == e.prefix@ + b@ + painted@ + a@);
        },
    }
    out
}

} // verus!
