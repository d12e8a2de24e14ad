//! Properties that hold of every configuration, line and file.
use vstd::prelude::*;
use crate::config::Config;
use crate::scan::{
    effective_match, emit_of, emitted_views, highlight_applies, lines_of_emitted, scan_of,
    selected, BodyModel, Emitted,
};

verus! {

/// Inverting the selection reports exactly the lines that would otherwise be
/// left out, whatever the pattern and the case folding.
pub proof fn invert_flips_selection(line: Seq<char>, pattern: Seq<char>, case_insensitive: bool)
    ensures
        effective_match(line, pattern, case_insensitive, true) == !effective_match(
            line,
            pattern,
            case_insensitive,
            false,
        ),
{
}

/// Scanning the same text twice under the same configuration gives the same
/// output.
pub proof fn scan_is_repeatable(
    cfg: Config,
    file: Seq<char>,
    contents: Seq<char>,
    first: Seq<Emitted>,
    second: Seq<Emitted>,
)
    requires
        emitted_views(first) == lines_of_emitted(cfg, file, contents),
        emitted_views(second) == lines_of_emitted(cfg, file, contents),
    ensures
        emitted_views(first) == emitted_views(second),
{
}

/// Every reported line number lies between 1 and the number of lines, and
/// names a line that is selected; the first line, when reported, is number 1.
pub proof fn line_numbers_in_range(cfg: Config, file: Seq<char>, lines: Seq<Seq<char>>)
    ensures
        forall|k: int|
            0 <= k < scan_of(cfg, file, lines).len() ==> {
                let n = #[trigger] scan_of(cfg, file, lines)[k].line_no;
                &&& 1 <= n <= lines.len()
                &&& selected(cfg, lines[n - 1])
            },
        lines.len() > 0 && selected(cfg, lines[0]) ==> scan_of(cfg, file, lines).len() > 0
            && scan_of(cfg, file, lines)[0].line_no == 1,
    decreases lines.len(),
{
    if lines.len() > 0 {
        let rest = lines.drop_last();
        line_numbers_in_range(cfg, file, rest);
        assert forall|j: int| 0 <= j < rest.len() implies rest[j] == lines[j] by {}
        if lines.len() > 1 && selected(cfg, lines[0]) {
            assert(rest[0] == lines[0]);
            assert(scan_of(cfg, file, rest).len() > 0);
            assert(scan_of(cfg, file, lines)[0] == scan_of(cfg, file, rest)[0]);
        } else if lines.len() == 1 && selected(cfg, lines[0]) {
            assert(scan_of(cfg, file, rest).len() == 0);
            assert(lines.last() == lines[0]);
        }
    }
}

/// The match is set apart exactly when colours are asked for, neither inversion
/// nor case folding is on, and the line holds the pattern; every other reported
/// line is rendered unchanged.
pub proof fn highlight_exactly_when(cfg: Config, file: Seq<char>, line_no: nat, line: Seq<char>)
    ensures
        highlight_applies(cfg, line) ==> emit_of(cfg, file, line_no, line) is Some && emit_of(
            cfg,
            file,
            line_no,
            line,
        )->Some_0.body is Highlighted,
        !highlight_applies(cfg, line) && emit_of(cfg, file, line_no, line) is Some ==> emit_of(
            cfg,
            file,
            line_no,
            line,
        )->Some_0.body == BodyModel::Plain(line),
{
}

} // verus!
