//! Decoder for ANSI "Select Graphic Rendition" (SGR) color sequences.
//!
//! A line of text may embed sequences of the form `ESC [ p1 ; p2 ; ... m`
//! where each parameter is a decimal number. The decoder turns such a line
//! into an ordered sequence of [`StyledRun`] values: maximal fragments of
//! visible text, each paired with the color in effect while it was read.
//!
//! The decoder is a two-and-a-half state machine: *ground* (accumulating
//! visible text), *escape* (just saw `ESC`), and *parameter* (inside a
//! `ESC [` sequence, reading `;`-separated decimal parameters). Recognized
//! parameters are code `0` (reset to the caller-supplied base color) and
//! codes `30` through `37` (the standard foreground colors); any other code
//! has no effect. Malformed or unterminated sequences never desynchronize
//! the scan and never show up as visible text: they are dropped and the
//! scan continues in ground state. A newline flushes the pending fragment
//! and is not itself emitted; color state never persists across lines
//! because every call starts from the supplied base color.

use crate::color::Color;
use vstd::prelude::*;
use vstd::string::StrSliceExecFns;

verus! {

/// The ASCII escape control character that introduces every sequence.
pub open spec fn esc_char() -> char {
    '\u{1b}'
}

/// Whether `c` is a decimal digit of an SGR parameter.
pub open spec fn is_param_digit(c: char) -> bool {
    '0' as u32 <= c as u32 && c as u32 <= '9' as u32
}

/// The numeric value of a decimal digit character.
pub open spec fn digit_value(c: char) -> nat
    recommends
        is_param_digit(c),
{
    (c as u32 - '0' as u32) as nat
}

/// Mathematical model of one styled run: the visible characters and the
/// color they are drawn in.
#[verifier::ext_equal]
pub ghost struct RunView {
    pub text: Seq<char>,
    pub color: Color,
}

/// A maximal fragment of visible text sharing one resolved color.
pub struct StyledRun {
    pub text: String,
    pub color: Color,
}

impl View for StyledRun {
    type V = RunView;

    open spec fn view(&self) -> RunView {
        RunView { text: self.text@, color: self.color }
    }
}

/// The models of a sequence of runs.
pub open spec fn run_views(rs: Seq<StyledRun>) -> Seq<RunView> {
    rs.map_values(|r: StyledRun| r@)
}

/// Scanner mode. In `Param`, `value` is the decimal parameter read so far
/// and `color` is the color register as updated by the parameters already
/// completed by a `;` inside the current sequence.
pub ghost enum ScanMode {
    Ground,
    Escape,
    Param { value: nat, color: Color },
}

/// Full scanner state: mode, pending visible characters not yet flushed,
/// the current color register, and the runs emitted so far.
#[verifier::ext_equal]
pub ghost struct ScanState {
    pub mode: ScanMode,
    pub pending: Seq<char>,
    pub color: Color,
    pub out: Seq<RunView>,
}

/// The scanner state before any character has been read.
pub open spec fn initial_state(base: Color) -> ScanState {
    ScanState { mode: ScanMode::Ground, pending: Seq::empty(), color: base, out: Seq::empty() }
}

/// Emits the pending characters as one run of the given color; an empty
/// pending buffer emits nothing.
pub open spec fn flush_runs(out: Seq<RunView>, pending: Seq<char>, color: Color) -> Seq<RunView> {
    if pending.len() == 0 {
        out
    } else {
        out.push(RunView { text: pending, color })
    }
}

/// The effect of one completed SGR parameter on the color register:
/// `0` resets to the base color, `30` through `37` select a foreground
/// color, and every other code is ignored.
pub open spec fn apply_sgr_code(current: Color, code: nat, base: Color) -> Color {
    if code == 0 {
        base
    } else if code == 30 {
        Color::Black
    } else if code == 31 {
        Color::Red
    } else if code == 32 {
        Color::Green
    } else if code == 33 {
        Color::Yellow
    } else if code == 34 {
        Color::Blue
    } else if code == 35 {
        Color::Magenta
    } else if code == 36 {
        Color::Cyan
    } else if code == 37 {
        Color::White
    } else {
        current
    }
}

/// Extends a parameter value with one more decimal digit. Values are
/// capped once they exceed 1000: every recognized code is far below the
/// cap, so capping only affects codes that are ignored anyway.
pub open spec fn grow_param(value: nat, c: char) -> nat {
    if value > 1000 {
        value
    } else {
        value * 10 + digit_value(c)
    }
}

/// One transition of the scanner on input character `c`.
pub open spec fn scan_step(st: ScanState, c: char, base: Color) -> ScanState {
    match st.mode {
        ScanMode::Ground => {
            if c == esc_char() {
                ScanState { mode: ScanMode::Escape, pending: st.pending, color: st.color, out: st.out }
            } else if c == '\n' {
                ScanState {
                    mode: ScanMode::Ground,
                    pending: Seq::empty(),
                    color: st.color,
                    out: flush_runs(st.out, st.pending, st.color),
                }
            } else {
                ScanState { mode: ScanMode::Ground, pending: st.pending.push(c), color: st.color, out: st.out }
            }
        },
        ScanMode::Escape => {
            if c == '[' {
                ScanState {
                    mode: ScanMode::Param { value: 0, color: st.color },
                    pending: st.pending,
                    color: st.color,
                    out: st.out,
                }
            } else if c == esc_char() {
                st
            } else {
                ScanState { mode: ScanMode::Ground, pending: st.pending, color: st.color, out: st.out }
            }
        },
        ScanMode::Param { value, color } => {
            if is_param_digit(c) {
                ScanState {
                    mode: ScanMode::Param { value: grow_param(value, c), color },
                    pending: st.pending,
                    color: st.color,
                    out: st.out,
                }
            } else if c == ';' {
                ScanState {
                    mode: ScanMode::Param { value: 0, color: apply_sgr_code(color, value, base) },
                    pending: st.pending,
                    color: st.color,
                    out: st.out,
                }
            } else if c == 'm' {
                ScanState {
                    mode: ScanMode::Ground,
                    pending: Seq::empty(),
                    color: apply_sgr_code(color, value, base),
                    out: flush_runs(st.out, st.pending, st.color),
                }
            } else if c == esc_char() {
                ScanState { mode: ScanMode::Escape, pending: st.pending, color: st.color, out: st.out }
            } else {
                ScanState { mode: ScanMode::Ground, pending: st.pending, color: st.color, out: st.out }
            }
        },
    }
}

/// The scanner state after reading all of `s`, starting from the base color.
pub open spec fn scan(s: Seq<char>, base: Color) -> ScanState
    decreases s.len(),
{
    if s.len() == 0 {
        initial_state(base)
    } else {
        scan_step(scan(s.drop_last(), base), s.last(), base)
    }
}

/// The complete decoding of one line: scan every character, then flush
/// whatever text is still pending with the color then in effect.
pub open spec fn decode_spec(s: Seq<char>, base: Color) -> Seq<RunView> {
    let st = scan(s, base);
    flush_runs(st.out, st.pending, st.color)
}

/// Relies on String::push: appends the given character to the end of the string.
#[verifier::external_body]
pub(crate) fn push_char(s: &mut String, c: char)
    ensures
        final(s)@ == old(s)@.push(c),
{
    s.push(c);
}

enum Mode {
    Ground,
    Escape,
    Param,
}

/// Whether the executable scanner registers mirror the model's mode.
spec fn mode_matches(m: Mode, param: u32, acc: Color, sm: ScanMode) -> bool {
    match sm {
        ScanMode::Ground => m is Ground,
        ScanMode::Escape => m is Escape,
        ScanMode::Param { value, color } => m is Param && param as nat == value && acc == color,
    }
}

/// Appends the pending text as one run of the given color and empties the
/// pending buffer; an empty buffer appends nothing.
fn flush_pending(runs: &mut Vec<StyledRun>, pending: &mut String, color: Color)
    ensures
        run_views(final(runs)@) == flush_runs(run_views(old(runs)@), old(pending)@, color),
        final(pending)@ == Seq::<char>::empty(),
{
    if !pending.as_str().is_empty() {
        let text = pending.clone();
        *pending = String::new();
        runs.push(StyledRun { text, color });
        proof {
            assert(run_views(runs@) =~= flush_runs(run_views(old(runs)@), old(pending)@, color));
        }
    }
}

/// Decodes one line of text into styled runs, starting from the supplied
/// base color. The result is exactly the run sequence of the scanner
/// model: visible text split at recognized SGR sequences and newlines,
/// each fragment paired with the color in effect while it was read.
pub fn decode_line(line: &str, base: Color) -> (runs: Vec<StyledRun>)
    ensures
        run_views(runs@) == decode_spec(line@, base),
{
    let n = line.unicode_len();
    let mut runs: Vec<StyledRun> = Vec::new();
    let mut pending = String::new();
    let mut color = base;
    let mut mode = Mode::Ground;
    let mut param: u32 = 0;
    let mut acc = base;
    let mut i: usize = 0;
    while i < n
        invariant
            n as nat == line@.len(),
            i <= n,
            run_views(runs@) == scan(line@.take(i as int), base).out,
            pending@ == scan(line@.take(i as int), base).pending,
            color == scan(line@.take(i as int), base).color,
            mode_matches(mode, param, acc, scan(line@.take(i as int), base).mode),
        decreases n - i,
    {
        let c = line.get_char(i);
        proof {
            assert(line@.take(i + 1).drop_last() =~= line@.take(i as int));
            assert(line@.take(i + 1).last() == line@[i as int]);
        }
        match mode {
            Mode::Ground => {
                if c == '\u{1b}' {
                    mode = Mode::Escape;
                } else if c == '\n' {
                    flush_pending(&mut runs, &mut pending, color);
                } else {
                    push_char(&mut pending, c);
                }
            },
            Mode::Escape => {
                if c == '[' {
                    mode = Mode::Param;
                    param = 0;
                    acc = color;
                } else if c == '\u{1b}' {
                } else {
                    mode = Mode::Ground;
                }
            },
            Mode::Param => {
                let cc = c as u32;
                if '0' as u32 <= cc && cc <= '9' as u32 {
                    if param <= 1000 {
                        param = param * 10 + (cc - '0' as u32);
                    }
                } else if c == ';' {
                    acc = apply_sgr(acc, param, base);
                    param = 0;
                } else if c == 'm' {
                    flush_pending(&mut runs, &mut pending, color);
                    color = apply_sgr(acc, param, base);
                    mode = Mode::Ground;
                } else if c == '\u{1b}' {
                    mode = Mode::Escape;
                } else {
                    mode = Mode::Ground;
                }
            },
        }
        i += 1;
    }
    proof {
        assert(line@.take(n as int) =~= line@);
    }
    flush_pending(&mut runs, &mut pending, color);
    runs
}

/// The concatenation of the visible text of a run sequence.
pub open spec fn concat_texts(rs: Seq<RunView>) -> Seq<char>
    decreases rs.len(),
{
    if rs.len() == 0 {
        Seq::empty()
    } else {
        concat_texts(rs.drop_last()) + rs.last().text
    }
}

/// The mode skeleton of the scanner, with parameters and colors erased.
pub ghost enum StripMode {
    Ground,
    Escape,
    Param,
}

/// One transition of the mode skeleton.
pub open spec fn strip_step(m: StripMode, c: char) -> StripMode {
    match m {
        StripMode::Ground => if c == esc_char() {
            StripMode::Escape
        } else {
            StripMode::Ground
        },
        StripMode::Escape => if c == '[' {
            StripMode::Param
        } else if c == esc_char() {
            StripMode::Escape
        } else {
            StripMode::Ground
        },
        StripMode::Param => if is_param_digit(c) || c == ';' {
            StripMode::Param
        } else if c == esc_char() {
            StripMode::Escape
        } else {
            StripMode::Ground
        },
    }
}

/// The mode skeleton after reading all of `s`.
pub open spec fn strip_mode(s: Seq<char>) -> StripMode
    decreases s.len(),
{
    if s.len() == 0 {
        StripMode::Ground
    } else {
        strip_step(strip_mode(s.drop_last()), s.last())
    }
}

/// `s` with every escape sequence and newline removed: the characters
/// that are read in ground mode and are neither `ESC` nor a newline.
pub open spec fn stripped(s: Seq<char>) -> Seq<char>
    decreases s.len(),
{
    if s.len() == 0 {
        Seq::empty()
    } else {
        let rest = stripped(s.drop_last());
        if strip_mode(s.drop_last()) is Ground && s.last() != esc_char() && s.last() != '\n' {
            rest.push(s.last())
        } else {
            rest
        }
    }
}

/// The mode skeleton of a full scanner mode.
pub open spec fn strip_mode_of(m: ScanMode) -> StripMode {
    match m {
        ScanMode::Ground => StripMode::Ground,
        ScanMode::Escape => StripMode::Escape,
        ScanMode::Param { .. } => StripMode::Param,
    }
}

/// Flushing moves the pending characters to the end of the emitted text.
proof fn lemma_concat_flush(out: Seq<RunView>, pending: Seq<char>, color: Color)
    ensures
        concat_texts(flush_runs(out, pending, color)) =~= concat_texts(out) + pending,
{
    if pending.len() == 0 {
        assert(concat_texts(out) + pending =~= concat_texts(out));
    } else {
        let r = RunView { text: pending, color };
        assert(out.push(r).drop_last() =~= out);
        assert(out.push(r).last() == r);
    }
}

/// The scanner follows the mode skeleton, and its emitted text plus its
/// pending buffer is exactly the stripped input.
proof fn lemma_scan_strip(s: Seq<char>, base: Color)
    ensures
        strip_mode_of(scan(s, base).mode) == strip_mode(s),
        concat_texts(scan(s, base).out) + scan(s, base).pending =~= stripped(s),
    decreases s.len(),
{
    if s.len() == 0 {
        assert(concat_texts(scan(s, base).out) + scan(s, base).pending =~= stripped(s));
    } else {
        lemma_scan_strip(s.drop_last(), base);
        let prev = scan(s.drop_last(), base);
        let c = s.last();
        lemma_concat_flush(prev.out, prev.pending, prev.color);
        let cur = scan(s, base);
        assert(concat_texts(cur.out) + cur.pending =~= stripped(s)) by {
            match prev.mode {
                ScanMode::Ground => {
                    if c != esc_char() && c != '\n' {
                        assert(concat_texts(prev.out) + prev.pending.push(c) =~= (concat_texts(
                            prev.out,
                        ) + prev.pending).push(c));
                    }
                },
                ScanMode::Escape => {},
                ScanMode::Param { .. } => {},
            }
        }
    }
}

/// Law: concatenating the `text` fields of all runs decoded from a line
/// reproduces the line with every escape sequence and newline removed,
/// whatever the base color.
pub proof fn lemma_round_trip(s: Seq<char>, base: Color)
    ensures
        concat_texts(decode_spec(s, base)) =~= stripped(s),
{
    lemma_scan_strip(s, base);
    lemma_concat_flush(scan(s, base).out, scan(s, base).pending, scan(s, base).color);
}

/// The scanner on input free of `ESC` and newlines stays in ground mode
/// and accumulates the whole input as pending text.
proof fn lemma_scan_plain(s: Seq<char>, base: Color)
    requires
        forall|i: int| 0 <= i < s.len() ==> s[i] != esc_char() && s[i] != '\n',
    ensures
        scan(s, base) =~= (ScanState {
            mode: ScanMode::Ground,
            pending: s,
            color: base,
            out: Seq::empty(),
        }),
    decreases s.len(),
{
    if s.len() == 0 {
        assert(s =~= Seq::<char>::empty());
    } else {
        lemma_scan_plain(s.drop_last(), base);
        assert(s.drop_last().push(s.last()) =~= s);
    }
}

/// Law: decoding a nonempty line that contains no escape character and
/// no newline yields exactly one run, whose text is the whole line and
/// whose color is the supplied base color.
pub proof fn lemma_plain_text(s: Seq<char>, base: Color)
    requires
        s.len() > 0,
        forall|i: int| 0 <= i < s.len() ==> s[i] != esc_char() && s[i] != '\n',
    ensures
        decode_spec(s, base) =~= seq![RunView { text: s, color: base }],
{
    lemma_scan_plain(s, base);
}

/// Law: a trailing escape introducer left unterminated by the end of the
/// input has no effect: the decoded runs are those of the input without
/// it, so everything accumulated before the escape began is still
/// produced.
pub proof fn lemma_unterminated_escape(s: Seq<char>, base: Color)
    ensures
        decode_spec(s.push(esc_char()).push('['), base) == decode_spec(s, base),
{
    let s1 = s.push(esc_char());
    let s2 = s1.push('[');
    assert(s1.drop_last() =~= s);
    assert(s2.drop_last() =~= s1);
    let st = scan(s, base);
    let st1 = scan(s1, base);
    assert(st1.pending == st.pending && st1.color == st.color && st1.out == st.out
        && st1.mode is Escape);
    let st2 = scan(s2, base);
    assert(st2.pending == st.pending && st2.color == st.color && st2.out == st.out);
}

/// Every run the scanner has emitted carries nonempty text.
proof fn lemma_no_empty_runs_scan(s: Seq<char>, base: Color)
    ensures
        forall|i: int|
            0 <= i < scan(s, base).out.len() ==> #[trigger] scan(s, base).out[i].text.len() > 0,
    decreases s.len(),
{
    if s.len() > 0 {
        lemma_no_empty_runs_scan(s.drop_last(), base);
    }
}

/// Law: runs with empty text are never emitted; a flush of an empty
/// pending buffer is a no-op.
pub proof fn lemma_no_empty_runs(s: Seq<char>, base: Color)
    ensures
        forall|i: int|
            0 <= i < decode_spec(s, base).len() ==> #[trigger] decode_spec(s, base)[i].text.len()
                > 0,
{
    lemma_no_empty_runs_scan(s, base);
}

/// Applies one completed SGR parameter code to the color register.
fn apply_sgr(current: Color, code: u32, base: Color) -> (c: Color)
    ensures
        c == apply_sgr_code(current, code as nat, base),
{
    if code == 0 {
        base
    } else if code == 30 {
        Color::Black
    } else if code == 31 {
        Color::Red
    } else if code == 32 {
        Color::Green
    } else if code == 33 {
        Color::Yellow
    } else if code == 34 {
        Color::Blue
    } else if code == 35 {
        Color::Magenta
    } else if code == 36 {
        Color::Cyan
    } else if code == 37 {
        Color::White
    } else {
        current
    }
}

} // verus!
