//! The report on why a command may have failed, and text that is safe for a terminal.

use crate::report::{blank_line, LineView, Report, Style};
use crate::text::{
    char_is_control, chars_of, chars_trim_start, concat2, concat3, from_chars, has_prefix, has_sub,
    has_suffix, is_control, is_lower, is_upper, lines, str_contains, str_ends_with, str_eq,
    str_lines, str_starts_with, sub_chars, trim_start, views,
};
use vstd::prelude::*;

verus! {

// ---------------------------------------------------------------------------
// Safe text
// ---------------------------------------------------------------------------

pub open spec fn is_letter(c: char) -> bool {
    is_lower(c) || is_upper(c)
}

/// What follows the letter that ends a control sequence.
pub open spec fn after_sequence(s: Seq<char>) -> Seq<char>
    decreases s.len(),
{
    if s.len() == 0 {
        s
    } else if is_letter(s[0]) {
        s.skip(1)
    } else {
        after_sequence(s.skip(1))
    }
}

pub proof fn lemma_after_sequence(s: Seq<char>)
    ensures
        after_sequence(s).len() <= s.len(),
    decreases s.len(),
{
    if s.len() > 0 && !is_letter(s[0]) {
        lemma_after_sequence(s.skip(1));
    }
}

/// A character behind an escape that begins a string for the terminal: a system command, a device
/// control string, an application or privacy message, or a string as such.
pub open spec fn starts_string(c: char) -> bool {
    c == ']' || c == 'P' || c == '_' || c == '^' || c == 'X'
}

/// What follows the bell, or the escape and backslash, that ends a string for the terminal.
pub open spec fn after_string(s: Seq<char>) -> Seq<char>
    decreases s.len(),
{
    if s.len() == 0 {
        s
    } else if s[0] == '\u{7}' {
        s.skip(1)
    } else if s[0] == '\u{1b}' && s.len() >= 2 && s[1] == '\\' {
        s.skip(2)
    } else {
        after_string(s.skip(1))
    }
}

pub proof fn lemma_after_string(s: Seq<char>)
    ensures
        after_string(s).len() <= s.len(),
    decreases s.len(),
{
    if s.len() > 0 {
        lemma_after_string(s.skip(1));
    }
}

/// A text without escape sequences and without control characters other than line feeds.
pub open spec fn sanitized(s: Seq<char>) -> Seq<char>
    decreases s.len(),
    via sanitized_decreases
{
    if s.len() == 0 {
        Seq::empty()
    } else if s[0] == '\u{1b}' {
        if s.len() == 1 {
            Seq::empty()
        } else if s[1] == '[' {
            sanitized(after_sequence(s.skip(2)))
        } else if starts_string(s[1]) {
            sanitized(after_string(s.skip(2)))
        } else {
            sanitized(s.skip(2))
        }
    } else if is_control(s[0]) && s[0] != '\n' {
        sanitized(s.skip(1))
    } else {
        seq![s[0]] + sanitized(s.skip(1))
    }
}

#[via_fn]
proof fn sanitized_decreases(s: Seq<char>) {
    if s.len() >= 2 {
        lemma_after_sequence(s.skip(2));
        lemma_after_string(s.skip(2));
    }
}

fn skip_string(v: &[char], from: usize) -> (r: usize)
    requires
        from <= v@.len(),
    ensures
        from <= r <= v@.len(),
        v@.skip(r as int) == after_string(v@.skip(from as int)),
{
    let mut i: usize = from;
    while i < v.len()
        invariant
            from <= i <= v@.len(),
            after_string(v@.skip(i as int)) == after_string(v@.skip(from as int)),
        decreases v@.len() - i,
    {
        let c = v[i];
        let ghost rest = v@.skip(i as int);
        proof {
            assert(rest[0] == c);
            assert(rest.skip(1) =~= v@.skip(i + 1));
        }
        if c == '\u{7}' {
            return i + 1;
        }
        if c == '\u{1b}' && v.len() - i >= 2 {
            assert(rest[1] == v@[i + 1]);
            if v[i + 1] == '\\' {
                assert(rest.skip(2) =~= v@.skip(i + 2));
                return i + 2;
            }
        }
        i += 1;
    }
    assert(v@.skip(i as int) =~= Seq::<char>::empty());
    i
}

fn skip_sequence(v: &[char], from: usize) -> (r: usize)
    requires
        from <= v@.len(),
    ensures
        from <= r <= v@.len(),
        v@.skip(r as int) == after_sequence(v@.skip(from as int)),
{
    let mut i: usize = from;
    while i < v.len()
        invariant
            from <= i <= v@.len(),
            after_sequence(v@.skip(i as int)) == after_sequence(v@.skip(from as int)),
        decreases v@.len() - i,
    {
        let c = v[i];
        proof {
            assert(v@.skip(i as int)[0] == c);
            assert(v@.skip(i as int).skip(1) =~= v@.skip(i + 1));
        }
        i += 1;
        if ('a' <= c && c <= 'z') || ('A' <= c && c <= 'Z') {
            return i;
        }
    }
    assert(v@.skip(i as int) =~= Seq::<char>::empty());
    i
}

/// Makes a text safe for the terminal.
pub fn sanitize_terminal_output(s: &str) -> (r: String)
    ensures
        r@ == sanitized(s@),
{
    let v = chars_of(s);
    let mut out: Vec<char> = Vec::new();
    let mut i: usize = 0;
    assert(v@.skip(0) =~= v@);
    assert(out@ + sanitized(v@) =~= sanitized(v@));
    while i < v.len()
        invariant
            i <= v@.len(),
            v@ == s@,
            sanitized(s@) == out@ + sanitized(v@.skip(i as int)),
        decreases v@.len() - i,
    {
        let c = v[i];
        let ghost rest = v@.skip(i as int);
        proof {
            assert(rest[0] == c);
            assert(rest.skip(1) =~= v@.skip(i + 1));
        }
        if c == '\u{1b}' {
            if v.len() - i == 1 {
                assert(v@.skip(i + 1) =~= Seq::<char>::empty());
                assert(sanitized(v@.skip(i + 1)) =~= sanitized(rest));
                i += 1;
            } else {
                proof {
                    assert(rest[1] == v@[i + 1]);
                    assert(rest.skip(2) =~= v@.skip(i + 2));
                }
                if v[i + 1] == '[' {
                    i = skip_sequence(&v, i + 2);
                } else if matches!(v[i + 1], ']' | 'P' | '_' | '^' | 'X') {
                    i = skip_string(&v, i + 2);
                } else {
                    i += 2;
                }
            }
        } else if char_is_control(c) && c != '\n' {
            i += 1;
        } else {
            let ghost before = out@;
            out.push(c);
            assert(before + (seq![c] + sanitized(v@.skip(i + 1))) =~= out@ + sanitized(
                v@.skip(i + 1),
            ));
            i += 1;
        }
    }
    assert(v@.skip(i as int) =~= Seq::<char>::empty());
    assert(out@ + sanitized(v@.skip(i as int)) =~= out@);
    from_chars(&out)
}

/// Nothing of a string for the terminal is left where it stands, however it ends.
pub proof fn law_strings_are_stripped(before: Seq<char>, start: char, text: Seq<char>, after: Seq<char>)
    requires
        is_safe(before),
        starts_string(start),
        !text.contains('\u{7}'),
        !text.contains('\u{1b}'),
    ensures
        sanitized(before + seq!['\u{1b}', start] + text + seq!['\u{7}'] + after) == before
            + sanitized(after),
        sanitized(before + seq!['\u{1b}', start] + text + seq!['\u{1b}', '\\'] + after) == before
            + sanitized(after),
        sanitized(before + seq!['\u{1b}', start] + text) == before,
    decreases before.len(),
{
    let opened = seq!['\u{1b}', start];
    let bell = seq!['\u{7}'];
    let closed = seq!['\u{1b}', '\\'];
    let one = before + opened + text + bell + after;
    let two = before + opened + text + closed + after;
    let three = before + opened + text;
    if before.len() == 0 {
        lemma_string_ends(text, after);
        assert(one.skip(2) =~= text + bell + after);
        assert(two.skip(2) =~= text + closed + after);
        assert(three.skip(2) =~= text);
        assert(before + sanitized(after) =~= sanitized(after));
        assert(sanitized(Seq::<char>::empty()) =~= before);
    } else {
        let rest = before.skip(1);
        assert(!is_control(before[0]) || before[0] == '\n');
        assert forall|i: int| 0 <= i < rest.len() implies !is_control(#[trigger] rest[i]) || rest[i]
            == '\n' by {
            assert(rest[i] == before[i + 1]);
        }
        law_strings_are_stripped(rest, start, text, after);
        assert(one.skip(1) =~= rest + opened + text + bell + after);
        assert(two.skip(1) =~= rest + opened + text + closed + after);
        assert(three.skip(1) =~= rest + opened + text);
        assert(seq![before[0]] + (rest + sanitized(after)) =~= before + sanitized(after));
        assert(seq![before[0]] + rest =~= before);
    }
}

proof fn lemma_string_ends(text: Seq<char>, after: Seq<char>)
    requires
        !text.contains('\u{7}'),
        !text.contains('\u{1b}'),
    ensures
        after_string(text + seq!['\u{7}'] + after) == after,
        after_string(text + seq!['\u{1b}', '\\'] + after) == after,
        after_string(text) == Seq::<char>::empty(),
    decreases text.len(),
{
    let bell = seq!['\u{7}'];
    let closed = seq!['\u{1b}', '\\'];
    let one = text + bell + after;
    let two = text + closed + after;
    if text.len() == 0 {
        assert(one.skip(1) =~= after);
        assert(two.skip(2) =~= after);
        assert(text =~= Seq::<char>::empty());
    } else {
        let rest = text.skip(1);
        assert(text.contains(text[0]));
        assert forall|c: char| rest.contains(c) implies text.contains(c) by {
            let i = choose|i: int| 0 <= i < rest.len() && rest[i] == c;
            assert(text[i + 1] == c);
        }
        lemma_string_ends(rest, after);
        assert(one.skip(1) =~= rest + bell + after);
        assert(two.skip(1) =~= rest + closed + after);
    }
}

/// No character of a text controls the terminal, line feeds apart.
pub open spec fn is_safe(s: Seq<char>) -> bool {
    forall|i: int| 0 <= i < s.len() ==> !is_control(#[trigger] s[i]) || s[i] == '\n'
}

/// What comes out controls no terminal.
pub proof fn law_sanitized_is_safe(s: Seq<char>)
    ensures
        is_safe(sanitized(s)),
    decreases s.len(),
{
    if s.len() > 0 {
        if s[0] == '\u{1b}' {
            if s.len() >= 2 {
                lemma_after_sequence(s.skip(2));
                lemma_after_string(s.skip(2));
                law_sanitized_is_safe(after_sequence(s.skip(2)));
                law_sanitized_is_safe(after_string(s.skip(2)));
                law_sanitized_is_safe(s.skip(2));
            }
        } else {
            law_sanitized_is_safe(s.skip(1));
            let rest = sanitized(s.skip(1));
            assert forall|i: int| 0 <= i < sanitized(s).len() implies !is_control(
                #[trigger] sanitized(s)[i],
            ) || sanitized(s)[i] == '\n' by {
                if !is_control(s[0]) || s[0] == '\n' {
                    if i > 0 {
                        assert(sanitized(s)[i] == rest[i - 1]);
                    }
                }
            }
        }
    }
}

/// A text that controls no terminal stays as it is.
pub proof fn law_safe_text_stays(s: Seq<char>)
    requires
        is_safe(s),
    ensures
        sanitized(s) == s,
    decreases s.len(),
{
    if s.len() > 0 {
        assert(!is_control(s[0]) || s[0] == '\n');
        assert forall|i: int| 0 <= i < s.skip(1).len() implies !is_control(#[trigger] s.skip(1)[i])
            || s.skip(1)[i] == '\n' by {
            assert(s.skip(1)[i] == s[i + 1]);
        }
        law_safe_text_stays(s.skip(1));
        assert(seq![s[0]] + s.skip(1) =~= s);
    } else {
        assert(s =~= Seq::empty());
    }
}

/// Making a text safe twice is making it safe once.
pub proof fn law_sanitizing_is_idempotent(s: Seq<char>)
    ensures
        sanitized(sanitized(s)) == sanitized(s),
{
    law_sanitized_is_safe(s);
    law_safe_text_stays(sanitized(s));
}

// ---------------------------------------------------------------------------
// The report
// ---------------------------------------------------------------------------

pub open spec fn all_rules(s: Seq<char>) -> bool {
    forall|i: int| 0 <= i < s.len() ==> #[trigger] s[i] == '─'
}

fn is_rule(v: &[char]) -> (r: bool)
    ensures
        r == all_rules(v@),
{
    let mut i: usize = 0;
    while i < v.len()
        invariant
            i <= v@.len(),
            forall|k: int| 0 <= k < i ==> #[trigger] v@[k] == '─',
        decreases v@.len() - i,
    {
        if v[i] != '─' {
            return false;
        }
        i += 1;
    }
    true
}

/// The style of a heading.
pub open spec fn heading_style(line: Seq<char>) -> Style {
    if line == "Likely sandbox denial:"@ || line == "Missing path:"@ {
        Style::RedBold
    } else if line == "Sandbox policy:"@ {
        Style::Brand
    } else {
        Style::TextBold
    }
}

pub open spec fn network_style(rest: Seq<char>) -> Style {
    if has_sub(rest, "blocked"@) {
        Style::Red
    } else if has_sub(rest, "allowed"@) {
        Style::Green
    } else {
        Style::Blue
    }
}

/// A line with a label and what follows it.
pub open spec fn labelled(label_style: Style, label: Seq<char>, style: Style, rest: Seq<char>) -> LineView {
    seq![
        (Style::Plain, "  "@),
        (label_style, label),
        (Style::Plain, " "@),
        (style, rest),
    ]
}

pub open spec fn indented(indent: Seq<char>, style: Style, text: Seq<char>) -> LineView {
    seq![(Style::Plain, indent), (style, text)]
}

/// How the line at a position is shown, once it is safe.
pub open spec fn diagnostic_line(idx: nat, line: Seq<char>) -> LineView {
    if line.len() == 0 {
        blank_line()
    } else if idx == 0 && line == "nono diagnostic"@ {
        seq![(Style::RedBold, "NONO DIAGNOSTIC"@)]
    } else if idx == 1 && all_rules(line) {
        seq![(Style::Red, "────────────────────────"@)]
    } else if has_prefix(line, "The command failed"@) {
        seq![(Style::RedBold, line)]
    } else if has_prefix(line, "The command succeeded"@) {
        seq![(Style::YellowBold, line)]
    } else if line[0] != ' ' && has_suffix(line, ":"@) {
        seq![(heading_style(line), line)]
    } else if has_prefix(line, "  Try: "@) {
        labelled(Style::GreenBold, "Try:"@, Style::TextBold, line.skip(7))
    } else if has_prefix(line, "  Why: "@) {
        labelled(Style::BlueBold, "Why:"@, Style::Text, line.skip(7))
    } else if has_prefix(line, "  Learn: "@) {
        labelled(Style::TealBold, "Learn:"@, Style::Text, line.skip(9))
    } else if has_prefix(line, "  Re-use "@) {
        indented("  "@, Style::Subtext, "Re-use "@ + line.skip(9))
    } else if line == "  Allowed paths:"@ {
        indented("  "@, Style::SubtextBold, "Allowed paths:"@)
    } else if has_prefix(line, "  Network: "@) {
        labelled(
            Style::SubtextBold,
            "Network:"@,
            network_style(line.skip(11)),
            line.skip(11),
        )
    } else if has_prefix(line, "  /"@) || has_prefix(line, "  ~/"@) {
        indented("  "@, Style::TextBold, trim_start(line))
    } else if has_prefix(line, "    + "@) {
        indented("    "@, Style::Subtext, trim_start(line))
    } else if has_prefix(line, "    "@) {
        indented("    "@, Style::Text, trim_start(line))
    } else {
        seq![(Style::Plain, line)]
    }
}

fn rest_of(v: &Vec<char>, n: usize) -> (r: String)
    requires
        n <= v@.len(),
    ensures
        r@ == v@.skip(n as int),
{
    let rest = sub_chars(v, n, v.len());
    assert(rest@ =~= v@.skip(n as int));
    from_chars(&rest)
}

fn trimmed(v: &Vec<char>) -> (r: String)
    ensures
        r@ == trim_start(v@),
{
    let t = chars_trim_start(v);
    from_chars(&t)
}

fn style_of_heading(line: &str) -> (r: Style)
    ensures
        r == heading_style(line@),
{
    if str_eq(line, "Likely sandbox denial:") || str_eq(line, "Missing path:") {
        Style::RedBold
    } else if str_eq(line, "Sandbox policy:") {
        Style::Brand
    } else {
        Style::TextBold
    }
}

fn style_of_network(rest: &str) -> (r: Style)
    ensures
        r == network_style(rest@),
{
    if str_contains(rest, "blocked") {
        Style::Red
    } else if str_contains(rest, "allowed") {
        Style::Green
    } else {
        Style::Blue
    }
}

fn add_labelled(out: &mut Report, label_style: Style, label: &str, style: Style, rest: &str)
    ensures
        final(out)@ == old(out)@.push(labelled(label_style, label@, style, rest@)),
{
    out.line4(Style::Plain, "  ", label_style, label, Style::Plain, " ", style, rest);
}

fn render_diagnostic_line(out: &mut Report, idx: usize, raw: &str)
    ensures
        final(out)@ == old(out)@.push(diagnostic_line(idx as nat, sanitized(raw@))),
{
    let text = sanitize_terminal_output(raw);
    let line = text.as_str();
    let v = chars_of(line);
    proof {
        reveal_strlit("  Try: ");
        reveal_strlit("  Why: ");
        reveal_strlit("  Learn: ");
        reveal_strlit("  Re-use ");
        reveal_strlit("  Network: ");
    }
    if v.len() == 0 {
        out.blank();
    } else if idx == 0 && str_eq(line, "nono diagnostic") {
        out.line1(Style::RedBold, "NONO DIAGNOSTIC");
    } else if idx == 1 && is_rule(&v) {
        out.line1(Style::Red, "────────────────────────");
    } else if str_starts_with(line, "The command failed") {
        out.line1(Style::RedBold, line);
    } else if str_starts_with(line, "The command succeeded") {
        out.line1(Style::YellowBold, line);
    } else if v[0] != ' ' && str_ends_with(line, ":") {
        out.line1(style_of_heading(line), line);
    } else if str_starts_with(line, "  Try: ") {
        let rest = rest_of(&v, 7);
        add_labelled(out, Style::GreenBold, "Try:", Style::TextBold, rest.as_str());
    } else if str_starts_with(line, "  Why: ") {
        let rest = rest_of(&v, 7);
        add_labelled(out, Style::BlueBold, "Why:", Style::Text, rest.as_str());
    } else if str_starts_with(line, "  Learn: ") {
        let rest = rest_of(&v, 9);
        add_labelled(out, Style::TealBold, "Learn:", Style::Text, rest.as_str());
    } else if str_starts_with(line, "  Re-use ") {
        let rest = rest_of(&v, 9);
        let shown = concat2("Re-use ", rest.as_str());
        out.line2(Style::Plain, "  ", Style::Subtext, shown.as_str());
    } else if str_eq(line, "  Allowed paths:") {
        out.line2(Style::Plain, "  ", Style::SubtextBold, "Allowed paths:");
    } else if str_starts_with(line, "  Network: ") {
        let rest = rest_of(&v, 11);
        let style = style_of_network(rest.as_str());
        add_labelled(out, Style::SubtextBold, "Network:", style, rest.as_str());
    } else if str_starts_with(line, "  /") || str_starts_with(line, "  ~/") {
        let t = trimmed(&v);
        out.line2(Style::Plain, "  ", Style::TextBold, t.as_str());
    } else if str_starts_with(line, "    + ") {
        let t = trimmed(&v);
        out.line2(Style::Plain, "    ", Style::Subtext, t.as_str());
    } else if str_starts_with(line, "    ") {
        let t = trimmed(&v);
        out.line2(Style::Plain, "    ", Style::Text, t.as_str());
    } else {
        out.line1(Style::Plain, line);
    }
}

/// How a report is shown, line by line.
pub open spec fn diagnostic_lines(l: Seq<Seq<char>>) -> Seq<LineView> {
    Seq::new(l.len(), |i: int| diagnostic_line(i as nat, sanitized(l[i])))
}

/// Shows a report: one line for each of its lines.
pub fn render_diagnostic_footer(footer: &str) -> (out: Report)
    ensures
        out@ == diagnostic_lines(lines(footer@)),
{
    let all = str_lines(footer);
    let ghost l = views(all@);
    let ghost want = diagnostic_lines(l);
    let mut out = Report::new();
    let mut i: usize = 0;
    assert(out@ =~= want.take(0));
    while i < all.len()
        invariant
            i <= all@.len(),
            l == views(all@),
            want == diagnostic_lines(l),
            out@ == want.take(i as int),
        decreases all@.len() - i,
    {
        assert(want[i as int] == diagnostic_line(i as nat, sanitized(all@[i as int]@)));
        render_diagnostic_line(&mut out, i, all[i].as_str());
        i += 1;
        assert(want.take(i as int) =~= want.take(i - 1).push(want[i - 1]));
    }
    assert(want.take(i as int) =~= want);
    out
}

/// Each line of a text from the start of its line, with the rest of the line cleared.
pub open spec fn tty_block(l: Seq<Seq<char>>) -> Seq<char>
    decreases l.len(),
{
    if l.len() == 0 {
        Seq::empty()
    } else {
        tty_block(l.drop_last()) + ("\r"@ + l.last() + "\x1b[K\r\n"@)
    }
}

/// Prepares a text for a terminal whose lines may hold something already.
pub fn render_terminal_block_for_tty(message: &str) -> (r: String)
    ensures
        r@ == tty_block(lines(message@)),
{
    let all = str_lines(message);
    let ghost l = views(all@);
    let mut out = String::new();
    let mut i: usize = 0;
    assert(out@ =~= tty_block(l.take(0)));
    while i < all.len()
        invariant
            i <= all@.len(),
            l == views(all@),
            out@ == tty_block(l.take(i as int)),
        decreases all@.len() - i,
    {
        proof {
            assert(l.take(i + 1).drop_last() =~= l.take(i as int));
            assert(l.take(i + 1).last() == all@[i as int]@);
        }
        let piece = concat3("\r", all[i].as_str(), "\x1b[K\r\n");
        out.append(piece.as_str());
        i += 1;
    }
    assert(l.take(i as int) =~= l);
    out
}

/// What is written for a report that is rendered already: on a terminal every line is cleared
/// first, elsewhere the text is written as it is; an empty line comes before it where that is
/// wanted.
pub open spec fn terminal_block(message: Seq<char>, leading_blank_line: bool, terminal: bool) -> Seq<char> {
    if terminal {
        (if leading_blank_line {
            "\r\x1b[K\r\n"@
        } else {
            ""@
        }) + tty_block(lines(message))
    } else {
        (if leading_blank_line {
            "\n"@
        } else {
            ""@
        }) + message + "\n"@
    }
}

pub fn print_terminal_block(message: &str, leading_blank_line: bool, terminal: bool) -> (r: String)
    ensures
        r@ == terminal_block(message@, leading_blank_line, terminal),
{
    if terminal {
        let body = render_terminal_block_for_tty(message);
        let head = if leading_blank_line {
            "\r\x1b[K\r\n"
        } else {
            ""
        };
        concat2(head, body.as_str())
    } else {
        let head = if leading_blank_line {
            "\n"
        } else {
            ""
        };
        concat3(head, message, "\n")
    }
}

/// What is written for a report after a run, once it is rendered: always after an empty line.
pub fn print_diagnostic_footer(rendered: &str, terminal: bool) -> (r: String)
    ensures
        r@ == terminal_block(rendered@, true, terminal),
{
    print_terminal_block(rendered, true, terminal)
}

} // verus!
