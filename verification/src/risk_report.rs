//! Reading findings out of the text report that `diff-risk` prints.
//!
//! A report line names a finding in one of two shapes, each after optional
//! severity glyphs:
//! - `[rule] file:line  message`
//! - `Detector Label: file:line — message`
//!
//! Blank lines, `#` comments and lines that start with `diff-risk` (the report's own
//! header) carry no finding; neither does any other line that fits neither shape.
use vstd::prelude::*;
use crate::text::{
    all_ws, decimal, is_marker, law_decimal_reads_back, law_line_number_reads_back,
    lemma_trim_leading_ws, lemma_trim_plain, lemma_trim_trailing_ws, lemma_trimmed_ends,
    in_class, lemma_lead, all_digits, chars_of, equals_in, is_digit, is_whitespace_char, is_ws, lead, lead_in,
    lemma_lead_bound, line_number, line_number_in, slice_string, starts_with, starts_with_in, trim,
    trail_ws, trim_in, CharClass,
};
use crate::finding::{
    rule_name, severity_marker, text_line, views, Confidence, Finding, FindingView, RuleId,
    Severity,
};

verus! {

pub open spec fn is_dash(c: char) -> bool {
    c == '\u{2014}' || c == '-'
}

/// Index of the first `:` that is followed by whitespace, or `s.len()` when there is none.
pub open spec fn colon_sep(s: Seq<char>) -> nat
    decreases s.len(),
{
    if s.len() < 2 {
        s.len()
    } else if s[0] == ':' && is_ws(s[1]) {
        0
    } else {
        1 + colon_sep(s.drop_first())
    }
}

/// The rule that a diff-risk detector label stands for.
pub open spec fn rule_for_label(label: Seq<char>) -> RuleId {
    if label == "Auth / Permission Gate"@ {
        RuleId::AuthGate
    } else {
        RuleId::Other
    }
}

/// The one detector label with a rule of its own is `Auth / Permission Gate`, read as
/// the auth-gate rule; every other label gives `other`.
pub proof fn law_label_rules(label: Seq<char>)
    ensures
        label == "Auth / Permission Gate"@ ==> rule_name(rule_for_label(label)) == "auth_gate"@,
        label != "Auth / Permission Gate"@ ==> rule_for_label(label) == RuleId::Other,
{
}

/// A finding read from a diff-risk report line.
pub open spec fn report_finding(
    rule: RuleId,
    file: Seq<char>,
    line: u32,
    message: Seq<char>,
    tool: Seq<char>,
) -> FindingView {
    FindingView {
        rule,
        severity: Severity::Medium,
        confidence: Confidence::Heuristic,
        file,
        line,
        message,
        source_tool: tool,
        id: None,
        action: None,
    }
}

/// `rest` is what follows the `[` of a `[rule] file:line  message` line.
pub open spec fn bracket_form(rest: Seq<char>, tool: Seq<char>) -> Option<FindingView> {
    let e = lead(rest, CharClass::CloseBracket, false);
    if e >= rest.len() {
        None
    } else {
        let after = trim(rest.skip(e + 1 as int));
        let fe = lead(after, CharClass::ColonOrWhitespace, false);
        if fe >= after.len() {
            None
        } else {
            let r0 = trim(after.skip(fe as int));
            let r1 = if r0.len() > 0 && r0[0] == ':' {
                r0.drop_first()
            } else {
                r0
            };
            let nd = lead(r1, CharClass::Digit, true);
            Some(
                report_finding(
                    RuleId::Other,
                    after.take(fe as int),
                    line_number(r1.take(nd as int)),
                    trim(r1.skip(nd as int)),
                    tool,
                ),
            )
        }
    }
}

/// A `Detector Label: file:line — message` line, after its glyphs.
pub open spec fn label_form(body: Seq<char>, tool: Seq<char>) -> Option<FindingView> {
    let c = colon_sep(body);
    if c >= body.len() {
        None
    } else {
        let rest = trim(body.skip(c + 1 as int));
        let te = lead(rest, CharClass::Whitespace, false);
        let token = rest.take(te as int);
        let k = lead(token, CharClass::Colon, false);
        if k >= token.len() || k == 0 || k + 1 == token.len() || !all_digits(token.skip(k + 1 as int)) {
            None
        } else {
            let m0 = trim(rest.skip(te as int));
            let msg = if m0.len() > 0 && is_dash(m0[0]) {
                trim(m0.drop_first())
            } else {
                m0
            };
            Some(
                report_finding(
                    rule_for_label(trim(body.take(c as int))),
                    token.take(k as int),
                    line_number(token.skip(k + 1 as int)),
                    msg,
                    tool,
                ),
            )
        }
    }
}

/// The finding that one report line carries, if any.
pub open spec fn parse_report_line(line: Seq<char>, tool: Seq<char>) -> Option<FindingView> {
    let t = trim(line);
    if t.len() == 0 || t[0] == '#' || starts_with(t, "diff-risk"@) {
        None
    } else {
        let body = t.skip(lead(t, CharClass::WhitespaceOrMarker, true) as int);
        if body.len() > 0 && body[0] == '[' {
            bracket_form(body.drop_first(), tool)
        } else {
            label_form(body, tool)
        }
    }
}

/// Trailing whitespace is counted within the last non-blank part of a text.
proof fn lemma_trail_ws_concat(q: Seq<char>, l: Seq<char>)
    requires
        l.len() > 0,
        !is_ws(l[0]),
    ensures
        trail_ws(q + l) == trail_ws(l),
        trail_ws(l) < l.len(),
    decreases l.len(),
{
    let s = q + l;
    assert(s.last() == l.last());
    assert(s.drop_last() =~= q + l.drop_last());
    if is_ws(l.last()) {
        assert(l.len() > 1);
        assert(l.drop_last()[0] == l[0]);
        lemma_trail_ws_concat(q, l.drop_last());
    }
}

/// The glyphs and whitespace that a report may put in front of a bracketed finding
/// are skipped: a line made of any run of them, then `[`, gives the same finding as
/// the line from `[` on. The glyphs are 🚨, ⚠, the variation selector U+FE0F, 🟡,
/// 🔵, ✅ and 🔥.
pub proof fn law_glyphs_before_bracket_are_skipped(p: Seq<char>, l: Seq<char>, tool: Seq<char>)
    requires
        forall|j: int|
            0 <= j < p.len() ==> {
                let c = #[trigger] p[j];
                ||| is_ws(c)
                ||| c == '\u{1F6A8}'
                ||| c == '\u{26A0}'
                ||| c == '\u{FE0F}'
                ||| c == '\u{1F7E1}'
                ||| c == '\u{1F535}'
                ||| c == '\u{2705}'
                ||| c == '\u{1F525}'
            },
        l.len() > 0,
        l[0] == '[',
    ensures
        parse_report_line(p + l, tool) == parse_report_line(l, tool),
{
    let s = p + l;
    // leading whitespace of the whole line lies within the glyph run
    lemma_lead_bound(p, CharClass::Whitespace, true);
    let k = lead(p, CharClass::Whitespace, true);
    assert forall|j: int| 0 <= j < k implies in_class(#[trigger] s[j], CharClass::Whitespace)
        == true by {
        assert(s[j] == p[j]);
    }
    if k < p.len() {
        assert(s[k as int] == p[k as int]);
    } else {
        assert(s[k as int] == l[0]);
    }
    lemma_lead(s, CharClass::Whitespace, true, k as int);
    let q = p.skip(k as int);
    assert(s.skip(k as int) =~= q + l);
    lemma_trail_ws_concat(q, l);
    // the line alone
    lemma_lead(l, CharClass::Whitespace, true, 0);
    assert(l.skip(0) =~= l);
    let t = trim(l);
    assert(t =~= l.take(l.len() - trail_ws(l)));
    assert(t[0] == '[');
    let big = trim(s);
    assert(big =~= q + t);
    // neither is a comment or the report's header
    reveal_strlit("diff-risk");
    assert("diff-risk"@[0] == 'd');
    assert forall|j: int| 0 <= j < q.len() implies in_class(
        #[trigger] q[j],
        CharClass::WhitespaceOrMarker,
    ) == true by {
        assert(q[j] == p[j + k]);
    }
    if q.len() > 0 {
        assert(big[0] == q[0]);
        assert(q[0] == p[k as int]);
    } else {
        assert(big[0] == '[');
    }
    assert(big[0] != '#' && big[0] != 'd');
    if starts_with(big, "diff-risk"@) {
        assert(big.take(9)[0] == big[0]);
    }
    if starts_with(t, "diff-risk"@) {
        assert(t.take(9)[0] == t[0]);
    }
    // the glyph run is skipped, leaving the same body
    lemma_lead(t, CharClass::WhitespaceOrMarker, true, 0);
    crate::text::lemma_lead_all(q, t, CharClass::WhitespaceOrMarker, true);
    assert(big.skip(q.len() as int) =~= t);
    assert(t.skip(0) =~= t);
}

pub open spec fn opt_seq(o: Option<FindingView>) -> Seq<FindingView> {
    match o {
        Some(f) => seq![f],
        None => Seq::empty(),
    }
}

/// The findings of a whole report, line by line in order (lines end at `\n`).
pub open spec fn report_findings(s: Seq<char>, tool: Seq<char>) -> Seq<FindingView>
    decreases s.len(),
{
    let i = lead(s, CharClass::Newline, false);
    let here = opt_seq(parse_report_line(s.take(i as int), tool));
    if i >= s.len() {
        here
    } else {
        here + report_findings(s.skip(i + 1 as int), tool)
    }
}

/// Every finding read from a diff-risk report is attributed to the tool named, with
/// heuristic confidence and medium severity.
pub proof fn law_report_findings_attributed(s: Seq<char>, tool: Seq<char>)
    ensures
        forall|i: int|
            0 <= i < report_findings(s, tool).len() ==> {
                &&& (#[trigger] report_findings(s, tool)[i]).source_tool == tool
                &&& report_findings(s, tool)[i].confidence == Confidence::Heuristic
                &&& report_findings(s, tool)[i].severity == Severity::Medium
            },
    decreases s.len(),
{
    let i = lead(s, CharClass::Newline, false);
    let here = opt_seq(parse_report_line(s.take(i as int), tool));
    if i < s.len() {
        law_report_findings_attributed(s.skip(i + 1 as int), tool);
        let rest = report_findings(s.skip(i + 1 as int), tool);
        assert forall|j: int| 0 <= j < report_findings(s, tool).len() implies {
            &&& (#[trigger] report_findings(s, tool)[j]).source_tool == tool
            &&& report_findings(s, tool)[j].confidence == Confidence::Heuristic
            &&& report_findings(s, tool)[j].severity == Severity::Medium
        } by {
            if j >= here.len() {
                assert(report_findings(s, tool)[j] == rest[j - here.len()]);
            }
        }
    }
}

/// A report is read line by line: the findings of two reports joined by a line break
/// are the findings of the first followed by those of the second.
pub proof fn law_report_lines_independent(a: Seq<char>, b: Seq<char>, tool: Seq<char>)
    ensures
        report_findings(a + seq!['\n'] + b, tool) == report_findings(a, tool) + report_findings(
            b,
            tool,
        ),
    decreases a.len(),
{
    let s = a + seq!['\n'] + b;
    let ia = lead(a, CharClass::Newline, false);
    lemma_lead_bound(a, CharClass::Newline, false);
    assert forall|j: int| 0 <= j < ia implies in_class(#[trigger] s[j], CharClass::Newline)
        == false by {
        assert(s[j] == a[j]);
    }
    if ia < a.len() {
        assert(s[ia as int] == a[ia as int]);
        lemma_lead(s, CharClass::Newline, false, ia as int);
        let a2 = a.skip(ia + 1 as int);
        law_report_lines_independent(a2, b, tool);
        assert(s.take(ia as int) =~= a.take(ia as int));
        assert(s.skip(ia + 1 as int) =~= a2 + seq!['\n'] + b);
        let here = opt_seq(parse_report_line(a.take(ia as int), tool));
        assert(report_findings(s, tool) == here + report_findings(a2 + seq!['\n'] + b, tool));
        assert(report_findings(a, tool) == here + report_findings(a2, tool));
        assert(report_findings(s, tool) =~= report_findings(a, tool) + report_findings(b, tool));
    } else {
        assert(s[a.len() as int] == '\n');
        lemma_lead(s, CharClass::Newline, false, a.len() as int);
        assert(s.take(a.len() as int) =~= a);
        assert(a.take(ia as int) =~= a);
        assert(s.skip(a.len() + 1 as int) =~= b);
    }
}

proof fn lemma_rule_names_unbracketed(r: RuleId)
    ensures
        forall|j: int| 0 <= j < rule_name(r).len() ==> #[trigger] rule_name(r)[j] != ']',
{
    reveal_strlit("auth_gate");
    reveal_strlit("test_reference");
    reveal_strlit("trait_impl");
    reveal_strlit("ffi_signature_change");
    reveal_strlit("build_script_changed");
    reveal_strlit("symbol_absence");
    reveal_strlit("compile_failure");
    reveal_strlit("lying_test");
    reveal_strlit("ghost_command");
    reveal_strlit("other");
}

/// The part of a bracketed report line after its `[`: a rule name, `] `, a file, `:`,
/// digits and a tail that is empty or starts with a space.
proof fn lemma_bracket_tail(
    r: Seq<char>,
    file: Seq<char>,
    d: Seq<char>,
    tail: Seq<char>,
    tool: Seq<char>,
)
    requires
        forall|j: int| 0 <= j < r.len() ==> #[trigger] r[j] != ']',
        forall|j: int|
            0 <= j < file.len() ==> !in_class(#[trigger] file[j], CharClass::ColonOrWhitespace),
        all_digits(d),
        d.len() > 0,
        tail.len() == 0 || (tail[0] == ' ' && !is_ws(tail.last())),
    ensures
        bracket_form(r + seq![']', ' '] + file + seq![':'] + d + tail, tool) == Some(
            report_finding(RuleId::Other, file, line_number(d), trim(tail), tool),
        ),
{
    let x = file + seq![':'] + d;
    let y = x + tail;
    let rest = r + seq![']', ' '] + file + seq![':'] + d + tail;
    assert(rest =~= r + seq![']', ' '] + y);
    assert forall|j: int| 0 <= j < r.len() implies in_class(
        #[trigger] rest[j],
        CharClass::CloseBracket,
    ) == false by {
        assert(rest[j] == r[j]);
    }
    assert(rest[r.len() as int] == ']');
    lemma_lead(rest, CharClass::CloseBracket, false, r.len() as int);
    assert(rest.skip(r.len() + 1 as int) =~= seq![' '] + y);
    if file.len() > 0 {
        assert(y[0] == file[0]);
        assert(!in_class(file[0], CharClass::ColonOrWhitespace));
    } else {
        assert(y[0] == ':');
    }
    assert(is_digit(d[d.len() - 1]));
    if tail.len() > 0 {
        assert(y.last() == tail.last());
    } else {
        assert(y =~= x);
        assert(y.last() == d.last());
    }
    assert(all_ws(seq![' ']));
    lemma_trim_leading_ws(seq![' '], y);
    let after = y;
    assert forall|j: int| 0 <= j < file.len() implies in_class(
        #[trigger] after[j],
        CharClass::ColonOrWhitespace,
    ) == false by {
        assert(after[j] == file[j]);
    }
    assert(after[file.len() as int] == ':');
    lemma_lead(after, CharClass::ColonOrWhitespace, false, file.len() as int);
    assert(after.take(file.len() as int) =~= file);
    let z = seq![':'] + d + tail;
    assert(after.skip(file.len() as int) =~= z);
    if tail.len() > 0 {
        assert(z.last() == tail.last());
    } else {
        assert(z =~= seq![':'] + d);
        assert(z.last() == d.last());
    }
    lemma_trim_plain(z);
    assert(z[0] == ':');
    let r1 = z.drop_first();
    assert(r1 =~= d + tail);
    assert forall|j: int| 0 <= j < d.len() implies in_class(#[trigger] r1[j], CharClass::Digit)
        == true by {
        assert(r1[j] == d[j]);
    }
    if tail.len() > 0 {
        assert(r1[d.len() as int] == tail[0]);
    }
    lemma_lead(r1, CharClass::Digit, true, d.len() as int);
    assert(r1.take(d.len() as int) =~= d);
    assert(r1.skip(d.len() as int) =~= tail);
}

/// A finding line as `cargo vibe check` prints it reads back, through the report
/// parser, as a finding at the same file and line with the same message (the parser
/// does not recover rule or severity). This holds for every severity whose glyph the
/// parser skips (all but `High`), for a file without `:` or whitespace, and a message
/// without surrounding whitespace.
#[verifier::rlimit(30)]
pub proof fn law_rendered_line_reads_back(f: FindingView, tool: Seq<char>)
    requires
        f.severity != Severity::High,
        forall|j: int|
            0 <= j < f.file.len() ==> !in_class(#[trigger] f.file[j], CharClass::ColonOrWhitespace),
        trim(f.message) == f.message,
    ensures
        parse_report_line(text_line(f), tool) == Some(
            report_finding(RuleId::Other, f.file, f.line, f.message, tool),
        ),
{
    reveal_strlit("\u{1F6A8}");
    reveal_strlit("\u{1F7E1}");
    reveal_strlit("\u{1F535}");
    reveal_strlit(" [");
    reveal_strlit("] ");
    reveal_strlit(":");
    reveal_strlit("  ");
    reveal_strlit("diff-risk");
    lemma_rule_names_unbracketed(f.rule);
    law_decimal_reads_back(f.line as nat);
    law_line_number_reads_back(f.line);
    let m = severity_marker(f.severity);
    assert(m.len() == 1);
    let mc = m[0];
    assert(is_marker(mc) && !is_ws(mc) && mc != '#' && mc != 'd' && mc != '[');
    let r = rule_name(f.rule);
    let file = f.file;
    let d = decimal(f.line as nat);
    let msg = f.message;
    let sp2 = seq![' ', ' '];
    assert(all_ws(sp2));
    let p = seq![mc, ' ', '['] + r + seq![']', ' '] + file + seq![':'] + d;
    let tail = if msg.len() > 0 {
        sp2 + msg
    } else {
        Seq::<char>::empty()
    };
    let line = text_line(f);
    assert(line =~= p + sp2 + msg);
    assert(p.last() == d.last());
    assert(is_digit(d[d.len() - 1]));
    let t = p + tail;
    if msg.len() > 0 {
        lemma_trimmed_ends(msg);
        assert(line =~= t);
        assert(line.last() == msg.last());
        lemma_trim_plain(line);
        assert(tail[0] == ' ' && tail.last() == msg.last());
        lemma_trim_leading_ws(sp2, msg);
    } else {
        assert(line =~= p + sp2);
        assert(p[0] == mc);
        lemma_trim_trailing_ws(p, sp2);
        assert(t =~= p);
        lemma_trim_plain(tail);
        assert(tail =~= msg);
    }
    assert(trim(line) == t);
    assert(trim(tail) == msg);
    assert(t[0] == mc);
    assert(!starts_with(t, "diff-risk"@)) by {
        if starts_with(t, "diff-risk"@) {
            assert(t.take(9)[0] == "diff-risk"@[0]);
        }
    }
    assert(t[1] == ' ' && t[2] == '[');
    lemma_lead(t, CharClass::WhitespaceOrMarker, true, 2);
    let body = t.skip(2);
    assert(body[0] == '[');
    assert(body.drop_first() =~= r + seq![']', ' '] + file + seq![':'] + d + tail);
    lemma_bracket_tail(r, file, d, tail, tool);
}

pub open spec fn opt_finding_view(o: Option<Finding>) -> Option<FindingView> {
    match o {
        Some(f) => Some(f@),
        None => None,
    }
}

/// `lo + colon_sep(cs[lo..hi])`.
fn colon_sep_in(cs: &Vec<char>, lo: usize, hi: usize) -> (r: usize)
    requires
        lo <= hi <= cs@.len(),
    ensures
        lo <= r <= hi,
        r - lo == colon_sep(cs@.subrange(lo as int, hi as int)),
{
    let ghost s = cs@.subrange(lo as int, hi as int);
    let mut i = lo;
    assert(s.skip(0) =~= s);
    while hi - i >= 2
        invariant
            lo <= i <= hi <= cs@.len(),
            s == cs@.subrange(lo as int, hi as int),
            colon_sep(s) == (i - lo) + colon_sep(s.skip(i - lo)),
        decreases hi - i,
    {
        let ghost r = s.skip(i - lo);
        assert(r[0] == cs@[i as int] && r[1] == cs@[i + 1]);
        if cs[i] == ':' && is_whitespace_char(cs[i + 1]) {
            return i;
        }
        assert(r.drop_first() =~= s.skip(i + 1 - lo));
        i = i + 1;
    }
    hi
}

fn report_finding_exec(
    text: &str,
    cs: &Vec<char>,
    rule: RuleId,
    file: (usize, usize),
    line: u32,
    msg: (usize, usize),
    tool: &str,
) -> (res: Finding)
    requires
        cs@ == text@,
        file.0 <= file.1 <= cs@.len(),
        msg.0 <= msg.1 <= cs@.len(),
    ensures
        res@ == report_finding(
            rule,
            cs@.subrange(file.0 as int, file.1 as int),
            line,
            cs@.subrange(msg.0 as int, msg.1 as int),
            tool@,
        ),
{
    Finding {
        rule,
        severity: Severity::Medium,
        confidence: Confidence::Heuristic,
        file: slice_string(text, cs, file.0, file.1),
        line,
        message: slice_string(text, cs, msg.0, msg.1),
        source_tool: String::from_str(tool),
        id: None,
        action: None,
    }
}

fn bracket_form_in(text: &str, cs: &Vec<char>, lo: usize, hi: usize, tool: &str) -> (res: Option<
    Finding,
>)
    requires
        cs@ == text@,
        lo <= hi <= cs@.len(),
    ensures
        opt_finding_view(res) == bracket_form(cs@.subrange(lo as int, hi as int), tool@),
{
    let ghost rest = cs@.subrange(lo as int, hi as int);
    let e = lead_in(cs, lo, hi, CharClass::CloseBracket, false);
    if e >= hi {
        return None;
    }
    assert(rest.skip(e - lo + 1) =~= cs@.subrange(e + 1, hi as int));
    let (a1, b1) = trim_in(cs, e + 1, hi);
    let ghost after = cs@.subrange(a1 as int, b1 as int);
    let fe = lead_in(cs, a1, b1, CharClass::ColonOrWhitespace, false);
    if fe >= b1 {
        return None;
    }
    assert(after.skip(fe - a1) =~= cs@.subrange(fe as int, b1 as int));
    assert(after.take(fe - a1) =~= cs@.subrange(a1 as int, fe as int));
    let (a2, b2) = trim_in(cs, fe, b1);
    let ghost r0 = cs@.subrange(a2 as int, b2 as int);
    let a3 = if a2 < b2 && cs[a2] == ':' {
        assert(r0[0] == cs@[a2 as int]);
        assert(r0.drop_first() =~= cs@.subrange(a2 + 1, b2 as int));
        a2 + 1
    } else {
        proof {
            if a2 < b2 {
                assert(r0[0] == cs@[a2 as int]);
            }
        }
        a2
    };
    let ghost r1 = cs@.subrange(a3 as int, b2 as int);
    let nd = lead_in(cs, a3, b2, CharClass::Digit, true);
    proof {
        lemma_lead_bound(r1, CharClass::Digit, true);
        assert(r1.take(nd - a3) =~= cs@.subrange(a3 as int, nd as int));
        assert(r1.skip(nd - a3) =~= cs@.subrange(nd as int, b2 as int));
        let dg = cs@.subrange(a3 as int, nd as int);
        assert forall|j: int| 0 <= j < dg.len() implies is_digit(#[trigger] dg[j]) by {
            assert(dg[j] == r1[j]);
        }
    }
    let line = line_number_in(cs, a3, nd);
    let (a4, b4) = trim_in(cs, nd, b2);
    Some(report_finding_exec(text, cs, RuleId::Other, (a1, fe), line, (a4, b4), tool))
}

fn label_form_in(
    text: &str,
    cs: &Vec<char>,
    lo: usize,
    hi: usize,
    tool: &str,
    auth_label: &Vec<char>,
) -> (res: Option<Finding>)
    requires
        cs@ == text@,
        lo <= hi <= cs@.len(),
        auth_label@ == "Auth / Permission Gate"@,
    ensures
        opt_finding_view(res) == label_form(cs@.subrange(lo as int, hi as int), tool@),
{
    let ghost body = cs@.subrange(lo as int, hi as int);
    let c = colon_sep_in(cs, lo, hi);
    if c >= hi {
        return None;
    }
    assert(body.skip(c - lo + 1) =~= cs@.subrange(c + 1, hi as int));
    assert(body.take(c - lo) =~= cs@.subrange(lo as int, c as int));
    let (a1, b1) = trim_in(cs, c + 1, hi);
    let ghost rest = cs@.subrange(a1 as int, b1 as int);
    let te = lead_in(cs, a1, b1, CharClass::Whitespace, false);
    assert(rest.take(te - a1) =~= cs@.subrange(a1 as int, te as int));
    assert(rest.skip(te - a1) =~= cs@.subrange(te as int, b1 as int));
    let ghost token = cs@.subrange(a1 as int, te as int);
    let k = lead_in(cs, a1, te, CharClass::Colon, false);
    if k >= te || k == a1 || k + 1 == te {
        return None;
    }
    assert(token.skip(k - a1 + 1) =~= cs@.subrange(k + 1, te as int));
    assert(token.take(k - a1) =~= cs@.subrange(a1 as int, k as int));
    let nd = lead_in(cs, k + 1, te, CharClass::Digit, true);
    proof {
        let dg = cs@.subrange(k + 1, te as int);
        lemma_lead_bound(dg, CharClass::Digit, true);
    }
    if nd != te {
        proof {
            let dg = cs@.subrange(k + 1, te as int);
            assert(!is_digit(dg[nd - k - 1]));
        }
        return None;
    }
    let line = line_number_in(cs, k + 1, te);
    let (a2, b2) = trim_in(cs, te, b1);
    let ghost m0 = cs@.subrange(a2 as int, b2 as int);
    let (a3, b3) = if a2 < b2 && (cs[a2] == '\u{2014}' || cs[a2] == '-') {
        assert(m0[0] == cs@[a2 as int]);
        assert(m0.drop_first() =~= cs@.subrange(a2 + 1, b2 as int));
        trim_in(cs, a2 + 1, b2)
    } else {
        proof {
            if a2 < b2 {
                assert(m0[0] == cs@[a2 as int]);
            }
        }
        (a2, b2)
    };
    let (la, lb) = trim_in(cs, lo, c);
    let rule = if equals_in(cs, la, lb, auth_label) {
        RuleId::AuthGate
    } else {
        RuleId::Other
    };
    Some(report_finding_exec(text, cs, rule, (a1, k), line, (a3, b3), tool))
}

fn parse_line_in(
    text: &str,
    cs: &Vec<char>,
    lo: usize,
    hi: usize,
    tool: &str,
    header: &Vec<char>,
    auth_label: &Vec<char>,
) -> (res: Option<Finding>)
    requires
        cs@ == text@,
        lo <= hi <= cs@.len(),
        header@ == "diff-risk"@,
        auth_label@ == "Auth / Permission Gate"@,
    ensures
        opt_finding_view(res) == parse_report_line(cs@.subrange(lo as int, hi as int), tool@),
{
    let (a, b) = trim_in(cs, lo, hi);
    let ghost t = cs@.subrange(a as int, b as int);
    if a == b {
        return None;
    }
    assert(t[0] == cs@[a as int]);
    if cs[a] == '#' || starts_with_in(cs, a, b, header) {
        return None;
    }
    let m = lead_in(cs, a, b, CharClass::WhitespaceOrMarker, true);
    let ghost body = cs@.subrange(m as int, b as int);
    assert(t.skip(m - a) =~= body);
    if m < b && cs[m] == '[' {
        assert(body[0] == cs@[m as int]);
        assert(body.drop_first() =~= cs@.subrange(m + 1, b as int));
        bracket_form_in(text, cs, m + 1, b, tool)
    } else {
        proof {
            if m < b {
                assert(body[0] == cs@[m as int]);
            }
        }
        label_form_in(text, cs, m, b, tool, auth_label)
    }
}

/// The findings that a diff-risk text report holds, in the order of its lines,
/// each attributed to `tool`.
pub fn parse_findings_from_text(text: &str, tool: &str) -> (res: Vec<Finding>)
    ensures
        views(res@) == report_findings(text@, tool@),
{
    let cs = chars_of(text);
    let header = chars_of("diff-risk");
    let auth_label = chars_of("Auth / Permission Gate");
    let mut out: Vec<Finding> = Vec::new();
    let mut pos: usize = 0;
    assert(cs@.skip(0) =~= cs@);
    loop
        invariant
            cs@ == text@,
            header@ == "diff-risk"@,
            auth_label@ == "Auth / Permission Gate"@,
            pos <= cs@.len(),
            views(out@) + report_findings(cs@.skip(pos as int), tool@) == report_findings(
                cs@,
                tool@,
            ),
        decreases cs@.len() - pos,
    {
        let ghost s = cs@.skip(pos as int);
        let ghost old_out = out@;
        assert(cs@.subrange(pos as int, cs@.len() as int) =~= s);
        let nl = lead_in(&cs, pos, cs.len(), CharClass::Newline, false);
        assert(s.take(nl - pos) =~= cs@.subrange(pos as int, nl as int));
        let f = parse_line_in(text, &cs, pos, nl, tool, &header, &auth_label);
        match f {
            Some(f) => {
                out.push(f);
            },
            None => {},
        }
        assert(views(out@) =~= views(old_out) + opt_seq(
            parse_report_line(s.take(nl - pos), tool@),
        ));
        if nl >= cs.len() {
            assert(report_findings(s, tool@) == opt_seq(parse_report_line(s.take(nl - pos), tool@)));
            return out;
        }
        assert(report_findings(s, tool@) == opt_seq(parse_report_line(s.take(nl - pos), tool@))
            + report_findings(s.skip(nl - pos + 1), tool@));
        assert(s.skip(nl - pos + 1) =~= cs@.skip(nl + 1));
        pos = nl + 1;
    }
}

} // verus!
