//! The report of `--doctor`: a list of lines that pass, warn or fail, and what to do about them.
use vstd::prelude::*;

use crate::text;

verus! {

#[derive(Debug, Clone, Copy, PartialEq, Eq, Structural)]
pub enum Status {
    Pass,
    Warn,
    Fail,
}

/// What stands in front of a line.
pub open spec fn marker_text(s: Status) -> Seq<char> {
    match s {
        Status::Pass => "  ok  "@,
        Status::Warn => " warn "@,
        Status::Fail => " FAIL "@,
    }
}

impl Status {
    pub fn marker(&self) -> (res: &'static str)
        ensures
            res@ == marker_text(*self),
    {
        match self {
            Status::Pass => "  ok  ",
            Status::Warn => " warn ",
            Status::Fail => " FAIL ",
        }
    }
}

/// One line. What to do about it is shown only where it does not pass.
struct Check {
    name: String,
    status: Status,
    detail: String,
    fix: Option<String>,
}

/// A line with its texts as sequences.
#[verifier::ext_equal]
pub struct CheckView {
    pub name: Seq<char>,
    pub status: Status,
    pub detail: Seq<char>,
    pub fix: Option<Seq<char>>,
}

impl View for Check {
    type V = CheckView;

    closed spec fn view(&self) -> CheckView {
        CheckView {
            name: self.name@,
            status: self.status,
            detail: self.detail@,
            fix: match self.fix {
                Some(f) => Some(f@),
                None => None,
            },
        }
    }
}

/// A line that passes.
pub open spec fn passed(name: Seq<char>, detail: Seq<char>) -> CheckView {
    CheckView { name, status: Status::Pass, detail, fix: None }
}

/// A line that warns.
pub open spec fn warned(name: Seq<char>, detail: Seq<char>, fix: Seq<char>) -> CheckView {
    CheckView { name, status: Status::Warn, detail, fix: Some(fix) }
}

/// A line that fails.
pub open spec fn failed(name: Seq<char>, detail: Seq<char>, fix: Seq<char>) -> CheckView {
    CheckView { name, status: Status::Fail, detail, fix: Some(fix) }
}

/// How many lines fail.
pub open spec fn failure_count(r: Seq<CheckView>) -> nat
    decreases r.len(),
{
    if r.len() == 0 {
        0
    } else {
        failure_count(r.drop_last()) + (if r.last().status == Status::Fail {
            1nat
        } else {
            0nat
        })
    }
}

/// A line as it is printed.
pub open spec fn line_text(c: CheckView) -> Seq<char> {
    "["@ + marker_text(c.status) + "] "@ + text::padded(c.name, 22) + " "@ + c.detail + "\n"@
}

/// All lines as they are printed.
pub open spec fn lines_text(r: Seq<CheckView>) -> Seq<char>
    decreases r.len(),
{
    if r.len() == 0 {
        Seq::empty()
    } else {
        lines_text(r.drop_last()) + line_text(r.last())
    }
}

/// What to do about a line, where it does not pass.
pub open spec fn fix_text(c: CheckView) -> Seq<char> {
    if c.status == Status::Pass {
        Seq::empty()
    } else {
        match c.fix {
            Some(f) => "  "@ + c.name + ":\n    "@ + text::indented(f) + "\n\n"@,
            None => Seq::empty(),
        }
    }
}

/// What to do about all lines.
pub open spec fn fixes_text(r: Seq<CheckView>) -> Seq<char>
    decreases r.len(),
{
    if r.len() == 0 {
        Seq::empty()
    } else {
        fixes_text(r.drop_last()) + fix_text(r.last())
    }
}

/// Whether every line passes.
pub open spec fn all_pass(r: Seq<CheckView>) -> bool {
    forall|i: int| 0 <= i < r.len() ==> (#[trigger] r[i]).status == Status::Pass
}

/// The report as it is printed.
pub open spec fn rendered(r: Seq<CheckView>) -> Seq<char> {
    "\nPalmtop host diagnostics\n\n"@ + lines_text(r) + (if all_pass(r) {
        "\nEverything checks out. If the phone still shows nothing, the problem is between the two devices rather than on this machine -- run the daemon in the foreground (`palmtopd`) and watch its output while the phone connects.\n"@
    } else {
        "\nWhat to do:\n\n"@ + fixes_text(r)
    })
}

/// A report. The view is its lines, in order.
pub struct Report {
    checks: Vec<Check>,
}

impl View for Report {
    type V = Seq<CheckView>;

    closed spec fn view(&self) -> Seq<CheckView> {
        self.checks@.map_values(|c: Check| c@)
    }
}

impl Report {
    pub fn new() -> (res: Self)
        ensures
            res@ == Seq::<CheckView>::empty(),
    {
        let res = Self { checks: Vec::new() };
        assert(res@ =~= Seq::<CheckView>::empty());
        res
    }

    fn add_check(&mut self, name: &str, status: Status, detail: &str, fix: Option<String>)
        ensures
            final(self)@ == old(self)@.push(
                CheckView {
                    name: name@,
                    status,
                    detail: detail@,
                    fix: match fix {
                        Some(f) => Some(f@),
                        None => None,
                    },
                },
            ),
    {
        let check = Check { name: name.to_owned(), status, detail: detail.to_owned(), fix };
        let ghost added = check@;
        self.checks.push(check);
        assert(self@ =~= old(self)@.push(added));
    }

    pub fn pass(&mut self, name: &str, detail: &str)
        ensures
            final(self)@ == old(self)@.push(passed(name@, detail@)),
    {
        self.add_check(name, Status::Pass, detail, None);
    }

    pub fn warn(&mut self, name: &str, detail: &str, fix: &str)
        ensures
            final(self)@ == old(self)@.push(warned(name@, detail@, fix@)),
    {
        self.add_check(name, Status::Warn, detail, Some(fix.to_owned()));
    }

    pub fn fail(&mut self, name: &str, detail: &str, fix: &str)
        ensures
            final(self)@ == old(self)@.push(failed(name@, detail@, fix@)),
    {
        self.add_check(name, Status::Fail, detail, Some(fix.to_owned()));
    }

    pub fn failures(&self) -> (n: usize)
        ensures
            n == failure_count(self@),
    {
        let mut n: usize = 0;
        let mut i: usize = 0;
        while i < self.checks.len()
            invariant
                i <= self.checks.len(),
                n <= i,
                n == failure_count(self@.take(i as int)),
            decreases self.checks.len() - i,
        {
            assert(self@.take(i + 1).drop_last() =~= self@.take(i as int));
            assert(self@.take(i + 1).last() == self.checks@[i as int]@);
            if self.checks[i].status == Status::Fail {
                n = n + 1;
            }
            i = i + 1;
        }
        assert(self@.take(i as int) =~= self@);
        n
    }

    pub fn render(&self) -> (res: String)
        ensures
            res@ == rendered(self@),
    {
        let mut out = "\nPalmtop host diagnostics\n\n".to_owned();
        let ghost head = out@;
        let mut fixes = String::new();
        let mut healthy = true;
        let mut i: usize = 0;
        assert(out@ =~= head + lines_text(self@.take(0)));
        assert(fixes@ =~= fixes_text(self@.take(0)));
        while i < self.checks.len()
            invariant
                i <= self.checks.len(),
                out@ == head + lines_text(self@.take(i as int)),
                fixes@ == fixes_text(self@.take(i as int)),
                healthy == all_pass(self@.take(i as int)),
            decreases self.checks.len() - i,
        {
            let ghost r = self@.take(i + 1);
            let ghost lines_before = out@;
            let ghost fixes_before = fixes@;
            proof {
                assert(r.drop_last() =~= self@.take(i as int));
                assert(r.last() == self.checks@[i as int]@);
            }
            let c = &self.checks[i];
            out.append("[");
            out.append(c.status.marker());
            out.append("] ");
            text::push_padded(&mut out, c.name.as_str(), 22);
            out.append(" ");
            out.append(c.detail.as_str());
            out.append("\n");
            assert(out@ =~= lines_before + line_text(c@));
            if c.status != Status::Pass {
                if let Some(f) = &c.fix {
                    fixes.append("  ");
                    fixes.append(c.name.as_str());
                    fixes.append(":\n    ");
                    text::push_indented(&mut fixes, f.as_str());
                    fixes.append("\n\n");
                }
            }
            assert(fixes@ =~= fixes_before + fix_text(c@));
            proof {
                let before = self@.take(i as int);
                assert(lines_text(r) == lines_text(before) + line_text(c@));
                assert(out@ =~= head + lines_text(r));
                if healthy && c.status == Status::Pass {
                    assert forall|k: int| 0 <= k < r.len() implies (#[trigger] r[k]).status
                        == Status::Pass by {
                        if k < i {
                            assert(r[k] == before[k]);
                        }
                    }
                } else if healthy {
                    assert(r[i as int].status != Status::Pass);
                } else {
                    let k = choose|k: int|
                        0 <= k < before.len() && (#[trigger] before[k]).status != Status::Pass;
                    assert(r[k] == before[k]);
                }
            }
            healthy = healthy && c.status == Status::Pass;
            i = i + 1;
        }
        assert(self@.take(i as int) =~= self@);
        if healthy {
            out.append(
                "\nEverything checks out. If the phone still shows nothing, the problem is between the two devices rather than on this machine -- run the daemon in the foreground (`palmtopd`) and watch its output while the phone connects.\n",
            );
        } else {
            out.append("\nWhat to do:\n\n");
            out.append(fixes.as_str());
        }
        assert(out@ =~= rendered(self@));
        out
    }
}

impl Default for Report {
    fn default() -> (res: Self)
        ensures
            res@ == Seq::<CheckView>::empty(),
    {
        Self::new()
    }
}

/// A report without a failing line has no failures; each failing line counts once.
pub proof fn only_failing_lines_count(r: Seq<CheckView>, c: CheckView)
    ensures
        all_pass(r) ==> failure_count(r) == 0,
        failure_count(r.push(c)) == failure_count(r) + (if c.status == Status::Fail {
            1nat
        } else {
            0nat
        }),
    decreases r.len(),
{
    assert(r.push(c).drop_last() =~= r);
    if r.len() > 0 && all_pass(r) {
        assert(r[r.len() - 1].status == Status::Pass);
        assert(all_pass(r.drop_last())) by {
            assert forall|i: int| 0 <= i < r.drop_last().len() implies (#[trigger] r.drop_last()[i]).status
                == Status::Pass by {
                assert(r.drop_last()[i] == r[i]);
            }
        }
        only_failing_lines_count(r.drop_last(), c);
    }
}

// ---- what a report holds ----

/// What a report that asks for something says.
pub open spec fn asks() -> Seq<char> {
    "What to do"@
}

/// What a report that asks for nothing says.
pub open spec fn all_is_well() -> Seq<char> {
    "Everything checks out"@
}

/// A phrase that no line break, colon or frame of a line is part of, and with which nothing of what
/// is printed around the texts of a line begins.
spec fn is_mark(part: Seq<char>) -> bool {
    &&& text::is_phrase(part)
    &&& !part.contains('\n')
    &&& !part.contains(':')
    &&& part[0] == 'W' || part[0] == 'E'
}

/// Whether the texts of a line are free of a phrase. A name that fills its column is followed by a
/// single blank and the detail, so that a phrase could stand across the two.
pub open spec fn line_is_free_of(c: CheckView, part: Seq<char>) -> bool {
    &&& !text::holds(c.name, part)
    &&& !text::holds(c.detail, part)
    &&& c.name.len() >= 22 ==> !text::holds(c.name + " "@ + c.detail, part)
    &&& c.fix matches Some(f) ==> !text::holds(f, part)
}

proof fn lemma_marks()
    ensures
        is_mark(asks()),
        is_mark(all_is_well()),
        asks()[0] == 'W',
        all_is_well()[0] == 'E',
{
    reveal_strlit("What to do");
    reveal_strlit("Everything checks out");
}

proof fn lemma_line_text(c: CheckView, part: Seq<char>)
    requires
        is_mark(part),
        line_is_free_of(c, part),
    ensures
        !text::holds(line_text(c), part),
        line_text(c).len() > 0,
        line_text(c).last() == '\n',
{
    reveal_strlit("[");
    reveal_strlit("] ");
    reveal_strlit(" ");
    reveal_strlit("\n");
    reveal_strlit("  ok  ");
    reveal_strlit(" warn ");
    reveal_strlit(" FAIL ");
    let front = "["@ + marker_text(c.status) + "] "@;
    assert forall|i: int| 0 <= i < front.len() implies #[trigger] front[i] != part[0] by {
        assert(front.len() == 9);
        let m = marker_text(c.status);
        if 1 <= i < 7 {
            assert(front[i] == m[i - 1]);
            assert(m[0] == ' ' && m[5] == ' ');
        }
    }
    let body = text::padded(c.name, 22) + " "@ + c.detail;
    assert(line_text(c) =~= front + body + "\n"@);
    if c.name.len() < 22 {
        let gap = text::padded(c.name, 22).skip(c.name.len() as int) + " "@;
        assert(body =~= c.name + gap + c.detail);
        if text::holds(body, part) {
            text::lemma_holds_across_blanks(c.name, gap, c.detail, part);
        }
    } else {
        assert(text::padded(c.name, 22) =~= c.name);
    }
    text::lemma_holds_behind(front, body, part);
    text::lemma_holds_split(front + body, "\n"@, part);
    lemma_short(part, "\n"@);
}

/// A text without the character that a phrase begins with does not hold it.
proof fn lemma_short(part: Seq<char>, s: Seq<char>)
    requires
        is_mark(part),
        forall|i: int| 0 <= i < s.len() ==> #[trigger] s[i] != part[0],
    ensures
        !text::holds(s, part),
{
    if text::holds(s, part) {
        let i = choose|i: int| text::stands_at(s, i, part);
        text::lemma_stands_at(s, i, part);
        assert(s[i + 0] == part[0]);
    }
}

proof fn lemma_fix_text(c: CheckView, part: Seq<char>)
    requires
        is_mark(part),
        line_is_free_of(c, part),
    ensures
        !text::holds(fix_text(c), part),
        fix_text(c).len() > 0 ==> fix_text(c).last() == '\n',
{
    if c.status != Status::Pass && c.fix is Some {
        let f = c.fix.unwrap();
        reveal_strlit("  ");
        reveal_strlit(":\n    ");
        reveal_strlit("\n\n");
        let shown = text::indented(f);
        if text::holds(shown, part) {
            text::lemma_holds_indented(f, part);
        }
        let head = "  "@ + c.name;
        let tail = shown + "\n\n"@;
        assert(fix_text(c) =~= head + (":\n    "@ + tail));
        text::lemma_holds_behind("  "@, c.name, part);
        text::lemma_holds_split(head, ":\n    "@ + tail, part);
        text::lemma_holds_behind(":\n    "@, tail, part);
        text::lemma_holds_split(shown, "\n\n"@, part);
        lemma_short(part, "\n\n"@);
    } else {
        lemma_short(part, fix_text(c));
    }
}

/// Whether the texts of all lines are free of a phrase.
pub open spec fn is_free_of(r: Seq<CheckView>, part: Seq<char>) -> bool {
    forall|i: int| 0 <= i < r.len() ==> line_is_free_of(#[trigger] r[i], part)
}

proof fn lemma_texts(r: Seq<CheckView>, part: Seq<char>)
    requires
        is_mark(part),
        is_free_of(r, part),
    ensures
        !text::holds(lines_text(r), part),
        !text::holds(fixes_text(r), part),
        lines_text(r).len() > 0 ==> lines_text(r).last() == '\n',
        fixes_text(r).len() > 0 ==> fixes_text(r).last() == '\n',
    decreases r.len(),
{
    if r.len() == 0 {
        lemma_short(part, lines_text(r));
        lemma_short(part, fixes_text(r));
    } else {
        let before = r.drop_last();
        assert forall|i: int| 0 <= i < before.len() implies line_is_free_of(
            #[trigger] before[i],
            part,
        ) by {
            assert(before[i] == r[i]);
        }
        assert(r.last() == r[r.len() - 1]);
        lemma_texts(before, part);
        lemma_line_text(r.last(), part);
        lemma_fix_text(r.last(), part);
        text::lemma_holds_split(lines_text(before), line_text(r.last()), part);
        text::lemma_holds_split(fixes_text(before), fix_text(r.last()), part);
        if fix_text(r.last()).len() == 0 {
            assert(fixes_text(r) =~= fixes_text(before));
        }
    }
}

proof fn lemma_own_fix_is_there(c: CheckView, f: Seq<char>)
    requires
        c.status != Status::Pass,
        c.fix == Some(f),
    ensures
        text::holds(fix_text(c), text::indented(f)),
{
    let f = text::indented(f);
    let head = "  "@ + c.name + ":\n    "@;
    let end = "\n\n"@;
    assert(text::holds(f, f)) by {
        assert(f.subrange(0, f.len() as int) =~= f);
        assert(text::stands_at(f, 0, f));
    }
    text::lemma_holds_in_either(head, f, f);
    text::lemma_holds_in_either(head + f, end, f);
    assert(fix_text(c) == head + f + end);
}

proof fn lemma_fix_is_there(r: Seq<CheckView>, i: int, f: Seq<char>)
    requires
        0 <= i < r.len(),
        r[i].status != Status::Pass,
        r[i].fix == Some(f),
    ensures
        text::holds(fixes_text(r), text::indented(f)),
    decreases r.len(),
{
    let before = r.drop_last();
    if i < before.len() {
        assert(before[i] == r[i]);
        lemma_fix_is_there(before, i, f);
    } else {
        lemma_own_fix_is_there(r.last(), f);
    }
    text::lemma_holds_in_either(fixes_text(before), fix_text(r.last()), text::indented(f));
}

/// Where the line with number `i` begins in the report as it is printed.
pub open spec fn line_start(r: Seq<CheckView>, i: int) -> int {
    ("\nPalmtop host diagnostics\n\n"@ + lines_text(r.take(i))).len() as int
}

proof fn lemma_lines_in_order(r: Seq<CheckView>, i: int)
    requires
        0 <= i < r.len(),
    ensures
        lines_text(r.take(i + 1)) == lines_text(r.take(i)) + line_text(r[i]),
        lines_text(r.take(i + 1)).len() <= lines_text(r).len(),
        lines_text(r).take(lines_text(r.take(i + 1)).len() as int) == lines_text(r.take(i + 1)),
    decreases r.len(),
{
    let t = r.take(i + 1);
    assert(t.drop_last() =~= r.take(i));
    assert(t.last() == r[i]);
    if i + 1 == r.len() {
        assert(t =~= r);
        assert(lines_text(r).take(lines_text(r).len() as int) =~= lines_text(r));
    } else {
        let before = r.drop_last();
        lemma_lines_in_order(before, i);
        assert(before.take(i + 1) =~= t);
        let n = lines_text(t).len() as int;
        assert(lines_text(r).take(n) =~= lines_text(before).take(n));
    }
}

/// The lines of a report stand in it one behind the other, in the order in which they were added.
pub proof fn the_lines_stand_in_order(r: Seq<CheckView>, i: int)
    requires
        0 <= i < r.len(),
    ensures
        0 <= line_start(r, i) <= line_start(r, i + 1) <= rendered(r).len(),
        rendered(r).subrange(line_start(r, i), line_start(r, i + 1)) == line_text(r[i]),
{
    let head = "\nPalmtop host diagnostics\n\n"@;
    lemma_lines_in_order(r, i);
    let all = lines_text(r);
    let n = lines_text(r.take(i)).len() as int;
    let m = lines_text(r.take(i + 1)).len() as int;
    assert(rendered(r).subrange(line_start(r, i), line_start(r, i + 1)) =~= all.subrange(n, m));
    assert(all.subrange(n, m) =~= all.take(m).skip(n));
    assert((lines_text(r.take(i)) + line_text(r[i])).skip(n) =~= line_text(r[i]));
}

/// A report asks for something exactly where a line warns or fails, and says that all is well exactly
/// where none does, unless a text of a line says so itself. What is to be done about each line that
/// warns or fails is in it, indented where it has more than one line.
pub proof fn a_report_asks_only_where_something_is_wrong(r: Seq<CheckView>)
    requires
        is_free_of(r, asks()),
        is_free_of(r, all_is_well()),
    ensures
        text::holds(rendered(r), asks()) <==> !all_pass(r),
        text::holds(rendered(r), all_is_well()) <==> all_pass(r),
        forall|i: int|
            0 <= i < r.len() && (#[trigger] r[i]).status != Status::Pass ==> (r[i].fix matches Some(f)
                ==> text::holds(rendered(r), text::indented(f)) && (!f.contains('\n') ==> text::holds(
                rendered(r),
                f,
            ))),
{
    lemma_marks();
    lemma_texts(r, asks());
    lemma_texts(r, all_is_well());
    let head = "\nPalmtop host diagnostics\n\n"@;
    let body = head + lines_text(r);
    assert(head.len() == 27 && head.last() == '\n' && text::free_of(head, 'W', 27)
        && text::free_of(head, 'E', 27)) by {
        reveal_strlit("\nPalmtop host diagnostics\n\n");
        reveal_with_fuel(text::free_of, 28);
    }
    text::lemma_free_of(head, 'W', 27);
    text::lemma_free_of(head, 'E', 27);
    text::lemma_holds_behind(head, lines_text(r), asks());
    text::lemma_holds_behind(head, lines_text(r), all_is_well());
    assert(body.last() == '\n');
    if all_pass(r) {
        let end =
            "\nEverything checks out. If the phone still shows nothing, the problem is between the two devices rather than on this machine -- run the daemon in the foreground (`palmtopd`) and watch its output while the phone connects.\n"@;
        lemma_closing();
        text::lemma_holds_split(body, end, asks());
        text::lemma_holds_split(body, end, all_is_well());
    } else {
        let title = "\nWhat to do:\n\n"@;
        let fixes = fixes_text(r);
        let end = title + fixes;
        assert(title.len() == 14 && title.last() == '\n' && text::free_of(title, 'E', 14)
            && text::holds(title, asks())) by {
            reveal_strlit("\nWhat to do:\n\n");
            reveal_strlit("What to do");
            reveal_with_fuel(text::free_of, 15);
            assert(title.subrange(1, 11) =~= asks());
            assert(text::stands_at(title, 1, asks()));
        }
        text::lemma_free_of(title, 'E', 14);
        text::lemma_holds_in_either(title, fixes, asks());
        text::lemma_holds_behind(title, fixes, all_is_well());
        text::lemma_holds_split(body, end, asks());
        text::lemma_holds_split(body, end, all_is_well());
        assert(rendered(r) == body + end);
        assert forall|i: int|
            0 <= i < r.len() && (#[trigger] r[i]).status != Status::Pass implies (
        r[i].fix matches Some(f) ==> text::holds(rendered(r), text::indented(f)) && (!f.contains('\n')
            ==> text::holds(rendered(r), f))) by {
            if let Some(f) = r[i].fix {
                lemma_fix_is_there(r, i, f);
                if !f.contains('\n') {
                    text::lemma_indented_as_is(f);
                }
                text::lemma_holds_in_either(title, fixes, text::indented(f));
                text::lemma_holds_in_either(body, end, text::indented(f));
            }
        }
    }
}

proof fn lemma_closing()
    ensures
        ({
            let end =
                "\nEverything checks out. If the phone still shows nothing, the problem is between the two devices rather than on this machine -- run the daemon in the foreground (`palmtopd`) and watch its output while the phone connects.\n"@;
            &&& text::holds(end, all_is_well())
            &&& !text::holds(end, asks())
        }),
{
    let end =
        "\nEverything checks out. If the phone still shows nothing, the problem is between the two devices rather than on this machine -- run the daemon in the foreground (`palmtopd`) and watch its output while the phone connects.\n"@;
    reveal_strlit(
        "\nEverything checks out. If the phone still shows nothing, the problem is between the two devices rather than on this machine -- run the daemon in the foreground (`palmtopd`) and watch its output while the phone connects.\n",
    );
    lemma_marks();
    assert(text::holds(end, all_is_well())) by {
        reveal_strlit("Everything checks out");
        assert(end.subrange(1, 22) =~= all_is_well());
        assert(text::stands_at(end, 1, all_is_well()));
    }
    assert(end.len() == 221);
    assert(text::free_of(end, 'W', 221)) by {
        reveal_with_fuel(text::free_of, 32);
        assert(text::free_of(end, 'W', 30));
        assert(text::free_of(end, 'W', 60));
        assert(text::free_of(end, 'W', 90));
        assert(text::free_of(end, 'W', 120));
        assert(text::free_of(end, 'W', 150));
        assert(text::free_of(end, 'W', 180));
        assert(text::free_of(end, 'W', 210));
    }
    text::lemma_free_of(end, 'W', 221);
    lemma_short(asks(), end);
}

/// A line is added with the status that its kind has; only one that passes comes without advice.
pub proof fn lines_have_the_status_of_their_kind(
    name: Seq<char>,
    detail: Seq<char>,
    fix: Seq<char>,
)
    ensures
        passed(name, detail) == (CheckView { name, status: Status::Pass, detail, fix: None }),
        warned(name, detail, fix) == (CheckView {
            name,
            status: Status::Warn,
            detail,
            fix: Some(fix),
        }),
        failed(name, detail, fix) == (CheckView {
            name,
            status: Status::Fail,
            detail,
            fix: Some(fix),
        }),
{
}

/// Each line is printed with its status in brackets, its name in 22 columns and its detail, in the
/// order in which the lines were added.
pub proof fn lines_are_printed_in_order(r: Seq<CheckView>, c: CheckView)
    ensures
        lines_text(Seq::empty()).len() == 0,
        lines_text(r.push(c)) == lines_text(r) + line_text(c),
        line_text(c) == (match c.status {
            Status::Pass => "[  ok  ] "@,
            Status::Warn => "[ warn ] "@,
            Status::Fail => "[ FAIL ] "@,
        }) + text::padded(c.name, 22) + " "@ + c.detail + "\n"@,
{
    assert(r.push(c).drop_last() =~= r);
    reveal_strlit("[");
    reveal_strlit("] ");
    reveal_strlit("  ok  ");
    reveal_strlit(" warn ");
    reveal_strlit(" FAIL ");
    reveal_strlit("[  ok  ] ");
    reveal_strlit("[ warn ] ");
    reveal_strlit("[ FAIL ] ");
    let head = "["@ + marker_text(c.status) + "] "@;
    match c.status {
        Status::Pass => assert(head =~= "[  ok  ] "@),
        Status::Warn => assert(head =~= "[ warn ] "@),
        Status::Fail => assert(head =~= "[ FAIL ] "@),
    }
}

/// What to do is printed for each line that does not pass and says so, under its name and indented, in
/// the order of the lines; for the others nothing is.
pub proof fn advice_is_printed_for_what_does_not_pass(
    r: Seq<CheckView>,
    c: CheckView,
    fix: Seq<char>,
)
    ensures
        fixes_text(Seq::empty()).len() == 0,
        c.status == Status::Pass || c.fix is None ==> fixes_text(r.push(c)) == fixes_text(r),
        c.status != Status::Pass && c.fix == Some(fix) ==> fixes_text(r.push(c)) == fixes_text(r) + (
        "  "@ + c.name + ":\n    "@ + text::indented(fix) + "\n\n"@),
{
    assert(r.push(c).drop_last() =~= r);
    assert(fixes_text(r) + Seq::<char>::empty() =~= fixes_text(r));
}

/// A report begins with its title and its lines, and ends with what to do, or with that all is well
/// where every line passes.
pub proof fn a_report_ends_with_what_to_do(r: Seq<CheckView>)
    ensures
        (forall|i: int| 0 <= i < r.len() ==> (#[trigger] r[i]).status == Status::Pass) ==> rendered(r)
            == "\nPalmtop host diagnostics\n\n"@ + lines_text(r)
            + "\nEverything checks out. If the phone still shows nothing, the problem is between the two devices rather than on this machine -- run the daemon in the foreground (`palmtopd`) and watch its output while the phone connects.\n"@,
        (exists|i: int| 0 <= i < r.len() && (#[trigger] r[i]).status != Status::Pass) ==> rendered(r)
            == "\nPalmtop host diagnostics\n\n"@ + lines_text(r) + ("\nWhat to do:\n\n"@ + fixes_text(
            r,
        )),
{
}

/// The failures of two reports, one behind the other, add up.
pub proof fn failures_add_up(a: Seq<CheckView>, b: Seq<CheckView>)
    ensures
        failure_count(a + b) == failure_count(a) + failure_count(b),
    decreases b.len(),
{
    if b.len() == 0 {
        assert(a + b =~= a);
    } else {
        failures_add_up(a, b.drop_last());
        assert((a + b).drop_last() =~= a + b.drop_last());
    }
}

/// A report has no failures where none of its lines fails.
pub proof fn no_failures_mean_no_failing_line(r: Seq<CheckView>)
    ensures
        failure_count(r) == 0 <==> forall|i: int|
            0 <= i < r.len() ==> (#[trigger] r[i]).status != Status::Fail,
        failure_count(r) <= r.len(),
    decreases r.len(),
{
    if r.len() > 0 {
        let q = r.drop_last();
        no_failures_mean_no_failing_line(q);
        if failure_count(r) == 0 {
            assert forall|i: int| 0 <= i < r.len() implies (#[trigger] r[i]).status
                != Status::Fail by {
                if i < q.len() {
                    assert(q[i].status != Status::Fail);
                }
            }
        } else if r.last().status != Status::Fail {
            let i = choose|i: int| 0 <= i < q.len() && (#[trigger] q[i]).status == Status::Fail;
            assert(r[i].status == Status::Fail);
        } else {
            assert(r[r.len() - 1].status == Status::Fail);
        }
    }
}

} // verus!
