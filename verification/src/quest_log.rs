//! The quest log: chapters of tasks read from a Markdown plan, where
//! headings of level one to three open chapters and checkbox or numbered
//! list items are tasks.
use vstd::prelude::*;

use crate::paths::{join_path, parent, path_is_file, path_join, path_parent};
use crate::text::{
    chars_of, lines, lines_of, seqs_view, slice_chars, starts_with, starts_with_lit, string_from,
    string_of, trim, trim_chars, trim_start, trim_start_chars,
};

verus! {

/// One quest: its text and whether it is checked off.
#[derive(Clone, Debug, PartialEq, Eq)]
pub struct Task {
    pub description: String,
    pub is_completed: bool,
}

/// A heading of the plan and the tasks listed under it.
#[derive(Clone, Debug, PartialEq, Eq)]
pub struct Chapter {
    pub title: String,
    pub tasks: Vec<Task>,
}

pub open spec fn task_view(t: Task) -> (Seq<char>, bool) {
    (t.description@, t.is_completed)
}

pub open spec fn tasks_view(ts: Seq<Task>) -> Seq<(Seq<char>, bool)> {
    ts.map_values(|t: Task| task_view(t))
}

pub open spec fn chapter_view(c: Chapter) -> (Seq<char>, Seq<(Seq<char>, bool)>) {
    (c.title@, tasks_view(c.tasks@))
}

pub open spec fn chapters_view(cs: Seq<Chapter>) -> Seq<(Seq<char>, Seq<(Seq<char>, bool)>)> {
    cs.map_values(|c: Chapter| chapter_view(c))
}

/// Position of the first `c` in `s`, or -1.
pub open spec fn index_of_char(s: Seq<char>, c: char) -> int
    decreases s.len(),
{
    if s.len() == 0 {
        -1
    } else if s[0] == c {
        0
    } else {
        let r = index_of_char(s.drop_first(), c);
        if r < 0 {
            -1
        } else {
            r + 1
        }
    }
}

pub open spec fn all_ascii_digits(s: Seq<char>) -> bool {
    forall|i: int| 0 <= i < s.len() ==> '0' <= #[trigger] s[i] && s[i] <= '9'
}

/// `line` without an ordered-list number: when the text before its first
/// `.` is one or more ASCII digits, what follows that `.` with its leading
/// whitespace removed; else `line` itself.
pub open spec fn strip_ordered(line: Seq<char>) -> Seq<char> {
    let d = index_of_char(line, '.');
    if d <= 0 {
        line
    } else if all_ascii_digits(line.take(d)) {
        trim_start(line.skip(d + 1))
    } else {
        line
    }
}

/// The task that a trimmed line states, if it states one: a checkbox item
/// (`- [ ] `, `- [x] `, `- [X] `, `[ ] `, `[x] `, `[X] `), possibly after a
/// list number, or a numbered item, which is open.
pub open spec fn parse_task(trimmed: Seq<char>) -> Option<(Seq<char>, bool)> {
    let n = strip_ordered(trimmed);
    if starts_with(n, "- [ ] "@) {
        Some((trim(n.skip("- [ ] "@.len() as int)), false))
    } else if starts_with(n, "- [x] "@) {
        Some((trim(n.skip("- [x] "@.len() as int)), true))
    } else if starts_with(n, "- [X] "@) {
        Some((trim(n.skip("- [X] "@.len() as int)), true))
    } else if starts_with(n, "[ ] "@) {
        Some((trim(n.skip("[ ] "@.len() as int)), false))
    } else if starts_with(n, "[x] "@) {
        Some((trim(n.skip("[x] "@.len() as int)), true))
    } else if starts_with(n, "[X] "@) {
        Some((trim(n.skip("[X] "@.len() as int)), true))
    } else if n != trimmed && trim(n).len() > 0 {
        Some((trim(n), false))
    } else {
        None
    }
}

/// Number of `#` that begin `t`.
pub open spec fn heading_level(t: Seq<char>) -> nat
    decreases t.len(),
{
    if t.len() > 0 && t[0] == '#' {
        1 + heading_level(t.drop_first())
    } else {
        0
    }
}

pub open spec fn is_heading(t: Seq<char>) -> bool {
    t.len() > 0 && t[0] == '#'
}

/// The chapters closed so far and the chapter being filled.
pub type PlanState = (Seq<(Seq<char>, Seq<(Seq<char>, bool)>)>, Option<(Seq<char>, Seq<(Seq<char>, bool)>)>);

pub open spec fn close_current(st: PlanState) -> Seq<(Seq<char>, Seq<(Seq<char>, bool)>)> {
    match st.1 {
        Some(c) => st.0.push(c),
        None => st.0,
    }
}

/// What one line of the plan does: a heading of level three or less
/// closes the current chapter and opens one titled by the heading's text;
/// deeper headings are ignored; a task joins the current chapter, which
/// is opened as `Tasks` when there is none; other lines are ignored.
pub open spec fn plan_step(st: PlanState, line: Seq<char>) -> PlanState {
    let t = trim(line);
    if is_heading(t) {
        let lv = heading_level(t);
        if lv <= 3 {
            (close_current(st), Some((trim(t.skip(lv as int)), seq![])))
        } else {
            st
        }
    } else {
        match parse_task(t) {
            Some(task) => {
                let cur = match st.1 {
                    Some(c) => c,
                    None => ("Tasks"@, seq![]),
                };
                (st.0, Some((cur.0, cur.1.push(task))))
            },
            None => st,
        }
    }
}

pub open spec fn plan_fold(ls: Seq<Seq<char>>) -> PlanState
    decreases ls.len(),
{
    if ls.len() == 0 {
        (seq![], None)
    } else {
        plan_step(plan_fold(ls.drop_last()), ls.last())
    }
}

/// The chapters of the plan `content`.
pub open spec fn parse_plan(content: Seq<char>) -> Seq<(Seq<char>, Seq<(Seq<char>, bool)>)> {
    close_current(plan_fold(lines(content)))
}

fn index_of_char_exec(s: &Vec<char>, c: char) -> (r: Option<usize>)
    ensures
        match r {
            Some(i) => i < s.len() && index_of_char(s@, c) == i as int,
            None => index_of_char(s@, c) == -1,
        },
{
    let mut i: usize = 0;
    assert(s@.skip(0) =~= s@);
    while i < s.len()
        invariant
            i <= s.len(),
            forall|k: int| 0 <= k < i ==> s@[k] != c,
            index_of_char(s@, c) == if index_of_char(s@.skip(i as int), c) < 0 {
                -1
            } else {
                index_of_char(s@.skip(i as int), c) + i
            },
        decreases s.len() - i,
    {
        assert(s@.skip(i as int)[0] == s@[i as int]);
        if s[i] == c {
            return Some(i);
        }
        assert(s@.skip(i as int).drop_first() =~= s@.skip(i + 1));
        i = i + 1;
    }
    None
}

/// `line` without a leading ordered-list number (`1. `, `12.`).
pub fn strip_ordered_prefix(line: &str) -> (r: String)
    ensures
        r@ == strip_ordered(line@),
{
    let v = chars_of(line);
    string_of(&strip_ordered_chars(&v))
}

fn strip_ordered_chars(v: &Vec<char>) -> (r: Vec<char>)
    ensures
        r@ == strip_ordered(v@),
{
    assert(v@.subrange(0, v@.len() as int) =~= v@);
    match index_of_char_exec(v, '.') {
        None => slice_chars(v, 0, v.len()),
        Some(0) => {
            assert(v@.subrange(0, v@.len() as int) =~= v@);
            slice_chars(v, 0, v.len())
        },
        Some(d) => {
            let mut k: usize = 0;
            while k < d
                invariant
                    k <= d < v.len(),
                    index_of_char(v@, '.') == d as int,
                    forall|m: int| 0 <= m < k ==> '0' <= #[trigger] v@[m] && v@[m] <= '9',
                decreases d - k,
            {
                if !('0' <= v[k] && v[k] <= '9') {
                    assert(v@.take(d as int)[k as int] == v@[k as int]);
                    assert(!all_ascii_digits(v@.take(d as int)));
                    assert(v@.subrange(0, v@.len() as int) =~= v@);
                    return slice_chars(v, 0, v.len());
                }
                k = k + 1;
            }
            assert(all_ascii_digits(v@.take(d as int)));
            let rest = slice_chars(v, d + 1, v.len());
            assert(rest@ =~= v@.skip(d + 1));
            trim_start_chars(&rest)
        },
    }
}

fn task_from(rest: &Vec<char>, done: bool) -> (t: Task)
    ensures
        task_view(t) == (trim(rest@), done),
{
    Task { description: string_of(&trim_chars(rest)), is_completed: done }
}

fn checkbox_task(n: &Vec<char>, lit: &str, done: bool) -> (r: Option<Task>)
    ensures
        starts_with(n@, lit@) ==> (r matches Some(t) && task_view(t) == (
            trim(n@.skip(lit@.len() as int)),
            done,
        )),
        !starts_with(n@, lit@) ==> r is None,
{
    if starts_with_lit(n, lit) {
        let l = chars_of(lit);
        let rest = slice_chars(n, l.len(), n.len());
        assert(rest@ =~= n@.skip(lit@.len() as int));
        Some(task_from(&rest, done))
    } else {
        None
    }
}

pub open spec fn opt_task_view(o: Option<Task>) -> Option<(Seq<char>, bool)> {
    match o {
        Some(t) => Some(task_view(t)),
        None => None,
    }
}

fn parse_task_chars(trimmed: &Vec<char>) -> (r: Option<Task>)
    ensures
        opt_task_view(r) == parse_task(trimmed@),
{
    let n = strip_ordered_chars(trimmed);
    let c = checkbox_task(&n, "- [ ] ", false);
    if c.is_some() {
        return c;
    }
    let c = checkbox_task(&n, "- [x] ", true);
    if c.is_some() {
        return c;
    }
    let c = checkbox_task(&n, "- [X] ", true);
    if c.is_some() {
        return c;
    }
    let c = checkbox_task(&n, "[ ] ", false);
    if c.is_some() {
        return c;
    }
    let c = checkbox_task(&n, "[x] ", true);
    if c.is_some() {
        return c;
    }
    let c = checkbox_task(&n, "[X] ", true);
    if c.is_some() {
        return c;
    }
    let tn = trim_chars(&n);
    if !crate::text::chars_eq(&n, trimmed) && tn.len() > 0 {
        return Some(Task { description: string_of(&tn), is_completed: false });
    }
    None
}

/// The task that the trimmed line `trimmed` states, if any.
pub fn parse_task_line(trimmed: &str) -> (r: Option<Task>)
    ensures
        opt_task_view(r) == parse_task(trimmed@),
{
    let v = chars_of(trimmed);
    parse_task_chars(&v)
}

fn heading_level_exec(t: &Vec<char>) -> (k: usize)
    ensures
        k == heading_level(t@),
        k <= t.len(),
{
    let mut k: usize = 0;
    assert(t@.skip(0) =~= t@);
    while k < t.len() && t[k] == '#'
        invariant
            k <= t.len(),
            heading_level(t@) == k + heading_level(t@.skip(k as int)),
        decreases t.len() - k,
    {
        assert(t@.skip(k as int).drop_first() =~= t@.skip(k + 1));
        k = k + 1;
    }
    k
}

pub open spec fn current_view(has_current: bool, title: String, tasks: Seq<Task>) -> Option<
    (Seq<char>, Seq<(Seq<char>, bool)>),
> {
    if has_current {
        Some((title@, tasks_view(tasks)))
    } else {
        None
    }
}

/// A plan being read: the chapters closed so far and the one being filled.
struct PlanBuilder {
    chapters: Vec<Chapter>,
    has_current: bool,
    title: String,
    tasks: Vec<Task>,
}

impl PlanBuilder {
    spec fn state(&self) -> PlanState {
        (chapters_view(self.chapters@), current_view(self.has_current, self.title, self.tasks@))
    }

    fn close(&mut self)
        ensures
            chapters_view(final(self).chapters@) == close_current(old(self).state()),
            !final(self).has_current,
    {
        if self.has_current {
            let ghost before = self.state();
            let title = string_from(self.title.as_str());
            let mut tasks: Vec<Task> = Vec::new();
            std::mem::swap(&mut tasks, &mut self.tasks);
            self.chapters.push(Chapter { title, tasks });
            assert(chapters_view(self.chapters@) =~= before.0.push(before.1.unwrap()));
            self.has_current = false;
        }
    }

    fn step(&mut self, line: &Vec<char>)
        ensures
            final(self).state() == plan_step(old(self).state(), line@),
    {
        let t = trim_chars(line);
        if t.len() > 0 && t[0] == '#' {
            let level = heading_level_exec(&t);
            if level <= 3 {
                self.close();
                let rest = slice_chars(&t, level, t.len());
                assert(rest@ =~= t@.skip(level as int));
                self.title = string_of(&trim_chars(&rest));
                self.tasks = Vec::new();
                self.has_current = true;
                assert(tasks_view(self.tasks@) =~= Seq::<(Seq<char>, bool)>::empty());
            }
        } else {
            match parse_task_chars(&t) {
                Some(task) => {
                    if !self.has_current {
                        self.has_current = true;
                        self.title = string_from("Tasks");
                        self.tasks = Vec::new();
                        assert(tasks_view(self.tasks@) =~= Seq::<(Seq<char>, bool)>::empty());
                    }
                    let ghost old_tasks = tasks_view(self.tasks@);
                    self.tasks.push(task);
                    assert(tasks_view(self.tasks@) =~= old_tasks.push(task_view(task)));
                },
                None => {},
            }
        }
    }
}

/// The chapters of the plan text `content`.
pub fn parse_mor_plan_text(content: &str) -> (r: Vec<Chapter>)
    ensures
        chapters_view(r@) == parse_plan(content@),
{
    let v = chars_of(content);
    let ls = lines_of(&v);
    let ghost lv = seqs_view(ls@);
    let mut b = PlanBuilder {
        chapters: Vec::new(),
        has_current: false,
        title: string_from(""),
        tasks: Vec::new(),
    };
    assert(chapters_view(b.chapters@) =~= Seq::<(Seq<char>, Seq<(Seq<char>, bool)>)>::empty());
    let mut i: usize = 0;
    assert(lv.take(0) =~= Seq::<Seq<char>>::empty());
    while i < ls.len()
        invariant
            i <= ls.len(),
            lv == seqs_view(ls@),
            lv == lines(content@),
            b.state() == plan_fold(lv.take(i as int)),
        decreases ls.len() - i,
    {
        assert(lv.take(i + 1).drop_last() =~= lv.take(i as int));
        assert(lv.take(i + 1).last() == ls@[i as int]@);
        b.step(&ls[i]);
        i = i + 1;
    }
    assert(lv.take(ls.len() as int) =~= lv);
    b.close();
    b.chapters
}

/// The folder that holds the plan: `active_path` itself, or its parent
/// (`.` where it has none) when it names a file.
pub open spec fn workspace_root_of(active_path: Seq<char>, is_file: bool) -> Seq<char> {
    if is_file {
        match parent(active_path) {
            Some(p) => p,
            None => "."@,
        }
    } else {
        active_path
    }
}

/// The workspace folder for `active_path`, asking the file system whether
/// it names a file.
pub fn resolve_workspace_root(active_path: &str) -> (r: String)
    ensures
        r@ == workspace_root_of(active_path@, true) || r@ == workspace_root_of(active_path@, false),
{
    let is_file = path_is_file(active_path);
    workspace_root_for(active_path, is_file)
}

/// The workspace folder for `active_path` when `is_file` tells whether it
/// names a file.
pub fn workspace_root_for(active_path: &str, is_file: bool) -> (r: String)
    ensures
        r@ == workspace_root_of(active_path@, is_file),
{
    if is_file {
        match path_parent(active_path) {
            Some(p) => p,
            None => string_from("."),
        }
    } else {
        string_from(active_path)
    }
}

/// The plan file of a workspace.
pub fn plan_path(workspace_root: &str) -> (r: String)
    ensures
        r@ == join_path(workspace_root@, "MOR_PLAN.md"@),
{
    path_join(workspace_root, "MOR_PLAN.md")
}

// ---------------------------------------------------------------------------
// Laws
// ---------------------------------------------------------------------------

/// The tasks that the lines state, in order, headings left out.
pub open spec fn task_lines(ls: Seq<Seq<char>>) -> Seq<(Seq<char>, bool)>
    decreases ls.len(),
{
    if ls.len() == 0 {
        seq![]
    } else {
        let prev = task_lines(ls.drop_last());
        let t = trim(ls.last());
        if is_heading(t) {
            prev
        } else {
            match parse_task(t) {
                Some(k) => prev.push(k),
                None => prev,
            }
        }
    }
}

/// All tasks of the chapters, chapter after chapter.
pub open spec fn all_tasks(cs: Seq<(Seq<char>, Seq<(Seq<char>, bool)>)>) -> Seq<(Seq<char>, bool)>
    decreases cs.len(),
{
    if cs.len() == 0 {
        seq![]
    } else {
        all_tasks(cs.drop_last()) + cs.last().1
    }
}

pub open spec fn state_tasks(st: PlanState) -> Seq<(Seq<char>, bool)> {
    all_tasks(close_current(st))
}

proof fn lemma_all_tasks_push(cs: Seq<(Seq<char>, Seq<(Seq<char>, bool)>)>, c: (Seq<char>, Seq<(Seq<char>, bool)>))
    ensures
        all_tasks(cs.push(c)) == all_tasks(cs) + c.1,
{
    assert(cs.push(c).drop_last() =~= cs);
}

proof fn lemma_fold_tasks(ls: Seq<Seq<char>>)
    ensures
        state_tasks(plan_fold(ls)) == task_lines(ls),
    decreases ls.len(),
{
    if ls.len() > 0 {
        lemma_fold_tasks(ls.drop_last());
        let st = plan_fold(ls.drop_last());
        let t = trim(ls.last());
        if is_heading(t) {
            if heading_level(t) <= 3 {
                let c2: (Seq<char>, Seq<(Seq<char>, bool)>) = (trim(t.skip(heading_level(t) as int)), seq![]);
                lemma_all_tasks_push(close_current(st), c2);
                assert(all_tasks(close_current(st)) + c2.1 =~= all_tasks(close_current(st)));
            }
        } else {
            match parse_task(t) {
                Some(k) => {
                    let cur = match st.1 {
                        Some(c) => c,
                        None => ("Tasks"@, seq![]),
                    };
                    lemma_all_tasks_push(st.0, cur);
                    lemma_all_tasks_push(st.0, (cur.0, cur.1.push(k)));
                    if st.1 is None {
                        assert(all_tasks(st.0) + cur.1 =~= all_tasks(st.0));
                    }
                    assert(all_tasks(st.0) + cur.1.push(k) =~= (all_tasks(st.0) + cur.1).push(k));
                },
                None => {},
            }
        }
    }
}

/// Every task line of the plan lands in exactly one chapter, in the order
/// of the file: the chapters' tasks, read in order, are the plan's task
/// lines.
pub proof fn law_plan_keeps_every_task(content: Seq<char>)
    ensures
        all_tasks(parse_plan(content)) == task_lines(lines(content)),
{
    lemma_fold_tasks(lines(content));
}

proof fn lemma_index_of_char_bound(s: Seq<char>, c: char)
    ensures
        -1 <= index_of_char(s, c) < s.len(),
    decreases s.len(),
{
    if s.len() > 0 && s[0] != c {
        lemma_index_of_char_bound(s.drop_first(), c);
    }
}

/// A line that does not open with a digit keeps its text: only numbered
/// lines lose a list number.
proof fn lemma_strip_ordered_keeps(line: Seq<char>)
    requires
        line.len() > 0,
        !('0' <= line[0] && line[0] <= '9'),
    ensures
        strip_ordered(line) == line,
{
    let d = index_of_char(line, '.');
    lemma_index_of_char_bound(line, '.');
    if d > 0 {
        assert(line.take(d)[0] == line[0]);
    }
}

proof fn lemma_opens_with(p: Seq<char>, r: Seq<char>)
    ensures
        starts_with(p + r, p),
        (p + r).skip(p.len() as int) == r,
{
    assert((p + r).subrange(0, p.len() as int) =~= p);
    assert((p + r).skip(p.len() as int) =~= r);
}

proof fn lemma_differs_at(s: Seq<char>, q: Seq<char>, k: int)
    requires
        0 <= k < q.len(),
        k < s.len(),
        s[k] != q[k],
    ensures
        !starts_with(s, q),
{
    if starts_with(s, q) {
        assert(s.subrange(0, q.len() as int)[k] == s[k]);
    }
}

/// A checkbox item is done exactly when its box is checked: a line that
/// opens with `- [x] `, `- [X] `, `[x] ` or `[X] ` is a done task, one that
/// opens with `- [ ] ` or `[ ] ` an open task, in each case with the rest
/// of the line, trimmed, as its description.
pub proof fn law_checkbox_marks_completion(r: Seq<char>)
    ensures
        parse_task("- [ ] "@ + r) == Some((trim(r), false)),
        parse_task("- [x] "@ + r) == Some((trim(r), true)),
        parse_task("- [X] "@ + r) == Some((trim(r), true)),
        parse_task("[ ] "@ + r) == Some((trim(r), false)),
        parse_task("[x] "@ + r) == Some((trim(r), true)),
        parse_task("[X] "@ + r) == Some((trim(r), true)),
{
    reveal_strlit("- [ ] ");
    reveal_strlit("- [x] ");
    reveal_strlit("- [X] ");
    reveal_strlit("[ ] ");
    reveal_strlit("[x] ");
    reveal_strlit("[X] ");
    let a = "- [ ] "@ + r;
    let b = "- [x] "@ + r;
    let c = "- [X] "@ + r;
    let d = "[ ] "@ + r;
    let e = "[x] "@ + r;
    let f = "[X] "@ + r;
    lemma_strip_ordered_keeps(a);
    lemma_strip_ordered_keeps(b);
    lemma_strip_ordered_keeps(c);
    lemma_strip_ordered_keeps(d);
    lemma_strip_ordered_keeps(e);
    lemma_strip_ordered_keeps(f);
    lemma_opens_with("- [ ] "@, r);
    lemma_opens_with("- [x] "@, r);
    lemma_opens_with("- [X] "@, r);
    lemma_opens_with("[ ] "@, r);
    lemma_opens_with("[x] "@, r);
    lemma_opens_with("[X] "@, r);
    // Lines that open with `- [` differ from the other dash forms at the box.
    lemma_differs_at(b, "- [ ] "@, 3);
    lemma_differs_at(c, "- [ ] "@, 3);
    lemma_differs_at(c, "- [x] "@, 3);
    // Lines that open with `[` differ from every dash form at the start.
    lemma_differs_at(d, "- [ ] "@, 0);
    lemma_differs_at(d, "- [x] "@, 0);
    lemma_differs_at(d, "- [X] "@, 0);
    lemma_differs_at(e, "- [ ] "@, 0);
    lemma_differs_at(e, "- [x] "@, 0);
    lemma_differs_at(e, "- [X] "@, 0);
    lemma_differs_at(e, "[ ] "@, 1);
    lemma_differs_at(f, "- [ ] "@, 0);
    lemma_differs_at(f, "- [x] "@, 0);
    lemma_differs_at(f, "- [X] "@, 0);
    lemma_differs_at(f, "[ ] "@, 1);
    lemma_differs_at(f, "[x] "@, 1);
}

} // verus!
