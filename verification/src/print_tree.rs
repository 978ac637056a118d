use vstd::prelude::*;
use vstd::string::*;

verus! {

/// The text that stands before every line printed at `level`: one
/// vertical bar and two spaces per level.
pub open spec fn level_prefix(level: nat) -> Seq<char>
    decreases level,
{
    if level == 0 {
        Seq::empty()
    } else {
        level_prefix((level - 1) as nat) + seq!['\u{2502}', ' ', ' ']
    }
}

/// The branch mark of an entry that has a sibling after it.
pub open spec fn branch_mark() -> Seq<char> {
    seq!['\u{251C}', '\u{2500}']
}

/// The branch mark of the last entry of a level.
pub open spec fn last_mark() -> Seq<char> {
    seq!['\u{2514}', '\u{2500}']
}


/// The first line of a tree with the given title.
pub open spec fn title_line(title: Seq<char>) -> Seq<char> {
    seq!['\u{250c}', ' '] + title
}

/// One printed line: the level prefix, a mark, a space and the text.
pub open spec fn tree_line(level: int, mark: Seq<char>, text: Seq<char>) -> Seq<char> {
    level_prefix(level as nat) + mark + seq![' '] + text
}

/// What a `PrintTree` is: its depth, the item waiting to be printed, and
/// every line printed so far and not yet handed out.
pub struct PrintTreeState {
    pub level: int,
    pub queued: Option<Seq<char>>,
    pub output: Seq<Seq<char>>,
}

/// The state of a tree just created with `title`.
pub open spec fn started(title: Seq<char>) -> PrintTreeState {
    PrintTreeState { level: 1, queued: None, output: seq![title_line(title)] }
}

/// Prints the queued item, if there is one, with `mark`.
pub open spec fn flushed(s: PrintTreeState, mark: Seq<char>) -> PrintTreeState {
    match s.queued {
        Some(item) => PrintTreeState {
            level: s.level,
            queued: None,
            output: s.output.push(tree_line(s.level, mark, item)),
        },
        None => s,
    }
}

/// The state after descending one level under `title`.
pub open spec fn after_new_level(s: PrintTreeState, title: Seq<char>) -> PrintTreeState {
    let f = flushed(s, branch_mark());
    PrintTreeState {
        level: f.level + 1,
        queued: None,
        output: f.output.push(tree_line(f.level, branch_mark(), title)),
    }
}

/// The state after ascending one level.
pub open spec fn after_end_level(s: PrintTreeState) -> PrintTreeState {
    let f = flushed(s, last_mark());
    PrintTreeState { level: f.level - 1, ..f }
}

/// The state after adding an item to the current level.
pub open spec fn after_add_item(s: PrintTreeState, text: Seq<char>) -> PrintTreeState {
    let f = flushed(s, branch_mark());
    PrintTreeState { queued: Some(text), ..f }
}

/// The state after the tree is finished.
pub open spec fn after_finish(s: PrintTreeState) -> PrintTreeState {
    flushed(s, last_mark())
}

/// One call on a tree.
pub enum TreeOp {
    NewLevel(Seq<char>),
    EndLevel,
    AddItem(Seq<char>),
}

pub open spec fn apply_op(s: PrintTreeState, op: TreeOp) -> PrintTreeState {
    match op {
        TreeOp::NewLevel(title) => after_new_level(s, title),
        TreeOp::EndLevel => after_end_level(s),
        TreeOp::AddItem(text) => after_add_item(s, text),
    }
}

/// The state after the calls `ops`, in order.
pub open spec fn apply_ops(s: PrintTreeState, ops: Seq<TreeOp>) -> PrintTreeState
    decreases ops.len(),
{
    if ops.len() == 0 {
        s
    } else {
        apply_op(apply_ops(s, ops.drop_last()), ops.last())
    }
}

/// How many calls of `ops` print a line of their own argument.
pub open spec fn count_printing(ops: Seq<TreeOp>) -> int
    decreases ops.len(),
{
    if ops.len() == 0 {
        0
    } else {
        count_printing(ops.drop_last()) + match ops.last() {
            TreeOp::EndLevel => 0int,
            _ => 1int,
        }
    }
}

/// The change of depth over the calls `ops`.
pub open spec fn depth_change(ops: Seq<TreeOp>) -> int
    decreases ops.len(),
{
    if ops.len() == 0 {
        0
    } else {
        depth_change(ops.drop_last()) + match ops.last() {
            TreeOp::NewLevel(_) => 1int,
            TreeOp::EndLevel => -1int,
            TreeOp::AddItem(_) => 0int,
        }
    }
}


/// Closing a level right after opening it returns the tree to its depth,
/// with the title printed once under the branch mark and nothing queued.
pub proof fn lemma_end_level_undoes_new_level(s: PrintTreeState, title: Seq<char>)
    ensures
        after_end_level(after_new_level(s, title)) == (PrintTreeState {
            level: s.level,
            queued: None,
            output: flushed(s, branch_mark()).output.push(tree_line(s.level, branch_mark(), title)),
        }),
{
}

/// An item followed by another item at the same level is printed with the
/// branch mark, and the second one waits in the queue.
pub proof fn lemma_item_before_sibling(s: PrintTreeState, a: Seq<char>, b: Seq<char>)
    ensures
        after_add_item(after_add_item(s, a), b) == (PrintTreeState {
            level: s.level,
            queued: Some(b),
            output: flushed(s, branch_mark()).output.push(tree_line(s.level, branch_mark(), a)),
        }),
{
}

/// The last item of a level is printed with the closing mark when the level ends.
pub proof fn lemma_last_item_of_level(s: PrintTreeState, a: Seq<char>)
    ensures
        after_end_level(after_add_item(s, a)) == (PrintTreeState {
            level: s.level - 1,
            queued: None,
            output: flushed(s, branch_mark()).output.push(tree_line(s.level, last_mark(), a)),
        }),
{
}

/// Lines once printed are never changed or taken back by later calls.
pub proof fn lemma_output_only_grows(s: PrintTreeState, ops: Seq<TreeOp>)
    ensures
        apply_ops(s, ops).output.len() >= s.output.len(),
        apply_ops(s, ops).output.subrange(0, s.output.len() as int) == s.output,
    decreases ops.len(),
{
    if ops.len() > 0 {
        lemma_output_only_grows(s, ops.drop_last());
        let mid = apply_ops(s, ops.drop_last());
        assert(mid.output.subrange(0, s.output.len() as int) == s.output);
        let f = apply_ops(s, ops).output;
        assert(f.subrange(0, mid.output.len() as int) == mid.output);
        assert(f.subrange(0, s.output.len() as int) =~= s.output);
    }
}

/// The depth of the tree changes by one for each level opened or closed.
pub proof fn lemma_depth_after_ops(s: PrintTreeState, ops: Seq<TreeOp>)
    ensures
        apply_ops(s, ops).level == s.level + depth_change(ops),
    decreases ops.len(),
{
    if ops.len() > 0 {
        lemma_depth_after_ops(s, ops.drop_last());
    }
}

/// Every title and every item handed to the tree is printed exactly once
/// by the time the tree is finished: the number of lines grows by one per
/// title, one per item, and one for an item queued before the calls.
pub proof fn lemma_every_entry_printed_once(s: PrintTreeState, ops: Seq<TreeOp>)
    ensures
        after_finish(apply_ops(s, ops)).queued is None,
        after_finish(apply_ops(s, ops)).output.len() == s.output.len()
            + (if s.queued is Some { 1int } else { 0int }) + count_printing(ops),
    decreases ops.len(),
{
    if ops.len() > 0 {
        lemma_every_entry_printed_once(s, ops.drop_last());
        lemma_pending_after_ops(s, ops.drop_last());
    }
}

/// The number of lines printed plus the item still queued, counted over calls.
proof fn lemma_pending_after_ops(s: PrintTreeState, ops: Seq<TreeOp>)
    ensures
        apply_ops(s, ops).output.len() + (if apply_ops(s, ops).queued is Some { 1int } else { 0int })
            == s.output.len() + (if s.queued is Some { 1int } else { 0int }) + count_printing(ops),
    decreases ops.len(),
{
    if ops.len() > 0 {
        lemma_pending_after_ops(s, ops.drop_last());
    }
}

/// The texts handed to the tree by `ops`, in call order: the title of each
/// level opened and each item added.
pub open spec fn entries(ops: Seq<TreeOp>) -> Seq<Seq<char>>
    decreases ops.len(),
{
    if ops.len() == 0 {
        Seq::empty()
    } else {
        entries(ops.drop_last()) + match ops.last() {
            TreeOp::NewLevel(title) => seq![title],
            TreeOp::AddItem(text) => seq![text],
            TreeOp::EndLevel => Seq::empty(),
        }
    }
}

/// `line` ends with `text`.
pub open spec fn ends_with(line: Seq<char>, text: Seq<char>) -> bool {
    text.len() <= line.len() && line.subrange(line.len() - text.len(), line.len() as int) == text
}

/// The prefix of a line printed at depth `n` is a vertical bar followed by
/// two spaces, repeated `n` times: it has length `3 * n`, and its characters
/// at `3 * i`, `3 * i + 1` and `3 * i + 2` are the bar and two spaces for
/// every level `i` below `n`.
pub proof fn lemma_level_prefix_repeats_bar(n: nat)
    ensures
        level_prefix(n).len() == 3 * n,
        forall|i: int|
            0 <= i < n ==> {
                &&& #[trigger] level_prefix(n)[3 * i] == '\u{2502}'
                &&& level_prefix(n)[3 * i + 1] == ' '
                &&& level_prefix(n)[3 * i + 2] == ' '
            },
    decreases n,
{
    if n > 0 {
        lemma_level_prefix_repeats_bar((n - 1) as nat);
        let p = level_prefix((n - 1) as nat);
        assert forall|i: int| 0 <= i < n implies {
            &&& #[trigger] level_prefix(n)[3 * i] == '\u{2502}'
            &&& level_prefix(n)[3 * i + 1] == ' '
            &&& level_prefix(n)[3 * i + 2] == ' '
        } by {
            if i < n - 1 {
                assert(level_prefix(n)[3 * i] == p[3 * i]);
                assert(level_prefix(n)[3 * i + 1] == p[3 * i + 1]);
                assert(level_prefix(n)[3 * i + 2] == p[3 * i + 2]);
            }
        }
    }
}

/// A line printed at depth `n` starts with the prefix of depth `n`, then
/// the mark, a space and the text; in particular, at every level below `n`
/// it shows a vertical bar.
pub proof fn lemma_tree_line_layout(n: nat, mark: Seq<char>, text: Seq<char>)
    ensures
        tree_line(n as int, mark, text).len() == 3 * n + mark.len() + 1 + text.len(),
        tree_line(n as int, mark, text).subrange(3 * n as int, (3 * n + mark.len()) as int) == mark,
        tree_line(n as int, mark, text)[(3 * n + mark.len()) as int] == ' ',
        forall|i: int| 0 <= i < n ==> #[trigger] tree_line(n as int, mark, text)[3 * i] == '\u{2502}',
{
    lemma_level_prefix_repeats_bar(n);
    let line = tree_line(n as int, mark, text);
    assert(line.subrange(3 * n as int, (3 * n + mark.len()) as int) =~= mark);
    assert forall|i: int| 0 <= i < n implies #[trigger] line[3 * i] == '\u{2502}' by {
        assert(line[3 * i] == level_prefix(n)[3 * i]);
    }
}

/// The marks a tree prints, character by character, on a tree at depth
/// `s.level` with nothing queued: a level title and an item followed by a
/// sibling get the mid-branch mark "├─"; the last item of a level, and an
/// item still queued when the tree is finished, get the branch-ending mark
/// "└─"; each mark follows the bars of the depth and is followed by a space
/// and the text. The first line of a tree starts with "┌ ".
pub proof fn lemma_printed_marks(s: PrintTreeState, title: Seq<char>, a: Seq<char>, b: Seq<char>)
    requires
        s.level >= 0,
        s.queued is None,
    ensures
        ({
            let l = 3 * s.level;
            let mid = after_add_item(after_add_item(s, a), b).output.last();
            let lvl = after_new_level(s, title).output.last();
            let end = after_end_level(after_add_item(s, a)).output.last();
            let fin = after_finish(after_add_item(s, a)).output.last();
            &&& mid[l] == '\u{251C}' && mid[l + 1] == '\u{2500}' && mid[l + 2] == ' '
            &&& lvl[l] == '\u{251C}' && lvl[l + 1] == '\u{2500}' && lvl[l + 2] == ' '
            &&& end[l] == '\u{2514}' && end[l + 1] == '\u{2500}' && end[l + 2] == ' '
            &&& fin[l] == '\u{2514}' && fin[l + 1] == '\u{2500}' && fin[l + 2] == ' '
            &&& mid.subrange(l + 3, mid.len() as int) == a
            &&& lvl.subrange(l + 3, lvl.len() as int) == title
            &&& end.subrange(l + 3, end.len() as int) == a
            &&& fin.subrange(l + 3, fin.len() as int) == a
        }),
        title_line(title)[0] == '\u{250c}',
        title_line(title)[1] == ' ',
        title_line(title).subrange(2, title_line(title).len() as int) == title,
{
    let n = s.level as nat;
    lemma_level_prefix_repeats_bar(n);
    let l = 3 * s.level;
    let mid = tree_line(s.level, branch_mark(), a);
    let lvl = tree_line(s.level, branch_mark(), title);
    let end = tree_line(s.level, last_mark(), a);
    assert(mid[l] == branch_mark()[0]);
    assert(mid[l + 1] == branch_mark()[1]);
    assert(lvl[l] == branch_mark()[0]);
    assert(lvl[l + 1] == branch_mark()[1]);
    assert(end[l] == last_mark()[0]);
    assert(end[l + 1] == last_mark()[1]);
    assert(mid.subrange(l + 3, mid.len() as int) =~= a);
    assert(lvl.subrange(l + 3, lvl.len() as int) =~= title);
    assert(end.subrange(l + 3, end.len() as int) =~= a);
    assert(title_line(title).subrange(2, title_line(title).len() as int) =~= title);
}

proof fn lemma_tree_line_ends_with(level: int, mark: Seq<char>, text: Seq<char>)
    ensures
        ends_with(tree_line(level, mark, text), text),
{
    let line = tree_line(level, mark, text);
    assert(line.subrange(line.len() - text.len(), line.len() as int) =~= text);
}

/// After the calls `ops` on a tree with nothing queued, the lines printed
/// since are the entries handed to it, in order, all but a last item that
/// is still queued.
proof fn lemma_lines_follow_entries(s: PrintTreeState, ops: Seq<TreeOp>)
    requires
        s.queued is None,
    ensures
        ({
            let a = apply_ops(s, ops);
            let n = entries(ops).len();
            let printed = n - (if a.queued is Some { 1int } else { 0int });
            &&& a.output.len() == s.output.len() + printed
            &&& a.output.subrange(0, s.output.len() as int) == s.output
            &&& forall|j: int|
                0 <= j < printed ==> ends_with(
                    #[trigger] a.output[s.output.len() + j],
                    entries(ops)[j],
                )
            &&& a.queued is Some ==> n > 0 && a.queued->0 == entries(ops)[n - 1]
        }),
    decreases ops.len(),
{
    if ops.len() > 0 {
        let prev = ops.drop_last();
        lemma_lines_follow_entries(s, prev);
        lemma_output_only_grows(s, ops);
        let a0 = apply_ops(s, prev);
        let n0 = entries(prev).len();
        let printed0 = n0 - (if a0.queued is Some { 1int } else { 0int });
        let a = apply_ops(s, ops);
        let es = entries(ops);
        assert(forall|j: int| 0 <= j < n0 ==> es[j] == entries(prev)[j]);
        let f = match ops.last() {
            TreeOp::EndLevel => flushed(a0, last_mark()),
            _ => flushed(a0, branch_mark()),
        };
        let mark = match ops.last() {
            TreeOp::EndLevel => last_mark(),
            _ => branch_mark(),
        };
        if a0.queued is Some {
            lemma_tree_line_ends_with(a0.level, mark, a0.queued->0);
        }
        // After flushing, every entry before this call is printed.
        assert(f.output.len() == s.output.len() + n0);
        assert forall|j: int| 0 <= j < n0 implies ends_with(
            #[trigger] f.output[s.output.len() + j],
            entries(prev)[j],
        ) by {
            if j < printed0 {
                assert(f.output[s.output.len() + j] == a0.output[s.output.len() + j]);
            }
        }
        match ops.last() {
            TreeOp::NewLevel(title) => {
                lemma_tree_line_ends_with(f.level, branch_mark(), title);
                assert(a.output == f.output.push(tree_line(f.level, branch_mark(), title)));
                assert forall|j: int| 0 <= j < n0 + 1 implies ends_with(
                    #[trigger] a.output[s.output.len() + j],
                    es[j],
                ) by {
                    if j < n0 {
                        assert(a.output[s.output.len() + j] == f.output[s.output.len() + j]);
                    }
                }
            },
            TreeOp::AddItem(text) => {
                assert(a.output == f.output);
                assert forall|j: int| 0 <= j < n0 implies ends_with(
                    #[trigger] a.output[s.output.len() + j],
                    es[j],
                ) by {
                    assert(a.output[s.output.len() + j] == f.output[s.output.len() + j]);
                }
            },
            TreeOp::EndLevel => {
                assert(a.output == f.output);
                assert forall|j: int| 0 <= j < n0 implies ends_with(
                    #[trigger] a.output[s.output.len() + j],
                    es[j],
                ) by {
                    assert(a.output[s.output.len() + j] == f.output[s.output.len() + j]);
                }
            },
        }
    }
}

/// Each title and each item handed to a tree with nothing queued ends
/// exactly one of the lines printed by the time the tree is finished, and
/// these lines come in call order, after the lines printed before.
pub proof fn lemma_entries_printed_in_order(s: PrintTreeState, ops: Seq<TreeOp>)
    requires
        s.queued is None,
    ensures
        after_finish(apply_ops(s, ops)).output.len() == s.output.len() + entries(ops).len(),
        after_finish(apply_ops(s, ops)).output.subrange(0, s.output.len() as int) == s.output,
        forall|j: int|
            0 <= j < entries(ops).len() ==> ends_with(
                #[trigger] after_finish(apply_ops(s, ops)).output[s.output.len() + j],
                entries(ops)[j],
            ),
{
    lemma_lines_follow_entries(s, ops);
    let a = apply_ops(s, ops);
    let r = after_finish(a);
    let n = entries(ops).len();
    if a.queued is Some {
        lemma_tree_line_ends_with(a.level, last_mark(), a.queued->0);
        assert(r.output == a.output.push(tree_line(a.level, last_mark(), a.queued->0)));
        assert forall|j: int| 0 <= j < n implies ends_with(
            #[trigger] r.output[s.output.len() + j],
            entries(ops)[j],
        ) by {
            if j < n - 1 {
                assert(r.output[s.output.len() + j] == a.output[s.output.len() + j]);
            }
        }
        assert(r.output.subrange(0, s.output.len() as int) =~= a.output.subrange(
            0,
            s.output.len() as int,
        ));
    }
}

/// The calls `ops` keep the depth within a `u32`: a level is opened only
/// below the largest depth and closed only above depth zero.
pub open spec fn depth_respected(s: PrintTreeState, ops: Seq<TreeOp>) -> bool
    decreases ops.len(),
{
    if ops.len() == 0 {
        true
    } else {
        &&& depth_respected(s, ops.drop_last())
        &&& match ops.last() {
            TreeOp::NewLevel(_) => apply_ops(s, ops.drop_last()).level < u32::MAX,
            TreeOp::EndLevel => apply_ops(s, ops.drop_last()).level > 0,
            TreeOp::AddItem(_) => true,
        }
    }
}

/// A tree started with a title has depth 1 plus the levels opened minus the
/// levels closed since, and calls that respect the depth bounds (as the
/// `requires` of `new_level` and `end_level` ask) keep it within 0 and
/// `u32::MAX`: it never underflows.
pub proof fn lemma_depth_never_underflows(title: Seq<char>, ops: Seq<TreeOp>)
    requires
        depth_respected(started(title), ops),
    ensures
        apply_ops(started(title), ops).level == 1 + depth_change(ops),
        0 <= apply_ops(started(title), ops).level <= u32::MAX,
    decreases ops.len(),
{
    lemma_depth_after_ops(started(title), ops);
    if ops.len() > 0 {
        lemma_depth_never_underflows(title, ops.drop_last());
    }
}

/// A struct that makes it easier to print out a pretty tree of data, which
/// can be visually scanned more easily.
///
/// The lines that the tree prints are collected in order; `take_output`
/// hands them to whoever writes them out.
pub struct PrintTree {
    /// The current level of recursion.
    level: u32,
    /// An item which is queued up, so that we can determine if we need
    /// a mid-tree prefix or a branch ending prefix.
    queued_item: Option<String>,
    /// The lines printed so far and not yet handed out.
    output: Vec<String>,
}

pub open spec fn string_views(v: Seq<String>) -> Seq<Seq<char>> {
    v.map_values(|s: String| s@)
}

impl View for PrintTree {
    type V = PrintTreeState;

    closed spec fn view(&self) -> PrintTreeState {
        PrintTreeState {
            level: self.level as int,
            queued: match self.queued_item {
                Some(s) => Some(s@),
                None => None,
            },
            output: string_views(self.output@),
        }
    }
}

/// A trait that makes it easy to describe a pretty tree of data,
/// regardless of the printing destination, to either print it
/// directly to stdout, or serialize it as in the debugger
pub trait PrintTreePrinter {
    /// Whether one more level can be opened.
    open spec fn can_descend(&self) -> bool {
        true
    }

    /// Whether there is an open level to close.
    open spec fn can_ascend(&self) -> bool {
        true
    }

    fn new_level(&mut self, title: String)
        requires
            old(self).can_descend(),
    ;

    fn end_level(&mut self)
        requires
            old(self).can_ascend(),
    ;

    fn add_item(&mut self, text: String);
}

impl PrintTree {
    /// Starts a tree whose first line holds `title`.
    pub fn new(title: &str) -> (res: PrintTree)
        ensures
            res@ == started(title@),
    {
        let mut line = String::new();
        proof {
            reveal_strlit("\u{250c} ");
        }
        assert("\u{250c} "@ =~= seq!['\u{250c}', ' ']);
        line.append("\u{250c} ");
        line.append(title);
        let mut output: Vec<String> = Vec::new();
        output.push(line);
        let res = PrintTree { level: 1, queued_item: None, output };
        assert(res@.output =~= started(title@).output);
        res
    }

    /// The current depth of the tree.
    pub fn level(&self) -> (res: u32)
        ensures
            res as int == self@.level,
    {
        self.level
    }

    fn print_level_prefix(&self) -> (res: String)
        ensures
            res@ == level_prefix(self.level as nat),
    {
        let mut res = String::new();
        let mut i: u32 = 0;
        while i < self.level
            invariant
                i <= self.level,
                res@ == level_prefix(i as nat),
            decreases self.level - i,
        {
            proof {
                reveal_strlit("\u{2502}  ");
            }
            assert("\u{2502}  "@ =~= seq!['\u{2502}', ' ', ' ']);
            res.append("\u{2502}  ");
            i = i + 1;
        }
        res
    }

    /// Appends one printed line: the level prefix, `mark`, a space and `text`.
    fn print_line(&mut self, mark: &str, text: &str)
        ensures
            final(self)@ == (PrintTreeState {
                output: old(self)@.output.push(tree_line(old(self)@.level, mark@, text@)),
                ..old(self)@
            }),
    {
        let mut line = self.print_level_prefix();
        line.append(mark);
        proof {
            reveal_strlit(" ");
        }
        assert(" "@ =~= seq![' ']);
        line.append(" ");
        line.append(text);
        let ghost before = self.output@;
        self.output.push(line);
        assert(string_views(self.output@) =~= string_views(before).push(line@));
    }

    fn flush_queued_item(&mut self, mark: &str)
        ensures
            final(self)@ == flushed(old(self)@, mark@),
    {
        if let Some(queued_item) = self.queued_item.take() {
            self.print_line(mark, queued_item.as_str());
        }
    }

    /// Prints the item still queued, which ends its branch, with the
    /// branch-ending mark; call it when the tree is done with.
    pub fn finish(&mut self)
        ensures
            final(self)@ == after_finish(old(self)@),
    {
        proof {
            reveal_strlit("\u{2514}\u{2500}");
        }
        assert("\u{2514}\u{2500}"@ =~= last_mark());
        self.flush_queued_item("\u{2514}\u{2500}");
    }

    /// Hands out the lines printed so far, in order, and forgets them.
    pub fn take_output(&mut self) -> (res: Vec<String>)
        ensures
            string_views(res@) == old(self)@.output,
            final(self)@ == (PrintTreeState { output: Seq::empty(), ..old(self)@ }),
    {
        let mut res: Vec<String> = Vec::new();
        std::mem::swap(&mut res, &mut self.output);
        assert(string_views(self.output@) =~= Seq::<Seq<char>>::empty());
        res
    }
}

// The default printer, which collects the lines it prints.
impl PrintTreePrinter for PrintTree {
    open spec fn can_descend(&self) -> bool {
        self@.level < u32::MAX
    }

    open spec fn can_ascend(&self) -> bool {
        self@.level > 0
    }

    /// Descend one level in the tree with the given title.
    fn new_level(&mut self, title: String)
        ensures
            final(self)@ == after_new_level(old(self)@, title@),
    {
        proof {
            reveal_strlit("\u{251C}\u{2500}");
        }
        assert("\u{251C}\u{2500}"@ =~= branch_mark());
        self.flush_queued_item("\u{251C}\u{2500}");
        self.print_line("\u{251C}\u{2500}", title.as_str());
        self.level = self.level + 1;
    }

    /// Ascend one level in the tree.
    fn end_level(&mut self)
        ensures
            final(self)@ == after_end_level(old(self)@),
    {
        proof {
            reveal_strlit("\u{2514}\u{2500}");
        }
        assert("\u{2514}\u{2500}"@ =~= last_mark());
        self.flush_queued_item("\u{2514}\u{2500}");
        self.level = self.level - 1;
    }

    /// Add an item to the current level in the tree.
    fn add_item(&mut self, text: String)
        ensures
            final(self)@ == after_add_item(old(self)@, text@),
    {
        proof {
            reveal_strlit("\u{251C}\u{2500}");
        }
        assert("\u{251C}\u{2500}"@ =~= branch_mark());
        self.flush_queued_item("\u{251C}\u{2500}");
        self.queued_item = Some(text);
    }
}

} // verus!
