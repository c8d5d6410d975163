//! The worktree model and the porcelain listing parser, together with the
//! argument vectors of the version-control commands the tool issues and the
//! branch-existence interpretation.  Running the external binary is the
//! caller's business: the functions here turn raw captured text into
//! structured records and decisions into argument vectors.

use vstd::prelude::*;
use crate::text::{
    starts_with, split_on, str_starts_with, str_eq, split_str, join_with,
};
use vstd::string::StringExecFns;
use vstd::string::StrSliceExecFns;
use crate::utils::{cleaned_branch, clean_branch_name};

verus! {

/// One checked-out working copy bound to the repository.
#[derive(Debug, Clone)]
pub struct Worktree {
    /// Absolute filesystem location, the unique key within a listing.
    pub path: String,
    /// Commit identifier currently checked out.
    pub head: String,
    /// Fully-qualified branch reference; `None` for a detached HEAD.
    pub branch: Option<String>,
    /// True for the administrative bare repository entry.
    pub bare: bool,
}

/// Mathematical image of a `Worktree`.
pub ghost struct WorktreeView {
    pub path: Seq<char>,
    pub head: Seq<char>,
    pub branch: Option<Seq<char>>,
    pub bare: bool,
}

impl View for Worktree {
    type V = WorktreeView;

    open spec fn view(&self) -> WorktreeView {
        WorktreeView {
            path: self.path@,
            head: self.head@,
            branch: match self.branch {
                Option::Some(b) => Option::Some(b@),
                Option::None => Option::None,
            },
            bare: self.bare,
        }
    }
}

impl DeepView for Worktree {
    type V = WorktreeView;

    open spec fn deep_view(&self) -> WorktreeView {
        self.view()
    }
}

/// The parser's open record: a block whose `worktree` line has been seen
/// but which has not been emitted yet.
pub ghost struct PartialRecord {
    pub path: Seq<char>,
    pub head: Option<Seq<char>>,
    pub branch: Option<Seq<char>>,
    pub bare: bool,
}

/// What an open record contributes when it is closed: one worktree if its
/// `HEAD` line was seen, nothing otherwise.
pub open spec fn flush_state(st: Option<PartialRecord>) -> Seq<WorktreeView> {
    match st {
        Option::Some(p) => match p.head {
            Option::Some(h) => seq![
                WorktreeView { path: p.path, head: h, branch: p.branch, bare: p.bare },
            ],
            Option::None => Seq::<WorktreeView>::empty(),
        },
        Option::None => Seq::<WorktreeView>::empty(),
    }
}

/// The parser state after reading one line.
pub open spec fn step_state(st: Option<PartialRecord>, line: Seq<char>) -> Option<PartialRecord> {
    if starts_with(line, "worktree "@) {
        Option::Some(
            PartialRecord {
                path: line.subrange("worktree "@.len() as int, line.len() as int),
                head: Option::None,
                branch: Option::None,
                bare: false,
            },
        )
    } else if starts_with(line, "HEAD "@) {
        match st {
            Option::Some(p) => Option::Some(
                PartialRecord {
                    path: p.path,
                    head: Option::Some(line.subrange("HEAD "@.len() as int, line.len() as int)),
                    branch: p.branch,
                    bare: p.bare,
                },
            ),
            Option::None => Option::None,
        }
    } else if starts_with(line, "branch "@) {
        match st {
            Option::Some(p) => Option::Some(
                PartialRecord {
                    path: p.path,
                    head: p.head,
                    branch: Option::Some(
                        line.subrange("branch "@.len() as int, line.len() as int),
                    ),
                    bare: p.bare,
                },
            ),
            Option::None => Option::None,
        }
    } else if line == "bare"@ {
        match st {
            Option::Some(p) => Option::Some(
                PartialRecord { path: p.path, head: p.head, branch: p.branch, bare: true },
            ),
            Option::None => Option::None,
        }
    } else {
        st
    }
}

/// What reading one line emits: a new `worktree` line closes the open
/// record, any other line emits nothing.
pub open spec fn step_emit(st: Option<PartialRecord>, line: Seq<char>) -> Seq<WorktreeView> {
    if starts_with(line, "worktree "@) {
        flush_state(st)
    } else {
        Seq::<WorktreeView>::empty()
    }
}

/// All records emitted while reading `lines` from state `st` (the record
/// still open at the end is not included).
pub open spec fn emits(st: Option<PartialRecord>, lines: Seq<Seq<char>>) -> Seq<WorktreeView>
    decreases lines.len(),
{
    if lines.len() == 0 {
        Seq::<WorktreeView>::empty()
    } else {
        step_emit(st, lines[0]) + emits(
            step_state(st, lines[0]),
            lines.subrange(1, lines.len() as int),
        )
    }
}

/// The parser state after reading `lines` from state `st`.
pub open spec fn run_state(st: Option<PartialRecord>, lines: Seq<Seq<char>>) -> Option<
    PartialRecord,
>
    decreases lines.len(),
{
    if lines.len() == 0 {
        st
    } else {
        run_state(step_state(st, lines[0]), lines.subrange(1, lines.len() as int))
    }
}

/// The worktrees a porcelain listing, given as lines, denotes: everything
/// emitted while scanning, plus the final open record if it is complete.
pub open spec fn parse_worktree_lines(lines: Seq<Seq<char>>) -> Seq<WorktreeView> {
    emits(Option::None, lines) + flush_state(run_state(Option::None, lines))
}

/// The worktrees a raw porcelain listing denotes.
pub open spec fn parse_worktree_listing(s: Seq<char>) -> Seq<WorktreeView> {
    parse_worktree_lines(split_on(s, '\n'))
}

/// Reading a concatenation of line lists is reading one after the other.
pub proof fn lemma_emits_concat(
    st: Option<PartialRecord>,
    l1: Seq<Seq<char>>,
    l2: Seq<Seq<char>>,
)
    ensures
        emits(st, l1 + l2) == emits(st, l1) + emits(run_state(st, l1), l2),
        run_state(st, l1 + l2) == run_state(run_state(st, l1), l2),
    decreases l1.len(),
{
    if l1.len() == 0 {
        assert(l1 + l2 =~= l2);
        assert(emits(st, l1) + emits(run_state(st, l1), l2) =~= emits(st, l2));
    } else {
        let st1 = step_state(st, l1[0]);
        let l1t = l1.subrange(1, l1.len() as int);
        lemma_emits_concat(st1, l1t, l2);
        assert((l1 + l2).subrange(1, (l1 + l2).len() as int) =~= l1t + l2);
        assert((l1 + l2)[0] == l1[0]);
        assert(emits(st, l1 + l2) =~= emits(st, l1) + emits(run_state(st, l1), l2));
    }
}

spec fn acc_state(
    p: Option<String>,
    h: Option<String>,
    b: Option<String>,
    bare: bool,
) -> Option<PartialRecord> {
    match p {
        Option::Some(ps) => Option::Some(
            PartialRecord {
                path: ps@,
                head: match h {
                    Option::Some(x) => Option::Some(x@),
                    Option::None => Option::None,
                },
                branch: match b {
                    Option::Some(x) => Option::Some(x@),
                    Option::None => Option::None,
                },
                bare: bare,
            },
        ),
        Option::None => Option::None,
    }
}

/// Parse the raw output of the porcelain worktree listing into structured
/// records: blocks open at each `worktree ` line; `HEAD `, `branch ` and
/// `bare` lines fill the open block; unknown lines are ignored; a block
/// missing its `HEAD` line is dropped.
pub fn parse_worktree_list(output: &str) -> (r: Vec<Worktree>)
    ensures
        r.deep_view() == parse_worktree_listing(output@),
{
    let lines = split_str(output, '\n');
    let nlines = lines.len();
    let ghost lv = lines.deep_view();

    let mut out: Vec<Worktree> = Vec::new();
    let mut cur_path: Option<String> = None;
    let mut cur_head: Option<String> = None;
    let mut cur_branch: Option<String> = None;
    let mut cur_bare: bool = false;

    proof {
        assert(lv.subrange(0, 0) =~= Seq::<Seq<char>>::empty());
        assert(out.deep_view() =~= emits(Option::None, lv.subrange(0, 0)));
    }

    let mut k: usize = 0;
    while k < nlines
        invariant
            k <= nlines,
            nlines == lv.len(),
            lv == lines.deep_view(),
            lv == split_on(output@, '\n'),
            out.deep_view() == emits(Option::None, lv.subrange(0, k as int)),
            acc_state(cur_path, cur_head, cur_branch, cur_bare) == run_state(
                Option::None,
                lv.subrange(0, k as int),
            ),
        decreases nlines - k,
    {
        let ghost st_before = acc_state(cur_path, cur_head, cur_branch, cur_bare);
        let line: &String = &lines[k];
        let n: usize = line.as_str().unicode_len();
        proof {
            reveal_strlit("worktree ");
            reveal_strlit("HEAD ");
            reveal_strlit("branch ");
            reveal_strlit("bare");
            assert(line@ == lv[k as int]);
        }
        if str_starts_with(line.as_str(), "worktree ") {
            let ghost old_dv = out.deep_view();
            match (cur_path, cur_head) {
                (Some(p), Some(h)) => {
                    out.push(Worktree { path: p, head: h, branch: cur_branch, bare: cur_bare });
                    proof {
                        assert(out.deep_view() =~= old_dv + flush_state(st_before));
                    }
                },
                _ => {
                    proof {
                        assert(out.deep_view() =~= old_dv + flush_state(st_before));
                    }
                },
            }
            let rest = line.as_str().substring_char(9, n).to_owned();
            cur_path = Some(rest);
            cur_head = None;
            cur_branch = None;
            cur_bare = false;
        } else if str_starts_with(line.as_str(), "HEAD ") {
            if cur_path.is_some() {
                cur_head = Some(line.as_str().substring_char(5, n).to_owned());
            }
        } else if str_starts_with(line.as_str(), "branch ") {
            if cur_path.is_some() {
                cur_branch = Some(line.as_str().substring_char(7, n).to_owned());
            }
        } else if str_eq(line.as_str(), "bare") {
            if cur_path.is_some() {
                cur_bare = true;
            }
        }
        proof {
            reveal_with_fuel(emits, 3);
            reveal_with_fuel(run_state, 3);
            assert(acc_state(cur_path, cur_head, cur_branch, cur_bare) == step_state(
                st_before,
                lv[k as int],
            ));
            assert(lv.subrange(0, k + 1) =~= lv.subrange(0, k as int) + seq![lv[k as int]]);
            lemma_emits_concat(Option::None, lv.subrange(0, k as int), seq![lv[k as int]]);
            assert(seq![lv[k as int]].len() == 1);
            assert(seq![lv[k as int]][0] == lv[k as int]);
            assert(seq![lv[k as int]].subrange(1, 1) =~= Seq::<Seq<char>>::empty());
            assert(emits(st_before, seq![lv[k as int]]) =~= step_emit(st_before, lv[k as int]));
            assert(run_state(st_before, seq![lv[k as int]]) == step_state(st_before, lv[k as int]));
            assert(out.deep_view() =~= emits(Option::None, lv.subrange(0, k + 1)));
        }
        k += 1;
    }

    proof {
        assert(lv.subrange(0, nlines as int) =~= lv);
    }
    let ghost st_end = acc_state(cur_path, cur_head, cur_branch, cur_bare);
    let ghost old_dv = out.deep_view();
    match (cur_path, cur_head) {
        (Some(p), Some(h)) => {
            out.push(Worktree { path: p, head: h, branch: cur_branch, bare: cur_bare });
            proof {
                assert(out.deep_view() =~= old_dv + flush_state(st_end));
            }
        },
        _ => {
            proof {
                assert(out.deep_view() =~= old_dv + flush_state(st_end));
            }
        },
    }
    out
}

/// The default branch a freshly cloned repository is on: the captured
/// output of the symbolic-ref query, trimmed of surrounding whitespace.
pub fn get_default_branch(symbolic_ref_output: &str) -> (r: String)
    ensures
        r@ == crate::text::trim_ws(symbolic_ref_output@),
{
    crate::text::str_trim_ws(symbolic_ref_output)
}

/// The structured records of a captured porcelain worktree listing.
pub fn list_worktrees(porcelain: &str) -> (r: Vec<Worktree>)
    ensures
        r.deep_view() == parse_worktree_listing(porcelain@),
{
    parse_worktree_list(porcelain)
}

/// A synthetic porcelain block: one `worktree` line, an optional `HEAD`
/// line, an optional `branch` line, and an optional `bare` line.
pub ghost struct BlockSpec {
    pub path: Seq<char>,
    pub head: Option<Seq<char>>,
    pub branch: Option<Seq<char>>,
    pub bare: bool,
}

/// The lines such a block renders to.
pub open spec fn block_lines(b: BlockSpec) -> Seq<Seq<char>> {
    seq!["worktree "@ + b.path] + (match b.head {
        Option::Some(h) => seq!["HEAD "@ + h],
        Option::None => Seq::<Seq<char>>::empty(),
    }) + (match b.branch {
        Option::Some(x) => seq!["branch "@ + x],
        Option::None => Seq::<Seq<char>>::empty(),
    }) + (if b.bare {
        seq!["bare"@]
    } else {
        Seq::<Seq<char>>::empty()
    })
}

pub open spec fn blocks_lines(bs: Seq<BlockSpec>) -> Seq<Seq<char>>
    decreases bs.len(),
{
    if bs.len() == 0 {
        Seq::<Seq<char>>::empty()
    } else {
        block_lines(bs[0]) + blocks_lines(bs.subrange(1, bs.len() as int))
    }
}

/// The worktree a block stands for: one record when the block carries a
/// `HEAD` line, nothing when it does not.
pub open spec fn block_view(b: BlockSpec) -> Seq<WorktreeView> {
    match b.head {
        Option::Some(h) => seq![
            WorktreeView { path: b.path, head: h, branch: b.branch, bare: b.bare },
        ],
        Option::None => Seq::<WorktreeView>::empty(),
    }
}

pub open spec fn blocks_views(bs: Seq<BlockSpec>) -> Seq<WorktreeView>
    decreases bs.len(),
{
    if bs.len() == 0 {
        Seq::<WorktreeView>::empty()
    } else {
        block_view(bs[0]) + blocks_views(bs.subrange(1, bs.len() as int))
    }
}

/// A string shorter than `p`, or differing from it in the first character,
/// does not start with `p`.
proof fn lemma_not_prefix(s: Seq<char>, p: Seq<char>)
    requires
        p.len() > s.len() || (p.len() > 0 && s.len() > 0 && s[0] != p[0]),
    ensures
        !starts_with(s, p),
{
    if p.len() <= s.len() && p.len() > 0 {
        assert(s.subrange(0, p.len() as int)[0] == s[0]);
    }
}

proof fn lemma_single_line(st: Option<PartialRecord>, line: Seq<char>)
    ensures
        emits(st, seq![line]) == step_emit(st, line),
        run_state(st, seq![line]) == step_state(st, line),
{
    reveal_with_fuel(emits, 2);
    reveal_with_fuel(run_state, 2);
    assert(seq![line].subrange(1, 1) =~= Seq::<Seq<char>>::empty());
    assert(emits(st, seq![line]) =~= step_emit(st, line));
}

proof fn lemma_step_worktree(st: Option<PartialRecord>, path: Seq<char>)
    ensures
        step_state(st, "worktree "@ + path) == Option::Some(
            PartialRecord { path: path, head: Option::None, branch: Option::None, bare: false },
        ),
        step_emit(st, "worktree "@ + path) == flush_state(st),
{
    reveal_strlit("worktree ");
    let line = "worktree "@ + path;
    assert(line.subrange(0, 9) =~= "worktree "@);
    assert(starts_with(line, "worktree "@));
    assert(line.subrange(9, line.len() as int) =~= path);
}

proof fn lemma_step_head(p: PartialRecord, h: Seq<char>)
    ensures
        step_state(Option::Some(p), "HEAD "@ + h) == Option::Some(
            PartialRecord {
                path: p.path,
                head: Option::Some(h),
                branch: p.branch,
                bare: p.bare,
            },
        ),
        step_emit(Option::Some(p), "HEAD "@ + h) == Seq::<WorktreeView>::empty(),
{
    reveal_strlit("worktree ");
    reveal_strlit("HEAD ");
    let line = "HEAD "@ + h;
    assert(line[0] == 'H');
    lemma_not_prefix(line, "worktree "@);
    assert(line.subrange(0, 5) =~= "HEAD "@);
    assert(starts_with(line, "HEAD "@));
    assert(line.subrange(5, line.len() as int) =~= h);
}

proof fn lemma_step_branch(p: PartialRecord, x: Seq<char>)
    ensures
        step_state(Option::Some(p), "branch "@ + x) == Option::Some(
            PartialRecord {
                path: p.path,
                head: p.head,
                branch: Option::Some(x),
                bare: p.bare,
            },
        ),
        step_emit(Option::Some(p), "branch "@ + x) == Seq::<WorktreeView>::empty(),
{
    reveal_strlit("worktree ");
    reveal_strlit("HEAD ");
    reveal_strlit("branch ");
    let line = "branch "@ + x;
    assert(line[0] == 'b');
    lemma_not_prefix(line, "worktree "@);
    lemma_not_prefix(line, "HEAD "@);
    assert(line.subrange(0, 7) =~= "branch "@);
    assert(starts_with(line, "branch "@));
    assert(line.subrange(7, line.len() as int) =~= x);
}

proof fn lemma_step_bare(p: PartialRecord)
    ensures
        step_state(Option::Some(p), "bare"@) == Option::Some(
            PartialRecord { path: p.path, head: p.head, branch: p.branch, bare: true },
        ),
        step_emit(Option::Some(p), "bare"@) == Seq::<WorktreeView>::empty(),
{
    reveal_strlit("worktree ");
    reveal_strlit("HEAD ");
    reveal_strlit("branch ");
    reveal_strlit("bare");
    let line = "bare"@;
    lemma_not_prefix(line, "worktree "@);
    lemma_not_prefix(line, "HEAD "@);
    lemma_not_prefix(line, "branch "@);
}

/// Reading one rendered block closes whatever was open and leaves the
/// block's own record open.
proof fn lemma_block_run(st: Option<PartialRecord>, b: BlockSpec)
    ensures
        emits(st, block_lines(b)) == flush_state(st),
        run_state(st, block_lines(b)) == Option::Some(
            PartialRecord { path: b.path, head: b.head, branch: b.branch, bare: b.bare },
        ),
{
    let wline = "worktree "@ + b.path;
    let hpart = (match b.head {
        Option::Some(h) => seq!["HEAD "@ + h],
        Option::None => Seq::<Seq<char>>::empty(),
    });
    let bpart = (match b.branch {
        Option::Some(x) => seq!["branch "@ + x],
        Option::None => Seq::<Seq<char>>::empty(),
    });
    let rpart = (if b.bare {
        seq!["bare"@]
    } else {
        Seq::<Seq<char>>::empty()
    });
    let p0 = PartialRecord {
        path: b.path,
        head: Option::None,
        branch: Option::None,
        bare: false,
    };
    let p1 = PartialRecord { path: b.path, head: b.head, branch: Option::None, bare: false };
    let p2 = PartialRecord { path: b.path, head: b.head, branch: b.branch, bare: false };
    let p3 = PartialRecord { path: b.path, head: b.head, branch: b.branch, bare: b.bare };

    lemma_step_worktree(st, b.path);
    lemma_single_line(st, wline);

    // after the worktree line: p0; the head part takes p0 to p1
    if b.head is Some {
        lemma_step_head(p0, b.head->0);
        lemma_single_line(Option::Some(p0), "HEAD "@ + b.head->0);
    }
    assert(emits(Option::Some(p0), hpart) == Seq::<WorktreeView>::empty());
    assert(run_state(Option::Some(p0), hpart) == Option::Some(p1));

    if b.branch is Some {
        lemma_step_branch(p1, b.branch->0);
        lemma_single_line(Option::Some(p1), "branch "@ + b.branch->0);
    }
    assert(emits(Option::Some(p1), bpart) == Seq::<WorktreeView>::empty());
    assert(run_state(Option::Some(p1), bpart) == Option::Some(p2));

    if b.bare {
        lemma_step_bare(p2);
        lemma_single_line(Option::Some(p2), "bare"@);
    }
    assert(emits(Option::Some(p2), rpart) == Seq::<WorktreeView>::empty());
    assert(run_state(Option::Some(p2), rpart) == Option::Some(p3));

    lemma_emits_concat(Option::Some(p1), bpart, rpart);
    lemma_emits_concat(Option::Some(p0), hpart, bpart + rpart);
    lemma_emits_concat(st, seq![wline], hpart + (bpart + rpart));
    assert(block_lines(b) =~= seq![wline] + (hpart + (bpart + rpart)));
    assert(emits(st, block_lines(b)) =~= flush_state(st));
}

/// Reading a rendered block list from any state first closes that state's
/// open record, then contributes exactly the blocks' own records.
proof fn lemma_blocks_parse_gen(st: Option<PartialRecord>, bs: Seq<BlockSpec>)
    ensures
        emits(st, blocks_lines(bs)) + flush_state(run_state(st, blocks_lines(bs)))
            == flush_state(st) + blocks_views(bs),
    decreases bs.len(),
{
    if bs.len() == 0 {
        assert(emits(st, blocks_lines(bs)) =~= Seq::<WorktreeView>::empty());
        assert(emits(st, blocks_lines(bs)) + flush_state(run_state(st, blocks_lines(bs)))
            =~= flush_state(st) + blocks_views(bs));
    } else {
        let b0 = bs[0];
        let rest = bs.subrange(1, bs.len() as int);
        let p3 = PartialRecord { path: b0.path, head: b0.head, branch: b0.branch, bare: b0.bare };
        lemma_block_run(st, b0);
        lemma_emits_concat(st, block_lines(b0), blocks_lines(rest));
        lemma_blocks_parse_gen(Option::Some(p3), rest);
        assert(flush_state(Option::Some(p3)) == block_view(b0));
        assert(emits(st, blocks_lines(bs)) + flush_state(run_state(st, blocks_lines(bs)))
            =~= flush_state(st) + blocks_views(bs));
    }
}

/// What the parser makes of a rendered block list: exactly the records of
/// the blocks that carry a `HEAD` line, in input order.  A block missing
/// `HEAD` is dropped entirely; a block missing `branch` yields a record
/// whose branch is absent, never an empty one.
pub proof fn lemma_parse_blocks(bs: Seq<BlockSpec>)
    ensures
        parse_worktree_lines(blocks_lines(bs)) == blocks_views(bs),
{
    lemma_blocks_parse_gen(Option::None, bs);
    assert(flush_state(Option::None) + blocks_views(bs) =~= blocks_views(bs));
}

/// Parser round trip: rendering blocks that each carry `worktree` and
/// `HEAD` lines and parsing the rendering recovers every field of every
/// block, in input order.
pub proof fn lemma_parse_round_trip(bs: Seq<BlockSpec>)
    requires
        forall|i: int| 0 <= i < bs.len() ==> (#[trigger] bs[i]).head is Some,
    ensures
        parse_worktree_lines(blocks_lines(bs)).len() == bs.len(),
        forall|i: int|
            0 <= i < bs.len() ==> {
                let w = #[trigger] parse_worktree_lines(blocks_lines(bs))[i];
                &&& w.path == bs[i].path
                &&& Option::Some(w.head) == bs[i].head
                &&& w.branch == bs[i].branch
                &&& w.bare == bs[i].bare
            },
{
    lemma_parse_blocks(bs);
    lemma_blocks_views_complete(bs);
}

proof fn lemma_blocks_views_complete(bs: Seq<BlockSpec>)
    requires
        forall|i: int| 0 <= i < bs.len() ==> (#[trigger] bs[i]).head is Some,
    ensures
        blocks_views(bs).len() == bs.len(),
        forall|i: int|
            0 <= i < bs.len() ==> {
                let w = #[trigger] blocks_views(bs)[i];
                &&& w.path == bs[i].path
                &&& Option::Some(w.head) == bs[i].head
                &&& w.branch == bs[i].branch
                &&& w.bare == bs[i].bare
            },
    decreases bs.len(),
{
    if bs.len() > 0 {
        let rest = bs.subrange(1, bs.len() as int);
        lemma_blocks_views_complete(rest);
        assert(bs[0].head is Some);
        assert(blocks_views(bs) == block_view(bs[0]) + blocks_views(rest));
        assert(forall|i: int| 0 <= i < rest.len() ==> rest[i] == bs[i + 1]);
    }
}

/// A block whose `HEAD` line is missing parses to nothing at all.
pub proof fn lemma_block_missing_head_dropped(b: BlockSpec)
    requires
        b.head is None,
    ensures
        parse_worktree_lines(block_lines(b)) == Seq::<WorktreeView>::empty(),
{
    lemma_parse_blocks(seq![b]);
    reveal_with_fuel(blocks_lines, 2);
    reveal_with_fuel(blocks_views, 2);
    assert(seq![b].len() == 1);
    assert(seq![b][0] == b);
    assert(seq![b].subrange(1, 1) =~= Seq::<BlockSpec>::empty());
    assert(blocks_lines(seq![b]) =~= block_lines(b));
    assert(blocks_views(seq![b]) =~= Seq::<WorktreeView>::empty());
}

/// No newline anywhere in `s`.
pub open spec fn newline_free(s: Seq<char>) -> bool {
    forall|j: int| 0 <= j < s.len() ==> #[trigger] s[j] != '\n'
}

/// The fields of a block hold no newline, so each renders to one line.
pub open spec fn block_newline_free(b: BlockSpec) -> bool {
    &&& newline_free(b.path)
    &&& (b.head matches Some(h) ==> newline_free(h))
    &&& (b.branch matches Some(x) ==> newline_free(x))
}

proof fn lemma_literal_lines_newline_free()
    ensures
        newline_free("worktree "@),
        newline_free("HEAD "@),
        newline_free("branch "@),
        newline_free("bare"@),
{
    reveal_strlit("worktree ");
    reveal_strlit("HEAD ");
    reveal_strlit("branch ");
    reveal_strlit("bare");
    assert("worktree "@.len() == 9);
    assert("HEAD "@.len() == 5);
    assert("branch "@.len() == 7);
    assert("bare"@.len() == 4);
}

proof fn lemma_concat_newline_free(a: Seq<char>, b: Seq<char>)
    requires
        newline_free(a),
        newline_free(b),
    ensures
        newline_free(a + b),
{
    assert forall|j: int| 0 <= j < (a + b).len() implies #[trigger] (a + b)[j] != '\n' by {
        if j < a.len() {
            assert((a + b)[j] == a[j]);
        } else {
            assert((a + b)[j] == b[j - a.len()]);
        }
    }
}

proof fn lemma_block_lines_newline_free(b: BlockSpec)
    requires
        block_newline_free(b),
    ensures
        forall|i: int, j: int|
            0 <= i < block_lines(b).len() && 0 <= j < block_lines(b)[i].len()
                ==> #[trigger] block_lines(b)[i][j] != '\n',
{
    lemma_literal_lines_newline_free();
    lemma_concat_newline_free("worktree "@, b.path);
    if b.head is Some {
        lemma_concat_newline_free("HEAD "@, b.head->0);
    }
    if b.branch is Some {
        lemma_concat_newline_free("branch "@, b.branch->0);
    }
    assert forall|i: int, j: int|
        0 <= i < block_lines(b).len() && 0 <= j < block_lines(b)[i].len() implies #[trigger] block_lines(
        b,
    )[i][j] != '\n' by {
        let line = block_lines(b)[i];
        assert(newline_free(line));
    }
}

proof fn lemma_blocks_lines_newline_free(bs: Seq<BlockSpec>)
    requires
        forall|i: int| 0 <= i < bs.len() ==> block_newline_free(#[trigger] bs[i]),
    ensures
        forall|i: int, j: int|
            0 <= i < blocks_lines(bs).len() && 0 <= j < blocks_lines(bs)[i].len()
                ==> #[trigger] blocks_lines(bs)[i][j] != '\n',
    decreases bs.len(),
{
    if bs.len() > 0 {
        let rest = bs.subrange(1, bs.len() as int);
        lemma_blocks_lines_newline_free(rest);
        lemma_block_lines_newline_free(bs[0]);
        assert forall|i: int, j: int|
            0 <= i < blocks_lines(bs).len() && 0 <= j < blocks_lines(bs)[i].len() implies #[trigger] blocks_lines(
            bs,
        )[i][j] != '\n' by {
            let hl = block_lines(bs[0]).len() as int;
            if i < hl {
                assert(blocks_lines(bs)[i] == block_lines(bs[0])[i]);
            } else {
                assert(blocks_lines(bs)[i] == blocks_lines(rest)[i - hl]);
            }
        }
    }
}

proof fn lemma_blocks_lines_nonempty(bs: Seq<BlockSpec>)
    requires
        bs.len() >= 1,
    ensures
        blocks_lines(bs).len() >= 1,
{
    assert(blocks_lines(bs).len() >= block_lines(bs[0]).len());
}

/// Parser round trip over the rendered text itself: rendering complete
/// blocks to porcelain text, one line per row joined by newlines, and
/// parsing that text recovers every field of every block, in input
/// order.  Fields may not themselves contain newlines, or they would not
/// render to single lines.
pub proof fn lemma_parse_text_round_trip(bs: Seq<BlockSpec>)
    requires
        bs.len() >= 1,
        forall|i: int| 0 <= i < bs.len() ==> block_newline_free(#[trigger] bs[i]),
        forall|i: int| 0 <= i < bs.len() ==> (#[trigger] bs[i]).head is Some,
    ensures
        parse_worktree_listing(join_with(blocks_lines(bs), '\n')).len() == bs.len(),
        forall|i: int|
            0 <= i < bs.len() ==> {
                let w = #[trigger] parse_worktree_listing(join_with(blocks_lines(bs), '\n'))[i];
                &&& w.path == bs[i].path
                &&& Option::Some(w.head) == bs[i].head
                &&& w.branch == bs[i].branch
                &&& w.bare == bs[i].bare
            },
{
    lemma_blocks_lines_newline_free(bs);
    lemma_blocks_lines_nonempty(bs);
    crate::text::lemma_split_join(blocks_lines(bs), '\n');
    lemma_parse_round_trip(bs);
}

/// How a new worktree is created, given which branches exist.
#[derive(Debug, Clone, Copy, PartialEq, Eq, Structural)]
pub enum CreationStrategy {
    /// The branch exists locally: check the existing local branch out.
    CheckoutLocal,
    /// Only the remote branch exists: create a local branch tracking it.
    TrackRemote,
    /// Neither exists: branch from the default branch's remote-tracking
    /// ref, without setting up tracking.
    BranchFromDefault,
}

/// Pick the creation strategy: local state wins over remote state wins
/// over deriving a fresh branch from the default branch.
pub fn choose_creation_strategy(local_exists: bool, remote_exists: bool) -> (r: CreationStrategy)
    ensures
        local_exists ==> r == CreationStrategy::CheckoutLocal,
        !local_exists && remote_exists ==> r == CreationStrategy::TrackRemote,
        !local_exists && !remote_exists ==> r == CreationStrategy::BranchFromDefault,
{
    if local_exists {
        CreationStrategy::CheckoutLocal
    } else if remote_exists {
        CreationStrategy::TrackRemote
    } else {
        CreationStrategy::BranchFromDefault
    }
}

/// Interpret the two captured branch-listing queries: a branch exists
/// locally or remotely when the respective filter printed anything.  A
/// failed query counts as not existing, because absence and failure are
/// indistinguishable to the caller and both fall through to creating the
/// branch.
pub fn branch_exists(local_listing: &Option<String>, remote_listing: &Option<String>) -> (r: (
    bool,
    bool,
))
    ensures
        r.0 == (local_listing is Some && local_listing->0@.len() > 0),
        r.1 == (remote_listing is Some && remote_listing->0@.len() > 0),
{
    let local = match local_listing {
        Some(s) => !s.as_str().is_empty(),
        None => false,
    };
    let remote = match remote_listing {
        Some(s) => !s.as_str().is_empty(),
        None => false,
    };
    (local, remote)
}

/// `origin/` in front of a branch name.
fn origin_ref(branch: &str) -> (r: String)
    ensures
        r@ == "origin/"@ + branch@,
{
    let mut s = String::from_str("origin/");
    s.append(branch);
    s
}

/// The two capturing queries behind `branch_exists`: the local branch
/// filter, and the remote-tracking filter under the conventional remote.
pub fn branch_query_args(branch: &str) -> (r: (Vec<String>, Vec<String>))
    ensures
        r.0.deep_view() == seq!["branch"@, "--list"@, branch@],
        r.1.deep_view() == seq!["branch"@, "-r"@, "--list"@, "origin/"@ + branch@],
{
    let mut local: Vec<String> = Vec::new();
    local.push(String::from_str("branch"));
    local.push(String::from_str("--list"));
    local.push(branch.to_owned());
    let mut remote: Vec<String> = Vec::new();
    remote.push(String::from_str("branch"));
    remote.push(String::from_str("-r"));
    remote.push(String::from_str("--list"));
    remote.push(origin_ref(branch));
    proof {
        assert(local.deep_view() =~= seq!["branch"@, "--list"@, branch@]);
        assert(remote.deep_view() =~= seq!["branch"@, "-r"@, "--list"@, "origin/"@ + branch@]);
    }
    (local, remote)
}

/// The argument vector that creates a worktree at `worktree_path` on a new
/// branch `branch` starting from `base_branch`.
pub fn add_worktree(worktree_path: &str, branch: &str, base_branch: &str) -> (r: Vec<String>)
    ensures
        r.deep_view() == seq!["worktree"@, "add"@, worktree_path@, "-b"@, branch@, base_branch@],
{
    let mut args: Vec<String> = Vec::new();
    args.push(String::from_str("worktree"));
    args.push(String::from_str("add"));
    args.push(worktree_path.to_owned());
    args.push(String::from_str("-b"));
    args.push(branch.to_owned());
    args.push(base_branch.to_owned());
    proof {
        assert(args.deep_view() =~= seq![
            "worktree"@,
            "add"@,
            worktree_path@,
            "-b"@,
            branch@,
            base_branch@,
        ]);
    }
    args
}

/// The worktree-creation argument vector for the selected strategy:
/// checkout-local reuses the existing local branch; track-remote creates a
/// branch from its remote-tracking ref; branch-from-default starts from the
/// default branch's remote-tracking ref with tracking disabled, so the new
/// branch cannot silently push to the shared default branch.
pub fn worktree_add_args(
    strategy: CreationStrategy,
    target_path: &str,
    branch: &str,
    main_branch: &str,
) -> (r: Vec<String>)
    ensures
        strategy == CreationStrategy::CheckoutLocal ==> r.deep_view() == seq![
            "worktree"@,
            "add"@,
            target_path@,
            branch@,
        ],
        strategy == CreationStrategy::TrackRemote ==> r.deep_view() == seq![
            "worktree"@,
            "add"@,
            target_path@,
            "-b"@,
            branch@,
            "origin/"@ + branch@,
        ],
        strategy == CreationStrategy::BranchFromDefault ==> r.deep_view() == seq![
            "worktree"@,
            "add"@,
            "--no-track"@,
            target_path@,
            "-b"@,
            branch@,
            "origin/"@ + main_branch@,
        ],
{
    let mut args: Vec<String> = Vec::new();
    args.push(String::from_str("worktree"));
    args.push(String::from_str("add"));
    match strategy {
        CreationStrategy::CheckoutLocal => {
            args.push(target_path.to_owned());
            args.push(branch.to_owned());
            proof {
                assert(args.deep_view() =~= seq!["worktree"@, "add"@, target_path@, branch@]);
            }
        },
        CreationStrategy::TrackRemote => {
            args.push(target_path.to_owned());
            args.push(String::from_str("-b"));
            args.push(branch.to_owned());
            args.push(origin_ref(branch));
            proof {
                assert(args.deep_view() =~= seq![
                    "worktree"@,
                    "add"@,
                    target_path@,
                    "-b"@,
                    branch@,
                    "origin/"@ + branch@,
                ]);
            }
        },
        CreationStrategy::BranchFromDefault => {
            args.push(String::from_str("--no-track"));
            args.push(target_path.to_owned());
            args.push(String::from_str("-b"));
            args.push(branch.to_owned());
            args.push(origin_ref(main_branch));
            proof {
                assert(args.deep_view() =~= seq![
                    "worktree"@,
                    "add"@,
                    "--no-track"@,
                    target_path@,
                    "-b"@,
                    branch@,
                    "origin/"@ + main_branch@,
                ]);
            }
        },
    }
    args
}

/// The argument vector that removes the worktree at `worktree_path`.
pub fn remove_worktree(worktree_path: &str) -> (r: Vec<String>)
    ensures
        r.deep_view() == seq!["worktree"@, "remove"@, worktree_path@, "--force"@],
{
    let mut args: Vec<String> = Vec::new();
    args.push(String::from_str("worktree"));
    args.push(String::from_str("remove"));
    args.push(worktree_path.to_owned());
    args.push(String::from_str("--force"));
    proof {
        assert(args.deep_view() =~= seq!["worktree"@, "remove"@, worktree_path@, "--force"@]);
    }
    args
}

/// The argument vector that deletes a branch: a safe delete, or a forced
/// one after the safe delete reported unmerged work and the user agreed.
pub fn delete_branch(branch_name: &str, force: bool) -> (r: Vec<String>)
    ensures
        force ==> r.deep_view() == seq!["branch"@, "-D"@, branch_name@],
        !force ==> r.deep_view() == seq!["branch"@, "-d"@, branch_name@],
{
    let mut args: Vec<String> = Vec::new();
    args.push(String::from_str("branch"));
    if force {
        args.push(String::from_str("-D"));
    } else {
        args.push(String::from_str("-d"));
    }
    args.push(branch_name.to_owned());
    proof {
        if force {
            assert(args.deep_view() =~= seq!["branch"@, "-D"@, branch_name@]);
        } else {
            assert(args.deep_view() =~= seq!["branch"@, "-d"@, branch_name@]);
        }
    }
    args
}

/// The worktree's display name: its cleaned branch name, `(bare)` for the
/// bare entry, or the first eight characters of its commit hash when the
/// HEAD is detached.
pub open spec fn branch_display(w: WorktreeView) -> Seq<char> {
    match w.branch {
        Option::Some(b) => cleaned_branch(b),
        Option::None => if w.bare {
            "(bare)"@
        } else if w.head.len() <= 8 {
            w.head
        } else {
            w.head.subrange(0, 8)
        },
    }
}

pub fn get_branch_display(wt: &Worktree) -> (r: String)
    ensures
        r@ == branch_display(wt@),
{
    match &wt.branch {
        Some(b) => clean_branch_name(b.as_str()),
        None => {
            if wt.bare {
                String::from_str("(bare)")
            } else {
                let n: usize = wt.head.as_str().unicode_len();
                if n <= 8 {
                    wt.head.clone()
                } else {
                    wt.head.as_str().substring_char(0, 8).to_owned()
                }
            }
        },
    }
}

/// Whether a worktree row gets its own pull-request lookup: the bare
/// entry never does, nor does a row whose display name is the bare
/// marker.
pub fn needs_pr_lookup(wt: &Worktree) -> (r: bool)
    ensures
        r == (!wt@.bare && branch_display(wt@) != "(bare)"@),
{
    if wt.bare {
        return false;
    }
    let display = get_branch_display(wt);
    !str_eq(display.as_str(), "(bare)")
}

/// The branch names preserved on worktree removal: the conventional
/// main-line names are never deleted.
pub fn is_main_branch(name: &str) -> (r: bool)
    ensures
        r == (name@ == "main"@ || name@ == "master"@ || name@ == "dev"@ || name@
            == "develop"@),
{
    str_eq(name, "main") || str_eq(name, "master") || str_eq(name, "dev") || str_eq(
        name,
        "develop",
    )
}

/// Whether a failed safe delete is the unmerged-work case, the one
/// failure that offers a forced delete: the binary names it in its
/// error text.
pub fn is_unmerged_delete_error(error_text: &str) -> (r: bool)
    ensures
        r == crate::text::contains_seq(error_text@, "not fully merged"@),
{
    crate::text::str_contains(error_text, "not fully merged")
}

/// The worktree is checked out on a branch whose cleaned name is `target`.
pub open spec fn matches_branch(w: WorktreeView, target: Seq<char>) -> bool {
    w.branch is Some && cleaned_branch(w.branch->0) == target
}

/// The final segment of a `/`-separated path.
pub open spec fn path_file_name(p: Seq<char>) -> Seq<char> {
    split_on(p, '/').last()
}

/// The worktree sits in a directory whose name is `target`.
pub open spec fn matches_path(w: WorktreeView, target: Seq<char>) -> bool {
    path_file_name(w.path) == target
}

/// `b` is a path prefix of `a`: a plain prefix that ends on a component
/// boundary.
pub open spec fn path_starts_with(a: Seq<char>, b: Seq<char>) -> bool {
    starts_with(a, b) && (a.len() == b.len() || a[b.len() as int] == '/' || (b.len() > 0
        && b[b.len() - 1] == '/'))
}

/// The final segment of a `/`-separated path.
pub fn file_name_of(path: &str) -> (r: String)
    ensures
        r@ == path_file_name(path@),
{
    let parts = split_str(path, '/');
    proof {
        crate::text::lemma_split_on_len(path@, '/');
    }
    let i: usize = parts.len() - 1;
    let r = parts[i].clone();
    proof {
        assert(parts.deep_view()[i as int] == parts@[i as int]@);
    }
    r
}

fn str_path_starts_with(a: &str, b: &str) -> (r: bool)
    ensures
        r == path_starts_with(a@, b@),
{
    if !str_starts_with(a, b) {
        return false;
    }
    let an: usize = a.unicode_len();
    let bn: usize = b.unicode_len();
    if an == bn {
        return true;
    }
    if a.get_char(bn) == '/' {
        return true;
    }
    if bn > 0 && b.get_char(bn - 1) == '/' {
        return true;
    }
    false
}

/// Index of the first worktree checked out on the branch whose cleaned
/// name is `target_branch`.
pub fn find_by_branch_name(worktrees: &Vec<Worktree>, target_branch: &str) -> (r: Option<usize>)
    ensures
        match r {
            Option::Some(i) => i < worktrees.len() && matches_branch(
                worktrees@[i as int]@,
                target_branch@,
            ) && forall|j: int|
                0 <= j < i ==> !matches_branch(worktrees@[j]@, target_branch@),
            Option::None => forall|j: int|
                0 <= j < worktrees@.len() ==> !matches_branch(worktrees@[j]@, target_branch@),
        },
{
    let n = worktrees.len();
    let mut i: usize = 0;
    while i < n
        invariant
            i <= n == worktrees@.len(),
            forall|j: int| 0 <= j < i ==> !matches_branch(worktrees@[j]@, target_branch@),
        decreases n - i,
    {
        match &worktrees[i].branch {
            Some(b) => {
                let cb = clean_branch_name(b.as_str());
                if str_eq(cb.as_str(), target_branch) {
                    return Some(i);
                }
            },
            None => {},
        }
        i += 1;
    }
    None
}

/// Index of the first worktree sitting in a directory named
/// `target_branch`.
pub fn find_by_path_name(worktrees: &Vec<Worktree>, target_branch: &str) -> (r: Option<usize>)
    ensures
        match r {
            Option::Some(i) => i < worktrees.len() && matches_path(
                worktrees@[i as int]@,
                target_branch@,
            ) && forall|j: int| 0 <= j < i ==> !matches_path(worktrees@[j]@, target_branch@),
            Option::None => forall|j: int|
                0 <= j < worktrees@.len() ==> !matches_path(worktrees@[j]@, target_branch@),
        },
{
    let n = worktrees.len();
    let mut i: usize = 0;
    while i < n
        invariant
            i <= n == worktrees@.len(),
            forall|j: int| 0 <= j < i ==> !matches_path(worktrees@[j]@, target_branch@),
        decreases n - i,
    {
        let fname = file_name_of(worktrees[i].path.as_str());
        if str_eq(fname.as_str(), target_branch) {
            return Some(i);
        }
        i += 1;
    }
    None
}

/// Index of the worktree for `target_branch`: first by cleaned branch
/// name, then by directory name.
pub fn find_worktree_by_branch(worktrees: &Vec<Worktree>, target_branch: &str) -> (r: Option<
    usize,
>)
    ensures
        match r {
            Option::Some(i) => i < worktrees.len() && (matches_branch(
                worktrees@[i as int]@,
                target_branch@,
            ) || ((forall|j: int|
                0 <= j < worktrees@.len() ==> !matches_branch(worktrees@[j]@, target_branch@))
                && matches_path(worktrees@[i as int]@, target_branch@) && forall|j: int|
                0 <= j < i ==> !matches_path(worktrees@[j]@, target_branch@))),
            Option::None => forall|j: int|
                0 <= j < worktrees@.len() ==> !matches_branch(worktrees@[j]@, target_branch@)
                    && !matches_path(worktrees@[j]@, target_branch@),
        },
{
    match find_by_branch_name(worktrees, target_branch) {
        Some(i) => Some(i),
        None => find_by_path_name(worktrees, target_branch),
    }
}

/// Index of the first worktree whose path is a path prefix of
/// `current_dir`: the worktree the caller is standing in.
pub fn find_current_worktree(worktrees: &Vec<Worktree>, current_dir: &str) -> (r: Option<usize>)
    ensures
        match r {
            Option::Some(i) => i < worktrees.len() && path_starts_with(
                current_dir@,
                worktrees@[i as int]@.path,
            ) && forall|j: int|
                0 <= j < i ==> !path_starts_with(current_dir@, worktrees@[j]@.path),
            Option::None => forall|j: int|
                0 <= j < worktrees@.len() ==> !path_starts_with(current_dir@, worktrees@[j]@.path),
        },
{
    let n = worktrees.len();
    let mut i: usize = 0;
    while i < n
        invariant
            i <= n == worktrees@.len(),
            forall|j: int| 0 <= j < i ==> !path_starts_with(current_dir@, worktrees@[j]@.path),
        decreases n - i,
    {
        if str_path_starts_with(current_dir, worktrees[i].path.as_str()) {
            return Some(i);
        }
        i += 1;
    }
    None
}

/// The worktree a removal targets: the one named on the command line, or
/// the one the caller is standing in when no name was given.
pub fn find_target_worktree(
    worktrees: &Vec<Worktree>,
    branch_name: Option<&str>,
    current_dir: &str,
) -> (r: Option<usize>)
    ensures
        branch_name is None ==> match r {
            Option::Some(i) => i < worktrees.len() && path_starts_with(
                current_dir@,
                worktrees@[i as int]@.path,
            ),
            Option::None => forall|j: int|
                0 <= j < worktrees@.len() ==> !path_starts_with(current_dir@, worktrees@[j]@.path),
        },
        branch_name matches Some(t) ==> match r {
            Option::Some(i) => i < worktrees.len() && (matches_branch(worktrees@[i as int]@, t@)
                || matches_path(worktrees@[i as int]@, t@)),
            Option::None => forall|j: int|
                0 <= j < worktrees@.len() ==> !matches_branch(worktrees@[j]@, t@)
                    && !matches_path(worktrees@[j]@, t@),
        },
{
    match branch_name {
        None => find_current_worktree(worktrees, current_dir),
        Some(target) => find_worktree_by_branch(worktrees, target),
    }
}

/// A block whose `branch` line is missing parses to a record with no
/// branch at all, never to one with an empty branch name.
pub proof fn lemma_block_missing_branch_is_none(b: BlockSpec)
    requires
        b.head is Some,
        b.branch is None,
    ensures
        parse_worktree_lines(block_lines(b)) == seq![
            WorktreeView { path: b.path, head: b.head->0, branch: Option::None, bare: b.bare },
        ],
{
    lemma_parse_blocks(seq![b]);
    reveal_with_fuel(blocks_lines, 2);
    reveal_with_fuel(blocks_views, 2);
    assert(seq![b].len() == 1);
    assert(seq![b][0] == b);
    assert(seq![b].subrange(1, 1) =~= Seq::<BlockSpec>::empty());
    assert(blocks_lines(seq![b]) =~= block_lines(b));
    assert(blocks_views(seq![b]) =~= block_view(b));
}

} // verus!
