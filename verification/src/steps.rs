//! The steps that a path takes. Two paths with the same steps are one path,
//! however they are written.
use vstd::prelude::*;

use crate::music::types::seen;
use crate::text::{self, Rank};

verus! {

/// A step of a path.
#[derive(Debug)]
pub enum Step {
    /// To where all paths begin.
    Root,
    /// Nowhere: only written at the front.
    Here,
    /// To the directory above.
    Up,
    Name(String),
}

/// What a step says.
pub enum StepView {
    Root,
    Here,
    Up,
    Name(Seq<char>),
}

impl View for Step {
    type V = StepView;

    open spec fn view(&self) -> StepView {
        match *self {
            Step::Root => StepView::Root,
            Step::Here => StepView::Here,
            Step::Up => StepView::Up,
            Step::Name(s) => StepView::Name(s@),
        }
    }
}

/// The step that is written between two slashes, at place `i` of `n`. An empty
/// one leads to the root at the front and nowhere else; a dot says something
/// only at the front.
pub open spec fn step_at(part: Seq<char>, i: int, n: int) -> Option<StepView> {
    if part.len() == 0 {
        if i == 0 && n > 1 {
            Some(StepView::Root)
        } else {
            None
        }
    } else if part == "."@ {
        if i == 0 {
            Some(StepView::Here)
        } else {
            None
        }
    } else if part == ".."@ {
        Some(StepView::Up)
    } else {
        Some(StepView::Name(part))
    }
}

/// The steps that the first `k` parts of a path take.
pub open spec fn steps_in(parts: Seq<Seq<char>>, k: nat) -> Seq<StepView>
    decreases k,
{
    if k == 0 {
        Seq::empty()
    } else {
        let before = steps_in(parts, (k - 1) as nat);
        match step_at(parts[k - 1], k - 1, parts.len() as int) {
            Some(step) => before.push(step),
            None => before,
        }
    }
}

/// The steps of a path.
pub open spec fn steps(path: Seq<char>) -> Seq<StepView> {
    steps_in(text::split(path, '/'), text::split(path, '/').len())
}

fn step(part: &str, i: usize, n: usize) -> (r: Option<Step>)
    ensures
        match r {
            Some(s) => step_at(part@, i as int, n as int) == Some(s@),
            None => step_at(part@, i as int, n as int) is None,
        },
{
    if part.is_empty() {
        if i == 0 && n > 1 {
            Some(Step::Root)
        } else {
            None
        }
    } else if text::same(part, ".") {
        if i == 0 {
            Some(Step::Here)
        } else {
            None
        }
    } else if text::same(part, "..") {
        Some(Step::Up)
    } else {
        Some(Step::Name(part.to_owned()))
    }
}

/// The steps of a path.
pub fn steps_of(path: &str) -> (r: Vec<Step>)
    ensures
        seen(r@) == steps(path@),
{
    let parts = text::split_on(path, '/');
    let ghost cut = text::views(parts@);
    let mut out: Vec<Step> = Vec::new();
    let mut i: usize = 0;
    assert(seen(out@) =~= Seq::<StepView>::empty());
    while i < parts.len()
        invariant
            i <= parts@.len(),
            cut == text::views(parts@),
            seen(out@) == steps_in(cut, i as nat),
        decreases parts@.len() - i,
    {
        assert(cut[i as int] == parts@[i as int]@);
        if let Some(s) = step(parts[i].as_str(), i, parts.len()) {
            let ghost before = out@;
            out.push(s);
            assert(seen(out@) =~= seen(before).push(s@));
        }
        i += 1;
    }
    out
}

/// The name that a path ends in, if its last step is one.
pub open spec fn file_name(path: Seq<char>) -> Option<Seq<char>> {
    if steps(path).len() == 0 {
        None
    } else {
        match steps(path).last() {
            StepView::Name(s) => Some(s),
            _ => None,
        }
    }
}

/// The name that a path ends in.
pub fn name_of(path: &str) -> (r: Option<String>)
    ensures
        text::opt_view(r) == file_name(path@),
{
    let all = steps_of(path);
    if all.len() == 0 {
        return None;
    }
    assert(seen(all@).last() == all@.last()@);
    match &all[all.len() - 1] {
        Step::Name(s) => Some(s.clone()),
        _ => None,
    }
}

/// Where steps of a kind stand among the others.
pub open spec fn place(s: StepView) -> int {
    match s {
        StepView::Root => 0,
        StepView::Here => 1,
        StepView::Up => 2,
        StepView::Name(_) => 3,
    }
}

/// How two steps stand to each other: by their kind, and names as texts.
pub open spec fn rank_step(a: StepView, b: StepView) -> Rank {
    match (a, b) {
        (StepView::Name(x), StepView::Name(y)) => text::rank_of(x, y),
        _ => if place(a) < place(b) {
            Rank::Before
        } else if place(b) < place(a) {
            Rank::After
        } else {
            Rank::Same
        },
    }
}

/// How two paths stand to each other: by their steps, one after the other.
pub open spec fn rank_steps(a: Seq<StepView>, b: Seq<StepView>) -> Rank
    decreases a.len(),
{
    if a.len() == 0 && b.len() == 0 {
        Rank::Same
    } else if a.len() == 0 {
        Rank::Before
    } else if b.len() == 0 {
        Rank::After
    } else {
        rank_step(a[0], b[0]).or(rank_steps(a.skip(1), b.skip(1)))
    }
}

/// How two paths stand to each other.
pub open spec fn rank_paths(a: Seq<char>, b: Seq<char>) -> Rank {
    rank_steps(steps(a), steps(b))
}

fn place_of(s: &Step) -> (r: u8)
    ensures
        r == place(s@),
{
    match s {
        Step::Root => 0,
        Step::Here => 1,
        Step::Up => 2,
        Step::Name(_) => 3,
    }
}

fn step_rank(a: &Step, b: &Step) -> (r: Rank)
    ensures
        r == rank_step(a@, b@),
{
    match (a, b) {
        (Step::Name(x), Step::Name(y)) => text::rank(x.as_str(), y.as_str()),
        _ => if place_of(a) < place_of(b) {
            Rank::Before
        } else if place_of(b) < place_of(a) {
            Rank::After
        } else {
            Rank::Same
        },
    }
}

/// How two paths stand to each other.
pub fn path_rank(a: &str, b: &str) -> (r: Rank)
    ensures
        r == rank_paths(a@, b@),
{
    let x = steps_of(a);
    let y = steps_of(b);
    let ghost xs = seen(x@);
    let ghost ys = seen(y@);
    let mut i: usize = 0;
    proof {
        assert(xs.skip(0) =~= xs);
        assert(ys.skip(0) =~= ys);
    }
    while i < x.len() && i < y.len()
        invariant
            i <= x@.len(),
            i <= y@.len(),
            xs == seen(x@),
            ys == seen(y@),
            rank_paths(a@, b@) == rank_steps(xs.skip(i as int), ys.skip(i as int)),
        decreases x@.len() - i,
    {
        proof {
            assert(xs.skip(i as int)[0] == xs[i as int]);
            assert(ys.skip(i as int)[0] == ys[i as int]);
            assert(xs.skip(i as int).skip(1) =~= xs.skip(i + 1));
            assert(ys.skip(i as int).skip(1) =~= ys.skip(i + 1));
        }
        match step_rank(&x[i], &y[i]) {
            Rank::Same => {},
            other => return other,
        }
        i += 1;
    }
    if i < y.len() {
        Rank::Before
    } else if i < x.len() {
        Rank::After
    } else {
        Rank::Same
    }
}

proof fn step_order_turns_round(a: StepView, b: StepView)
    ensures
        rank_step(b, a) == rank_step(a, b).flipped(),
        rank_step(a, b) is Same <==> a == b,
{
    if let (StepView::Name(x), StepView::Name(y)) = (a, b) {
        text::rank_is_antisymmetric(x, y);
    }
}

proof fn step_order_carries_over(a: StepView, b: StepView, c: StepView)
    requires
        !(rank_step(a, b) is After),
        !(rank_step(b, c) is After),
    ensures
        !(rank_step(a, c) is After),
        rank_step(a, b) is Before || rank_step(b, c) is Before ==> rank_step(a, c) is Before,
{
    if let (StepView::Name(x), StepView::Name(y), StepView::Name(z)) = (a, b, c) {
        text::rank_is_transitive(x, y, z);
    }
}

/// The order of paths is total: it turns round when its sides are swapped, and
/// only one path stands where another does.
pub proof fn path_order_turns_round(a: Seq<StepView>, b: Seq<StepView>)
    ensures
        rank_steps(b, a) == rank_steps(a, b).flipped(),
        rank_steps(a, b) is Same <==> a == b,
    decreases a.len(),
{
    if a.len() > 0 && b.len() > 0 {
        step_order_turns_round(a[0], b[0]);
        path_order_turns_round(a.skip(1), b.skip(1));
        if a[0] == b[0] && a.skip(1) == b.skip(1) {
            assert(a =~= seq![a[0]] + a.skip(1));
            assert(b =~= seq![b[0]] + b.skip(1));
        }
    } else if a.len() == 0 && b.len() == 0 {
        assert(a =~= b);
    }
}

/// What comes before what comes before a path comes before it too.
pub proof fn path_order_carries_over(a: Seq<StepView>, b: Seq<StepView>, c: Seq<StepView>)
    requires
        !(rank_steps(a, b) is After),
        !(rank_steps(b, c) is After),
    ensures
        !(rank_steps(a, c) is After),
    decreases a.len(),
{
    if a.len() > 0 && b.len() > 0 && c.len() > 0 {
        step_order_carries_over(a[0], b[0], c[0]);
        if rank_step(a[0], b[0]) is Same && rank_step(b[0], c[0]) is Same {
            path_order_carries_over(a.skip(1), b.skip(1), c.skip(1));
        }
    }
}

/// Whether two texts write one path.
pub open spec fn same_path(a: Seq<char>, b: Seq<char>) -> bool {
    steps(a) == steps(b)
}

/// Whether two texts write one path.
pub fn same(a: &str, b: &str) -> (r: bool)
    ensures
        r == same_path(a@, b@),
{
    proof {
        path_order_turns_round(steps(a@), steps(b@));
    }
    matches!(path_rank(a, b), Rank::Same)
}

/// Whether two texts that may be absent write one path, or both are absent.
pub open spec fn same_path_opt(a: Option<Seq<char>>, b: Option<Seq<char>>) -> bool {
    match (a, b) {
        (Some(x), Some(y)) => same_path(x, y),
        (None, None) => true,
        _ => false,
    }
}

/// Whether two texts that may be absent write one path, or both are absent.
pub fn same_opt(a: &Option<String>, b: &Option<String>) -> (r: bool)
    ensures
        r == same_path_opt(text::opt_view(*a), text::opt_view(*b)),
{
    match (a, b) {
        (Some(x), Some(y)) => same(x.as_str(), y.as_str()),
        (None, None) => true,
        _ => false,
    }
}

/// A name behind a slash is the last step of a path, and what the path ends in.
pub proof fn a_path_ends_in_its_name(dir: Seq<char>, name: Seq<char>)
    requires
        name.len() > 0,
        forall|i: int| 0 <= i < name.len() ==> #[trigger] name[i] != '/',
        name != "."@,
        name != ".."@,
    ensures
        file_name(dir.push('/') + name) == Some(name),
        file_name(name) == Some(name),
{
    text::the_last_part_is_behind_the_last_separator(dir, '/', name);
    text::a_text_is_cut_at_its_separators(name, '/', Seq::empty());
    let parts = text::split(dir.push('/') + name, '/');
    let n = parts.len();
    assert(parts[n - 1] == name);
    assert(step_at(name, n - 1, n as int) == Some(StepView::Name(name)));
    assert(step_at(name, 0, 1) == Some(StepView::Name(name)));
    reveal_with_fuel(steps_in, 2);
    assert(steps_in(seq![name], 1) =~= seq![StepView::Name(name)]);
}

/// A slash at the end, and a dot behind a slash, lead nowhere: the path is the
/// same without them.
pub proof fn a_slash_at_the_end_leads_nowhere(path: Seq<char>)
    requires
        path.len() > 0,
        path != "/"@,
        steps_in(text::split(path, '/'), text::split(path, '/').len()).len() > 0,
        text::split(path, '/').len() > 1,
    ensures
        same_path(path.push('/'), path),
        same_path(path.push('/') + "."@, path),
{
    reveal_strlit(".");
    let none = Seq::<char>::empty();
    text::the_last_part_is_behind_the_last_separator(path, '/', none);
    assert(path.push('/') + none =~= path.push('/'));
    text::the_last_part_is_behind_the_last_separator(path, '/', "."@);
    let parts = text::split(path, '/');
    let n = parts.len();
    let a = parts.push(none);
    let b = parts.push("."@);
    more_parts(parts, a, n);
    more_parts(parts, b, n);
    assert(step_at(a[n as int], n as int, (n + 1) as int) is None);
    assert(step_at(b[n as int], n as int, (n + 1) as int) is None);
}

proof fn more_parts(parts: Seq<Seq<char>>, more: Seq<Seq<char>>, k: nat)
    requires
        parts.len() > 1,
        more.len() > 1,
        k <= parts.len(),
        k <= more.len(),
        forall|i: int| 0 <= i < k ==> #[trigger] parts[i] == more[i],
    ensures
        steps_in(parts, k) == steps_in(more, k),
    decreases k,
{
    if k > 0 {
        more_parts(parts, more, (k - 1) as nat);
    }
}

} // verus!
