//! Full directory replace, used to mirror ref directories: the destination
//! is deleted if present, recreated, and given a copy of every direct entry
//! of the source.
//!
//! The steps are checked against a model of the file system as a map from
//! directory paths to their entries (name to contents).

use vstd::prelude::*;

use crate::depot::{Depot, DepotError, ReplacePlan};

verus! {

/// One file-system action.
#[derive(Clone, Debug)]
pub enum FsStep {
    /// Delete `dir` and everything in it.
    RemoveDirAll { dir: String },
    /// Create `dir` and its missing parents.
    CreateDirAll { dir: String },
    /// Copy the file `name` of `src_dir` to `dst_dir`, under the same name.
    Copy { src_dir: String, dst_dir: String, name: String },
}

/// What a step does, over plain sequences.
pub enum StepView {
    RemoveDirAll(Seq<char>),
    CreateDirAll(Seq<char>),
    Copy(Seq<char>, Seq<char>, Seq<char>),
}

impl View for FsStep {
    type V = StepView;

    open spec fn view(&self) -> StepView {
        match self {
            FsStep::RemoveDirAll { dir } => StepView::RemoveDirAll(dir@),
            FsStep::CreateDirAll { dir } => StepView::CreateDirAll(dir@),
            FsStep::Copy { src_dir, dst_dir, name } => StepView::Copy(src_dir@, dst_dir@, name@),
        }
    }
}

/// Directories, each a map from entry name to contents.
pub type Dirs = Map<Seq<char>, Map<Seq<char>, Seq<u8>>>;

pub open spec fn apply_step(fs: Dirs, step: StepView) -> Dirs {
    match step {
        StepView::RemoveDirAll(d) => fs.remove(d),
        StepView::CreateDirAll(d) => if fs.contains_key(d) {
            fs
        } else {
            fs.insert(d, Map::empty())
        },
        StepView::Copy(s, d, n) => if fs.contains_key(s) && fs[s].contains_key(n)
            && fs.contains_key(d) {
            fs.insert(d, fs[d].insert(n, fs[s][n]))
        } else {
            fs
        },
    }
}

/// The file system after carrying out `steps` in order.
pub open spec fn run(fs: Dirs, steps: Seq<StepView>) -> Dirs
    decreases steps.len(),
{
    if steps.len() == 0 {
        fs
    } else {
        apply_step(run(fs, steps.drop_last()), steps.last())
    }
}

pub open spec fn copies_spec(src: Seq<char>, dst: Seq<char>, names: Seq<Seq<char>>) -> Seq<
    StepView,
> {
    Seq::new(names.len(), |i: int| StepView::Copy(src, dst, names[i]))
}

/// The steps of a replace of `dst` by `src`, whose entries are `names`.
pub open spec fn replace_steps_spec(
    src: Seq<char>,
    dst: Seq<char>,
    dst_exists: bool,
    names: Seq<Seq<char>>,
) -> Seq<StepView> {
    let head = if dst_exists {
        seq![StepView::RemoveDirAll(dst), StepView::CreateDirAll(dst)]
    } else {
        seq![StepView::CreateDirAll(dst)]
    };
    head + copies_spec(src, dst, names)
}

pub open spec fn names_view(entries: Seq<String>) -> Seq<Seq<char>> {
    entries.map_values(|e: String| e@)
}

pub open spec fn steps_view(steps: Seq<FsStep>) -> Seq<StepView> {
    steps.map_values(|s: FsStep| s@)
}

proof fn lemma_run_append(fs: Dirs, a: Seq<StepView>, b: Seq<StepView>)
    ensures
        run(fs, a + b) == run(run(fs, a), b),
    decreases b.len(),
{
    if b.len() == 0 {
        assert(a + b =~= a);
    } else {
        lemma_run_append(fs, a, b.drop_last());
        assert((a + b).drop_last() =~= a + b.drop_last());
    }
}

proof fn lemma_copies(fs: Dirs, src: Seq<char>, dst: Seq<char>, names: Seq<Seq<char>>, k: int)
    requires
        fs.contains_key(src),
        fs.contains_key(dst),
        fs[dst] == Map::<Seq<char>, Seq<u8>>::empty(),
        src != dst,
        0 <= k <= names.len(),
        forall|j: int| 0 <= j < names.len() ==> fs[src].contains_key(names[j]),
    ensures
        run(fs, copies_spec(src, dst, names.take(k))).contains_key(src),
        run(fs, copies_spec(src, dst, names.take(k)))[src] == fs[src],
        run(fs, copies_spec(src, dst, names.take(k))).contains_key(dst),
        run(fs, copies_spec(src, dst, names.take(k)))[dst] =~= Map::new(
            |n: Seq<char>| exists|j: int| 0 <= j < k && names[j] == n,
            |n: Seq<char>| fs[src][n],
        ),
    decreases k,
{
    if k > 0 {
        lemma_copies(fs, src, dst, names, k - 1);
        assert(copies_spec(src, dst, names.take(k)).drop_last() =~= copies_spec(
            src,
            dst,
            names.take(k - 1),
        ));
        let prev = run(fs, copies_spec(src, dst, names.take(k - 1)));
        let cur = run(fs, copies_spec(src, dst, names.take(k)));
        assert(cur == apply_step(prev, StepView::Copy(src, dst, names[k - 1])));
        assert forall|n: Seq<char>| cur[dst].contains_key(n) <==> exists|j: int|
            0 <= j < k && names[j] == n by {
            if n == names[k - 1] {
                assert(0 <= k - 1 < k && names[k - 1] == n);
            } else if exists|j: int| 0 <= j < k && names[j] == n {
                let j = choose|j: int| 0 <= j < k && names[j] == n;
                assert(0 <= j < k - 1 && names[j] == n);
            }
        }
    } else {
        assert(copies_spec(src, dst, names.take(0)) =~= Seq::<StepView>::empty());
    }
}

/// A replace leaves the destination holding exactly the entries of the
/// source, whatever the destination held before, and leaves the source as it
/// was.
pub proof fn lemma_replace_mirrors_source(
    fs: Dirs,
    src: Seq<char>,
    dst: Seq<char>,
    names: Seq<Seq<char>>,
)
    requires
        fs.contains_key(src),
        src != dst,
        forall|n: Seq<char>| fs[src].contains_key(n) <==> names.contains(n),
    ensures
        run(fs, replace_steps_spec(src, dst, fs.contains_key(dst), names)).contains_key(dst),
        run(fs, replace_steps_spec(src, dst, fs.contains_key(dst), names))[dst] == fs[src],
        run(fs, replace_steps_spec(src, dst, fs.contains_key(dst), names)).contains_key(src),
        run(fs, replace_steps_spec(src, dst, fs.contains_key(dst), names))[src] == fs[src],
{
    let dst_exists = fs.contains_key(dst);
    let head = if dst_exists {
        seq![StepView::RemoveDirAll(dst), StepView::CreateDirAll(dst)]
    } else {
        seq![StepView::CreateDirAll(dst)]
    };
    let copies = copies_spec(src, dst, names);
    lemma_run_append(fs, head, copies);
    let h = run(fs, head);
    if dst_exists {
        let h1 = head.drop_last();
        assert(h1.drop_last() =~= Seq::<StepView>::empty());
        assert(run(fs, h1.drop_last()) == fs);
        assert(run(fs, h1) == apply_step(fs, StepView::RemoveDirAll(dst)));
        assert(h == apply_step(run(fs, h1), StepView::CreateDirAll(dst)));
    } else {
        assert(head.drop_last() =~= Seq::<StepView>::empty());
        assert(run(fs, head.drop_last()) == fs);
        assert(h == apply_step(fs, StepView::CreateDirAll(dst)));
    }
    assert(h[dst] == Map::<Seq<char>, Seq<u8>>::empty());
    assert forall|j: int| 0 <= j < names.len() implies h[src].contains_key(names[j]) by {
        assert(names.contains(names[j]));
    }
    assert(names.take(names.len() as int) =~= names);
    lemma_copies(h, src, dst, names, names.len() as int);
    let r = run(h, copies);
    assert forall|n: Seq<char>| r[dst].contains_key(n) <==> fs[src].contains_key(n) by {
        if names.contains(n) {
            let j = choose|j: int| 0 <= j < names.len() && names[j] == n;
        }
    }
    assert(r[dst] =~= fs[src]);
}

/// Replacing twice with the same source gives the destination the same
/// contents as replacing once: the source's.
pub proof fn lemma_replace_idempotent(
    fs: Dirs,
    src: Seq<char>,
    dst: Seq<char>,
    names: Seq<Seq<char>>,
)
    requires
        fs.contains_key(src),
        src != dst,
        forall|n: Seq<char>| fs[src].contains_key(n) <==> names.contains(n),
    ensures
        ({
            let once = run(fs, replace_steps_spec(src, dst, fs.contains_key(dst), names));
            let twice = run(once, replace_steps_spec(src, dst, once.contains_key(dst), names));
            &&& once[dst] == fs[src]
            &&& twice[dst] == once[dst]
            &&& twice.contains_key(src)
            &&& twice[src] == fs[src]
        }),
{
    lemma_replace_mirrors_source(fs, src, dst, names);
    let once = run(fs, replace_steps_spec(src, dst, fs.contains_key(dst), names));
    lemma_replace_mirrors_source(once, src, dst, names);
}

impl Depot {
    /// Plans the replace of `plan.dst` by `plan.src`, given whether each
    /// exists and the names of the source's direct entries. A missing
    /// source is refused.
    pub fn replace_dir(
        plan: &ReplacePlan,
        src_exists: bool,
        dst_exists: bool,
        entries: &Vec<String>,
    ) -> (r: Result<Vec<FsStep>, DepotError>)
        ensures
            r is Err <==> !src_exists,
            r matches Err(e) ==> (e matches DepotError::MissingSource(s) && s@ == plan.src@),
            r matches Ok(steps) ==> steps_view(steps@) == replace_steps_spec(
                plan.src@,
                plan.dst@,
                dst_exists,
                names_view(entries@),
            ),
    {
        if !src_exists {
            return Err(DepotError::MissingSource(plan.src.clone()));
        }
        let mut steps: Vec<FsStep> = Vec::new();
        if dst_exists {
            steps.push(FsStep::RemoveDirAll { dir: plan.dst.clone() });
        }
        steps.push(FsStep::CreateDirAll { dir: plan.dst.clone() });
        let ghost head = steps_view(steps@);
        assert(head =~= replace_steps_spec(plan.src@, plan.dst@, dst_exists, Seq::empty()));
        let mut i: usize = 0;
        while i < entries.len()
            invariant
                0 <= i <= entries@.len(),
                head.len() == if dst_exists { 2int } else { 1int },
                steps_view(steps@) =~= head + copies_spec(
                    plan.src@,
                    plan.dst@,
                    names_view(entries@).take(i as int),
                ),
                replace_steps_spec(plan.src@, plan.dst@, dst_exists, names_view(entries@))
                    =~= head + copies_spec(plan.src@, plan.dst@, names_view(entries@)),
            decreases entries@.len() - i,
        {
            let step = FsStep::Copy {
                src_dir: plan.src.clone(),
                dst_dir: plan.dst.clone(),
                name: entries[i].clone(),
            };
            assert(step@ == StepView::Copy(plan.src@, plan.dst@, names_view(entries@)[i as int]));
            let ghost before = steps@;
            steps.push(step);
            assert(steps_view(steps@) =~= steps_view(before).push(step@));
            i = i + 1;
            assert(steps_view(steps@) =~= head + copies_spec(
                plan.src@,
                plan.dst@,
                names_view(entries@).take(i as int),
            ));
        }
        assert(names_view(entries@).take(i as int) =~= names_view(entries@));
        Ok(steps)
    }
}

} // verus!
