//! The filesystem synchronizer's decision logic: which root-directory
//! action to take, which resolved paths still have to be created, and which
//! empty, unmanaged directories a cleanup pass removes.
//!
//! Everything here is pure: the caller supplies a snapshot of the tree
//! (directory and file paths with separators normalized to `/`) and carries
//! out the returned plan with real filesystem calls.

use vstd::prelude::*;

verus! {

use vstd::string::StringExecFns;
use crate::config::ConfigError;
use crate::init::OperationType;
use crate::init::ProjectSetup;
use crate::strings::lemma_strings_view_push;
use crate::strings::seq_starts_with;
use crate::strings::str_eq;
use crate::strings::str_starts_with;
use crate::strings::strings_view;
use crate::strings::vec_contains_str;

/// What to do about the project root directory before any subdirectory
/// work: rename an existing directory, create the root, or leave it alone.
#[derive(Debug, Clone)]
pub enum RootAction {
    Rename { from: String, to: String },
    Create(String),
    Keep,
}

/// The mathematical content of a [`RootAction`].
pub ghost enum RootActionView {
    Rename(Seq<char>, Seq<char>),
    Create(Seq<char>),
    Keep,
}

impl View for RootAction {
    type V = RootActionView;

    open spec fn view(&self) -> RootActionView {
        match self {
            RootAction::Rename { from, to } => RootActionView::Rename(from@, to@),
            RootAction::Create(n) => RootActionView::Create(n@),
            RootAction::Keep => RootActionView::Keep,
        }
    }
}

/// The root decision without a deadname: rename the old root in place when
/// an update changes the project name and the old root exists; otherwise
/// create the root when it is missing; otherwise leave everything alone.
pub open spec fn spec_root_action(
    old_name: Seq<char>,
    new_name: Seq<char>,
    op_type: OperationType,
    old_config_exists: bool,
    old_root_exists: bool,
    new_root_exists: bool,
) -> RootActionView {
    if old_config_exists && op_type is Update && old_root_exists && old_name != new_name {
        RootActionView::Rename(old_name, new_name)
    } else if !new_root_exists {
        RootActionView::Create(new_name)
    } else {
        RootActionView::Keep
    }
}

/// Decides the root action for a setup without a deadname. The existence
/// flags describe the directory tree as the caller found it.
pub fn plan_root_action(
    old_setup: &ProjectSetup,
    setup: &ProjectSetup,
    op_type: &OperationType,
    old_config_exists: bool,
    old_root_exists: bool,
    new_root_exists: bool,
) -> (r: RootAction)
    ensures
        r@ == spec_root_action(
            old_setup.name@,
            setup.name@,
            *op_type,
            old_config_exists,
            old_root_exists,
            new_root_exists,
        ),
{
    let is_update = match op_type {
        OperationType::Update => true,
        _ => false,
    };
    if old_config_exists && is_update && old_root_exists && !str_eq(
        old_setup.name.as_str(),
        setup.name.as_str(),
    ) {
        RootAction::Rename { from: old_setup.name.clone(), to: setup.name.clone() }
    } else if !new_root_exists {
        RootAction::Create(setup.name.clone())
    } else {
        RootAction::Keep
    }
}

/// The root decision with a deadname: adopt the deadname directory by
/// renaming it when it exists; otherwise create the root when it is
/// missing; otherwise leave everything alone.
pub open spec fn spec_root_action_deadname(
    deadname: Seq<char>,
    new_name: Seq<char>,
    deadname_exists: bool,
    new_root_exists: bool,
) -> RootActionView {
    if deadname_exists {
        RootActionView::Rename(deadname, new_name)
    } else if !new_root_exists {
        RootActionView::Create(new_name)
    } else {
        RootActionView::Keep
    }
}

/// Decides the root action when the setup names a prior directory to adopt.
pub fn plan_root_action_deadname(
    deadname: &str,
    setup: &ProjectSetup,
    deadname_exists: bool,
    new_root_exists: bool,
) -> (r: RootAction)
    ensures
        r@ == spec_root_action_deadname(
            deadname@,
            setup.name@,
            deadname_exists,
            new_root_exists,
        ),
{
    if deadname_exists {
        RootAction::Rename { from: deadname.to_owned(), to: setup.name.clone() }
    } else if !new_root_exists {
        RootAction::Create(setup.name.clone())
    } else {
        RootAction::Keep
    }
}

/// The resolved paths that are not present yet, in resolved order.
pub open spec fn spec_missing(paths: Seq<Seq<char>>, existing: Seq<Seq<char>>) -> Seq<Seq<char>>
    decreases paths.len(),
{
    if paths.len() == 0 {
        Seq::empty()
    } else {
        let rest = spec_missing(paths.drop_last(), existing);
        if existing.contains(paths.last()) {
            rest
        } else {
            rest.push(paths.last())
        }
    }
}

/// Filters the resolved path set down to the paths that do not exist yet;
/// those are the directories a synchronization run creates.
pub fn missing_paths(paths: &Vec<String>, existing: &Vec<String>) -> (r: Vec<String>)
    ensures
        strings_view(r@) == spec_missing(strings_view(paths@), strings_view(existing@)),
{
    let n = paths.len();
    let mut r: Vec<String> = Vec::new();
    let mut i: usize = 0;
    while i < n
        invariant
            n == paths@.len(),
            i <= n,
            strings_view(r@) == spec_missing(
                strings_view(paths@).subrange(0, i as int),
                strings_view(existing@),
            ),
        decreases n - i,
    {
        let p = &paths[i];
        proof {
            let pv = strings_view(paths@);
            assert(pv.subrange(0, i + 1 as int).drop_last() =~= pv.subrange(0, i as int));
            assert(pv.subrange(0, i + 1 as int).last() == p@);
        }
        if !vec_contains_str(existing, p.as_str()) {
            let ghost prev = r@;
            let pc = p.clone();
            r.push(pc);
            proof {
                lemma_strings_view_push(prev, pc);
            }
        }
        i += 1;
    }
    proof {
        assert(strings_view(paths@).subrange(0, n as int) =~= strings_view(paths@));
    }
    r
}

/// Running the synchronizer against a tree it has just produced is a no-op:
/// with the project name unchanged and the root present, the root decision
/// keeps everything in place, and with every resolved path present nothing
/// is left to create.
pub proof fn lemma_synchronizer_idempotent(
    name: Seq<char>,
    old_root_exists: bool,
    paths: Seq<Seq<char>>,
    existing: Seq<Seq<char>>,
)
    requires
        forall|i: int| 0 <= i < paths.len() ==> existing.contains(#[trigger] paths[i]),
    ensures
        spec_root_action(name, name, OperationType::Update, true, old_root_exists, true)
            is Keep,
        spec_missing(paths, existing) == Seq::<Seq<char>>::empty(),
    decreases paths.len(),
{
    if paths.len() > 0 {
        lemma_synchronizer_idempotent(name, old_root_exists, paths.drop_last(), existing);
        assert(paths[paths.len() - 1] == paths.last());
    }
}

/// The directory at index `k` may be removed: nothing on the tree lives
/// under it (no still-alive directory and no file), and it is not a member
/// of the resolved path set (compared under the caller's `./` prefix).
pub open spec fn spec_removable(
    dirs: Seq<Seq<char>>,
    files: Seq<Seq<char>>,
    valid: Seq<Seq<char>>,
    alive: Seq<bool>,
    k: int,
) -> bool {
    &&& (forall|j: int|
        0 <= j < dirs.len() && alive[j] ==> !seq_starts_with(#[trigger] dirs[j], dirs[k] + "/"@))
    &&& (forall|j: int| 0 <= j < files.len() ==> !seq_starts_with(#[trigger] files[j], dirs[k] + "/"@))
    &&& !(exists|p: int| 0 <= p < valid.len() && "./"@ + #[trigger] valid[p] == dirs[k])
}

/// One pruning pass over the first `i` directories, in walk order: the
/// remaining alive flags and the paths removed, in removal order.
pub open spec fn spec_pass_collect(
    dirs: Seq<Seq<char>>,
    files: Seq<Seq<char>>,
    valid: Seq<Seq<char>>,
    alive: Seq<bool>,
    i: int,
) -> (Seq<bool>, Seq<Seq<char>>)
    decreases i,
{
    if i <= 0 {
        (alive, Seq::empty())
    } else {
        let prev = spec_pass_collect(dirs, files, valid, alive, i - 1);
        if prev.0[i - 1] && spec_removable(dirs, files, valid, prev.0, i - 1) {
            (prev.0.update(i - 1, false), prev.1.push(dirs[i - 1]))
        } else {
            prev
        }
    }
}

/// The state after `n` full pruning passes, together with everything
/// removed so far, starting from a tree where every directory is alive.
pub open spec fn spec_prune_rounds(
    dirs: Seq<Seq<char>>,
    files: Seq<Seq<char>>,
    valid: Seq<Seq<char>>,
    n: nat,
) -> (Seq<bool>, Seq<Seq<char>>)
    decreases n,
{
    if n == 0 {
        (Seq::new(dirs.len(), |i: int| true), Seq::empty())
    } else {
        let prev = spec_prune_rounds(dirs, files, valid, (n - 1) as nat);
        let pass = spec_pass_collect(dirs, files, valid, prev.0, dirs.len() as int);
        (pass.0, prev.1 + pass.1)
    }
}

/// A pass only clears alive flags, and it removes something exactly when
/// the flags change.
proof fn lemma_pass_props(
    dirs: Seq<Seq<char>>,
    files: Seq<Seq<char>>,
    valid: Seq<Seq<char>>,
    alive: Seq<bool>,
    i: int,
)
    requires
        alive.len() == dirs.len(),
        0 <= i <= dirs.len(),
    ensures
        spec_pass_collect(dirs, files, valid, alive, i).0.len() == alive.len(),
        forall|idx: int|
            0 <= idx < alive.len() && #[trigger] spec_pass_collect(dirs, files, valid, alive, i).0[idx]
                ==> alive[idx],
        (spec_pass_collect(dirs, files, valid, alive, i).1.len() == 0) <==> (spec_pass_collect(
            dirs,
            files,
            valid,
            alive,
            i,
        ).0 == alive),
    decreases i,
{
    if i > 0 {
        lemma_pass_props(dirs, files, valid, alive, i - 1);
        let prev = spec_pass_collect(dirs, files, valid, alive, i - 1);
        let cur = spec_pass_collect(dirs, files, valid, alive, i);
        if prev.0[i - 1] && spec_removable(dirs, files, valid, prev.0, i - 1) {
            assert(alive[i - 1]);
            assert(!cur.0[i - 1]);
            assert(cur.0 != alive);
        } else {
        }
    } else {
        assert(spec_pass_collect(dirs, files, valid, alive, i).0 == alive);
    }
}

proof fn lemma_rounds_len(dirs: Seq<Seq<char>>, files: Seq<Seq<char>>, valid: Seq<Seq<char>>, n: nat)
    ensures
        spec_prune_rounds(dirs, files, valid, n).0.len() == dirs.len(),
    decreases n,
{
    if n > 0 {
        lemma_rounds_len(dirs, files, valid, (n - 1) as nat);
        lemma_pass_props(
            dirs,
            files,
            valid,
            spec_prune_rounds(dirs, files, valid, (n - 1) as nat).0,
            dirs.len() as int,
        );
    }
}

/// Once a pass changes nothing, every later pass changes nothing and
/// removes nothing more: the fixed point is stable.
proof fn lemma_rounds_fix(
    dirs: Seq<Seq<char>>,
    files: Seq<Seq<char>>,
    valid: Seq<Seq<char>>,
    n: nat,
    m: nat,
)
    requires
        n >= 1,
        n <= m,
        spec_prune_rounds(dirs, files, valid, n).0 == spec_prune_rounds(
            dirs,
            files,
            valid,
            (n - 1) as nat,
        ).0,
    ensures
        spec_prune_rounds(dirs, files, valid, m).0 == spec_prune_rounds(dirs, files, valid, n).0,
        spec_prune_rounds(dirs, files, valid, m).1 == spec_prune_rounds(dirs, files, valid, n).1,
    decreases m - n,
{
    lemma_rounds_len(dirs, files, valid, (n - 1) as nat);
    let a = spec_prune_rounds(dirs, files, valid, (n - 1) as nat).0;
    lemma_pass_props(dirs, files, valid, a, dirs.len() as int);
    if m > n {
        lemma_rounds_fix(dirs, files, valid, n, (m - 1) as nat);
        let prev = spec_prune_rounds(dirs, files, valid, (m - 1) as nat);
        let pass = spec_pass_collect(dirs, files, valid, prev.0, dirs.len() as int);
        assert(prev.0 == a);
        assert(pass.0 == a);
        assert(pass.1.len() == 0);
        assert(prev.1 + pass.1 =~= prev.1);
    } else {
        // n == m: trivial
        let passn = spec_pass_collect(dirs, files, valid, a, dirs.len() as int);
        assert(passn.1.len() == 0);
    }
}

/// Directory `k` is a member of the resolved path set.
pub open spec fn spec_is_managed(dirs: Seq<Seq<char>>, valid: Seq<Seq<char>>, k: int) -> bool {
    exists|p: int| 0 <= p < valid.len() && "./"@ + #[trigger] valid[p] == dirs[k]
}

proof fn lemma_pass_only_managed_alive(
    dirs: Seq<Seq<char>>,
    files: Seq<Seq<char>>,
    valid: Seq<Seq<char>>,
    alive: Seq<bool>,
    i: int,
)
    requires
        alive.len() == dirs.len(),
        0 <= i <= dirs.len(),
        forall|k: int| 0 <= k < dirs.len() && alive[k] ==> spec_is_managed(dirs, valid, k),
    ensures
        spec_pass_collect(dirs, files, valid, alive, i) == (alive, Seq::<Seq<char>>::empty()),
    decreases i,
{
    if i > 0 {
        lemma_pass_only_managed_alive(dirs, files, valid, alive, i - 1);
        if alive[i - 1] {
            assert(spec_is_managed(dirs, valid, i - 1));
            assert(!spec_removable(dirs, files, valid, alive, i - 1));
        }
    }
}

/// Pruning a tree that holds only resolved-set directories removes nothing:
/// every pass leaves every directory alive, so the cleanup reaches its
/// fixed point at once with an empty removal list.
pub proof fn lemma_prune_keeps_managed_tree(
    dirs: Seq<Seq<char>>,
    files: Seq<Seq<char>>,
    valid: Seq<Seq<char>>,
    n: nat,
)
    requires
        forall|k: int| 0 <= k < dirs.len() ==> spec_is_managed(dirs, valid, k),
    ensures
        spec_prune_rounds(dirs, files, valid, n).0 == Seq::new(dirs.len(), |i: int| true),
        spec_prune_rounds(dirs, files, valid, n).1 == Seq::<Seq<char>>::empty(),
    decreases n,
{
    let all_true = Seq::new(dirs.len(), |i: int| true);
    if n > 0 {
        lemma_prune_keeps_managed_tree(dirs, files, valid, (n - 1) as nat);
        lemma_pass_only_managed_alive(dirs, files, valid, all_true, dirs.len() as int);
        assert(spec_prune_rounds(dirs, files, valid, n).1 =~= Seq::<Seq<char>>::empty());
    }
}

proof fn lemma_pass_removes_leaf(
    dirs: Seq<Seq<char>>,
    files: Seq<Seq<char>>,
    valid: Seq<Seq<char>>,
    x: int,
    i: int,
)
    requires
        0 <= x < dirs.len(),
        0 <= i <= dirs.len(),
        forall|k: int| 0 <= k < dirs.len() && k != x ==> spec_is_managed(dirs, valid, k),
        !spec_is_managed(dirs, valid, x),
        forall|j: int| 0 <= j < dirs.len() ==> !seq_starts_with(#[trigger] dirs[j], dirs[x] + "/"@),
        forall|j: int| 0 <= j < files.len() ==> !seq_starts_with(#[trigger] files[j], dirs[x] + "/"@),
    ensures
        spec_pass_collect(dirs, files, valid, Seq::new(dirs.len(), |t: int| true), i) == (if i <= x {
            (Seq::new(dirs.len(), |t: int| true), Seq::<Seq<char>>::empty())
        } else {
            (Seq::new(dirs.len(), |t: int| true).update(x, false), seq![dirs[x]])
        }),
    decreases i,
{
    let all_true = Seq::new(dirs.len(), |t: int| true);
    if i > 0 {
        lemma_pass_removes_leaf(dirs, files, valid, x, i - 1);
        let prev = spec_pass_collect(dirs, files, valid, all_true, i - 1);
        if i - 1 < x {
            assert(spec_is_managed(dirs, valid, i - 1));
            assert(!spec_removable(dirs, files, valid, prev.0, i - 1));
        } else if i - 1 == x {
            assert(prev.0 == all_true);
            assert(spec_removable(dirs, files, valid, prev.0, x));
            assert(spec_pass_collect(dirs, files, valid, all_true, i).1 =~= seq![dirs[x]]);
        } else {
            assert(spec_is_managed(dirs, valid, i - 1));
            assert(!spec_removable(dirs, files, valid, prev.0, i - 1));
        }
    }
}

/// Pruning a tree with exactly one extra directory that is empty and not in
/// the resolved set removes exactly that directory: the first pass removes
/// it, the second pass changes nothing, and the cleanup ends at its fixed
/// point.
pub proof fn lemma_prune_removes_extra_leaf(
    dirs: Seq<Seq<char>>,
    files: Seq<Seq<char>>,
    valid: Seq<Seq<char>>,
    x: int,
    n: nat,
)
    requires
        0 <= x < dirs.len(),
        n >= 1,
        forall|k: int| 0 <= k < dirs.len() && k != x ==> spec_is_managed(dirs, valid, k),
        !spec_is_managed(dirs, valid, x),
        forall|j: int| 0 <= j < dirs.len() ==> !seq_starts_with(#[trigger] dirs[j], dirs[x] + "/"@),
        forall|j: int| 0 <= j < files.len() ==> !seq_starts_with(#[trigger] files[j], dirs[x] + "/"@),
    ensures
        spec_prune_rounds(dirs, files, valid, n).0 == Seq::new(dirs.len(), |t: int| true).update(
            x,
            false,
        ),
        spec_prune_rounds(dirs, files, valid, n).1 == seq![dirs[x]],
    decreases n,
{
    let all_true = Seq::new(dirs.len(), |t: int| true);
    let pruned = all_true.update(x, false);
    if n == 1 {
        assert(spec_prune_rounds(dirs, files, valid, 0).0 =~= all_true);
        lemma_pass_removes_leaf(dirs, files, valid, x, dirs.len() as int);
        assert(spec_prune_rounds(dirs, files, valid, 1).0 =~= pruned);
        assert(spec_prune_rounds(dirs, files, valid, 1).1 =~= seq![dirs[x]]);
    } else {
        lemma_prune_removes_extra_leaf(dirs, files, valid, x, (n - 1) as nat);
        assert(spec_prune_rounds(dirs, files, valid, (n - 1) as nat).0 =~= pruned);
        assert(forall|k: int|
            0 <= k < dirs.len() && #[trigger] pruned[k] ==> spec_is_managed(dirs, valid, k));
        lemma_pass_only_managed_alive(dirs, files, valid, pruned, dirs.len() as int);
        assert(spec_prune_rounds(dirs, files, valid, n).0 =~= pruned);
        assert(spec_prune_rounds(dirs, files, valid, n).1 =~= seq![dirs[x]]);
    }
}

proof fn lemma_pass_cascade_first(
    dirs: Seq<Seq<char>>,
    files: Seq<Seq<char>>,
    valid: Seq<Seq<char>>,
    ip: int,
    ic: int,
    i: int,
)
    requires
        0 <= ip < ic < dirs.len(),
        0 <= i <= dirs.len(),
        seq_starts_with(dirs[ic], dirs[ip] + "/"@),
        !spec_is_managed(dirs, valid, ip),
        !spec_is_managed(dirs, valid, ic),
        forall|k: int| 0 <= k < dirs.len() && k != ip && k != ic ==> spec_is_managed(dirs, valid, k),
        forall|j: int| 0 <= j < dirs.len() ==> !seq_starts_with(#[trigger] dirs[j], dirs[ic] + "/"@),
        forall|j: int| 0 <= j < files.len() ==> !seq_starts_with(#[trigger] files[j], dirs[ic] + "/"@),
    ensures
        spec_pass_collect(dirs, files, valid, Seq::new(dirs.len(), |t: int| true), i) == (if i
            <= ic {
            (Seq::new(dirs.len(), |t: int| true), Seq::<Seq<char>>::empty())
        } else {
            (Seq::new(dirs.len(), |t: int| true).update(ic, false), seq![dirs[ic]])
        }),
    decreases i,
{
    let all_true = Seq::new(dirs.len(), |t: int| true);
    if i > 0 {
        lemma_pass_cascade_first(dirs, files, valid, ip, ic, i - 1);
        let prev = spec_pass_collect(dirs, files, valid, all_true, i - 1);
        if i - 1 < ic {
            if i - 1 == ip {
                // the parent still holds its alive child, so it is not empty
                assert(prev.0[ic] && seq_starts_with(dirs[ic], dirs[ip] + "/"@));
                assert(!spec_removable(dirs, files, valid, prev.0, ip));
            } else {
                assert(spec_is_managed(dirs, valid, i - 1));
                assert(!spec_removable(dirs, files, valid, prev.0, i - 1));
            }
        } else if i - 1 == ic {
            assert(prev.0 == all_true);
            assert(spec_removable(dirs, files, valid, prev.0, ic));
            assert(spec_pass_collect(dirs, files, valid, all_true, i).1 =~= seq![dirs[ic]]);
        } else {
            assert(spec_is_managed(dirs, valid, i - 1));
            assert(!spec_removable(dirs, files, valid, prev.0, i - 1));
        }
    }
}

proof fn lemma_pass_cascade_second(
    dirs: Seq<Seq<char>>,
    files: Seq<Seq<char>>,
    valid: Seq<Seq<char>>,
    ip: int,
    ic: int,
    i: int,
)
    requires
        0 <= ip < ic < dirs.len(),
        0 <= i <= dirs.len(),
        !spec_is_managed(dirs, valid, ip),
        forall|k: int| 0 <= k < dirs.len() && k != ip && k != ic ==> spec_is_managed(dirs, valid, k),
        forall|j: int|
            0 <= j < dirs.len() && j != ic ==> !seq_starts_with(
                #[trigger] dirs[j],
                dirs[ip] + "/"@,
            ),
        forall|j: int| 0 <= j < files.len() ==> !seq_starts_with(#[trigger] files[j], dirs[ip] + "/"@),
    ensures
        spec_pass_collect(
            dirs,
            files,
            valid,
            Seq::new(dirs.len(), |t: int| true).update(ic, false),
            i,
        ) == (if i <= ip {
            (Seq::new(dirs.len(), |t: int| true).update(ic, false), Seq::<Seq<char>>::empty())
        } else {
            (
                Seq::new(dirs.len(), |t: int| true).update(ic, false).update(ip, false),
                seq![dirs[ip]],
            )
        }),
    decreases i,
{
    let s1 = Seq::new(dirs.len(), |t: int| true).update(ic, false);
    if i > 0 {
        lemma_pass_cascade_second(dirs, files, valid, ip, ic, i - 1);
        let prev = spec_pass_collect(dirs, files, valid, s1, i - 1);
        if i - 1 < ip {
            assert(spec_is_managed(dirs, valid, i - 1));
            assert(!spec_removable(dirs, files, valid, prev.0, i - 1));
        } else if i - 1 == ip {
            assert(prev.0 == s1);
            // the child is gone, so nothing alive is under the parent
            assert forall|j: int|
                0 <= j < dirs.len() && prev.0[j] implies !seq_starts_with(
                #[trigger] dirs[j],
                dirs[ip] + "/"@,
            ) by {
                if j == ic {
                    assert(!prev.0[ic]);
                }
            }
            assert(spec_removable(dirs, files, valid, prev.0, ip));
            assert(spec_pass_collect(dirs, files, valid, s1, i).1 =~= seq![dirs[ip]]);
        } else {
            if i - 1 == ic {
                assert(!prev.0[ic]);
            } else {
                assert(spec_is_managed(dirs, valid, i - 1));
                assert(!spec_removable(dirs, files, valid, prev.0, i - 1));
            }
        }
    }
}

/// Pruning cascades upward within one cleanup call: in a tree where only an
/// empty directory and its parent (empty but for that child, both outside
/// the resolved set, the parent walked first) are unmanaged, the first pass
/// removes the child, the next pass removes the parent that the removal
/// emptied, and the cleanup then reaches its fixed point.
pub proof fn lemma_prune_cascades_upward(
    dirs: Seq<Seq<char>>,
    files: Seq<Seq<char>>,
    valid: Seq<Seq<char>>,
    ip: int,
    ic: int,
    n: nat,
)
    requires
        0 <= ip < ic < dirs.len(),
        n >= 2,
        seq_starts_with(dirs[ic], dirs[ip] + "/"@),
        !spec_is_managed(dirs, valid, ip),
        !spec_is_managed(dirs, valid, ic),
        forall|k: int| 0 <= k < dirs.len() && k != ip && k != ic ==> spec_is_managed(dirs, valid, k),
        forall|j: int| 0 <= j < dirs.len() ==> !seq_starts_with(#[trigger] dirs[j], dirs[ic] + "/"@),
        forall|j: int|
            0 <= j < dirs.len() && j != ic ==> !seq_starts_with(
                #[trigger] dirs[j],
                dirs[ip] + "/"@,
            ),
        forall|j: int| 0 <= j < files.len() ==> !seq_starts_with(#[trigger] files[j], dirs[ic] + "/"@),
        forall|j: int| 0 <= j < files.len() ==> !seq_starts_with(#[trigger] files[j], dirs[ip] + "/"@),
    ensures
        spec_prune_rounds(dirs, files, valid, n).0 == Seq::new(dirs.len(), |t: int| true).update(
            ic,
            false,
        ).update(ip, false),
        spec_prune_rounds(dirs, files, valid, n).1 == seq![dirs[ic], dirs[ip]],
    decreases n,
{
    let all_true = Seq::new(dirs.len(), |t: int| true);
    let s1 = all_true.update(ic, false);
    let s2 = s1.update(ip, false);
    if n == 2 {
        assert(spec_prune_rounds(dirs, files, valid, 0).0 =~= all_true);
        lemma_pass_cascade_first(dirs, files, valid, ip, ic, dirs.len() as int);
        assert(spec_prune_rounds(dirs, files, valid, 1).0 =~= s1);
        assert(spec_prune_rounds(dirs, files, valid, 1).1 =~= seq![dirs[ic]]);
        lemma_pass_cascade_second(dirs, files, valid, ip, ic, dirs.len() as int);
        assert(spec_prune_rounds(dirs, files, valid, 2).0 =~= s2);
        assert(spec_prune_rounds(dirs, files, valid, 2).1 =~= seq![dirs[ic], dirs[ip]]);
    } else {
        lemma_prune_cascades_upward(dirs, files, valid, ip, ic, (n - 1) as nat);
        assert(spec_prune_rounds(dirs, files, valid, (n - 1) as nat).0 =~= s2);
        assert(forall|k: int|
            0 <= k < dirs.len() && #[trigger] s2[k] ==> spec_is_managed(dirs, valid, k));
        lemma_pass_only_managed_alive(dirs, files, valid, s2, dirs.len() as int);
        assert(spec_prune_rounds(dirs, files, valid, n).0 =~= s2);
        assert(spec_prune_rounds(dirs, files, valid, n).1 =~= seq![dirs[ic], dirs[ip]]);
    }
}

fn removable_at(
    dirs: &Vec<String>,
    files: &Vec<String>,
    valid: &Vec<String>,
    alive: &Vec<bool>,
    k: usize,
) -> (r: bool)
    requires
        k < dirs@.len(),
        alive@.len() == dirs@.len(),
    ensures
        r == spec_removable(
            strings_view(dirs@),
            strings_view(files@),
            strings_view(valid@),
            alive@,
            k as int,
        ),
{
    let ghost d = strings_view(dirs@);
    let ghost f = strings_view(files@);
    let ghost v = strings_view(valid@);
    let mut prefix = dirs[k].clone();
    prefix.push('/');
    proof {
        reveal_strlit("/");
        assert(prefix@ =~= d[k as int] + "/"@);
    }
    let n = dirs.len();
    let mut j: usize = 0;
    while j < n
        invariant
            n == dirs@.len(),
            k < n,
            alive@.len() == n,
            j <= n,
            d == strings_view(dirs@),
            prefix@ == d[k as int] + "/"@,
            forall|t: int| 0 <= t < j && alive@[t] ==> !seq_starts_with(#[trigger] d[t], prefix@),
        decreases n - j,
    {
        if alive[j] && str_starts_with(dirs[j].as_str(), prefix.as_str()) {
            proof {
                assert(d[j as int] == dirs@[j as int]@);
                assert(alive@[j as int] && seq_starts_with(d[j as int], d[k as int] + "/"@));
            }
            return false;
        }
        j += 1;
    }
    let fn_ = files.len();
    let mut j2: usize = 0;
    while j2 < fn_
        invariant
            fn_ == files@.len(),
            k < dirs@.len(),
            j2 <= fn_,
            d == strings_view(dirs@),
            f == strings_view(files@),
            prefix@ == d[k as int] + "/"@,
            forall|t: int| 0 <= t < j2 ==> !seq_starts_with(#[trigger] f[t], prefix@),
        decreases fn_ - j2,
    {
        if str_starts_with(files[j2].as_str(), prefix.as_str()) {
            proof {
                assert(f[j2 as int] == files@[j2 as int]@);
                assert(seq_starts_with(f[j2 as int], d[k as int] + "/"@));
            }
            return false;
        }
        j2 += 1;
    }
    let vn = valid.len();
    let mut j3: usize = 0;
    while j3 < vn
        invariant
            vn == valid@.len(),
            k < dirs@.len(),
            j3 <= vn,
            d == strings_view(dirs@),
            v == strings_view(valid@),
            forall|t: int| 0 <= t < j3 ==> "./"@ + #[trigger] v[t] != d[k as int],
        decreases vn - j3,
    {
        let mut c = String::from_str("./");
        c.append(valid[j3].as_str());
        if str_eq(c.as_str(), dirs[k].as_str()) {
            proof {
                assert("./"@ + v[j3 as int] == d[k as int]);
            }
            return false;
        }
        j3 += 1;
    }
    true
}

/// Plans one whole cleanup: repeated pruning passes over the tree snapshot
/// until a pass removes nothing, bounded by a hard ceiling of one hundred
/// passes. The snapshot lists every directory (walk order, parents first)
/// and every file under the project root, separators normalized to `/` and
/// prefixed `./`; `valid_paths` is the resolved path set, unprefixed.
/// Returns the directories to remove, in removal order, or the fatal
/// fixed-point-overflow error.
#[verifier::rlimit(60)]
pub fn plan_prune(dirs: &Vec<String>, files: &Vec<String>, valid_paths: &Vec<String>) -> (r: Result<
    Vec<String>,
    ConfigError,
>)
    ensures
        ({
            let d = strings_view(dirs@);
            let f = strings_view(files@);
            let v = strings_view(valid_paths@);
            if spec_prune_rounds(d, f, v, 99).0 == spec_prune_rounds(d, f, v, 98).0 {
                r matches Ok(rem) && strings_view(rem@) == spec_prune_rounds(d, f, v, 99).1
            } else {
                r matches Err(ConfigError::ParseError(m)) && m@
                    == "Exceeded maximum cleanup iterations"@
            }
        }),
{
    let ghost d = strings_view(dirs@);
    let ghost f = strings_view(files@);
    let ghost v = strings_view(valid_paths@);
    let n = dirs.len();
    let mut alive: Vec<bool> = Vec::new();
    let mut t: usize = 0;
    while t < n
        invariant
            n == dirs@.len(),
            t <= n,
            alive@.len() == t,
            forall|idx: int| 0 <= idx < t ==> alive@[idx],
        decreases n - t,
    {
        alive.push(true);
        t += 1;
    }
    proof {
        assert(alive@ =~= Seq::new(d.len(), |i: int| true));
        assert(spec_prune_rounds(d, f, v, 0).0 == alive@);
    }
    let mut removals: Vec<String> = Vec::new();
    let mut iterations: usize = 0;
    let mut cleaned = true;
    while cleaned && iterations < 100
        invariant
            n == dirs@.len(),
            d == strings_view(dirs@),
            f == strings_view(files@),
            v == strings_view(valid_paths@),
            alive@.len() == n,
            iterations <= 100,
            alive@ == spec_prune_rounds(d, f, v, iterations as nat).0,
            strings_view(removals@) == spec_prune_rounds(d, f, v, iterations as nat).1,
            cleaned == (iterations == 0 || spec_prune_rounds(d, f, v, iterations as nat).0
                != spec_prune_rounds(d, f, v, (iterations - 1) as nat).0),
            forall|m: int|
                1 <= m < iterations ==> #[trigger] spec_prune_rounds(d, f, v, m as nat).0
                    != spec_prune_rounds(d, f, v, (m - 1) as nat).0,
        decreases 100 - iterations,
    {
        iterations += 1;
        cleaned = false;
        let ghost entry_alive = alive@;
        let ghost entry_rem = strings_view(removals@);
        let mut k: usize = 0;
        while k < n
            invariant
                n == dirs@.len(),
                d == strings_view(dirs@),
                f == strings_view(files@),
                v == strings_view(valid_paths@),
                k <= n,
                entry_alive.len() == n,
                alive@.len() == n,
                alive@ == spec_pass_collect(d, f, v, entry_alive, k as int).0,
                entry_rem + spec_pass_collect(d, f, v, entry_alive, k as int).1 == strings_view(
                    removals@,
                ),
                cleaned == (spec_pass_collect(d, f, v, entry_alive, k as int).1.len() > 0),
            decreases n - k,
        {
            let ghost pk = spec_pass_collect(d, f, v, entry_alive, k as int);
            if alive[k] && removable_at(dirs, files, valid_paths, &alive, k) {
                alive[k] = false;
                let ghost prev_rem = removals@;
                let dk = dirs[k].clone();
                removals.push(dk);
                cleaned = true;
                proof {
                    lemma_strings_view_push(prev_rem, dk);
                    let pk1 = spec_pass_collect(d, f, v, entry_alive, k + 1 as int);
                    assert(pk1.0 =~= pk.0.update(k as int, false));
                    assert(alive@ =~= pk.0.update(k as int, false));
                    assert(entry_rem + pk1.1 =~= (entry_rem + pk.1).push(d[k as int]));
                }
            } else {
                proof {
                    let pk1 = spec_pass_collect(d, f, v, entry_alive, k + 1 as int);
                    assert(pk1 == pk);
                }
            }
            k += 1;
        }
        proof {
            lemma_pass_props(d, f, v, entry_alive, n as int);
            assert(spec_prune_rounds(d, f, v, iterations as nat).0 == alive@);
            assert(spec_prune_rounds(d, f, v, iterations as nat).1 == strings_view(removals@));
        }
    }
    if iterations >= 100 {
        proof {
            // the loop ran a hundred passes, so each of the first
            // ninety-nine changed the flags; in particular pass 99 was not
            // a fixed point.
            assert(iterations == 100);
            assert(spec_prune_rounds(d, f, v, 99).0 != spec_prune_rounds(d, f, v, 98).0);
        }
        Err(ConfigError::ParseError(String::from_str("Exceeded maximum cleanup iterations")))
    } else {
        proof {
            assert(!cleaned);
            assert(iterations >= 1);
            if iterations <= 98 {
                lemma_rounds_fix(d, f, v, iterations as nat, 98);
                lemma_rounds_fix(d, f, v, iterations as nat, 99);
            } else {
                assert(iterations == 99);
                lemma_rounds_fix(d, f, v, 99, 99);
            }
        }
        Ok(removals)
    }
}

} // verus!
