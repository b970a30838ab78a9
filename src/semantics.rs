//! The effect of a whole extraction, stated over the steps that
//! [`crate::tar::Extraction`] decides: the destination as a map from path to
//! content, the archive as a sequence of entries, and the answers the user
//! gives when asked.
use vstd::prelude::*;
use crate::overwrite::{answer_writes, state_after, step_for, Answer, Confirmation, Flags, Step};
use crate::paths::{is_safe_entry_path, joined};

verus! {

/// One entry of an archive: its internal path and its bytes.
pub struct Entry {
    pub path: Seq<char>,
    pub data: Seq<u8>,
}

/// What an extraction leaves behind: the files at the destination, and the
/// list of written paths, or `None` where it stopped on an error.
pub struct Outcome {
    pub files: Map<Seq<char>, Seq<u8>>,
    pub result: Option<Seq<Seq<char>>>,
}

pub open spec fn target(dest: Seq<char>, e: Entry) -> Seq<char> {
    joined(dest, e.path)
}

pub open spec fn prepend(t: Seq<char>, r: Option<Seq<Seq<char>>>) -> Option<Seq<Seq<char>>> {
    match r {
        Some(s) => Some(seq![t] + s),
        None => None,
    }
}

pub open spec fn wrote(t: Seq<char>, o: Outcome) -> Outcome {
    Outcome { files: o.files, result: prepend(t, o.result) }
}

/// Extracting `entries` in order into `dest`: an unsafe entry path stops the
/// extraction; each other entry is written or skipped as
/// [`step_for`] says, and when it says to ask, the next of `answers` decides
/// (none left stops the extraction, as a failed prompt does).
pub open spec fn extract(
    files: Map<Seq<char>, Seq<u8>>,
    dest: Seq<char>,
    entries: Seq<Entry>,
    flags: Flags,
    state: Confirmation,
    answers: Seq<Answer>,
) -> Outcome
    decreases entries.len(),
{
    if entries.len() == 0 {
        Outcome { files, result: Some(Seq::empty()) }
    } else if !is_safe_entry_path(entries[0].path) {
        Outcome { files, result: None }
    } else {
        let t = target(dest, entries[0]);
        let d = entries[0].data;
        let rest = entries.drop_first();
        let step = step_for(flags, state, files.contains_key(t));
        if step == Step::Write {
            wrote(t, extract(files.insert(t, d), dest, rest, flags, state, answers))
        } else if step == Step::Skip {
            extract(files, dest, rest, flags, state, answers)
        } else if answers.len() == 0 {
            Outcome { files, result: None }
        } else if answer_writes(answers[0]) {
            wrote(
                t,
                extract(
                    files.insert(t, d),
                    dest,
                    rest,
                    flags,
                    state_after(state, answers[0]),
                    answers.drop_first(),
                ),
            )
        } else {
            extract(files, dest, rest, flags, state_after(state, answers[0]), answers.drop_first())
        }
    }
}

/// The targets of the entries before the first unsafe one: the only paths
/// an extraction may write.
pub open spec fn reachable_targets(dest: Seq<char>, entries: Seq<Entry>) -> Set<Seq<char>>
    decreases entries.len(),
{
    if entries.len() == 0 || !is_safe_entry_path(entries[0].path) {
        Set::empty()
    } else {
        reachable_targets(dest, entries.drop_first()).insert(target(dest, entries[0]))
    }
}

/// The list of written paths when every conflict is overwritten.
pub open spec fn all_targets(dest: Seq<char>, entries: Seq<Entry>) -> Option<Seq<Seq<char>>>
    decreases entries.len(),
{
    if entries.len() == 0 {
        Some(Seq::empty())
    } else if !is_safe_entry_path(entries[0].path) {
        None
    } else {
        prepend(target(dest, entries[0]), all_targets(dest, entries.drop_first()))
    }
}

/// The policy overwrites without asking: "always yes", or a "yes to all"
/// already given.
pub open spec fn overwrites_all(flags: Flags, state: Confirmation) -> bool {
    flags == Flags::AlwaysYes || (flags == Flags::Interactive && state == Confirmation::AllYes)
}

pub open spec fn all_safe(entries: Seq<Entry>) -> bool {
    forall|i: int| 0 <= i < entries.len() ==> is_safe_entry_path(#[trigger] entries[i].path)
}

pub open spec fn agree_outside(
    f: Map<Seq<char>, Seq<u8>>,
    g: Map<Seq<char>, Seq<u8>>,
    s: Set<Seq<char>>,
) -> bool {
    forall|p: Seq<char>|
        !s.contains(p) ==> (f.contains_key(p) <==> g.contains_key(p)) && (f.contains_key(p)
            ==> f[p] == g[p])
}

/// A path that no entry can reach keeps what it held.
pub proof fn lemma_frame(
    files: Map<Seq<char>, Seq<u8>>,
    dest: Seq<char>,
    entries: Seq<Entry>,
    flags: Flags,
    state: Confirmation,
    answers: Seq<Answer>,
    p: Seq<char>,
)
    requires
        !reachable_targets(dest, entries).contains(p),
    ensures
        extract(files, dest, entries, flags, state, answers).files.contains_key(p)
            == files.contains_key(p),
        files.contains_key(p) ==> extract(files, dest, entries, flags, state, answers).files[p]
            == files[p],
    decreases entries.len(),
{
    if entries.len() > 0 && is_safe_entry_path(entries[0].path) {
        let t = target(dest, entries[0]);
        let d = entries[0].data;
        let rest = entries.drop_first();
        lemma_frame(files.insert(t, d), dest, rest, flags, state, answers, p);
        lemma_frame(files, dest, rest, flags, state, answers, p);
        if answers.len() > 0 {
            let s2 = state_after(state, answers[0]);
            lemma_frame(files.insert(t, d), dest, rest, flags, s2, answers.drop_first(), p);
            lemma_frame(files, dest, rest, flags, s2, answers.drop_first(), p);
        }
    }
}

/// Each reachable target is the target of some entry.
pub proof fn lemma_reachable_is_target(dest: Seq<char>, entries: Seq<Entry>, p: Seq<char>)
    requires
        reachable_targets(dest, entries).contains(p),
    ensures
        exists|j: int| 0 <= j < entries.len() && target(dest, #[trigger] entries[j]) == p,
    decreases entries.len(),
{
    let rest = entries.drop_first();
    if p != target(dest, entries[0]) {
        lemma_reachable_is_target(dest, rest, p);
        let j = choose|j: int| 0 <= j < rest.len() && target(dest, #[trigger] rest[j]) == p;
        assert(entries[j + 1] == rest[j]);
    } else {
        assert(target(dest, entries[0]) == p);
    }
}

/// Under a policy that overwrites without asking, the files left behind
/// depend on the starting files only where an entry can reach.
pub proof fn lemma_overwrite_congruent(
    f: Map<Seq<char>, Seq<u8>>,
    g: Map<Seq<char>, Seq<u8>>,
    dest: Seq<char>,
    entries: Seq<Entry>,
    flags: Flags,
    state: Confirmation,
    answers: Seq<Answer>,
)
    requires
        overwrites_all(flags, state),
        agree_outside(f, g, reachable_targets(dest, entries)),
    ensures
        extract(f, dest, entries, flags, state, answers).files == extract(
            g,
            dest,
            entries,
            flags,
            state,
            answers,
        ).files,
    decreases entries.len(),
{
    let s = reachable_targets(dest, entries);
    if entries.len() == 0 || !is_safe_entry_path(entries[0].path) {
        assert forall|p: Seq<char>| f.contains_key(p) == g.contains_key(p) by {
            assert(!s.contains(p));
        }
        assert(f.dom() =~= g.dom());
        assert forall|p: Seq<char>| #[trigger] f.contains_key(p) implies f[p] == g[p] by {
            assert(!s.contains(p));
        }
        assert(f =~= g);
    } else {
        let t = target(dest, entries[0]);
        let d = entries[0].data;
        let rest = entries.drop_first();
        let s2 = reachable_targets(dest, rest);
        assert forall|p: Seq<char>| !s2.contains(p) implies (f.insert(t, d).contains_key(p)
            <==> g.insert(t, d).contains_key(p)) && (f.insert(t, d).contains_key(p) ==> f.insert(
            t,
            d,
        )[p] == g.insert(t, d)[p]) by {
            if p != t {
                assert(!s.contains(p));
            }
        }
        lemma_overwrite_congruent(f.insert(t, d), g.insert(t, d), dest, rest, flags, state, answers);
    }
}

/// Under a policy that overwrites without asking, the list of written
/// paths is that of every target, whatever the destination held.
pub proof fn lemma_overwrite_result(
    files: Map<Seq<char>, Seq<u8>>,
    dest: Seq<char>,
    entries: Seq<Entry>,
    flags: Flags,
    state: Confirmation,
    answers: Seq<Answer>,
)
    requires
        overwrites_all(flags, state),
    ensures
        extract(files, dest, entries, flags, state, answers).result == all_targets(dest, entries),
    decreases entries.len(),
{
    if entries.len() > 0 && is_safe_entry_path(entries[0].path) {
        let t = target(dest, entries[0]);
        lemma_overwrite_result(files.insert(t, entries[0].data), dest, entries.drop_first(), flags, state, answers);
    }
}

/// Where every entry path is safe, the list of every target is all of them
/// in archive order.
pub proof fn lemma_all_targets(dest: Seq<char>, entries: Seq<Entry>)
    requires
        all_safe(entries),
    ensures
        all_targets(dest, entries) == Some(entries.map_values(|e: Entry| target(dest, e))),
    decreases entries.len(),
{
    if entries.len() > 0 {
        let rest = entries.drop_first();
        lemma_all_safe_rest(entries);
        lemma_all_targets(dest, rest);
        assert(is_safe_entry_path(entries[0].path));
        assert(seq![target(dest, entries[0])] + rest.map_values(|e: Entry| target(dest, e))
            =~= entries.map_values(|e: Entry| target(dest, e)));
    } else {
        assert(entries.map_values(|e: Entry| target(dest, e)) =~= Seq::<Seq<char>>::empty());
    }
}

/// With no conflict (every entry safe, no target present beforehand, no two
/// entries with one target), every entry is written: the list of written
/// paths holds one target per entry, in archive order, and each target holds
/// its entry's bytes.
pub proof fn law_no_conflict_writes_every_entry(
    files: Map<Seq<char>, Seq<u8>>,
    dest: Seq<char>,
    entries: Seq<Entry>,
    flags: Flags,
    state: Confirmation,
    answers: Seq<Answer>,
)
    requires
        all_safe(entries),
        forall|i: int| 0 <= i < entries.len() ==> !files.contains_key(#[trigger] target(dest, entries[i])),
        forall|i: int, j: int|
            0 <= i < entries.len() && 0 <= j < entries.len() && i != j ==> target(dest, entries[i])
                != target(dest, entries[j]),
    ensures
        extract(files, dest, entries, flags, state, answers).result == Some(
            entries.map_values(|e: Entry| target(dest, e)),
        ),
        extract(files, dest, entries, flags, state, answers).result.unwrap().len() == entries.len(),
        forall|i: int|
            0 <= i < entries.len() ==> {
                let o = extract(files, dest, entries, flags, state, answers);
                &&& o.files.contains_key(#[trigger] target(dest, entries[i]))
                &&& o.files[target(dest, entries[i])] == entries[i].data
            },
    decreases entries.len(),
{
    if entries.len() == 0 {
        assert(entries.map_values(|e: Entry| target(dest, e)) =~= Seq::<Seq<char>>::empty());
    } else {
        let t = target(dest, entries[0]);
        let d = entries[0].data;
        let rest = entries.drop_first();
        let f2 = files.insert(t, d);
        assert(is_safe_entry_path(entries[0].path));
        assert(!files.contains_key(target(dest, entries[0])));
        lemma_all_safe_rest(entries);
        assert forall|i: int| 0 <= i < rest.len() implies !f2.contains_key(#[trigger] target(dest, rest[i])) by {
            assert(rest[i] == entries[i + 1]);
            assert(target(dest, entries[0]) != target(dest, entries[i + 1]));
            assert(!files.contains_key(target(dest, entries[i + 1])));
        }
        assert forall|i: int, j: int|
            0 <= i < rest.len() && 0 <= j < rest.len() && i != j implies target(dest, rest[i])
                != target(dest, rest[j]) by {
            assert(rest[i] == entries[i + 1]);
            assert(rest[j] == entries[j + 1]);
        }
        law_no_conflict_writes_every_entry(f2, dest, rest, flags, state, answers);
        assert(seq![t] + rest.map_values(|e: Entry| target(dest, e))
            =~= entries.map_values(|e: Entry| target(dest, e)));
        let o = extract(files, dest, entries, flags, state, answers);
        assert forall|i: int| 0 <= i < entries.len() implies {
            &&& o.files.contains_key(#[trigger] target(dest, entries[i]))
            &&& o.files[target(dest, entries[i])] == entries[i].data
        } by {
            if i == 0 {
                if reachable_targets(dest, rest).contains(t) {
                    lemma_reachable_is_target(dest, rest, t);
                    let j = choose|j: int| 0 <= j < rest.len() && target(dest, #[trigger] rest[j]) == t;
                    assert(rest[j] == entries[j + 1]);
                }
                lemma_frame(f2, dest, rest, flags, state, answers, t);
            } else {
                assert(rest[i - 1] == entries[i]);
            }
        }
    }
}

/// Under "always no", every file that was there keeps its content, and no
/// path in the list of written paths was there before.
pub proof fn law_always_no_keeps_existing(
    files: Map<Seq<char>, Seq<u8>>,
    dest: Seq<char>,
    entries: Seq<Entry>,
    state: Confirmation,
    answers: Seq<Answer>,
)
    ensures
        forall|p: Seq<char>|
            #![trigger files.contains_key(p)]
            files.contains_key(p) ==> {
                let o = extract(files, dest, entries, Flags::AlwaysNo, state, answers);
                o.files.contains_key(p) && o.files[p] == files[p]
            },
        extract(files, dest, entries, Flags::AlwaysNo, state, answers).result matches Some(r)
            ==> forall|i: int| 0 <= i < r.len() ==> !files.contains_key(#[trigger] r[i]),
    decreases entries.len(),
{
    if entries.len() > 0 && is_safe_entry_path(entries[0].path) {
        let t = target(dest, entries[0]);
        let d = entries[0].data;
        let rest = entries.drop_first();
        if files.contains_key(t) {
            law_always_no_keeps_existing(files, dest, rest, state, answers);
        } else {
            let f2 = files.insert(t, d);
            law_always_no_keeps_existing(f2, dest, rest, state, answers);
            assert forall|p: Seq<char>| #![trigger files.contains_key(p)] files.contains_key(p) implies f2.contains_key(p) && f2[p] == files[p] by {}
            let o = extract(files, dest, entries, Flags::AlwaysNo, state, answers);
            if o.result is Some {
                let r = o.result.unwrap();
                let r2 = extract(f2, dest, rest, Flags::AlwaysNo, state, answers).result.unwrap();
                assert(r == seq![t] + r2);
                assert forall|i: int| 0 <= i < r.len() implies !files.contains_key(#[trigger] r[i]) by {
                    if i > 0 {
                        assert(r[i] == r2[i - 1]);
                        assert(!f2.contains_key(r2[i - 1]));
                    }
                }
            }
        }
    }
}

proof fn lemma_all_safe_rest(entries: Seq<Entry>)
    requires
        all_safe(entries),
        entries.len() > 0,
    ensures
        all_safe(entries.drop_first()),
        is_safe_entry_path(entries[0].path),
{
    let rest = entries.drop_first();
    assert forall|i: int| 0 <= i < rest.len() implies is_safe_entry_path(#[trigger] rest[i].path) by {
        assert(rest[i] == entries[i + 1]);
    }
}

/// Under a policy that overwrites without asking, every entry is written:
/// an entry that no later entry replaces leaves its bytes at its target,
/// whatever was there before, and the list of written paths holds every
/// target in archive order.
pub proof fn law_overwrite_replaces(
    files: Map<Seq<char>, Seq<u8>>,
    dest: Seq<char>,
    entries: Seq<Entry>,
    flags: Flags,
    state: Confirmation,
    answers: Seq<Answer>,
    i: int,
)
    requires
        overwrites_all(flags, state),
        all_safe(entries),
        0 <= i < entries.len(),
        forall|j: int|
            i < j < entries.len() ==> target(dest, #[trigger] entries[j]) != target(dest, entries[i]),
    ensures
        extract(files, dest, entries, flags, state, answers).files.contains_key(
            target(dest, entries[i]),
        ),
        extract(files, dest, entries, flags, state, answers).files[target(dest, entries[i])]
            == entries[i].data,
        extract(files, dest, entries, flags, state, answers).result == Some(
            entries.map_values(|e: Entry| target(dest, e)),
        ),
    decreases entries.len(),
{
    lemma_overwrite_result(files, dest, entries, flags, state, answers);
    lemma_all_targets(dest, entries);
    let t = target(dest, entries[0]);
    let d = entries[0].data;
    let rest = entries.drop_first();
    lemma_all_safe_rest(entries);
    if i == 0 {
        if reachable_targets(dest, rest).contains(t) {
            lemma_reachable_is_target(dest, rest, t);
            let j = choose|j: int| 0 <= j < rest.len() && target(dest, #[trigger] rest[j]) == t;
            assert(rest[j] == entries[j + 1]);
        }
        lemma_frame(files.insert(t, d), dest, rest, flags, state, answers, t);
    } else {
        assert(rest[i - 1] == entries[i]);
        assert forall|j: int| i - 1 < j < rest.len() implies target(dest, #[trigger] rest[j])
            != target(dest, rest[i - 1]) by {
            assert(rest[j] == entries[j + 1]);
        }
        law_overwrite_replaces(files.insert(t, d), dest, rest, flags, state, answers, i - 1);
    }
}

/// Under a policy that overwrites without asking, extracting the same
/// archive a second time leaves the same files and gives the same list.
pub proof fn law_overwrite_idempotent(
    files: Map<Seq<char>, Seq<u8>>,
    dest: Seq<char>,
    entries: Seq<Entry>,
    flags: Flags,
    state: Confirmation,
    answers: Seq<Answer>,
)
    requires
        overwrites_all(flags, state),
    ensures
        ({
            let once = extract(files, dest, entries, flags, state, answers);
            let twice = extract(once.files, dest, entries, flags, state, answers);
            twice.files == once.files && twice.result == once.result
        }),
{
    let once = extract(files, dest, entries, flags, state, answers);
    lemma_overwrite_result(files, dest, entries, flags, state, answers);
    lemma_overwrite_result(once.files, dest, entries, flags, state, answers);
    let s = reachable_targets(dest, entries);
    assert forall|p: Seq<char>| !s.contains(p) implies (once.files.contains_key(p)
        <==> files.contains_key(p)) && (once.files.contains_key(p) ==> once.files[p]
        == files[p]) by {
        lemma_frame(files, dest, entries, flags, state, answers, p);
    }
    lemma_overwrite_congruent(once.files, files, dest, entries, flags, state, answers);
}

} // verus!
