//! Which media files stay open when a project changes.
//!
//! A file that a clip uses is always held. Of those that just went out of use a
//! few stay, so that undoing a deletion does not open them again.

use vstd::prelude::*;

use crate::text;
use crate::text::list_contains;

verus! {

/// How many files without a clip stay open.
pub const MAX_INACTIVE_AUDIO_CACHE_ENTRIES: usize = 4;

/// The files that clips use: every clip's file, where it has one with a name.
pub open spec fn used_paths(paths: Seq<Option<String>>) -> Seq<Seq<char>>
    decreases paths.len(),
{
    if paths.len() == 0 {
        Seq::empty()
    } else {
        let rest = used_paths(paths.drop_last());
        match paths.last() {
            Some(p) => if p@.len() > 0 {
                rest.push(p@)
            } else {
                rest
            },
            None => rest,
        }
    }
}

/// The files that clips use.
pub fn media_in_use(paths: &Vec<Option<String>>) -> (r: Vec<String>)
    ensures
        text::texts(r@) == used_paths(paths@),
{
    let mut out: Vec<String> = Vec::new();
    let mut i: usize = 0;
    proof {
        assert(text::texts(out@) =~= Seq::<Seq<char>>::empty());
        assert(paths@.take(0) =~= Seq::empty());
    }
    while i < paths.len()
        invariant
            i <= paths@.len(),
            text::texts(out@) == used_paths(paths@.take(i as int)),
        decreases paths@.len() - i,
    {
        proof {
            assert(paths@.take(i + 1).drop_last() =~= paths@.take(i as int));
            assert(paths@.take(i + 1).last() == paths@[i as int]);
        }
        if let Some(p) = &paths[i] {
            if p.unicode_len() > 0 {
                let ghost before = out@;
                out.push(p.clone());
                proof {
                    assert(text::texts(out@) =~= text::texts(before).push(p@));
                }
            }
        }
        i = i + 1;
    }
    proof {
        assert(paths@.take(paths@.len() as int) =~= paths@);
    }
    out
}

/// A list without the texts that `gone` holds.
pub open spec fn without(list: Seq<Seq<char>>, gone: Seq<Seq<char>>) -> Seq<Seq<char>>
    decreases list.len(),
{
    if list.len() == 0 {
        Seq::empty()
    } else {
        let rest = without(list.drop_last(), gone);
        if gone.contains(list.last()) {
            rest
        } else {
            rest.push(list.last())
        }
    }
}

/// The list of unused files with those appended that just went out of use: of
/// the files that were used, those that are not used any more, are held open,
/// and are not on the list yet.
pub open spec fn retired(
    list: Seq<Seq<char>>,
    were_used: Seq<Seq<char>>,
    active: Seq<Seq<char>>,
    held: Seq<Seq<char>>,
) -> Seq<Seq<char>>
    decreases were_used.len(),
{
    if were_used.len() == 0 {
        list
    } else {
        let rest = retired(list, were_used.drop_last(), active, held);
        let path = were_used.last();
        if !active.contains(path) && held.contains(path) && !rest.contains(path) {
            rest.push(path)
        } else {
            rest
        }
    }
}

/// The unused files in the order in which they went out of use, before the list
/// is cut.
pub open spec fn unused_files(
    list: Seq<Seq<char>>,
    were_used: Seq<Seq<char>>,
    active: Seq<Seq<char>>,
    held: Seq<Seq<char>>,
) -> Seq<Seq<char>> {
    retired(without(list, active), were_used, active, held)
}

/// How many of `n` unused files are closed.
pub open spec fn surplus(n: nat) -> nat {
    if n > MAX_INACTIVE_AUDIO_CACHE_ENTRIES {
        (n - MAX_INACTIVE_AUDIO_CACHE_ENTRIES) as nat
    } else {
        0
    }
}

fn drop_texts(list: &Vec<String>, gone: &Vec<String>) -> (r: Vec<String>)
    ensures
        text::texts(r@) == without(text::texts(list@), text::texts(gone@)),
{
    let mut out: Vec<String> = Vec::new();
    let mut i: usize = 0;
    let ghost all = text::texts(list@);
    let ghost g = text::texts(gone@);
    proof {
        assert(text::texts(out@) =~= Seq::<Seq<char>>::empty());
        assert(all.take(0) =~= Seq::empty());
    }
    while i < list.len()
        invariant
            i <= list@.len(),
            all == text::texts(list@),
            g == text::texts(gone@),
            text::texts(out@) == without(all.take(i as int), g),
        decreases list@.len() - i,
    {
        proof {
            assert(all.take(i + 1).drop_last() =~= all.take(i as int));
            assert(all.take(i + 1).last() == list@[i as int]@);
        }
        if !list_contains(gone, &list[i]) {
            let ghost before = out@;
            out.push(list[i].clone());
            proof {
                assert(text::texts(out@) =~= text::texts(before).push(list@[i as int]@));
            }
        }
        i = i + 1;
    }
    proof {
        assert(all.take(all.len() as int) =~= all);
    }
    out
}

/// Bring the list of unused files up to date with what clips use, close what
/// does not fit on it, and give back what was closed.
pub fn update_inactive_audio(
    list: &mut Vec<String>,
    held: &mut Vec<String>,
    were_used: &Vec<String>,
    active: &Vec<String>,
) -> (r: Vec<String>)
    ensures
        ({
            let all = unused_files(
                text::texts(old(list)@),
                text::texts(were_used@),
                text::texts(active@),
                text::texts(old(held)@),
            );
            let cut = surplus(all.len()) as int;
            &&& text::texts(final(list)@) == all.skip(cut)
            &&& text::texts(r@) == all.take(cut)
            &&& text::texts(final(held)@) == without(text::texts(old(held)@), all.take(cut))
        }),
{
    let ghost w = text::texts(were_used@);
    let ghost a = text::texts(active@);
    let ghost h = text::texts(held@);
    let mut kept: Vec<String> = drop_texts(list, active);
    let ghost base = text::texts(kept@);
    let mut i: usize = 0;
    proof {
        assert(w.take(0) =~= Seq::empty());
    }
    while i < were_used.len()
        invariant
            i <= were_used@.len(),
            w == text::texts(were_used@),
            a == text::texts(active@),
            h == text::texts(held@),
            text::texts(kept@) == retired(base, w.take(i as int), a, h),
        decreases were_used@.len() - i,
    {
        proof {
            assert(w.take(i + 1).drop_last() =~= w.take(i as int));
            assert(w.take(i + 1).last() == were_used@[i as int]@);
        }
        let path: &String = &were_used[i];
        if !list_contains(active, path) && list_contains(held, path) && !list_contains(
            &kept,
            path,
        ) {
            let ghost before = kept@;
            kept.push(path.clone());
            proof {
                assert(text::texts(kept@) =~= text::texts(before).push(path@));
            }
        }
        i = i + 1;
    }
    proof {
        assert(w.take(w.len() as int) =~= w);
    }
    let ghost all = text::texts(kept@);
    let n: usize = kept.len();
    let cut: usize = if n > MAX_INACTIVE_AUDIO_CACHE_ENTRIES {
        n - MAX_INACTIVE_AUDIO_CACHE_ENTRIES
    } else {
        0
    };
    let mut closed: Vec<String> = Vec::new();
    let mut stay: Vec<String> = Vec::new();
    let mut k: usize = 0;
    while k < n
        invariant
            k <= n,
            n == kept@.len(),
            cut <= n,
            all == text::texts(kept@),
            closed@.len() == if k < cut {
                k
            } else {
                cut
            },
            stay@.len() == if k < cut {
                0
            } else {
                k - cut
            },
            forall|j: int| 0 <= j < closed@.len() ==> (#[trigger] closed@[j])@ == all[j],
            forall|j: int| 0 <= j < stay@.len() ==> (#[trigger] stay@[j])@ == all[cut + j],
        decreases n - k,
    {
        if k < cut {
            closed.push(kept[k].clone());
        } else {
            stay.push(kept[k].clone());
        }
        k = k + 1;
    }
    proof {
        assert(text::texts(closed@) =~= all.take(cut as int));
        assert(text::texts(stay@) =~= all.skip(cut as int));
    }
    *held = drop_texts(held, &closed);
    *list = stay;
    closed
}

proof fn lemma_without(list: Seq<Seq<char>>, gone: Seq<Seq<char>>)
    ensures
        forall|i: int|
            0 <= i < without(list, gone).len() ==> !gone.contains(#[trigger] without(
                list,
                gone,
            )[i]) && list.contains(without(list, gone)[i]),
        forall|x: Seq<char>|
            list.contains(x) && !gone.contains(x) ==> #[trigger] without(list, gone).contains(x),
    decreases list.len(),
{
    if list.len() > 0 {
        let shorter = list.drop_last();
        lemma_without(shorter, gone);
        let rest = without(shorter, gone);
        let all = without(list, gone);
        assert forall|i: int| 0 <= i < all.len() implies !gone.contains(#[trigger] all[i])
            && list.contains(all[i]) by {
            if i < rest.len() {
                assert(all[i] == rest[i]);
                let k = choose|k: int| 0 <= k < shorter.len() && shorter[k] == rest[i];
                assert(list[k] == rest[i]);
            } else {
                assert(list[list.len() - 1] == all[i]);
            }
        }
        assert forall|x: Seq<char>| list.contains(x) && !gone.contains(x) implies #[trigger]
            all.contains(x) by {
            let k = choose|k: int| 0 <= k < list.len() && list[k] == x;
            if k < shorter.len() {
                assert(shorter[k] == x);
                assert(rest.contains(x));
                let m = choose|m: int| 0 <= m < rest.len() && rest[m] == x;
                assert(all[m] == x);
            } else {
                assert(all.last() == x);
            }
        }
    }
}

proof fn lemma_retired_unused(
    list: Seq<Seq<char>>,
    were_used: Seq<Seq<char>>,
    active: Seq<Seq<char>>,
    held: Seq<Seq<char>>,
)
    requires
        forall|i: int| 0 <= i < list.len() ==> !active.contains(#[trigger] list[i]),
    ensures
        forall|i: int|
            0 <= i < retired(list, were_used, active, held).len() ==> !active.contains(
                #[trigger] retired(list, were_used, active, held)[i],
            ),
    decreases were_used.len(),
{
    if were_used.len() > 0 {
        lemma_retired_unused(list, were_used.drop_last(), active, held);
        let rest = retired(list, were_used.drop_last(), active, held);
        let all = retired(list, were_used, active, held);
        assert forall|i: int| 0 <= i < all.len() implies !active.contains(#[trigger] all[i]) by {
            if i < rest.len() {
                assert(all[i] == rest[i]);
            }
        }
    }
}

/// A file that a clip uses is never closed, nor is it on the list of unused
/// ones.
pub proof fn law_used_media_stays_open(
    list: Seq<Seq<char>>,
    were_used: Seq<Seq<char>>,
    active: Seq<Seq<char>>,
    held: Seq<Seq<char>>,
    path: Seq<char>,
)
    requires
        active.contains(path),
        held.contains(path),
    ensures
        ({
            let all = unused_files(list, were_used, active, held);
            let cut = surplus(all.len()) as int;
            &&& !all.contains(path)
            &&& without(held, all.take(cut)).contains(path)
        }),
{
    lemma_without(list, active);
    lemma_retired_unused(without(list, active), were_used, active, held);
    let all = unused_files(list, were_used, active, held);
    let cut = surplus(all.len()) as int;
    if all.contains(path) {
        let k = choose|k: int| 0 <= k < all.len() && all[k] == path;
        assert(!active.contains(all[k]));
    }
    assert(!all.take(cut).contains(path)) by {
        if all.take(cut).contains(path) {
            let k = choose|k: int| 0 <= k < cut && all.take(cut)[k] == path;
            assert(all[k] == path);
        }
    }
    lemma_without(held, all.take(cut));
}

/// However often a project changes, only a few unused files stay open, and they
/// are the ones that went out of use last.
pub proof fn law_few_unused_files_stay_open(
    list: Seq<Seq<char>>,
    were_used: Seq<Seq<char>>,
    active: Seq<Seq<char>>,
    held: Seq<Seq<char>>,
)
    ensures
        ({
            let all = unused_files(list, were_used, active, held);
            let cut = surplus(all.len()) as int;
            &&& all.skip(cut).len() <= MAX_INACTIVE_AUDIO_CACHE_ENTRIES
            &&& all.skip(cut).len() == MAX_INACTIVE_AUDIO_CACHE_ENTRIES || cut == 0
            &&& all == all.take(cut) + all.skip(cut)
        }),
{
    let all = unused_files(list, were_used, active, held);
    let cut = surplus(all.len()) as int;
    assert(all =~= all.take(cut) + all.skip(cut));
}

} // verus!
