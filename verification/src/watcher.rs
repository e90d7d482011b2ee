//! The screenshot watcher's rules: which directories a session watches,
//! which filesystem events it ingests, and where an ingested file lands.
//!
//! On start the watcher enumerates a fixed, ordered list of candidate
//! screenshot directories (every root crossed with every localized picture
//! and screenshot folder name), keeps those that exist, and falls back to
//! creating one canonical default when none does. A create event is ingested
//! only for `png` files; an ingested file is copied into the per-game
//! archive directory and recorded with the next order index for that game.
//! The filesystem subscription itself lives outside the library; these
//! functions decide, the caller performs.

use vstd::prelude::*;

use crate::bytes::{bytes_eq, clone_bytes, i32_to_dec, spec_i32_dec};
use crate::launcher::{is_sep, last_sep, lemma_last_sep_take};

verus! {

/// A path built from a base and one more component, separated by `\`.
pub open spec fn spec_join(base: Seq<u8>, name: Seq<u8>) -> Seq<u8> {
    base + seq![92u8] + name
}

/// Join one more component onto a base path.
pub fn join_path(base: &[u8], name: &[u8]) -> (r: Vec<u8>)
    ensures
        r@ == spec_join(base@, name@),
{
    let mut r: Vec<u8> = Vec::new();
    let mut i: usize = 0;
    while i < base.len()
        invariant
            i <= base@.len(),
            r@ == base@.subrange(0, i as int),
        decreases base.len() - i,
    {
        r.push(base[i]);
        assert(r@ =~= base@.subrange(0, i as int + 1));
        i = i + 1;
    }
    assert(r@ =~= base@);
    r.push(92);
    let mut j: usize = 0;
    while j < name.len()
        invariant
            j <= name@.len(),
            r@ == base@ + seq![92u8] + name@.subrange(0, j as int),
        decreases name.len() - j,
    {
        r.push(name[j]);
        assert(r@ =~= base@ + seq![92u8] + name@.subrange(0, j as int + 1));
        j = j + 1;
    }
    assert(r@ =~= spec_join(base@, name@));
    r
}

/// The candidate directories for one root and one picture folder: that pair
/// joined with each screenshot folder name, in order.
pub open spec fn cross_screens(root: Seq<u8>, pic: Seq<u8>, screens: Seq<Seq<u8>>) -> Seq<
    Seq<u8>,
>
    decreases screens.len(),
{
    if screens.len() == 0 {
        Seq::empty()
    } else {
        seq![spec_join(spec_join(root, pic), screens[0])] + cross_screens(
            root,
            pic,
            screens.drop_first(),
        )
    }
}

/// The candidate directories for one root: every picture folder crossed
/// with every screenshot folder name, in order.
pub open spec fn cross_pics(root: Seq<u8>, pics: Seq<Seq<u8>>, screens: Seq<Seq<u8>>) -> Seq<
    Seq<u8>,
>
    decreases pics.len(),
{
    if pics.len() == 0 {
        Seq::empty()
    } else {
        cross_screens(root, pics[0], screens) + cross_pics(root, pics.drop_first(), screens)
    }
}

/// The full ordered candidate list: every root crossed with every picture
/// folder and every screenshot folder name.
pub open spec fn spec_candidate_dirs(
    roots: Seq<Seq<u8>>,
    pics: Seq<Seq<u8>>,
    screens: Seq<Seq<u8>>,
) -> Seq<Seq<u8>>
    decreases roots.len(),
{
    if roots.len() == 0 {
        Seq::empty()
    } else {
        cross_pics(roots[0], pics, screens) + spec_candidate_dirs(
            roots.drop_first(),
            pics,
            screens,
        )
    }
}

fn append_cross_screens(
    acc: &mut Vec<Vec<u8>>,
    root: &Vec<u8>,
    pic: &Vec<u8>,
    screens: &Vec<Vec<u8>>,
)
    ensures
        final(acc).deep_view() == old(acc).deep_view() + cross_screens(
            root@,
            pic@,
            screens.deep_view(),
        ),
{
    let base = join_path(root.as_slice(), pic.as_slice());
    let ghost start = acc.deep_view();
    let ghost sdv = screens.deep_view();
    proof {
        assert(sdv.skip(0) =~= sdv);
    }
    let mut k: usize = 0;
    while k < screens.len()
        invariant
            k <= screens@.len(),
            sdv == screens.deep_view(),
            sdv.len() == screens@.len(),
            base@ == spec_join(root@, pic@),
            acc.deep_view() + cross_screens(root@, pic@, sdv.skip(k as int)) == start
                + cross_screens(root@, pic@, sdv),
        decreases screens.len() - k,
    {
        let ghost pre = acc.deep_view();
        let d = join_path(base.as_slice(), screens[k].as_slice());
        acc.push(d);
        proof {
            assert(sdv[k as int] == screens@[k as int]@);
            assert(acc.deep_view() =~~= pre + seq![
                spec_join(spec_join(root@, pic@), sdv[k as int]),
            ]);
            assert(sdv.skip(k as int)[0] == sdv[k as int]);
            assert(sdv.skip(k as int).drop_first() =~= sdv.skip(k as int + 1));
            assert(acc.deep_view() + cross_screens(root@, pic@, sdv.skip(k as int + 1)) =~~= pre
                + cross_screens(root@, pic@, sdv.skip(k as int)));
        }
        k = k + 1;
    }
    proof {
        assert(sdv.skip(sdv.len() as int).len() == 0);
        assert(acc.deep_view() + cross_screens(root@, pic@, sdv.skip(sdv.len() as int)) =~~=
            acc.deep_view());
    }
}

fn append_cross_pics(
    acc: &mut Vec<Vec<u8>>,
    root: &Vec<u8>,
    pics: &Vec<Vec<u8>>,
    screens: &Vec<Vec<u8>>,
)
    ensures
        final(acc).deep_view() == old(acc).deep_view() + cross_pics(
            root@,
            pics.deep_view(),
            screens.deep_view(),
        ),
{
    let ghost start = acc.deep_view();
    let ghost pdv = pics.deep_view();
    let ghost sdv = screens.deep_view();
    proof {
        assert(pdv.skip(0) =~= pdv);
    }
    let mut p: usize = 0;
    while p < pics.len()
        invariant
            p <= pics@.len(),
            pdv == pics.deep_view(),
            sdv == screens.deep_view(),
            pdv.len() == pics@.len(),
            acc.deep_view() + cross_pics(root@, pdv.skip(p as int), sdv) == start + cross_pics(
                root@,
                pdv,
                sdv,
            ),
        decreases pics.len() - p,
    {
        let ghost pre = acc.deep_view();
        append_cross_screens(acc, root, &pics[p], screens);
        proof {
            assert(pdv[p as int] == pics@[p as int]@);
            assert(pdv.skip(p as int)[0] == pdv[p as int]);
            assert(pdv.skip(p as int).drop_first() =~= pdv.skip(p as int + 1));
            assert(acc.deep_view() + cross_pics(root@, pdv.skip(p as int + 1), sdv) =~~= pre
                + cross_pics(root@, pdv.skip(p as int), sdv));
        }
        p = p + 1;
    }
    proof {
        assert(pdv.skip(pdv.len() as int).len() == 0);
        assert(acc.deep_view() + cross_pics(root@, pdv.skip(pdv.len() as int), sdv) =~~=
            acc.deep_view());
    }
}

/// The fixed, ordered list of candidate screenshot directories: every root
/// joined with every picture-folder name and every screenshot-folder name.
pub fn build_candidate_dirs(
    roots: &Vec<Vec<u8>>,
    picture_dirs: &Vec<Vec<u8>>,
    screenshot_dirs: &Vec<Vec<u8>>,
) -> (r: Vec<Vec<u8>>)
    ensures
        r.deep_view() == spec_candidate_dirs(
            roots.deep_view(),
            picture_dirs.deep_view(),
            screenshot_dirs.deep_view(),
        ),
{
    let mut r: Vec<Vec<u8>> = Vec::new();
    let ghost rdv = roots.deep_view();
    let ghost pdv = picture_dirs.deep_view();
    let ghost sdv = screenshot_dirs.deep_view();
    proof {
        assert(rdv.skip(0) =~= rdv);
        assert(r.deep_view() + spec_candidate_dirs(rdv, pdv, sdv) =~~= spec_candidate_dirs(
            rdv,
            pdv,
            sdv,
        ));
    }
    let mut i: usize = 0;
    while i < roots.len()
        invariant
            i <= roots@.len(),
            rdv == roots.deep_view(),
            pdv == picture_dirs.deep_view(),
            sdv == screenshot_dirs.deep_view(),
            rdv.len() == roots@.len(),
            r.deep_view() + spec_candidate_dirs(rdv.skip(i as int), pdv, sdv)
                == spec_candidate_dirs(rdv, pdv, sdv),
        decreases roots.len() - i,
    {
        let ghost pre = r.deep_view();
        append_cross_pics(&mut r, &roots[i], picture_dirs, screenshot_dirs);
        proof {
            assert(rdv[i as int] == roots@[i as int]@);
            assert(rdv.skip(i as int)[0] == rdv[i as int]);
            assert(rdv.skip(i as int).drop_first() =~= rdv.skip(i as int + 1));
            assert(r.deep_view() + spec_candidate_dirs(rdv.skip(i as int + 1), pdv, sdv) =~~= pre
                + spec_candidate_dirs(rdv.skip(i as int), pdv, sdv));
        }
        i = i + 1;
    }
    proof {
        assert(rdv.skip(rdv.len() as int).len() == 0);
        assert(r.deep_view() + spec_candidate_dirs(rdv.skip(rdv.len() as int), pdv, sdv) =~~=
            r.deep_view());
    }
    r
}

/// The candidates that exist on disk, in candidate order.
pub open spec fn spec_selected(cands: Seq<Seq<u8>>, exists_flags: Seq<bool>) -> Seq<Seq<u8>>
    decreases cands.len(),
{
    if cands.len() == 0 {
        Seq::empty()
    } else {
        (if exists_flags[0] {
            seq![cands[0]]
        } else {
            Seq::empty()
        }) + spec_selected(cands.drop_first(), exists_flags.drop_first())
    }
}

/// What the watcher will watch: the directories, and whether the canonical
/// default must first be created because no candidate existed.
pub struct WatchPlan {
    pub dirs: Vec<Vec<u8>>,
    pub create_default: bool,
}

/// Keep the candidate directories whose existence flag is set; when none
/// exists, fall back to the single default directory and ask for it to be
/// created.
pub fn select_watch_dirs(
    candidates: &Vec<Vec<u8>>,
    exists_flags: &Vec<bool>,
    default_dir: &Vec<u8>,
) -> (r: WatchPlan)
    requires
        candidates@.len() == exists_flags@.len(),
    ensures
        spec_selected(candidates.deep_view(), exists_flags@).len() > 0 ==> {
            &&& r.dirs.deep_view() == spec_selected(candidates.deep_view(), exists_flags@)
            &&& !r.create_default
        },
        spec_selected(candidates.deep_view(), exists_flags@).len() == 0 ==> {
            &&& r.dirs.deep_view() == seq![default_dir@]
            &&& r.create_default
        },
{
    let ghost cdv = candidates.deep_view();
    let ghost fdv = exists_flags@;
    let mut sel: Vec<Vec<u8>> = Vec::new();
    proof {
        assert(cdv.skip(0) =~= cdv);
        assert(fdv.skip(0) =~= fdv);
        assert(sel.deep_view() + spec_selected(cdv, fdv) =~~= spec_selected(cdv, fdv));
    }
    let mut i: usize = 0;
    while i < candidates.len()
        invariant
            i <= candidates@.len(),
            candidates@.len() == exists_flags@.len(),
            cdv == candidates.deep_view(),
            fdv == exists_flags@,
            cdv.len() == candidates@.len(),
            sel.deep_view() + spec_selected(cdv.skip(i as int), fdv.skip(i as int))
                == spec_selected(cdv, fdv),
        decreases candidates.len() - i,
    {
        let ghost pre = sel.deep_view();
        if exists_flags[i] {
            let d = clone_bytes(&candidates[i]);
            sel.push(d);
        }
        proof {
            assert(cdv[i as int] == candidates@[i as int]@);
            assert(cdv.skip(i as int)[0] == cdv[i as int]);
            assert(fdv.skip(i as int)[0] == fdv[i as int]);
            assert(cdv.skip(i as int).drop_first() =~= cdv.skip(i as int + 1));
            assert(fdv.skip(i as int).drop_first() =~= fdv.skip(i as int + 1));
            if fdv[i as int] {
                assert(sel.deep_view() =~~= pre + seq![cdv[i as int]]);
            }
            assert(sel.deep_view() + spec_selected(cdv.skip(i as int + 1), fdv.skip(i as int + 1))
                =~~= pre + spec_selected(cdv.skip(i as int), fdv.skip(i as int)));
        }
        i = i + 1;
    }
    proof {
        assert(cdv.skip(cdv.len() as int).len() == 0);
        assert(sel.deep_view() + spec_selected(
            cdv.skip(cdv.len() as int),
            fdv.skip(cdv.len() as int),
        ) =~~= sel.deep_view());
    }
    if sel.len() == 0 {
        let mut dirs: Vec<Vec<u8>> = Vec::new();
        dirs.push(clone_bytes(default_dir));
        proof {
            assert(dirs.deep_view() =~~= seq![default_dir@]);
        }
        WatchPlan { dirs, create_default: true }
    } else {
        proof {
            assert(sel.deep_view().len() == sel@.len());
        }
        WatchPlan { dirs: sel, create_default: false }
    }
}

/// The file-name component of a path: everything after its last separator
/// (empty for an empty path or one that ends in a separator).
pub open spec fn spec_file_name(path: Seq<u8>) -> Seq<u8> {
    path.subrange(last_sep(path) + 1, path.len() as int)
}

/// The file-name component of a path, or nothing when it is empty.
pub fn file_name_of(path: &Vec<u8>) -> (r: Option<Vec<u8>>)
    ensures
        spec_file_name(path@).len() == 0 ==> r is None,
        spec_file_name(path@).len() > 0 ==> r.deep_view() == Some(spec_file_name(path@)),
{
    let mut i: usize = path.len();
    while i > 0
        invariant
            i <= path@.len(),
            forall|j: int| i <= j < path@.len() ==> !is_sep(#[trigger] path@[j]),
        decreases i,
    {
        let b = path[i - 1];
        if b == 47 || b == 92 {
            proof {
                lemma_last_sep_take(path@, i as int);
                assert(path@.take(i as int)[i as int - 1] == path@[i as int - 1]);
                assert(last_sep(path@.take(i as int)) == i - 1);
            }
            if i == path.len() {
                return None;
            }
            let mut name: Vec<u8> = Vec::new();
            let mut j: usize = i;
            while j < path.len()
                invariant
                    i <= j <= path@.len(),
                    name@ == path@.subrange(i as int, j as int),
                decreases path.len() - j,
            {
                name.push(path[j]);
                assert(name@ =~= path@.subrange(i as int, j as int + 1));
                j = j + 1;
            }
            proof {
                assert(name.deep_view() =~= spec_file_name(path@));
            }
            return Some(name);
        }
        i = i - 1;
    }
    proof {
        lemma_last_sep_take(path@, 0);
        assert(last_sep(path@.take(0)) == -1);
    }
    if path.len() == 0 {
        return None;
    }
    let mut name: Vec<u8> = Vec::new();
    let mut j: usize = 0;
    while j < path.len()
        invariant
            j <= path@.len(),
            name@ == path@.subrange(0, j as int),
        decreases path.len() - j,
    {
        name.push(path[j]);
        assert(name@ =~= path@.subrange(0, j as int + 1));
        j = j + 1;
    }
    proof {
        assert(name.deep_view() =~= spec_file_name(path@));
    }
    Some(name)
}

/// The index of the last dot in a file name, or -1 when it has none.
pub open spec fn last_dot(name: Seq<u8>) -> int
    decreases name.len(),
{
    if name.len() == 0 {
        -1
    } else if name[name.len() - 1] == 46 {
        name.len() - 1
    } else {
        last_dot(name.drop_last())
    }
}

/// `last_dot` ignores a dot-free tail.
proof fn lemma_last_dot_take(name: Seq<u8>, i: int)
    requires
        0 <= i <= name.len(),
        forall|j: int| i <= j < name.len() ==> #[trigger] name[j] != 46,
    ensures
        last_dot(name) == last_dot(name.take(i)),
    decreases name.len(),
{
    if i < name.len() {
        assert(name[name.len() - 1] != 46);
        assert(name.drop_last() =~= name.take(name.len() - 1));
        lemma_last_dot_take(name.take(name.len() - 1), i);
        assert(name.take(name.len() - 1).take(i) =~= name.take(i));
    } else {
        assert(name.take(i) =~= name);
    }
}

/// The extension of a path: what follows the last dot of its file name. A
/// name without a dot, or whose only dot leads it, has none.
pub open spec fn spec_extension(path: Seq<u8>) -> Option<Seq<u8>> {
    let name = spec_file_name(path);
    if last_dot(name) <= 0 {
        None
    } else {
        Some(name.subrange(last_dot(name) + 1, name.len() as int))
    }
}

/// The `png` extension.
pub open spec fn png_ext() -> Seq<u8> {
    seq![112u8, 110u8, 103u8]
}

/// The path names a screenshot image the watcher ingests: its extension is
/// exactly `png`.
pub open spec fn spec_is_png(path: Seq<u8>) -> bool {
    spec_extension(path) == Some(png_ext())
}

/// Whether a created file is a screenshot image (its extension is `png`).
pub fn is_screenshot_file(path: &Vec<u8>) -> (r: bool)
    ensures
        r == spec_is_png(path@),
{
    let name = match file_name_of(path) {
        None => {
            assert(spec_file_name(path@).len() == 0);
            assert(last_dot(spec_file_name(path@)) == -1);
            return false;
        },
        Some(n) => n,
    };
    proof {
        assert(name@ =~= name.deep_view());
    }
    assert(name@ == spec_file_name(path@));
    let mut i: usize = name.len();
    while i > 0
        invariant
            i <= name@.len(),
            name@ == spec_file_name(path@),
            forall|j: int| i <= j < name@.len() ==> #[trigger] name@[j] != 46,
        decreases i,
    {
        let b = name[i - 1];
        if b == 46 {
            proof {
                lemma_last_dot_take(name@, i as int);
                assert(name@.take(i as int)[i as int - 1] == name@[i as int - 1]);
                assert(last_dot(name@.take(i as int)) == i - 1);
            }
            if i == 1 {
                return false;
            }
            let mut ext: Vec<u8> = Vec::new();
            let mut j: usize = i;
            while j < name.len()
                invariant
                    i <= j <= name@.len(),
                    ext@ == name@.subrange(i as int, j as int),
                decreases name.len() - j,
            {
                ext.push(name[j]);
                assert(ext@ =~= name@.subrange(i as int, j as int + 1));
                j = j + 1;
            }
            let mut png: Vec<u8> = Vec::new();
            png.push(112);
            png.push(110);
            png.push(103);
            assert(png@ =~= png_ext());
            return bytes_eq(ext.as_slice(), png.as_slice());
        }
        i = i - 1;
    }
    proof {
        lemma_last_dot_take(name@, 0);
        assert(last_dot(name@.take(0)) == -1);
    }
    false
}

/// Whether a filesystem event is one the watcher ingests: a create event
/// for a `png` file.
pub fn should_ingest_event(is_create: bool, path: &Vec<u8>) -> (r: bool)
    ensures
        r == (is_create && spec_is_png(path@)),
{
    is_create && is_screenshot_file(path)
}

/// The `game-memos` archive segment.
pub open spec fn game_memos_seg() -> Seq<u8> {
    seq![103u8, 97u8, 109u8, 101u8, 45u8, 109u8, 101u8, 109u8, 111u8, 115u8]
}

/// The per-game archive directory: the save root, then the `game-memos`
/// segment, then the game id in decimal.
pub fn archive_dir(save_root: &Vec<u8>, game_id: i32) -> (r: Vec<u8>)
    ensures
        r@ == spec_join(spec_join(save_root@, game_memos_seg()), spec_i32_dec(game_id as int)),
{
    let mut seg: Vec<u8> = Vec::new();
    seg.push(103);
    seg.push(97);
    seg.push(109);
    seg.push(101);
    seg.push(45);
    seg.push(109);
    seg.push(101);
    seg.push(109);
    seg.push(111);
    seg.push(115);
    assert(seg@ =~= game_memos_seg());
    let base = join_path(save_root.as_slice(), seg.as_slice());
    let id = i32_to_dec(game_id);
    join_path(base.as_slice(), id.as_slice())
}

/// The largest order index among the given ones.
pub open spec fn seq_max(orders: Seq<i64>) -> int
    recommends
        orders.len() > 0,
    decreases orders.len(),
{
    if orders.len() <= 1 {
        orders[0] as int
    } else if orders.last() as int > seq_max(orders.drop_last()) {
        orders.last() as int
    } else {
        seq_max(orders.drop_last())
    }
}

/// The order index the next screenshot of a game receives: one past the
/// largest existing index, or zero for the first screenshot.
pub open spec fn spec_next_order(orders: Seq<i64>) -> int {
    if orders.len() == 0 {
        0
    } else {
        seq_max(orders) + 1
    }
}

/// Assign the next order index given the game's existing ones.
pub fn next_order_index(existing: &Vec<i64>) -> (r: i64)
    requires
        existing@.len() > 0 ==> seq_max(existing@) < i64::MAX,
    ensures
        r == spec_next_order(existing@),
{
    if existing.len() == 0 {
        return 0;
    }
    let mut m: i64 = existing[0];
    assert(existing@.take(1) =~= seq![existing@[0]]);
    let mut i: usize = 1;
    while i < existing.len()
        invariant
            1 <= i <= existing@.len(),
            m == seq_max(existing@.take(i as int)),
            seq_max(existing@) < i64::MAX,
        decreases existing.len() - i,
    {
        proof {
            assert(existing@.take(i as int + 1).drop_last() =~= existing@.take(i as int));
            lemma_seq_max_take(existing@, i as int + 1);
        }
        if existing[i] > m {
            m = existing[i];
        }
        i = i + 1;
    }
    assert(existing@.take(existing@.len() as int) =~= existing@);
    m + 1
}

/// The running maximum over a prefix never exceeds the whole maximum.
proof fn lemma_seq_max_take(orders: Seq<i64>, i: int)
    requires
        1 <= i <= orders.len(),
    ensures
        seq_max(orders.take(i)) <= seq_max(orders),
    decreases orders.len() - i,
{
    if i < orders.len() {
        lemma_seq_max_take(orders, i + 1);
        assert(orders.take(i + 1).drop_last() =~= orders.take(i));
        assert(orders.take(i + 1).len() == i + 1);
        if i + 1 <= 1 {
        } else {
            assert(seq_max(orders.take(i)) <= seq_max(orders.take(i + 1)));
        }
    } else {
        assert(orders.take(i) =~= orders);
    }
}

/// The watcher of one session: whether a filesystem subscription is live,
/// and which game it archives for.
pub struct ScreenshotWatcher {
    active: bool,
    game_id: Option<i32>,
}

impl ScreenshotWatcher {
    /// Whether a subscription is live.
    pub closed spec fn active_spec(&self) -> bool {
        self.active
    }

    /// The game the live subscription archives for.
    pub closed spec fn game_spec(&self) -> Option<i32> {
        self.game_id
    }

    /// A fresh watcher: nothing watched.
    pub fn new() -> (r: Self)
        ensures
            !r.active_spec(),
            r.game_spec() is None,
    {
        ScreenshotWatcher { active: false, game_id: None }
    }

    /// Bind the watcher to one game's session; an already-live subscription
    /// is replaced.
    pub fn start_watching(&mut self, game_id: i32)
        ensures
            final(self).active_spec(),
            final(self).game_spec() == Some(game_id),
    {
        self.active = true;
        self.game_id = Some(game_id);
    }

    /// Tear the subscription down. Safe when never started, and idempotent.
    pub fn stop_watching(&mut self)
        ensures
            !final(self).active_spec(),
            final(self).game_spec() is None,
    {
        self.active = false;
        self.game_id = None;
    }

    /// Whether the watcher currently holds a live subscription.
    pub fn is_watching(&self) -> (r: bool)
        ensures
            r == self.active_spec(),
    {
        self.active
    }
}

} // verus!
