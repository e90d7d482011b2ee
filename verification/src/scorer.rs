//! Heuristic ranking of live OS processes against a just-launched game.
//!
//! Scoring is additive: an exact executable-path match is decisive, a
//! name/display-name containment is strong, a known game-folder fragment is
//! weak, and every process not excluded outright keeps a floor score of one so
//! it stays a candidate of last resort. Ties between equally scored candidates
//! are broken by the smallest name-length difference from the game name,
//! earliest candidate first.

use vstd::prelude::*;

use crate::bytes::{
    bytes_eq, contains_seq, contains_sub, is_prefix_of, lower_bytes, starts_with, to_lower,
};

verus! {

/// A live OS process as the discovery heuristics see it: process id,
/// executable path and short process name, as raw bytes.
pub struct ProcessInfo {
    pub pid: u32,
    pub exe_path: Vec<u8>,
    pub name: Vec<u8>,
}

/// Settings for one discovery search: how long to keep polling and at what
/// interval, which path prefixes exclude a process outright, and which
/// folder-name fragments mark a likely game install. Prefixes and fragments
/// are matched case-insensitively.
pub struct ProcessSearchConfig {
    pub search_timeout_secs: u64,
    pub search_interval_secs: u64,
    pub system_folders: Vec<Vec<u8>>,
    pub game_folders: Vec<Vec<u8>>,
}

/// The stock excluded prefix: the OS install directory, `c:\windows`.
pub open spec fn windows_prefix() -> Seq<u8> {
    seq![99u8, 58u8, 92u8, 119u8, 105u8, 110u8, 100u8, 111u8, 119u8, 115u8]
}

/// The stock game-folder fragments: `VisualNovel`, `steamapps`,
/// `dmmgameplayer`, each matched case-insensitively against the executable
/// path.
pub open spec fn visual_novel_fragment() -> Seq<u8> {
    seq![86u8, 105u8, 115u8, 117u8, 97u8, 108u8, 78u8, 111u8, 118u8, 101u8, 108u8]
}

pub open spec fn steamapps_fragment() -> Seq<u8> {
    seq![115u8, 116u8, 101u8, 97u8, 109u8, 97u8, 112u8, 112u8, 115u8]
}

pub open spec fn dmm_fragment() -> Seq<u8> {
    seq![100u8, 109u8, 109u8, 103u8, 97u8, 109u8, 101u8, 112u8, 108u8, 97u8, 121u8, 101u8,
        114u8]
}

impl Default for ProcessSearchConfig {
    /// The stock search settings: three minutes of polling at two-second
    /// intervals, the OS install directory excluded, and the known
    /// game-install folder fragments.
    fn default() -> (r: Self)
        ensures
            r.search_timeout_secs == 180,
            r.search_interval_secs == 2,
            r.system_folders.deep_view() == seq![windows_prefix()],
            r.game_folders.deep_view() == seq![
                visual_novel_fragment(),
                steamapps_fragment(),
                dmm_fragment(),
            ],
    {
        let mut windows: Vec<u8> = Vec::new();
        windows.push(99);
        windows.push(58);
        windows.push(92);
        windows.push(119);
        windows.push(105);
        windows.push(110);
        windows.push(100);
        windows.push(111);
        windows.push(119);
        windows.push(115);
        assert(windows@ =~= windows_prefix());

        let mut visual_novel: Vec<u8> = Vec::new();
        visual_novel.push(86);
        visual_novel.push(105);
        visual_novel.push(115);
        visual_novel.push(117);
        visual_novel.push(97);
        visual_novel.push(108);
        visual_novel.push(78);
        visual_novel.push(111);
        visual_novel.push(118);
        visual_novel.push(101);
        visual_novel.push(108);
        assert(visual_novel@ =~= visual_novel_fragment());

        let mut steamapps: Vec<u8> = Vec::new();
        steamapps.push(115);
        steamapps.push(116);
        steamapps.push(101);
        steamapps.push(97);
        steamapps.push(109);
        steamapps.push(97);
        steamapps.push(112);
        steamapps.push(112);
        steamapps.push(115);
        assert(steamapps@ =~= steamapps_fragment());

        let mut dmm: Vec<u8> = Vec::new();
        dmm.push(100);
        dmm.push(109);
        dmm.push(109);
        dmm.push(103);
        dmm.push(97);
        dmm.push(109);
        dmm.push(101);
        dmm.push(112);
        dmm.push(108);
        dmm.push(97);
        dmm.push(121);
        dmm.push(101);
        dmm.push(114);
        assert(dmm@ =~= dmm_fragment());

        let mut system_folders: Vec<Vec<u8>> = Vec::new();
        system_folders.push(windows);
        assert(system_folders.deep_view() =~~= seq![windows_prefix()]);

        let mut game_folders: Vec<Vec<u8>> = Vec::new();
        game_folders.push(visual_novel);
        game_folders.push(steamapps);
        game_folders.push(dmm);
        assert(game_folders.deep_view() =~~= seq![
            visual_novel_fragment(),
            steamapps_fragment(),
            dmm_fragment(),
        ]);

        ProcessSearchConfig {
            search_timeout_secs: 180,
            search_interval_secs: 2,
            system_folders,
            game_folders,
        }
    }
}

/// The process's executable path lies under one of the excluded prefixes,
/// compared case-insensitively.
pub open spec fn excluded(exe_path: Seq<u8>, system_folders: Seq<Seq<u8>>) -> bool {
    exists|k: int|
        0 <= k < system_folders.len() && is_prefix_of(
            lower_bytes(system_folders[k]),
            lower_bytes(exe_path),
        )
}

/// Case-insensitive containment between process name and game name, in either
/// direction.
pub open spec fn name_signal(name: Seq<u8>, game_name: Seq<u8>) -> bool {
    contains_seq(lower_bytes(name), lower_bytes(game_name)) || contains_seq(
        lower_bytes(game_name),
        lower_bytes(name),
    )
}

/// The executable path contains one of the game-folder fragments, compared
/// case-insensitively.
pub open spec fn folder_signal(exe_path: Seq<u8>, game_folders: Seq<Seq<u8>>) -> bool {
    exists|k: int|
        0 <= k < game_folders.len() && contains_seq(
            lower_bytes(exe_path),
            lower_bytes(game_folders[k]),
        )
}

/// The score of one process: 0 when excluded; otherwise 100 for an exact path
/// match, plus 50 for the name signal, plus 10 for the folder signal, with a
/// floor of 1 when no signal contributed.
pub open spec fn score_spec(
    exe_path: Seq<u8>,
    name: Seq<u8>,
    final_exe_path: Seq<u8>,
    game_name: Seq<u8>,
    system_folders: Seq<Seq<u8>>,
    game_folders: Seq<Seq<u8>>,
) -> int {
    if excluded(exe_path, system_folders) {
        0
    } else {
        let s = (if exe_path == final_exe_path {
            100int
        } else {
            0int
        }) + (if name_signal(name, game_name) {
            50int
        } else {
            0int
        }) + (if folder_signal(exe_path, game_folders) {
            10int
        } else {
            0int
        });
        if s == 0 {
            1
        } else {
            s
        }
    }
}

/// Score one live process as a candidate for the launched game.
pub fn score_process_candidate(
    process: &ProcessInfo,
    final_exe_path: &Vec<u8>,
    game_name: &Vec<u8>,
    config: &ProcessSearchConfig,
) -> (score: i32)
    ensures
        score == score_spec(
            process.exe_path@,
            process.name@,
            final_exe_path@,
            game_name@,
            config.system_folders.deep_view(),
            config.game_folders.deep_view(),
        ),
{
    let ghost sys = config.system_folders.deep_view();
    let ghost gf = config.game_folders.deep_view();
    let path_lower = to_lower(process.exe_path.as_slice());

    let mut k: usize = 0;
    while k < config.system_folders.len()
        invariant
            sys == config.system_folders.deep_view(),
            path_lower@ == lower_bytes(process.exe_path@),
            k <= config.system_folders.len(),
            sys.len() == config.system_folders.len(),
            forall|j: int|
                0 <= j < k ==> !is_prefix_of(
                    lower_bytes(sys[j]),
                    lower_bytes(process.exe_path@),
                ),
        decreases config.system_folders.len() - k,
    {
        assert(sys[k as int] == config.system_folders@[k as int]@);
        let prefix_lower = to_lower(config.system_folders[k].as_slice());
        if starts_with(path_lower.as_slice(), prefix_lower.as_slice()) {
            assert(excluded(process.exe_path@, sys));
            return 0;
        }
        k = k + 1;
    }
    assert(!excluded(process.exe_path@, sys));

    let mut score: i32 = 0;

    if bytes_eq(process.exe_path.as_slice(), final_exe_path.as_slice()) {
        score = score + 100;
    }

    let name_lower = to_lower(process.name.as_slice());
    let game_lower = to_lower(game_name.as_slice());
    if contains_sub(name_lower.as_slice(), game_lower.as_slice()) || contains_sub(
        game_lower.as_slice(),
        name_lower.as_slice(),
    ) {
        score = score + 50;
    }

    let mut has_folder = false;
    let mut k2: usize = 0;
    while k2 < config.game_folders.len()
        invariant
            gf == config.game_folders.deep_view(),
            path_lower@ == lower_bytes(process.exe_path@),
            k2 <= config.game_folders.len(),
            gf.len() == config.game_folders.len(),
            has_folder ==> folder_signal(process.exe_path@, gf),
            !has_folder ==> forall|j: int|
                0 <= j < k2 ==> !contains_seq(
                    lower_bytes(process.exe_path@),
                    lower_bytes(gf[j]),
                ),
        decreases config.game_folders.len() - k2,
    {
        assert(gf[k2 as int] == config.game_folders@[k2 as int]@);
        let frag_lower = to_lower(config.game_folders[k2].as_slice());
        if contains_sub(path_lower.as_slice(), frag_lower.as_slice()) {
            has_folder = true;
            assert(folder_signal(process.exe_path@, gf));
        }
        k2 = k2 + 1;
    }
    if has_folder {
        score = score + 10;
    } else {
        assert(!folder_signal(process.exe_path@, gf));
    }

    if score == 0 {
        score = 1;
    }
    score
}

/// Tie-break key when the name of a candidate is missing from the name table
/// (such a candidate is the least preferred).
pub open spec fn missing_name_key() -> int {
    0x7fff_ffff
}

/// The name recorded for `pid` from position `i` on: the first entry wins.
pub open spec fn find_name_from(names: Seq<(u32, Seq<u8>)>, pid: u32, i: int) -> Option<Seq<u8>>
    decreases names.len() - i,
{
    if i < 0 || i >= names.len() {
        None
    } else if names[i].0 == pid {
        Some(names[i].1)
    } else {
        find_name_from(names, pid, i + 1)
    }
}

/// The name recorded for `pid`, first entry first.
pub open spec fn find_name(names: Seq<(u32, Seq<u8>)>, pid: u32) -> Option<Seq<u8>> {
    find_name_from(names, pid, 0)
}

/// The tie-break key of a candidate: the absolute difference between its
/// recorded name length and the game-name length, or `missing_name_key()`
/// when the name table has no entry for it.
pub open spec fn tie_key(names: Seq<(u32, Seq<u8>)>, pid: u32, game_len: nat) -> int {
    match find_name(names, pid) {
        Some(n) => if n.len() >= game_len {
            n.len() - game_len
        } else {
            game_len - n.len()
        },
        None => missing_name_key(),
    }
}

proof fn lemma_find_name_from_prefix(names: Seq<(u32, Seq<u8>)>, pid: u32, i: int)
    requires
        0 <= i <= names.len(),
        forall|j: int| 0 <= j < i ==> (#[trigger] names[j]).0 != pid,
    ensures
        find_name(names, pid) == find_name_from(names, pid, i),
    decreases i,
{
    if i > 0 {
        lemma_find_name_from_prefix(names, pid, i - 1);
    }
}

/// Compute the tie-break key of one candidate.
fn tie_key_exec(names: &Vec<(u32, Vec<u8>)>, pid: u32, game_len: usize) -> (k: u64)
    ensures
        k as int == tie_key(names.deep_view(), pid, game_len as nat),
{
    let mut i: usize = 0;
    while i < names.len()
        invariant
            i <= names.len(),
            forall|j: int| 0 <= j < i ==> (#[trigger] names.deep_view()[j]).0 != pid,
        decreases names.len() - i,
    {
        proof {
            assert(names.deep_view()[i as int].0 == names@[i as int].0);
            assert(names.deep_view()[i as int].1 == names@[i as int].1@);
        }
        if names[i].0 == pid {
            proof {
                lemma_find_name_from_prefix(names.deep_view(), pid, i as int);
            }
            let nlen = names[i].1.len();
            if nlen >= game_len {
                return (nlen - game_len) as u64;
            } else {
                return (game_len - nlen) as u64;
            }
        }
        i = i + 1;
    }
    proof {
        assert(names.deep_view().len() == names@.len());
        lemma_find_name_from_prefix(names.deep_view(), pid, names@.len() as int);
    }
    0x7fff_ffff
}

/// `i` indexes a candidate whose score no other candidate exceeds.
pub open spec fn is_max_score(candidates: Seq<(u32, i32)>, i: int) -> bool {
    0 <= i < candidates.len() && forall|j: int|
        0 <= j < candidates.len() ==> (#[trigger] candidates[j]).1 <= candidates[i].1
}

/// `i` indexes the candidate that the tie-break selects: it carries a maximal
/// score, its tie-break key is minimal among the maximal-score candidates,
/// and it is the earliest candidate with that key.
pub open spec fn is_chosen(
    candidates: Seq<(u32, i32)>,
    names: Seq<(u32, Seq<u8>)>,
    game_len: nat,
    i: int,
) -> bool {
    &&& is_max_score(candidates, i)
    &&& forall|j: int|
        #[trigger] is_max_score(candidates, j) ==> tie_key(names, candidates[i].0, game_len)
            <= tie_key(names, candidates[j].0, game_len)
    &&& forall|j: int|
        0 <= j < i && #[trigger] is_max_score(candidates, j) ==> tie_key(
            names,
            candidates[j].0,
            game_len,
        ) > tie_key(names, candidates[i].0, game_len)
}

/// Select the best process among the scored candidates: the highest score
/// wins, and ties go to the candidate whose name length is closest to the
/// game-name length, earliest candidate first.
pub fn select_best_process(
    candidates: &Vec<(u32, i32)>,
    game_name: &Vec<u8>,
    process_names: &Vec<(u32, Vec<u8>)>,
) -> (r: Option<u32>)
    ensures
        candidates@.len() == 0 <==> r is None,
        r is Some ==> exists|i: int|
            #[trigger] is_chosen(candidates@, process_names.deep_view(), game_name@.len(), i)
                && r == Some(candidates@[i].0),
{
    if candidates.len() == 0 {
        return None;
    }
    let glen = game_name.len();

    let mut max_score: i32 = candidates[0].1;
    let mut i: usize = 1;
    while i < candidates.len()
        invariant
            1 <= i <= candidates@.len(),
            forall|j: int| 0 <= j < i ==> (#[trigger] candidates@[j]).1 <= max_score,
            exists|j: int| 0 <= j < i && (#[trigger] candidates@[j]).1 == max_score,
        decreases candidates.len() - i,
    {
        if candidates[i].1 > max_score {
            max_score = candidates[i].1;
        }
        i = i + 1;
    }

    let mut best_idx: usize = 0;
    let mut best_key: u64 = 0;
    let mut found = false;
    let mut i2: usize = 0;
    while i2 < candidates.len()
        invariant
            i2 <= candidates@.len(),
            forall|j: int| 0 <= j < candidates@.len() ==> (#[trigger] candidates@[j]).1
                <= max_score,
            exists|j: int| 0 <= j < candidates@.len() && (#[trigger] candidates@[j]).1
                == max_score,
            !found ==> forall|j: int| 0 <= j < i2 ==> (#[trigger] candidates@[j]).1 < max_score,
            found ==> {
                &&& best_idx < i2
                &&& candidates@[best_idx as int].1 == max_score
                &&& best_key as int == tie_key(
                    process_names.deep_view(),
                    candidates@[best_idx as int].0,
                    glen as nat,
                )
                &&& forall|j: int|
                    0 <= j < i2 && (#[trigger] candidates@[j]).1 == max_score ==> tie_key(
                        process_names.deep_view(),
                        candidates@[j].0,
                        glen as nat,
                    ) >= best_key as int
                &&& forall|j: int|
                    0 <= j < best_idx && (#[trigger] candidates@[j]).1 == max_score ==> tie_key(
                        process_names.deep_view(),
                        candidates@[j].0,
                        glen as nat,
                    ) > best_key as int
            },
        decreases candidates.len() - i2,
    {
        if candidates[i2].1 == max_score {
            let k = tie_key_exec(process_names, candidates[i2].0, glen);
            if !found || k < best_key {
                best_idx = i2;
                best_key = k;
                found = true;
            }
        }
        i2 = i2 + 1;
    }
    assert(found);
    proof {
        assert forall|j: int| #[trigger]
            is_max_score(candidates@, j) implies candidates@[j].1 == max_score by {
            let w = choose|w: int|
                0 <= w < candidates@.len() && (#[trigger] candidates@[w]).1 == max_score;
            assert(candidates@[w].1 <= candidates@[j].1);
        }
        assert(is_max_score(candidates@, best_idx as int));
        assert(is_chosen(candidates@, process_names.deep_view(), game_name@.len(), best_idx as int));
    }
    Some(candidates[best_idx].0)
}

/// Law: a process whose executable path lies under an excluded prefix scores
/// zero, whatever the other signals say.
pub proof fn lemma_excluded_scores_zero(
    exe_path: Seq<u8>,
    name: Seq<u8>,
    final_exe_path: Seq<u8>,
    game_name: Seq<u8>,
    system_folders: Seq<Seq<u8>>,
    game_folders: Seq<Seq<u8>>,
)
    requires
        excluded(exe_path, system_folders),
    ensures
        score_spec(exe_path, name, final_exe_path, game_name, system_folders, game_folders) == 0,
{
}

/// Law: the exact-path-match signal dominates. A candidate that is not
/// excluded and matches the resolved target path exactly outscores every
/// candidate scored without that match.
pub proof fn lemma_exact_match_dominates(
    exe_path: Seq<u8>,
    name: Seq<u8>,
    other_exe_path: Seq<u8>,
    other_name: Seq<u8>,
    final_exe_path: Seq<u8>,
    game_name: Seq<u8>,
    system_folders: Seq<Seq<u8>>,
    game_folders: Seq<Seq<u8>>,
)
    requires
        !excluded(exe_path, system_folders),
        exe_path == final_exe_path,
        other_exe_path != final_exe_path,
    ensures
        score_spec(exe_path, name, final_exe_path, game_name, system_folders, game_folders)
            > score_spec(
            other_exe_path,
            other_name,
            final_exe_path,
            game_name,
            system_folders,
            game_folders,
        ),
{
}

/// Law: tie-break determinism. The chosen index is unique: a candidate list
/// admits at most one index that carries a maximal score, a minimal tie-break
/// key among the maximal candidates, and the earliest position on equal keys.
pub proof fn lemma_chosen_unique(
    candidates: Seq<(u32, i32)>,
    names: Seq<(u32, Seq<u8>)>,
    game_len: nat,
    i: int,
    j: int,
)
    requires
        is_chosen(candidates, names, game_len, i),
        is_chosen(candidates, names, game_len, j),
    ensures
        i == j,
{
    if i < j {
        assert(tie_key(names, candidates[i].0, game_len) > tie_key(
            names,
            candidates[j].0,
            game_len,
        ));
        assert(tie_key(names, candidates[i].0, game_len) <= tie_key(
            names,
            candidates[j].0,
            game_len,
        ));
    }
    if j < i {
        assert(tie_key(names, candidates[j].0, game_len) > tie_key(
            names,
            candidates[i].0,
            game_len,
        ));
        assert(tie_key(names, candidates[j].0, game_len) <= tie_key(
            names,
            candidates[i].0,
            game_len,
        ));
    }
}

/// Law: among two equally and maximally scored candidates, the chosen one has
/// the smaller tie-break key, and on equal keys the earlier position.
pub proof fn lemma_tie_break(
    candidates: Seq<(u32, i32)>,
    names: Seq<(u32, Seq<u8>)>,
    game_len: nat,
    i: int,
    j: int,
)
    requires
        is_chosen(candidates, names, game_len, i),
        is_max_score(candidates, j),
        j != i,
    ensures
        tie_key(names, candidates[i].0, game_len) <= tie_key(names, candidates[j].0, game_len),
        tie_key(names, candidates[i].0, game_len) == tie_key(names, candidates[j].0, game_len)
            ==> i < j,
{
    if tie_key(names, candidates[i].0, game_len) == tie_key(names, candidates[j].0, game_len)
        && j < i {
        assert(tie_key(names, candidates[j].0, game_len) > tie_key(
            names,
            candidates[i].0,
            game_len,
        ));
    }
}

} // verus!
