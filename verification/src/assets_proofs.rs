//! What holds of every expansion: which files a manifest holds, when an
//! expansion succeeds, and where its directories come from.

use vstd::prelude::*;
use crate::assets::{
    dests, entry_file, expansion, manifest_of, nothing, position, scan_at, with_asset,
    with_assets, with_dir, with_entries, with_file, ConfigErrorModel,
    ManifestModel, Resolution, TreeEntryModel, TreeScanModel,
};
use crate::config::AssetModel;
use crate::paths::{
    containing_dir, is_directory_source, joined, lemma_joined_with_nothing, same_path,
};
use crate::sorting::{
    ascending, lemma_ascending_unique, lemma_sorted_of, lemma_sorted_of_distinct, same_members,
    sorted_of,
};

verus! {

/// No two entries spell the same path.
pub open spec fn distinct_paths(list: Seq<Seq<char>>) -> bool {
    forall|i: int, j: int| 0 <= i < j < list.len() ==> !same_path(list[i], list[j])
}

/// Every file has its owner, no destination is taken twice and no directory
/// is noted twice.
pub open spec fn consistent(st: Resolution) -> bool {
    &&& st.owners.len() == st.files.len()
    &&& distinct_paths(dests(st.files))
    &&& distinct_paths(st.dirs)
}

/// What a manifest promises: no destination twice, and the directories in
/// strictly ascending order, each path once.
pub open spec fn well_formed(m: ManifestModel) -> bool {
    &&& distinct_paths(dests(m.files))
    &&& distinct_paths(m.directories)
    &&& ascending(m.directories)
}

/// `front` is how `whole` begins.
pub open spec fn begins<T>(whole: Seq<T>, front: Seq<T>) -> bool {
    front.len() <= whole.len() && whole.take(front.len() as int) == front
}

/// The files that the entries of a walked directory asset stand for, from
/// index `from` on.
pub open spec fn tree_files(asset: AssetModel, entries: Seq<TreeEntryModel>, from: int) -> Seq<
    AssetModel,
>
    decreases entries.len() - from,
{
    if from < 0 || from >= entries.len() {
        Seq::empty()
    } else if entries[from].is_dir {
        tree_files(asset, entries, from + 1)
    } else {
        seq![entry_file(asset, entries[from])] + tree_files(asset, entries, from + 1)
    }
}

/// The files that one declared asset stands for.
pub open spec fn offered_files(asset: AssetModel, scan: TreeScanModel) -> Seq<AssetModel> {
    if is_directory_source(asset.source) {
        tree_files(asset, scan.entries, 0)
    } else {
        seq![asset]
    }
}

/// The files that the declared assets from index `from` on stand for.
pub open spec fn all_files(assets: Seq<AssetModel>, scans: Seq<TreeScanModel>, from: int) -> Seq<
    AssetModel,
>
    decreases assets.len() - from,
{
    if from < 0 || from >= assets.len() {
        Seq::empty()
    } else {
        offered_files(assets[from], scan_at(scans, from)) + all_files(assets, scans, from + 1)
    }
}

/// The source of a directory asset was there and could be walked to the end.
pub open spec fn readable(asset: AssetModel, scan: TreeScanModel) -> bool {
    is_directory_source(asset.source) ==> scan.is_directory && scan.failure is None
}

/// `asset` asks for the directory `dir` to be created.
pub open spec fn offers_dir(asset: AssetModel, scan: TreeScanModel, dir: Seq<char>) -> bool {
    asset.mkdir && if is_directory_source(asset.source) {
        dir == asset.dest || exists|k: int|
            0 <= k < scan.entries.len() && scan.entries[k].is_dir && dir == joined(
                asset.dest,
                #[trigger] scan.entries[k].relative,
            )
    } else {
        containing_dir(asset.dest) == Some(dir)
    }
}

/// What a search for `p` finds: the first entry from `from` on that spells
/// the same path, if there is one.
pub proof fn lemma_position(list: Seq<Seq<char>>, p: Seq<char>, from: int)
    requires
        0 <= from <= list.len(),
    ensures
        match position(list, p, from) {
            Some(j) => from <= j < list.len() && same_path(list[j], p) && forall|k: int|
                from <= k < j ==> !same_path(list[k], p),
            None => forall|k: int| from <= k < list.len() ==> !same_path(list[k], p),
        },
    decreases list.len() - from,
{
    if from < list.len() && !same_path(list[from], p) {
        lemma_position(list, p, from + 1);
    }
}

/// Noting a directory keeps a resolution consistent, leaves its files alone
/// and adds at most that directory.
pub proof fn lemma_with_dir(st: Resolution, dir: Seq<char>)
    requires
        consistent(st),
    ensures
        consistent(with_dir(st, dir)),
        with_dir(st, dir).files == st.files,
        with_dir(st, dir).owners == st.owners,
        forall|d: Seq<char>| with_dir(st, dir).dirs.contains(d) ==> d == dir || st.dirs.contains(d),
{
    lemma_position(st.dirs, dir, 0);
    let out = with_dir(st, dir);
    if position(st.dirs, dir, 0) is None {
        assert(out.dirs == st.dirs.push(dir));
        assert forall|i: int, j: int| 0 <= i < j < out.dirs.len() implies !same_path(
            out.dirs[i],
            out.dirs[j],
        ) by {
            if j < st.dirs.len() {
                assert(out.dirs[i] == st.dirs[i] && out.dirs[j] == st.dirs[j]);
            } else {
                assert(out.dirs[i] == st.dirs[i] && out.dirs[j] == dir);
            }
        }
        assert forall|d: Seq<char>| out.dirs.contains(d) implies d == dir || st.dirs.contains(
            d,
        ) by {
            let i = choose|i: int| 0 <= i < out.dirs.len() && out.dirs[i] == d;
            if i < st.dirs.len() {
                assert(st.dirs[i] == d);
            }
        }
    }
}

/// Accepting a file keeps a resolution consistent and puts the file and its
/// owner last; it is refused exactly when its destination is taken.
pub proof fn lemma_with_file(st: Resolution, file: AssetModel, owner: Seq<char>)
    requires
        consistent(st),
    ensures
        match with_file(st, file, owner) {
            Ok(out) => {
                &&& consistent(out)
                &&& out.files == st.files.push(file)
                &&& out.owners == st.owners.push(owner)
                &&& out.dirs == st.dirs
                &&& forall|k: int| 0 <= k < st.files.len() ==> !same_path(st.files[k].dest, file.dest)
            },
            Err(e) => exists|k: int|
                0 <= k < st.files.len() && same_path(st.files[k].dest, file.dest) && e
                    == (ConfigErrorModel::DuplicateDestination {
                    dest: file.dest,
                    first: st.owners[k],
                    second: owner,
                }),
        },
{
    let list = dests(st.files);
    lemma_position(list, file.dest, 0);
    match with_file(st, file, owner) {
        Ok(out) => {
            assert forall|k: int| 0 <= k < st.files.len() implies !same_path(
                st.files[k].dest,
                file.dest,
            ) by {
                assert(list[k] == st.files[k].dest);
            }
            let after = dests(out.files);
            assert forall|i: int, j: int| 0 <= i < j < after.len() implies !same_path(
                after[i],
                after[j],
            ) by {
                if j < list.len() {
                    assert(after[i] == list[i] && after[j] == list[j]);
                } else {
                    assert(after[i] == list[i] && after[j] == file.dest);
                }
            }
        },
        Err(e) => {
            let k = position(list, file.dest, 0)->Some_0;
            assert(list[k] == st.files[k].dest);
        },
    }
}

/// A clash of destinations stays one when more files follow.
pub proof fn lemma_clash_remains(files: Seq<AssetModel>, more: Seq<AssetModel>)
    requires
        !distinct_paths(dests(files)),
    ensures
        !distinct_paths(dests(files + more)),
{
    let list = dests(files);
    let (i, j) = choose|i: int, j: int| 0 <= i < j < list.len() && same_path(list[i], list[j]);
    let whole = dests(files + more);
    assert(whole[i] == list[i] && whole[j] == list[j]);
}

/// The entries of a walked directory asset are taken in exactly when the
/// files they stand for clash neither with the files already there nor with
/// one another; the files then follow the earlier ones in order.
pub proof fn lemma_with_entries(
    st: Resolution,
    asset: AssetModel,
    entries: Seq<TreeEntryModel>,
    from: int,
)
    requires
        consistent(st),
        0 <= from <= entries.len(),
    ensures
        match with_entries(st, asset, entries, from) {
            Ok(out) => {
                &&& consistent(out)
                &&& out.files == st.files + tree_files(asset, entries, from)
                &&& begins(out.owners, st.owners)
                &&& forall|d: Seq<char>| #[trigger]
                    out.dirs.contains(d) ==> st.dirs.contains(d) || (asset.mkdir && exists|k: int|
                        from <= k < entries.len() && entries[k].is_dir && d == joined(
                            asset.dest,
                            #[trigger] entries[k].relative,
                        ))
            },
            Err(e) => !distinct_paths(dests(st.files + tree_files(asset, entries, from))),
        },
    decreases entries.len() - from,
{
    if from >= entries.len() {
        assert(st.files + tree_files(asset, entries, from) =~= st.files);
        assert(st.owners.take(st.owners.len() as int) =~= st.owners);
    } else if entries[from].is_dir {
        let dir = joined(asset.dest, entries[from].relative);
        let next = if asset.mkdir {
            with_dir(st, dir)
        } else {
            st
        };
        lemma_with_dir(st, dir);
        lemma_with_entries(next, asset, entries, from + 1);
        match with_entries(next, asset, entries, from + 1) {
            Ok(out) => {
                assert forall|d: Seq<char>| #[trigger] out.dirs.contains(d) implies st.dirs.contains(
                    d,
                ) || (asset.mkdir && exists|k: int|
                    from <= k < entries.len() && entries[k].is_dir && d == joined(
                        asset.dest,
                        #[trigger] entries[k].relative,
                    )) by {
                    if !st.dirs.contains(d) {
                        if next.dirs.contains(d) {
                            assert(d == joined(asset.dest, entries[from].relative));
                        } else {
                            let k = choose|k: int|
                                from + 1 <= k < entries.len() && entries[k].is_dir && d == joined(
                                    asset.dest,
                                    #[trigger] entries[k].relative,
                                );
                            assert(from <= k);
                        }
                    }
                }
            },
            Err(e) => {},
        }
    } else {
        let file = entry_file(asset, entries[from]);
        let rest = tree_files(asset, entries, from + 1);
        lemma_with_file(st, file, asset.source);
        assert(st.files + tree_files(asset, entries, from) =~= st.files.push(file) + rest);
        match with_file(st, file, asset.source) {
            Ok(next) => {
                lemma_with_entries(next, asset, entries, from + 1);
                match with_entries(next, asset, entries, from + 1) {
                    Ok(out) => {
                        assert(out.owners.take(st.owners.len() as int) =~= out.owners.take(
                            next.owners.len() as int,
                        ).take(st.owners.len() as int));
                        assert(next.owners.take(st.owners.len() as int) =~= st.owners);
                        assert forall|d: Seq<char>| #[trigger]
                            out.dirs.contains(d) implies st.dirs.contains(d) || (asset.mkdir
                            && exists|k: int|
                            from <= k < entries.len() && entries[k].is_dir && d == joined(
                                asset.dest,
                                #[trigger] entries[k].relative,
                            )) by {
                            if !st.dirs.contains(d) {
                                let k = choose|k: int|
                                    from + 1 <= k < entries.len() && entries[k].is_dir && d
                                        == joined(asset.dest, #[trigger] entries[k].relative);
                                assert(from <= k);
                            }
                        }
                    },
                    Err(e) => {},
                }
            },
            Err(e) => {
                let k = choose|k: int|
                    0 <= k < st.files.len() && same_path(st.files[k].dest, file.dest);
                let taken = st.files.push(file);
                let list = dests(taken);
                assert(list[k] == st.files[k].dest && list[st.files.len() as int] == file.dest);
                assert(!distinct_paths(list));
                lemma_clash_remains(taken, rest);
            },
        }
    }
}

/// One declared asset is taken in exactly when its source could be read and
/// its files clash neither with the files already there nor with one
/// another.  Its files then follow the earlier ones, and every directory that
/// is new was asked for by this asset.
pub proof fn lemma_with_asset(st: Resolution, asset: AssetModel, scan: TreeScanModel)
    requires
        consistent(st),
    ensures
        match with_asset(st, asset, scan) {
            Ok(out) => {
                &&& consistent(out)
                &&& readable(asset, scan)
                &&& out.files == st.files + offered_files(asset, scan)
                &&& begins(out.owners, st.owners)
                &&& !is_directory_source(asset.source) ==> out.owners == st.owners.push(
                    asset.source,
                )
                &&& forall|d: Seq<char>| #[trigger]
                    out.dirs.contains(d) ==> st.dirs.contains(d) || offers_dir(asset, scan, d)
            },
            Err(e) => !readable(asset, scan) || !distinct_paths(
                dests(st.files + offered_files(asset, scan)),
            ),
        },
{
    if is_directory_source(asset.source) {
        if scan.is_directory {
            let start = if asset.mkdir {
                with_dir(st, asset.dest)
            } else {
                st
            };
            lemma_with_dir(st, asset.dest);
            lemma_with_entries(start, asset, scan.entries, 0);
            match with_asset(st, asset, scan) {
                Ok(out) => {
                    assert forall|d: Seq<char>| #[trigger] out.dirs.contains(d) implies st.dirs.contains(
                        d,
                    ) || offers_dir(asset, scan, d) by {
                        if !st.dirs.contains(d) && !start.dirs.contains(d) {
                            let k = choose|k: int|
                                0 <= k < scan.entries.len() && scan.entries[k].is_dir && d
                                    == joined(asset.dest, #[trigger] scan.entries[k].relative);
                        }
                    }
                },
                Err(e) => {},
            }
        }
    } else {
        let start = match containing_dir(asset.dest) {
            Some(dir) if asset.mkdir => with_dir(st, dir),
            _ => st,
        };
        match containing_dir(asset.dest) {
            Some(dir) => {
                lemma_with_dir(st, dir);
            },
            None => {},
        }
        lemma_with_file(start, asset, asset.source);
        assert(st.files + offered_files(asset, scan) =~= st.files.push(asset));
        match with_file(start, asset, asset.source) {
            Ok(out) => {
                assert(out.owners.take(st.owners.len() as int) =~= st.owners);
            },
            Err(e) => {
                let k = choose|k: int|
                    0 <= k < st.files.len() && same_path(st.files[k].dest, asset.dest);
                let list = dests(st.files.push(asset));
                assert(list[k] == st.files[k].dest && list[st.files.len() as int] == asset.dest);
            },
        }
    }
}

/// The declared assets from `from` on are taken in exactly when every
/// source could be read and no two files, old or new, share a destination.
/// The files then follow the earlier ones in declaration order, and every
/// directory that is new was asked for by one of these assets.
pub proof fn lemma_with_assets(
    st: Resolution,
    assets: Seq<AssetModel>,
    scans: Seq<TreeScanModel>,
    from: int,
)
    requires
        consistent(st),
        0 <= from <= assets.len(),
    ensures
        match with_assets(st, assets, scans, from) {
            Ok(out) => {
                &&& consistent(out)
                &&& out.files == st.files + all_files(assets, scans, from)
                &&& begins(out.owners, st.owners)
                &&& forall|i: int|
                    from <= i < assets.len() ==> readable(#[trigger] assets[i], scan_at(scans, i))
                &&& forall|d: Seq<char>| #[trigger]
                    out.dirs.contains(d) ==> st.dirs.contains(d) || exists|i: int|
                        from <= i < assets.len() && #[trigger] offers_dir(
                            assets[i],
                            scan_at(scans, i),
                            d,
                        )
            },
            Err(e) => {
                ||| exists|i: int|
                    from <= i < assets.len() && !readable(#[trigger] assets[i], scan_at(scans, i))
                ||| !distinct_paths(dests(st.files + all_files(assets, scans, from)))
            },
        },
    decreases assets.len() - from,
{
    if from >= assets.len() {
        assert(st.files + all_files(assets, scans, from) =~= st.files);
        assert(st.owners.take(st.owners.len() as int) =~= st.owners);
    } else {
        let asset = assets[from];
        let scan = scan_at(scans, from);
        let offered = offered_files(asset, scan);
        let rest = all_files(assets, scans, from + 1);
        lemma_with_asset(st, asset, scan);
        assert(st.files + all_files(assets, scans, from) =~= (st.files + offered) + rest);
        match with_asset(st, asset, scan) {
            Ok(next) => {
                lemma_with_assets(next, assets, scans, from + 1);
                match with_assets(next, assets, scans, from + 1) {
                    Ok(out) => {
                        assert(out.owners.take(st.owners.len() as int) =~= out.owners.take(
                            next.owners.len() as int,
                        ).take(st.owners.len() as int));
                        assert forall|d: Seq<char>| #[trigger]
                            out.dirs.contains(d) implies st.dirs.contains(d) || exists|i: int|
                            from <= i < assets.len() && #[trigger] offers_dir(
                                assets[i],
                                scan_at(scans, i),
                                d,
                            ) by {
                            if !st.dirs.contains(d) {
                                if next.dirs.contains(d) {
                                    assert(offers_dir(assets[from], scan_at(scans, from), d));
                                } else {
                                    let i = choose|i: int|
                                        from + 1 <= i < assets.len() && #[trigger] offers_dir(
                                            assets[i],
                                            scan_at(scans, i),
                                            d,
                                        );
                                    assert(from <= i);
                                }
                            }
                        }
                    },
                    Err(e) => {
                        if exists|i: int|
                            from + 1 <= i < assets.len() && !readable(
                                #[trigger] assets[i],
                                scan_at(scans, i),
                            ) {
                            let i = choose|i: int|
                                from + 1 <= i < assets.len() && !readable(
                                    #[trigger] assets[i],
                                    scan_at(scans, i),
                                );
                            assert(from <= i);
                        }
                    },
                }
            },
            Err(e) => {
                if readable(asset, scan) {
                    lemma_clash_remains(st.files + offered, rest);
                }
            },
        }
    }
}

/// Paths that differ pairwise are spelled differently pairwise.
pub proof fn lemma_distinct_paths_differ(list: Seq<Seq<char>>)
    requires
        distinct_paths(list),
    ensures
        list.no_duplicates(),
{
    assert forall|i: int, j: int| 0 <= i < list.len() && 0 <= j < list.len() && i != j implies list[i]
        != list[j] by {
        if i < j {
            assert(!same_path(list[i], list[j]));
        } else {
            assert(!same_path(list[j], list[i]));
        }
    }
}

/// Sorting directories that differ pairwise as paths gives a list that is
/// strictly ascending and still differs pairwise.
pub proof fn lemma_sorted_directories(dirs: Seq<Seq<char>>)
    requires
        distinct_paths(dirs),
    ensures
        ascending(sorted_of(dirs)),
        distinct_paths(sorted_of(dirs)),
        same_members(sorted_of(dirs), dirs),
{
    lemma_distinct_paths_differ(dirs);
    lemma_sorted_of(dirs);
    lemma_sorted_of_distinct(dirs);
    let out = sorted_of(dirs);
    assert forall|i: int, j: int| 0 <= i < j < out.len() implies !same_path(out[i], out[j]) by {
        assert(out.contains(out[i]) && out.contains(out[j]));
        let a = choose|a: int| 0 <= a < dirs.len() && dirs[a] == out[i];
        let b = choose|b: int| 0 <= b < dirs.len() && dirs[b] == out[j];
        if a < b {
            assert(!same_path(dirs[a], dirs[b]));
        } else if b < a {
            assert(!same_path(dirs[b], dirs[a]));
        }
    }
}

/// An expansion succeeds exactly when every declared directory could be
/// read and no two of the files that the assets stand for share a
/// destination.  The manifest then holds exactly those files, in declaration
/// order, whatever their `mkdir` says; it is well formed; and each of its
/// directories was asked for by an asset that creates its directories.
pub proof fn lemma_expansion(assets: Seq<AssetModel>, scans: Seq<TreeScanModel>)
    ensures
        match expansion(assets, scans) {
            Ok(m) => {
                &&& well_formed(m)
                &&& m.files == all_files(assets, scans, 0)
                &&& forall|i: int|
                    0 <= i < assets.len() ==> readable(#[trigger] assets[i], scan_at(scans, i))
                &&& forall|d: Seq<char>| #[trigger]
                    m.directories.contains(d) ==> exists|i: int|
                        0 <= i < assets.len() && assets[i].mkdir && #[trigger] offers_dir(
                            assets[i],
                            scan_at(scans, i),
                            d,
                        )
            },
            Err(e) => {
                ||| exists|i: int|
                    0 <= i < assets.len() && !readable(#[trigger] assets[i], scan_at(scans, i))
                ||| !distinct_paths(dests(all_files(assets, scans, 0)))
            },
        },
{
    let start = nothing();
    assert(consistent(start));
    lemma_with_assets(start, assets, scans, 0);
    assert(start.files + all_files(assets, scans, 0) =~= all_files(assets, scans, 0));
    match with_assets(start, assets, scans, 0) {
        Ok(st) => {
            let m = manifest_of(st);
            lemma_sorted_directories(st.dirs);
            assert forall|d: Seq<char>| #[trigger] m.directories.contains(d) implies exists|i: int|
                0 <= i < assets.len() && assets[i].mkdir && #[trigger] offers_dir(
                    assets[i],
                    scan_at(scans, i),
                    d,
                ) by {
                assert(st.dirs.contains(d));
                assert(!start.dirs.contains(d));
            }
        },
        Err(e) => {},
    }
}

/// When every declared directory could be read and no two files share a
/// destination, the manifest holds every file, and its destinations are as
/// many as the files.
pub proof fn lemma_expansion_keeps_every_file(
    assets: Seq<AssetModel>,
    scans: Seq<TreeScanModel>,
)
    requires
        forall|i: int| 0 <= i < assets.len() ==> readable(#[trigger] assets[i], scan_at(scans, i)),
        distinct_paths(dests(all_files(assets, scans, 0))),
    ensures
        expansion(assets, scans) is Ok,
        expansion(assets, scans)->Ok_0.files == all_files(assets, scans, 0),
        dests(expansion(assets, scans)->Ok_0.files).to_set().len() == all_files(
            assets,
            scans,
            0,
        ).len(),
{
    lemma_expansion(assets, scans);
    let list = dests(all_files(assets, scans, 0));
    lemma_distinct_paths_differ(list);
    list.unique_seq_to_set();
}

/// Where no asset creates its directories, the manifest names none.
pub proof fn lemma_no_mkdir_no_directories(assets: Seq<AssetModel>, scans: Seq<TreeScanModel>)
    requires
        forall|i: int| 0 <= i < assets.len() ==> !(#[trigger] assets[i]).mkdir,
        expansion(assets, scans) is Ok,
    ensures
        expansion(assets, scans)->Ok_0.directories.len() == 0,
{
    lemma_expansion(assets, scans);
    let dirs = expansion(assets, scans)->Ok_0.directories;
    if dirs.len() > 0 {
        assert(dirs.contains(dirs[0]));
    }
}

/// Taking in the assets from `from` on is taking in those before `mid` and
/// then the rest.
pub proof fn lemma_with_assets_split(
    st: Resolution,
    assets: Seq<AssetModel>,
    scans: Seq<TreeScanModel>,
    from: int,
    mid: int,
)
    requires
        0 <= from <= mid <= assets.len(),
    ensures
        with_assets(st, assets, scans, from) == match with_assets(
            st,
            assets.take(mid),
            scans,
            from,
        ) {
            Ok(m) => with_assets(m, assets, scans, mid),
            Err(e) => Err(e),
        },
    decreases mid - from,
{
    let front = assets.take(mid);
    if from < mid {
        assert(front[from] == assets[from]);
        match with_asset(st, assets[from], scan_at(scans, from)) {
            Ok(next) => {
                lemma_with_assets_split(next, assets, scans, from + 1, mid);
            },
            Err(e) => {},
        }
    }
}

/// A file asset that was taken in stands among the files, with its own
/// source as owner.
pub proof fn lemma_file_asset_recorded(
    st: Resolution,
    assets: Seq<AssetModel>,
    scans: Seq<TreeScanModel>,
    from: int,
    i: int,
)
    requires
        consistent(st),
        0 <= from <= i < assets.len(),
        !is_directory_source(assets[i].source),
        with_assets(st, assets, scans, from) is Ok,
    ensures
        ({
            let out = with_assets(st, assets, scans, from)->Ok_0;
            exists|k: int|
                0 <= k < out.files.len() && k < out.owners.len() && #[trigger] out.files[k]
                    == assets[i] && out.owners[k] == assets[i].source
        }),
    decreases i - from,
{
    let scan = scan_at(scans, from);
    lemma_with_asset(st, assets[from], scan);
    let next = with_asset(st, assets[from], scan)->Ok_0;
    lemma_with_assets(next, assets, scans, from + 1);
    let out = with_assets(st, assets, scans, from)->Ok_0;
    if from == i {
        let k = st.files.len() as int;
        assert(next.files[k] == assets[i]);
        assert(out.files[k] == assets[i]);
        assert(out.owners.take(next.owners.len() as int)[k] == out.owners[k]);
        assert(out.owners[k] == assets[i].source);
    } else {
        lemma_file_asset_recorded(next, assets, scans, from + 1, i);
    }
}

/// Two file assets with one destination make the expansion fail; when all
/// that is declared before the second of them resolves, the error names the
/// contested destination and the sources of both.
pub proof fn lemma_shared_destination(
    assets: Seq<AssetModel>,
    scans: Seq<TreeScanModel>,
    i: int,
    j: int,
)
    requires
        0 <= i < j < assets.len(),
        !is_directory_source(assets[i].source),
        !is_directory_source(assets[j].source),
        same_path(assets[i].dest, assets[j].dest),
    ensures
        expansion(assets, scans) is Err,
        with_assets(nothing(), assets.take(j), scans, 0) is Ok ==> expansion(assets, scans) == Err::<
            ManifestModel,
            ConfigErrorModel,
        >(
            ConfigErrorModel::DuplicateDestination {
                dest: assets[j].dest,
                first: assets[i].source,
                second: assets[j].source,
            },
        ),
{
    let front = assets.take(j);
    lemma_with_assets_split(nothing(), assets, scans, 0, j);
    match with_assets(nothing(), front, scans, 0) {
        Ok(mid) => {
            lemma_with_assets(nothing(), front, scans, 0);
            assert(front[i] == assets[i]);
            lemma_file_asset_recorded(nothing(), front, scans, 0, i);
            let k = choose|k: int|
                0 <= k < mid.files.len() && k < mid.owners.len() && #[trigger] mid.files[k]
                    == assets[i] && mid.owners[k] == assets[i].source;
            let asset = assets[j];
            let start = match containing_dir(asset.dest) {
                Some(dir) if asset.mkdir => with_dir(mid, dir),
                _ => mid,
            };
            match containing_dir(asset.dest) {
                Some(dir) => {
                    lemma_with_dir(mid, dir);
                },
                None => {},
            }
            lemma_with_file(start, asset, asset.source);
            assert(same_path(start.files[k].dest, asset.dest));
            match with_file(start, asset, asset.source) {
                Ok(out) => {
                    assert(false);
                },
                Err(e) => {
                    let found = choose|found: int|
                        0 <= found < start.files.len() && same_path(
                            start.files[found].dest,
                            asset.dest,
                        ) && e == (ConfigErrorModel::DuplicateDestination {
                            dest: asset.dest,
                            first: start.owners[found],
                            second: asset.source,
                        });
                    let list = dests(start.files);
                    assert(list[k] == start.files[k].dest && list[found]
                        == start.files[found].dest);
                    if found < k {
                        assert(!same_path(list[found], list[k]));
                    } else if k < found {
                        assert(!same_path(list[k], list[found]));
                    }
                    assert(found == k);
                    assert(with_asset(mid, asset, scan_at(scans, j)) == Err::<
                        Resolution,
                        ConfigErrorModel,
                    >(e));
                },
            }
        },
        Err(e) => {},
    }
}

/// The directory list of a manifest does not depend on the order in which
/// the directories were first mentioned: two runs that note the same
/// directories list them identically.
pub proof fn lemma_directory_list_is_canonical(first: Seq<Seq<char>>, second: Seq<Seq<char>>)
    requires
        distinct_paths(first),
        distinct_paths(second),
        same_members(first, second),
    ensures
        sorted_of(first) == sorted_of(second),
{
    lemma_sorted_directories(first);
    lemma_sorted_directories(second);
    lemma_ascending_unique(sorted_of(first), sorted_of(second));
}

/// A directory asset that creates its directories lists its destination
/// once, although the walk of its source meets the directory itself again
/// as its first entry.
pub proof fn lemma_walked_root_is_noted_once(st: Resolution, dest: Seq<char>)
    ensures
        with_dir(with_dir(st, dest), joined(dest, Seq::<char>::empty())) == with_dir(st, dest),
{
    let noted = with_dir(st, dest);
    let again = joined(dest, Seq::<char>::empty());
    lemma_joined_with_nothing(dest);
    lemma_position(st.dirs, dest, 0);
    lemma_position(noted.dirs, again, 0);
    if position(st.dirs, dest, 0) is Some {
        let j = position(st.dirs, dest, 0)->Some_0;
        assert(same_path(noted.dirs[j], again));
    } else {
        let j = st.dirs.len() as int;
        assert(noted.dirs[j] == dest);
        assert(same_path(noted.dirs[j], again));
    }
}

} // verus!
