//! The list of profiles.
use vstd::prelude::*;
use vstd::string::*;

use crate::config::{first_present, profile_candidates};
use crate::path::{
    file_profile, is_yaml_name, plain_file_name, profile_files, profile_of, single_component,
};
use crate::sorting::{
    at_most, at_most_antisymmetric, name_key, sort_by_name, sorted_by, stable_sort, stable_sort_keeps, stable_sort_maps,
    stable_sort_sorts, with_key,
};
use crate::text::{join3, lower_text, opt_text, same_text, texts};
use crate::ui::{last_flag, last_profiles, switch, views, FlagField, UiUpdate, UpdateView};

verus! {

/// What reading the directory of the profiles gave.
#[derive(Debug)]
pub enum DirectoryListing {
    /// There is no such directory.
    NotFound,
    /// It cannot be read, for the given reason.
    Failed(String),
    /// The names of what it holds.
    Entries(Vec<String>),
}

/// The profiles that files hold, in the order of the files.
pub open spec fn profiles_in(files: Seq<Seq<char>>) -> Seq<Seq<char>>
    decreases files.len(),
{
    if files.len() == 0 {
        Seq::empty()
    } else {
        match profile_of(files.last()) {
            Some(name) => profiles_in(files.drop_last()).push(name),
            None => profiles_in(files.drop_last()),
        }
    }
}

/// A sequence without the items that repeat the one before.
pub open spec fn without_repeats(items: Seq<Seq<char>>) -> Seq<Seq<char>>
    decreases items.len(),
{
    if items.len() < 2 {
        items
    } else if items.last() == items[items.len() - 2] {
        without_repeats(items.drop_last())
    } else {
        without_repeats(items.drop_last()).push(items.last())
    }
}

/// The key by which profiles are sorted: the name in lower case.
pub open spec fn profile_key() -> spec_fn(Seq<char>) -> Seq<char> {
    |name: Seq<char>| lower_text(name)
}

/// The profiles to choose from, given the files of the directory: in the order
/// of their names in lower case, without repetitions in a row.
pub open spec fn listed(files: Seq<Seq<char>>) -> Seq<Seq<char>> {
    without_repeats(stable_sort(profiles_in(files), profile_key()))
}

fn collect_profiles(files: &Vec<String>) -> (names: Vec<String>)
    ensures
        texts(names@) == profiles_in(texts(files@)),
{
    let mut names: Vec<String> = Vec::new();
    let ghost all = texts(files@);
    assert(texts(names@) =~= profiles_in(all.take(0)));
    for i in 0..files.len()
        invariant
            all == texts(files@),
            texts(names@) == profiles_in(all.take(i as int)),
    {
        let ghost before = texts(names@);
        assert(all.take(i + 1).drop_last() =~= all.take(i as int));
        assert(all.take(i + 1).last() == files@[i as int]@);
        match file_profile(files[i].as_str()) {
            Some(name) => {
                names.push(name);
                assert(texts(names@) =~= before.push(name@));
            },
            None => {},
        }
    }
    assert(all.take(all.len() as int) =~= all);
    names
}

fn drop_repeats(names: Vec<String>) -> (kept: Vec<String>)
    ensures
        texts(kept@) == without_repeats(texts(names@)),
{
    let mut kept: Vec<String> = Vec::new();
    let ghost all = texts(names@);
    assert(texts(kept@) =~= without_repeats(all.take(0)));
    for i in 0..names.len()
        invariant
            all == texts(names@),
            texts(kept@) == without_repeats(all.take(i as int)),
    {
        let ghost before = texts(kept@);
        let ghost now = all.take(i + 1);
        assert(now.drop_last() =~= all.take(i as int));
        assert(now.last() == names@[i as int]@);
        if i == 0 {
            assert(before =~= Seq::empty());
            kept.push(names[i].as_str().to_owned());
            assert(texts(kept@) =~= now);
        } else {
            assert(now[i - 1] == names@[i - 1]@);
            if !same_text(names[i].as_str(), names[i - 1].as_str()) {
                let copy = names[i].as_str().to_owned();
                kept.push(copy);
                assert(texts(kept@) =~= before.push(copy@));
            }
        }
    }
    assert(all.take(all.len() as int) =~= all);
    kept
}

/// The profiles to choose from, given the names of what the directory holds.
pub fn list_profiles(files: &Vec<String>) -> (names: Vec<String>)
    ensures
        texts(names@) == listed(texts(files@)),
{
    let mut names = collect_profiles(files);
    proof {
        stable_sort_maps(names@, name_key::<String>(), |s: String| s@, profile_key());
    }
    sort_by_name(&mut names);
    drop_repeats(names)
}

/// The profiles that a listing gives.
pub open spec fn scanned(listing: DirectoryListing) -> Seq<Seq<char>> {
    match listing {
        DirectoryListing::Entries(files) => listed(texts(files@)),
        _ => Seq::empty(),
    }
}

/// What the window shows of a listing.
pub open spec fn scan_shown(listing: DirectoryListing) -> Seq<UpdateView> {
    seq![
        UpdateView::Profiles(scanned(listing)),
        UpdateView::Flag(FlagField::ProfilesLoaded, true),
    ]
}

/// The error of a listing in words, if there is one. That there is no such
/// directory is none: there are no profiles then.
pub open spec fn scan_error(listing: DirectoryListing, directory: Seq<char>) -> Option<Seq<char>> {
    match listing {
        DirectoryListing::Failed(reason) => Some(
            "Could not read configuration directory '"@ + directory + "': "@ + reason@,
        ),
        _ => None,
    }
}

/// What became of a listing: what the window shows of it, and the error in
/// words, if there is one.
#[derive(Debug)]
pub struct Scan {
    pub updates: Vec<UiUpdate>,
    pub error: Option<String>,
}

/// Shows the profiles of a directory. `directory` is how it is shown to the
/// user.
pub fn scan_profiles_into(listing: DirectoryListing, directory: &str) -> (scan: Scan)
    ensures
        views(scan.updates@) == scan_shown(listing),
        opt_text(scan.error) == scan_error(listing, directory@),
{
    let (names, error) = match &listing {
        DirectoryListing::NotFound => (Vec::new(), None),
        DirectoryListing::Failed(reason) => (
            Vec::new(),
            Some(
                join3(
                    "Could not read configuration directory '",
                    directory,
                    "': ",
                ).concat(reason.as_str()),
            ),
        ),
        DirectoryListing::Entries(files) => (list_profiles(files), None),
    };
    assert(texts(names@) =~= scanned(listing));
    let mut updates: Vec<UiUpdate> = Vec::new();
    updates.push(UiUpdate::Profiles(names));
    updates.push(switch(FlagField::ProfilesLoaded, true));
    assert(views(updates@) =~= scan_shown(listing));
    Scan { updates, error }
}

proof fn profiles_in_holds(files: Seq<Seq<char>>, name: Seq<char>)
    ensures
        profiles_in(files).contains(name) <==> exists|i: int|
            0 <= i < files.len() && profile_of(#[trigger] files[i]) == Some(name),
    decreases files.len(),
{
    if files.len() > 0 {
        let front = files.drop_last();
        profiles_in_holds(front, name);
        let inner = profiles_in(front);
        match profile_of(files.last()) {
            Some(last) => {
                assert(inner.push(last)[inner.len() as int] == last);
                assert forall|k: int| 0 <= k < inner.len() implies inner.push(last)[k]
                    == inner[k] by {}
                if inner.contains(name) {
                    let k = choose|k: int| 0 <= k < inner.len() && inner[k] == name;
                    assert(inner.push(last)[k] == name);
                }
                if inner.push(last).contains(name) && name != last {
                    let k = choose|k: int|
                        0 <= k < inner.push(last).len() && inner.push(last)[k] == name;
                    assert(inner[k] == name);
                }
            },
            None => {},
        }
        if exists|i: int| 0 <= i < files.len() && profile_of(#[trigger] files[i]) == Some(name) {
            let i = choose|i: int|
                0 <= i < files.len() && profile_of(#[trigger] files[i]) == Some(name);
            if i < front.len() {
                assert(front[i] == files[i]);
            }
        }
        if exists|i: int| 0 <= i < front.len() && profile_of(#[trigger] front[i]) == Some(name) {
            let i = choose|i: int|
                0 <= i < front.len() && profile_of(#[trigger] front[i]) == Some(name);
            assert(files[i] == front[i]);
        }
    }
}

proof fn without_repeats_facts(items: Seq<Seq<char>>)
    ensures
        items.len() > 0 ==> without_repeats(items).len() > 0 && without_repeats(items).last()
            == items.last(),
        forall|name: Seq<char>| #[trigger]
            without_repeats(items).contains(name) <==> items.contains(name),
        forall|i: int|
            0 < i < without_repeats(items).len() ==> #[trigger] without_repeats(items)[i]
                != without_repeats(items)[i - 1],
        sorted_by(items, profile_key()) ==> sorted_by(without_repeats(items), profile_key()),
    decreases items.len(),
{
    if items.len() >= 2 {
        let front = items.drop_last();
        let inner = without_repeats(front);
        let last = items.last();
        let out = without_repeats(items);
        without_repeats_facts(front);
        assert(front.last() == items[items.len() - 2]);
        assert(items =~= front.push(last));
        assert forall|name: Seq<char>| #[trigger] out.contains(name) <==> items.contains(
            name,
        ) by {
            assert(inner.contains(name) <==> front.contains(name));
            if front.contains(name) {
                let k = choose|k: int| 0 <= k < front.len() && front[k] == name;
                assert(items[k] == name);
            }
            if items.contains(name) {
                let k = choose|k: int| 0 <= k < items.len() && items[k] == name;
                if k < front.len() {
                    assert(front[k] == name);
                }
            }
            if last == front.last() {
                assert(front[front.len() - 1] == last);
            } else {
                assert(out =~= inner.push(last));
                if inner.contains(name) {
                    let k = choose|k: int| 0 <= k < inner.len() && inner[k] == name;
                    assert(out[k] == name);
                }
                if out.contains(name) {
                    let k = choose|k: int| 0 <= k < out.len() && out[k] == name;
                    if k < inner.len() {
                        assert(inner[k] == name);
                    }
                }
                assert(out[inner.len() as int] == last);
                assert(items[items.len() - 1] == last);
            }
        }
        if last != front.last() {
            assert forall|i: int| 0 < i < out.len() implies #[trigger] out[i] != out[i - 1] by {
                if i < inner.len() {
                    assert(inner[i] != inner[i - 1]);
                }
            }
        }
        if sorted_by(items, profile_key()) {
            let key = profile_key();
            assert forall|i: int, j: int| 0 <= i <= j < front.len() implies #[trigger]
                at_most(key(front[i]), key(front[j])) by {
                assert(at_most(key(items[i]), key(items[j])));
            }
            if last != front.last() {
                assert forall|i: int, j: int| 0 <= i <= j < out.len() implies #[trigger]
                    at_most(key(out[i]), key(out[j])) by {
                    if j < inner.len() {
                        assert(at_most(key(inner[i]), key(inner[j])));
                    } else {
                        let end = items.len() - 1;
                        if i < inner.len() {
                            assert(inner.contains(inner[i]));
                            assert(front.contains(inner[i]));
                            let k = choose|k: int| 0 <= k < front.len() && front[k] == inner[i];
                            assert(at_most(key(items[k]), key(items[end])));
                        } else {
                            assert(at_most(key(items[end]), key(items[end])));
                        }
                    }
                }
            }
        }
    }
}

/// Whether no two names differ in letter case only.
pub open spec fn no_case_variants(names: Seq<Seq<char>>) -> bool {
    forall|i: int, j: int|
        0 <= i < names.len() && 0 <= j < names.len() && #[trigger] lower_text(names[i])
            == #[trigger] lower_text(names[j]) ==> names[i] == names[j]
}

/// In a sorted sequence equal keys stand side by side.
proof fn equal_keys_are_neighbours(names: Seq<Seq<char>>, i: int, j: int)
    requires
        sorted_by(names, profile_key()),
        0 <= i < j < names.len(),
        names[i] == names[j],
    ensures
        lower_text(names[i]) == lower_text(names[i + 1]),
{
    let key = profile_key();
    assert(at_most(key(names[i]), key(names[i + 1])));
    assert(at_most(key(names[i + 1]), key(names[j])));
    at_most_antisymmetric(key(names[i]), key(names[i + 1]));
}

/// The list holds just the profiles of the directory's YAML files, in the
/// order of their names in lower case, and none twice in a row. Where no two
/// names differ in letter case only, it holds none twice at all.
pub proof fn list_is_complete_and_sorted(files: Seq<Seq<char>>, name: Seq<char>)
    ensures
        listed(files).contains(name) <==> exists|i: int|
            0 <= i < files.len() && profile_of(#[trigger] files[i]) == Some(name),
        sorted_by(listed(files), profile_key()),
        forall|i: int|
            0 < i < listed(files).len() ==> #[trigger] listed(files)[i] != listed(files)[i - 1],
        no_case_variants(listed(files)) ==> listed(files).no_duplicates(),
{
    let names = profiles_in(files);
    profiles_in_holds(files, name);
    stable_sort_keeps(names, profile_key(), name);
    stable_sort_sorts(names, profile_key(), Seq::empty());
    without_repeats_facts(stable_sort(names, profile_key()));
    let out = listed(files);
    if no_case_variants(out) {
        assert forall|i: int, j: int| 0 <= i < j < out.len() implies out[i] != out[j] by {
            if out[i] == out[j] {
                equal_keys_are_neighbours(out, i, j);
                assert(out[i + 1] == out[i]);
            }
        }
    }
}

/// A listed name can be chosen: unless it has a YAML ending of its own, the
/// first of its candidates that is there is a file that holds a profile of
/// that name. Unless it is a dot or two dots, it is a single file name, and
/// one on every system where its file's name is.
pub proof fn listed_profile_is_found(files: Seq<Seq<char>>, name: Seq<char>)
    requires
        listed(files).contains(name),
        !is_yaml_name(name),
        forall|i: int| 0 <= i < files.len() ==> single_component(#[trigger] files[i]),
    ensures
        first_present(profile_candidates(name), files) matches Some(file) && {
            &&& files.contains(file)
            &&& profile_of(file) == Some(name)
            &&& name != "."@ && name != ".."@ ==> single_component(name)
            &&& name != "."@ && name != ".."@ && plain_file_name(file) ==> plain_file_name(name)
        },
{
    list_is_complete_and_sorted(files, name);
    let i = choose|i: int| 0 <= i < files.len() && profile_of(#[trigger] files[i]) == Some(name);
    profile_files(files[i], name);
    let candidates = profile_candidates(name);
    reveal_with_fuel(first_present, 3);
    assert(files.contains(files[i]));
    assert(candidates.drop_first()[0] == candidates[1]);
    let file = first_present(candidates, files)->0;
    profile_files(file, name);
    assert forall|c: char| #[trigger] name.contains(c) implies file.contains(c) by {
        let k = choose|k: int| 0 <= k < name.len() && name[k] == c;
        assert(file[k] == c);
    }
    let at = choose|k: int| 0 <= k < files.len() && files[k] == file;
    assert(single_component(files[at]));
    assert(!file.contains('/'));
}

/// The profiles of a directory come in the order of its files, each named by
/// its file.
pub proof fn profiles_come_in_the_order_of_files(
    first: Seq<Seq<char>>,
    second: Seq<Seq<char>>,
    file: Seq<char>,
)
    ensures
        profiles_in(first + second) == profiles_in(first) + profiles_in(second),
        profile_of(file) is None ==> profiles_in(seq![file]).len() == 0,
        profile_of(file) matches Some(name) ==> profiles_in(seq![file]) == seq![name],
    decreases second.len(),
{
    let nothing = Seq::<Seq<char>>::empty();
    assert(seq![file].drop_last() =~= nothing);
    assert(profiles_in(nothing) =~= nothing);
    if profile_of(file) is Some {
        assert(profiles_in(seq![file]) =~= seq![profile_of(file)->0]);
    }
    let all = first + second;
    if second.len() == 0 {
        assert(all =~= first);
        assert(profiles_in(first) + profiles_in(second) =~= profiles_in(first));
    } else {
        assert(all.drop_last() =~= first + second.drop_last());
        assert(all.last() == second.last());
        profiles_come_in_the_order_of_files(first, second.drop_last(), file);
        assert(profiles_in(all) =~= profiles_in(first) + profiles_in(second));
    }
}

proof fn repeats_go_group_by_group(items: Seq<Seq<char>>, value: Seq<char>)
    requires
        sorted_by(items, profile_key()),
    ensures
        with_key(without_repeats(items), profile_key(), value) == without_repeats(
            with_key(items, profile_key(), value),
        ),
        with_key(items, profile_key(), value).len() > 0 && items.len() > 0 && lower_text(
            items.last(),
        ) == value ==> with_key(items, profile_key(), value).last() == items.last(),
    decreases items.len(),
{
    reveal(Seq::filter);
    let key = profile_key();
    if items.len() >= 1 {
        let front = items.drop_last();
        let last = items.last();
        assert forall|i: int, j: int| 0 <= i <= j < front.len() implies #[trigger] at_most(
            key(front[i]),
            key(front[j]),
        ) by {
            assert(at_most(key(items[i]), key(items[j])));
        }
        repeats_go_group_by_group(front, value);
        let kept = with_key(front, key, value);
        if lower_text(last) == value {
            assert(with_key(items, key, value) == kept.push(last));
            assert(kept.push(last).drop_last() =~= kept);
            if items.len() >= 2 {
                assert(front.last() == items[items.len() - 2]);
                if lower_text(front.last()) == value {
                    group_is_not_empty(front, value);
                    assert(kept.last() == front.last());
                } else {
                    group_has_ended(items, value);
                    assert(kept.len() == 0);
                }
                let inner = without_repeats(front);
                if last != front.last() {
                    assert(inner.push(last).drop_last() =~= inner);
                }
            } else {
                assert(front =~= Seq::empty());
            }
        } else {
            let inner = without_repeats(front);
            if items.len() >= 2 && last != front.last() {
                assert(inner.push(last).drop_last() =~= inner);
            }
            if items.len() == 1 {
                assert(front =~= Seq::empty());
            }
        }
    }
}

proof fn group_is_not_empty(items: Seq<Seq<char>>, value: Seq<char>)
    requires
        items.len() > 0,
        lower_text(items.last()) == value,
    ensures
        with_key(items, profile_key(), value).len() > 0,
{
    reveal(Seq::filter);
}

proof fn group_has_ended(items: Seq<Seq<char>>, value: Seq<char>)
    requires
        sorted_by(items, profile_key()),
        items.len() >= 2,
        lower_text(items.last()) == value,
        lower_text(items[items.len() - 2]) != value,
    ensures
        with_key(items.drop_last(), profile_key(), value).len() == 0,
{
    let front = items.drop_last();
    let key = profile_key();
    assert forall|i: int| 0 <= i < front.len() implies key(#[trigger] front[i]) != value by {
        if key(front[i]) == value {
            let before = items.len() - 2;
            assert(at_most(key(items[i]), key(items[before])));
            assert(at_most(key(items[before]), key(items[items.len() - 1])));
            at_most_antisymmetric(key(items[i]), key(items[before]));
        }
    }
    nothing_is_kept(front, value);
}

proof fn nothing_is_kept(items: Seq<Seq<char>>, value: Seq<char>)
    requires
        forall|i: int| 0 <= i < items.len() ==> profile_key()(#[trigger] items[i]) != value,
    ensures
        with_key(items, profile_key(), value).len() == 0,
    decreases items.len(),
{
    reveal(Seq::filter);
    if items.len() > 0 {
        let front = items.drop_last();
        assert forall|i: int| 0 <= i < front.len() implies profile_key()(#[trigger] front[i])
            != value by {
            assert(front[i] == items[i]);
        }
        nothing_is_kept(front, value);
        assert(profile_key()(items[items.len() - 1]) != value);
    }
}

/// Names that differ in letter case only stand in the list in the order of
/// their files, without repetitions in a row.
pub proof fn case_variants_keep_the_order_of_files(files: Seq<Seq<char>>, value: Seq<char>)
    ensures
        with_key(listed(files), profile_key(), value) == without_repeats(
            with_key(profiles_in(files), profile_key(), value),
        ),
        profile_key()(value) == lower_text(value),
{
    let names = profiles_in(files);
    stable_sort_sorts(names, profile_key(), value);
    repeats_go_group_by_group(stable_sort(names, profile_key()), value);
}

/// Of names in a row that are the same, one is kept.
pub proof fn repeats_are_dropped(items: Seq<Seq<char>>, name: Seq<char>)
    ensures
        without_repeats(Seq::<Seq<char>>::empty()).len() == 0,
        without_repeats(seq![name]) == seq![name],
        items.len() > 0 && items.last() == name ==> without_repeats(items.push(name))
            == without_repeats(items),
        items.len() > 0 && items.last() != name ==> without_repeats(items.push(name))
            == without_repeats(items).push(name),
{
    assert(items.push(name).drop_last() =~= items);
}

/// A scan shows the profiles of the directory, and none where it could not be
/// read; only that is an error, and it is told with the directory and the
/// reason. That there is no such directory is none.
pub proof fn scans_show_what_is_there(files: Vec<String>, reason: String, directory: Seq<char>)
    ensures
        last_profiles(scan_shown(DirectoryListing::Entries(files))) == Some(listed(texts(files@))),
        last_profiles(scan_shown(DirectoryListing::NotFound)) == Some(Seq::<Seq<char>>::empty()),
        last_profiles(scan_shown(DirectoryListing::Failed(reason))) == Some(
            Seq::<Seq<char>>::empty(),
        ),
        last_flag(
            scan_shown(DirectoryListing::Entries(files)),
            FlagField::ProfilesLoaded,
        ) == Some(true),
        last_flag(scan_shown(DirectoryListing::NotFound), FlagField::ProfilesLoaded) == Some(true),
        last_flag(
            scan_shown(DirectoryListing::Failed(reason)),
            FlagField::ProfilesLoaded,
        ) == Some(true),
        scan_error(DirectoryListing::Entries(files), directory) is None,
        scan_error(DirectoryListing::NotFound, directory) is None,
        scan_error(DirectoryListing::Failed(reason), directory) == Some(
            "Could not read configuration directory '"@ + directory + "': "@ + reason@,
        ),
{
    reveal_with_fuel(last_profiles, 3);
    reveal_with_fuel(last_flag, 3);
}

} // verus!
