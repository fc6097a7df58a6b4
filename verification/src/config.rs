//! The application's settings.
use std::path::PathBuf;
use vstd::prelude::*;
use vstd::string::*;

use crate::number::{decimal, decimal_text};
use crate::path::{
    has_yaml_extension, is_file_name, is_yaml_name, plain_file_name, platform_config_dir,
    profile_files, profile_of, single_component, BaseView, Location, LocationView,
};
use crate::sorting::{
    at_most, name_key, sort_by_name, sorted_by, stable_sort, stable_sort_maps, stable_sort_sorts,
    with_key, Named,
};
use crate::text::{
    contains_text, copy_opt, join2, lower_text, opt_text, same_text, texts,
};

verus! {

/// The settings of the application.
#[derive(Debug, PartialEq, Eq)]
pub struct Config {
    /// The core's program, if one was chosen.
    pub clash_binary_path: Option<String>,
    /// The directory that holds the profiles, if one was chosen.
    pub config_dir: Option<String>,
    /// The profile that the core runs with, if one was chosen.
    pub active_profile: Option<String>,
    /// The port of the core's control interface.
    pub api_port: u16,
    /// The secret of the core's control interface.
    pub api_secret: Option<String>,
    /// Where profiles were downloaded from.
    pub subscriptions: Vec<Subscription>,
}

/// Where a profile was downloaded from.
#[derive(Debug, PartialEq, Eq)]
pub struct Subscription {
    pub name: String,
    pub url: String,
}

/// The model of `Subscription`.
pub struct SubscriptionView {
    pub name: Seq<char>,
    pub url: Seq<char>,
}

/// The model of `Config`.
#[verifier::ext_equal]
pub struct ConfigView {
    pub clash_binary_path: Option<Seq<char>>,
    pub config_dir: Option<Seq<char>>,
    pub active_profile: Option<Seq<char>>,
    pub api_port: u16,
    pub api_secret: Option<Seq<char>>,
    pub subscriptions: Seq<SubscriptionView>,
}

impl View for Subscription {
    type V = SubscriptionView;

    open spec fn view(&self) -> SubscriptionView {
        SubscriptionView { name: self.name@, url: self.url@ }
    }
}

/// The models of a sequence of subscriptions.
pub open spec fn subscription_views(subscriptions: Seq<Subscription>) -> Seq<SubscriptionView> {
    subscriptions.map_values(|s: Subscription| s@)
}

impl View for Config {
    type V = ConfigView;

    open spec fn view(&self) -> ConfigView {
        ConfigView {
            clash_binary_path: opt_text(self.clash_binary_path),
            config_dir: opt_text(self.config_dir),
            active_profile: opt_text(self.active_profile),
            api_port: self.api_port,
            api_secret: opt_text(self.api_secret),
            subscriptions: subscription_views(self.subscriptions@),
        }
    }
}

impl Named for Subscription {
    open spec fn name_text(self) -> Seq<char> {
        self.name@
    }

    fn name_str(&self) -> (name: &str) {
        self.name.as_str()
    }
}

impl Clone for Subscription {
    fn clone(&self) -> (copy: Self)
        ensures
            copy@ == self@,
    {
        Subscription { name: self.name.as_str().to_owned(), url: self.url.as_str().to_owned() }
    }
}

impl Clone for Config {
    fn clone(&self) -> (copy: Self)
        ensures
            copy@ == self@,
    {
        let mut subscriptions: Vec<Subscription> = Vec::new();
        for i in 0..self.subscriptions.len()
            invariant
                subscriptions@.len() == i,
                forall|j: int|
                    0 <= j < i ==> (#[trigger] subscriptions@[j])@ == self.subscriptions@[j]@,
        {
            let copy = self.subscriptions[i].clone();
            subscriptions.push(copy);
        }
        assert(subscription_views(subscriptions@) =~= subscription_views(self.subscriptions@));
        Config {
            clash_binary_path: copy_opt(&self.clash_binary_path),
            config_dir: copy_opt(&self.config_dir),
            active_profile: copy_opt(&self.active_profile),
            api_port: self.api_port,
            api_secret: copy_opt(&self.api_secret),
            subscriptions,
        }
    }
}

impl ConfigView {
    /// The settings of a fresh installation.
    pub open spec fn initial() -> ConfigView {
        ConfigView {
            clash_binary_path: None,
            config_dir: None,
            active_profile: None,
            api_port: 9090,
            api_secret: None,
            subscriptions: Seq::empty(),
        }
    }

    /// The directory of the profiles, where the platform keeps configuration
    /// files in `platform`: the chosen one, or `mihomo` in the platform's.
    pub open spec fn directory(self, platform: Option<PathBuf>) -> LocationView {
        match self.config_dir {
            Some(dir) => LocationView::named(dir),
            None => LocationView::platform(platform).child("mihomo"@),
        }
    }

    /// Whether `place` is the file that the core reads, where the profiles lie
    /// in `directory`.
    pub open spec fn reads_in(
        self,
        place: LocationView,
        files: Seq<Seq<char>>,
        directory: LocationView,
    ) -> bool {
        let default_place = directory.child("config.yaml"@);
        match self.active_profile {
            None => place == default_place,
            Some(profile) => {
                let found = first_present(profile_candidates(profile), files);
                if !single_component(profile) || found is None {
                    place == default_place
                } else if plain_file_name(profile) {
                    place == directory.child(found->0)
                } else {
                    place == default_place || place == directory.child(found->0)
                }
            },
        }
    }

    /// Whether `place` is the file that the core reads, where the platform
    /// keeps configuration files in `platform`.
    pub open spec fn reads_from(
        self,
        place: LocationView,
        files: Seq<Seq<char>>,
        platform: Option<PathBuf>,
    ) -> bool {
        self.reads_in(place, files, self.directory(platform))
    }

    /// The position of the first subscription of the given name, or the
    /// number of subscriptions if there is none.
    pub open spec fn subscription_index(self, name: Seq<char>) -> int {
        first_named(self.subscriptions, name)
    }

    /// The address that the profile of the given name was downloaded from.
    pub open spec fn url_of(self, name: Seq<char>) -> Option<Seq<char>> {
        let i = self.subscription_index(name);
        if i < self.subscriptions.len() {
            Some(self.subscriptions[i].url)
        } else {
            None
        }
    }

    /// The settings with the given subscription: in place of the first one of
    /// that name, or else added, all in the order of their names in lower
    /// case.
    pub open spec fn with_subscription(self, name: Seq<char>, url: Seq<char>) -> ConfigView {
        let i = self.subscription_index(name);
        let entry = SubscriptionView { name, url };
        ConfigView {
            subscriptions: if i < self.subscriptions.len() {
                self.subscriptions.update(i, entry)
            } else {
                stable_sort(self.subscriptions.push(entry), subscription_key())
            },
            ..self
        }
    }
}

/// The key by which subscriptions are sorted: the name in lower case.
pub open spec fn subscription_key() -> spec_fn(SubscriptionView) -> Seq<char> {
    |s: SubscriptionView| lower_text(s.name)
}

/// The position of the first subscription of the given name, or the number of
/// subscriptions if there is none.
pub open spec fn first_named(subscriptions: Seq<SubscriptionView>, name: Seq<char>) -> int
    decreases subscriptions.len(),
{
    if subscriptions.len() == 0 || subscriptions[0].name == name {
        0
    } else {
        1 + first_named(subscriptions.drop_first(), name)
    }
}

/// The files that may hold a profile, the first one found counts: the named
/// one if it is a YAML file, else the name with each extension.
pub open spec fn profile_candidates(profile: Seq<char>) -> Seq<Seq<char>> {
    if is_yaml_name(profile) {
        seq![profile]
    } else {
        seq![profile + ".yaml"@, profile + ".yml"@]
    }
}

/// The first of the candidates that is among the files.
pub open spec fn first_present(candidates: Seq<Seq<char>>, files: Seq<Seq<char>>) -> Option<
    Seq<char>,
>
    decreases candidates.len(),
{
    if candidates.len() == 0 {
        None
    } else if files.contains(candidates[0]) {
        Some(candidates[0])
    } else {
        first_present(candidates.drop_first(), files)
    }
}

/// The programs that are tried where none was chosen.
pub open spec fn binary_candidates(windows: bool) -> Seq<Seq<char>> {
    if windows {
        seq!["mihomo.exe"@, "clash-meta.exe"@, "clash.exe"@]
    } else {
        seq!["mihomo"@, "clash-meta"@, "clash"@]
    }
}

/// The program that is used where none was chosen: the first candidate that is
/// a file, or else the first.
pub open spec fn default_binary(windows: bool, files: Seq<Seq<char>>) -> Seq<char> {
    match first_present(binary_candidates(windows), files) {
        Some(found) => found,
        None => binary_candidates(windows)[0],
    }
}

/// The first of the candidates that is among the files.
fn find_present(candidates: Vec<String>, files: &Vec<String>) -> (found: Option<String>)
    ensures
        opt_text(found) == first_present(texts(candidates@), texts(files@)),
{
    let ghost all = texts(candidates@);
    assert(all.skip(0) =~= all);
    let n = candidates.len();
    for i in 0..n
        invariant
            n == candidates@.len(),
            all == texts(candidates@),
            first_present(all, texts(files@)) == first_present(all.skip(i as int), texts(files@)),
    {
        assert(all.skip(i as int)[0] == candidates@[i as int]@);
        assert(all.skip(i as int).drop_first() =~= all.skip(i + 1));
        if contains_text(files, candidates[i].as_str()) {
            return Some(candidates[i].as_str().to_owned());
        }
    }
    None
}

/// The file names that may hold a profile, in the order in which they are
/// tried.
pub fn profile_file_names(profile: &str) -> (names: Vec<String>)
    ensures
        texts(names@) == profile_candidates(profile@),
{
    let mut names: Vec<String> = Vec::new();
    if has_yaml_extension(profile) {
        names.push(profile.to_owned());
    } else {
        names.push(join2(profile, ".yaml"));
        names.push(join2(profile, ".yml"));
    }
    assert(texts(names@) =~= profile_candidates(profile@));
    names
}

/// The programs that are tried where none was chosen, in order.
pub fn default_binary_names(windows: bool) -> (names: Vec<String>)
    ensures
        texts(names@) == binary_candidates(windows),
{
    let mut names: Vec<String> = Vec::new();
    if windows {
        names.push("mihomo.exe".to_owned());
        names.push("clash-meta.exe".to_owned());
        names.push("clash.exe".to_owned());
    } else {
        names.push("mihomo".to_owned());
        names.push("clash-meta".to_owned());
        names.push("clash".to_owned());
    }
    assert(texts(names@) =~= binary_candidates(windows));
    names
}

/// The program that is used where none was chosen. `files` are the candidates
/// that are files in the current directory.
pub fn detect_default_binary(windows: bool, files: &Vec<String>) -> (program: String)
    ensures
        program@ == default_binary(windows, texts(files@)),
{
    match find_present(default_binary_names(windows), files) {
        Some(found) => found,
        None => {
            let names = default_binary_names(windows);
            assert(texts(names@)[0] == names@[0]@);
            names[0].as_str().to_owned()
        },
    }
}

/// Where a profile lies in the given directory, if it is there. `single` says
/// whether the profile's name is a single file name, `files` which of the
/// candidates are files in the directory.
pub fn resolve_profile(
    directory: Location,
    profile: &str,
    single: bool,
    files: &Vec<String>,
) -> (found: Option<Location>)
    ensures
        found is Some <==> single && first_present(
            profile_candidates(profile@),
            texts(files@),
        ) is Some,
        found matches Some(place) ==> first_present(
            profile_candidates(profile@),
            texts(files@),
        ) matches Some(name) && place@ == directory@.child(name),
{
    if !single {
        return None;
    }
    match find_present(profile_file_names(profile), files) {
        Some(name) => Some(directory.child(name.as_str())),
        None => None,
    }
}

impl Default for Config {
    fn default() -> (config: Self)
        ensures
            config@ == ConfigView::initial(),
    {
        let config = Config {
            clash_binary_path: None,
            config_dir: None,
            active_profile: None,
            api_port: 9090,
            api_secret: None,
            subscriptions: Vec::new(),
        };
        assert(config@ =~= ConfigView::initial());
        config
    }
}

impl Config {
    /// The directory of the profiles, where the platform keeps configuration
    /// files in `platform`.
    pub fn config_dir_in(&self, platform: Option<PathBuf>) -> (dir: Location)
        ensures
            dir@ == self@.directory(platform),
    {
        match &self.config_dir {
            Some(dir) => Location::named(dir.as_str()),
            None => Location::platform(platform).child("mihomo"),
        }
    }

    /// The directory of the profiles: the chosen one, or `mihomo` in the
    /// directory that the platform keeps configuration files in.
    pub fn config_dir(&self) -> (dir: Location)
        ensures
            exists|platform: Option<PathBuf>| dir@ == #[trigger] self@.directory(platform),
    {
        let platform = platform_config_dir();
        let ghost named = platform;
        let dir = self.config_dir_in(platform);
        assert(dir@ == self@.directory(named));
        dir
    }

    /// The core's program: the chosen one, or the one that is found. `files`
    /// are the candidates that are files in the current directory.
    pub fn clash_binary(&self, windows: bool, files: &Vec<String>) -> (program: String)
        ensures
            program@ == (match self@.clash_binary_path {
                Some(chosen) => chosen,
                None => default_binary(windows, texts(files@)),
            }),
    {
        match &self.clash_binary_path {
            Some(chosen) => chosen.as_str().to_owned(),
            None => detect_default_binary(windows, files),
        }
    }

    /// The address of the core's control interface.
    pub fn api_url(&self) -> (url: String)
        ensures
            url@ == "http://127.0.0.1:"@ + decimal(self.api_port as nat),
    {
        join2("http://127.0.0.1:", decimal_text(self.api_port as u128).as_str())
    }

    /// Where the profile of the given name lies in the directory of the
    /// profiles. `files` says which of its candidates are files there. What is
    /// not a single file name is never found; a name with a backslash or a
    /// colon is one on some platforms only.
    pub fn profile_path(&self, profile: &str, files: &Vec<String>) -> (found: Option<Location>)
        ensures
            found is Some ==> single_component(profile@) && first_present(
                profile_candidates(profile@),
                texts(files@),
            ) is Some,
            plain_file_name(profile@) && first_present(
                profile_candidates(profile@),
                texts(files@),
            ) is Some ==> found is Some,
            found matches Some(place) ==> exists|platform: Option<PathBuf>|
                place@ == (#[trigger] self@.directory(platform)).child(
                    first_present(profile_candidates(profile@), texts(files@))->0,
                ),
    {
        resolve_profile(self.config_dir(), profile, is_file_name(profile), files)
    }

    /// The file that the core reads, where the profiles lie in `directory` and
    /// the active profile was found there as `found`: that file if there is an
    /// active profile and it was found, else `config.yaml` in the directory.
    pub fn active_config_path_in(&self, directory: Location, found: Option<Location>) -> (place:
        Location)
        ensures
            place@ == (match (self@.active_profile, found) {
                (Some(_), Some(p)) => p@,
                _ => directory@.child("config.yaml"@),
            }),
    {
        if self.active_profile.is_some() {
            if let Some(place) = found {
                return place;
            }
        }
        directory.child("config.yaml")
    }

    /// The file that the core reads, where the profiles lie in `directory`.
    /// `files` says which of the active profile's candidates are files there.
    pub fn active_config_path_at(&self, directory: Location, files: &Vec<String>) -> (place:
        Location)
        ensures
            self@.reads_in(place@, texts(files@), directory@),
    {
        let found = match &self.active_profile {
            Some(profile) => resolve_profile(
                directory.clone(),
                profile.as_str(),
                is_file_name(profile.as_str()),
                files,
            ),
            None => None,
        };
        self.active_config_path_in(directory, found)
    }

    /// The file that the core reads: that of the active profile if there is
    /// one and it is found, else `config.yaml` in the directory of the
    /// profiles. `files` says which of the profile's candidates are files
    /// there.
    pub fn active_config_path(&self, files: &Vec<String>) -> (place: Location)
        ensures
            exists|platform: Option<PathBuf>| #[trigger]
                self@.reads_from(place@, texts(files@), platform),
    {
        let directory = self.config_dir();
        let ghost platform = choose|platform: Option<PathBuf>|
            directory@ == #[trigger] self@.directory(platform);
        let place = self.active_config_path_at(directory, files);
        assert(self@.reads_from(place@, texts(files@), platform));
        place
    }

    /// The address that the profile of the given name was downloaded from.
    pub fn subscription_url(&self, profile: &str) -> (url: Option<&str>)
        ensures
            url is Some <==> self@.url_of(profile@) is Some,
            url matches Some(u) ==> self@.url_of(profile@) == Some(u@),
    {
        let i = self.find_subscription(profile);
        if i < self.subscriptions.len() {
            Some(self.subscriptions[i].url.as_str())
        } else {
            None
        }
    }

    fn find_subscription(&self, name: &str) -> (index: usize)
        ensures
            index == self@.subscription_index(name@),
            index <= self.subscriptions@.len(),
    {
        let ghost all = subscription_views(self.subscriptions@);
        assert(all.skip(0) =~= all);
        let n = self.subscriptions.len();
        for i in 0..n
            invariant
                n == self.subscriptions@.len(),
                all == subscription_views(self.subscriptions@),
                first_named(all, name@) == i + first_named(all.skip(i as int), name@),
        {
            assert(all.skip(i as int)[0] == self.subscriptions@[i as int]@);
            assert(all.skip(i as int).drop_first() =~= all.skip(i + 1));
            if same_text(self.subscriptions[i].name.as_str(), name) {
                return i;
            }
        }
        n
    }

    /// Notes where the profile of the given name was downloaded from.
    pub fn upsert_subscription(&mut self, name: String, url: String)
        ensures
            final(self)@ == old(self)@.with_subscription(name@, url@),
    {
        let i = self.find_subscription(name.as_str());
        let ghost before = self.subscriptions@;
        let ghost entry = SubscriptionView { name: name@, url: url@ };
        if i < self.subscriptions.len() {
            proof {
                first_named_matches(subscription_views(before), name@);
            }
            self.subscriptions[i] = Subscription { name, url };
            assert(subscription_views(self.subscriptions@) =~= subscription_views(before).update(
                i as int,
                entry,
            ));
        } else {
            self.subscriptions.push(Subscription { name, url });
            assert(subscription_views(self.subscriptions@) =~= subscription_views(before).push(
                entry,
            ));
            proof {
                stable_sort_maps(
                    self.subscriptions@,
                    name_key::<Subscription>(),
                    |s: Subscription| s@,
                    subscription_key(),
                );
            }
            sort_by_name(&mut self.subscriptions);
        }
        assert(self@ =~= old(self)@.with_subscription(name@, url@));
    }

    /// Where the settings themselves are kept, where the platform keeps
    /// configuration files in `platform`.
    pub fn config_path_in(platform: Option<PathBuf>) -> (place: Location)
        ensures
            place@ == LocationView::platform(platform).child("slint-clash"@).child(
                "config.json"@,
            ),
    {
        Location::platform(platform).child("slint-clash").child("config.json")
    }

    /// Where the settings themselves are kept.
    pub fn config_path() -> (place: Location)
        ensures
            exists|platform: Option<PathBuf>|
                place@ == (#[trigger] LocationView::platform(platform)).child(
                    "slint-clash"@,
                ).child("config.json"@),
    {
        let platform = platform_config_dir();
        let ghost named = platform;
        let place = Config::config_path_in(platform);
        assert(place@ == LocationView::platform(named).child("slint-clash"@).child(
            "config.json"@,
        ));
        place
    }

    /// The settings to start with, from what the settings file holds: its
    /// contents or the reason why they cannot be read, or nothing if there is
    /// no such file.
    pub fn load(stored: Option<Result<Config, String>>) -> (config: Result<Config, String>)
        ensures
            stored is None ==> config is Ok && config->Ok_0@ == ConfigView::initial(),
            stored matches Some(read) ==> config == read,
    {
        match stored {
            Some(read) => read,
            None => Ok(Config::default()),
        }
    }
}

/// The first subscription of a name has that name, and none before it does.
pub proof fn first_named_matches(subscriptions: Seq<SubscriptionView>, name: Seq<char>)
    ensures
        0 <= first_named(subscriptions, name) <= subscriptions.len(),
        first_named(subscriptions, name) < subscriptions.len() ==> subscriptions[first_named(
            subscriptions,
            name,
        )].name == name,
        forall|i: int|
            0 <= i < first_named(subscriptions, name) ==> (#[trigger] subscriptions[i]).name
                != name,
    decreases subscriptions.len(),
{
    if subscriptions.len() > 0 && subscriptions[0].name != name {
        let rest = subscriptions.drop_first();
        first_named_matches(rest, name);
        assert forall|i: int| 0 <= i < first_named(subscriptions, name) implies (
        #[trigger] subscriptions[i]).name != name by {
            if i > 0 {
                assert(rest[i - 1] == subscriptions[i]);
            }
        }
    }
}

/// The subscriptions of the given name.
pub open spec fn by_name(subscriptions: Seq<SubscriptionView>, name: Seq<char>) -> Seq<
    SubscriptionView,
> {
    subscriptions.filter(|s: SubscriptionView| s.name == name)
}

proof fn first_named_is_first(subscriptions: Seq<SubscriptionView>, name: Seq<char>)
    ensures
        first_named(subscriptions, name) < subscriptions.len() <==> by_name(
            subscriptions,
            name,
        ).len() > 0,
        by_name(subscriptions, name).len() > 0 ==> by_name(subscriptions, name)[0]
            == subscriptions[first_named(subscriptions, name)],
    decreases subscriptions.len(),
{
    reveal(Seq::filter);
    first_named_matches(subscriptions, name);
    if subscriptions.len() > 0 {
        let front = subscriptions.drop_last();
        first_named_is_first(front, name);
        first_named_matches(front, name);
        let i = first_named(subscriptions, name);
        let j = first_named(front, name);
        if j < front.len() {
            if i < j {
                assert(front[i] == subscriptions[i]);
            } else if j < i {
                assert(front[j] == subscriptions[j]);
            }
        } else if i < front.len() {
            assert(front[i] == subscriptions[i]);
        }
    }
}

proof fn key_then_name(subscriptions: Seq<SubscriptionView>, name: Seq<char>)
    ensures
        by_name(with_key(subscriptions, subscription_key(), lower_text(name)), name) == by_name(
            subscriptions,
            name,
        ),
    decreases subscriptions.len(),
{
    reveal(Seq::filter);
    if subscriptions.len() > 0 {
        let front = subscriptions.drop_last();
        let last = subscriptions.last();
        key_then_name(front, name);
        let kept = with_key(front, subscription_key(), lower_text(name));
        assert(kept.push(last).drop_last() =~= kept);
    }
}

proof fn sorting_keeps_names(subscriptions: Seq<SubscriptionView>, name: Seq<char>)
    ensures
        by_name(stable_sort(subscriptions, subscription_key()), name) == by_name(
            subscriptions,
            name,
        ),
{
    let sorted = stable_sort(subscriptions, subscription_key());
    stable_sort_sorts(subscriptions, subscription_key(), lower_text(name));
    key_then_name(subscriptions, name);
    key_then_name(sorted, name);
}

/// A noted address is the one that is looked up.
pub proof fn noted_address_is_found(config: ConfigView, name: Seq<char>, url: Seq<char>)
    ensures
        config.with_subscription(name, url).url_of(name) == Some(url),
{
    reveal(Seq::filter);
    let after = config.with_subscription(name, url);
    let entry = SubscriptionView { name, url };
    let i = config.subscription_index(name);
    first_named_matches(config.subscriptions, name);
    first_named_matches(after.subscriptions, name);
    if i < config.subscriptions.len() {
        let j = after.subscription_index(name);
        assert(after.subscriptions[i] == entry);
        if j < i {
            assert(after.subscriptions[j] == config.subscriptions[j]);
        }
    } else {
        let pushed = config.subscriptions.push(entry);
        assert(pushed.drop_last() =~= config.subscriptions);
        first_named_is_first(config.subscriptions, name);
        assert(by_name(pushed, name) =~= seq![entry]);
        sorting_keeps_names(pushed, name);
        first_named_is_first(after.subscriptions, name);
    }
}

/// Noting an address leaves those of other names as they are.
pub proof fn other_addresses_stay(
    config: ConfigView,
    name: Seq<char>,
    url: Seq<char>,
    other: Seq<char>,
)
    requires
        other != name,
    ensures
        config.with_subscription(name, url).url_of(other) == config.url_of(other),
{
    reveal(Seq::filter);
    let after = config.with_subscription(name, url);
    let entry = SubscriptionView { name, url };
    let i = config.subscription_index(name);
    first_named_matches(config.subscriptions, name);
    first_named_matches(config.subscriptions, other);
    first_named_matches(after.subscriptions, other);
    let before_at = config.subscription_index(other);
    let after_at = after.subscription_index(other);
    if i < config.subscriptions.len() {
        if before_at < after_at && before_at < config.subscriptions.len() {
            assert(after.subscriptions[before_at] == config.subscriptions[before_at]);
        }
        if after_at < before_at {
            assert(after.subscriptions[after_at] == config.subscriptions[after_at]);
        }
    } else {
        let pushed = config.subscriptions.push(entry);
        assert(pushed.drop_last() =~= config.subscriptions);
        assert(by_name(pushed, other) == by_name(config.subscriptions, other));
        sorting_keeps_names(pushed, other);
        first_named_is_first(config.subscriptions, other);
        first_named_is_first(after.subscriptions, other);
    }
}

/// Whether every name occurs at most once.
pub open spec fn distinct_names(subscriptions: Seq<SubscriptionView>) -> bool {
    forall|name: Seq<char>| (#[trigger] by_name(subscriptions, name)).len() <= 1
}

/// Noting addresses never makes a name occur twice.
pub proof fn names_stay_distinct(config: ConfigView, name: Seq<char>, url: Seq<char>)
    requires
        distinct_names(config.subscriptions),
    ensures
        distinct_names(config.with_subscription(name, url).subscriptions),
{
    reveal(Seq::filter);
    let after = config.with_subscription(name, url);
    let entry = SubscriptionView { name, url };
    let i = config.subscription_index(name);
    first_named_matches(config.subscriptions, name);
    assert forall|other: Seq<char>| (#[trigger] by_name(after.subscriptions, other)).len()
        <= 1 by {
        assert(by_name(config.subscriptions, other).len() <= 1);
        if i < config.subscriptions.len() {
            renaming_nothing_keeps_count(config.subscriptions, i, entry, other);
        } else {
            let pushed = config.subscriptions.push(entry);
            assert(pushed.drop_last() =~= config.subscriptions);
            first_named_is_first(config.subscriptions, name);
            sorting_keeps_names(pushed, other);
        }
    }
}

proof fn renaming_nothing_keeps_count(
    subscriptions: Seq<SubscriptionView>,
    i: int,
    entry: SubscriptionView,
    name: Seq<char>,
)
    requires
        0 <= i < subscriptions.len(),
        subscriptions[i].name == entry.name,
    ensures
        by_name(subscriptions.update(i, entry), name).len() == by_name(subscriptions, name).len(),
    decreases subscriptions.len(),
{
    reveal(Seq::filter);
    let updated = subscriptions.update(i, entry);
    let front = subscriptions.drop_last();
    if i < front.len() {
        renaming_nothing_keeps_count(front, i, entry, name);
        assert(updated.drop_last() =~= front.update(i, entry));
    } else {
        assert(updated.drop_last() =~= front);
    }
}

/// Noting an address once more changes nothing but the address: the names and
/// their order stay.
pub proof fn noting_again_keeps_the_names(
    config: ConfigView,
    name: Seq<char>,
    first: Seq<char>,
    second: Seq<char>,
)
    ensures
        ({
            let once = config.with_subscription(name, first);
            let twice = once.with_subscription(name, second);
            &&& twice.subscriptions.len() == once.subscriptions.len()
            &&& forall|i: int|
                0 <= i < once.subscriptions.len() ==> (#[trigger] twice.subscriptions[i]).name
                    == once.subscriptions[i].name
        }),
{
    let once = config.with_subscription(name, first);
    noted_address_is_found(config, name, first);
    first_named_matches(once.subscriptions, name);
}

/// Subscriptions are kept in the order of their names in lower case: adding
/// one puts them in order, and replacing an address leaves them so.
pub proof fn subscriptions_stay_sorted(config: ConfigView, name: Seq<char>, url: Seq<char>)
    requires
        sorted_by(config.subscriptions, subscription_key()) || config.url_of(name) is None,
    ensures
        sorted_by(config.with_subscription(name, url).subscriptions, subscription_key()),
{
    let after = config.with_subscription(name, url).subscriptions;
    let i = config.subscription_index(name);
    first_named_matches(config.subscriptions, name);
    if i < config.subscriptions.len() {
        let key = subscription_key();
        assert forall|a: int, b: int| 0 <= a <= b < after.len() implies #[trigger] at_most(
            key(after[a]),
            key(after[b]),
        ) by {
            assert(at_most(key(config.subscriptions[a]), key(config.subscriptions[b])));
        }
    } else {
        stable_sort_sorts(
            config.subscriptions.push(SubscriptionView { name, url }),
            subscription_key(),
            Seq::empty(),
        );
    }
}

/// A profile is only ever looked for among the files of one directory: every
/// candidate of a single file name is a single file name.
pub proof fn candidates_are_file_names(profile: Seq<char>, files: Seq<Seq<char>>)
    requires
        single_component(profile),
    ensures
        forall|i: int|
            0 <= i < profile_candidates(profile).len() ==> single_component(
                #[trigger] profile_candidates(profile)[i],
            ),
        first_present(profile_candidates(profile), files) matches Some(name) ==> single_component(
            name,
        ) && files.contains(name),
{
    reveal_strlit(".yaml");
    reveal_strlit(".yml");
    reveal_strlit(".");
    reveal_strlit("..");
    let candidates = profile_candidates(profile);
    assert forall|i: int| 0 <= i < candidates.len() implies single_component(
        #[trigger] candidates[i],
    ) by {
        let name = candidates[i];
        if name.contains('/') {
            let k = choose|k: int| 0 <= k < name.len() && name[k] == '/';
            if k < profile.len() {
                assert(profile[k] == '/');
            }
            assert(false);
        }
    }
    reveal_with_fuel(first_present, 3);
    if first_present(candidates, files) is Some {
        if !files.contains(candidates[0]) {
            assert(candidates.drop_first()[0] == candidates[1]);
        }
    }
}

// What the places and programs above come to.

/// Of the candidates the first that is among the files is taken: it is one of
/// them, it is among the files, and no earlier one is. Nothing is taken just
/// where none is there.
pub proof fn first_present_is_first(candidates: Seq<Seq<char>>, files: Seq<Seq<char>>)
    ensures
        first_present(candidates, files) is None <==> forall|i: int|
            0 <= i < candidates.len() ==> !files.contains(#[trigger] candidates[i]),
        first_present(candidates, files) matches Some(name) ==> files.contains(name) && exists|
            i: int,
        |
            0 <= i < candidates.len() && #[trigger] candidates[i] == name && forall|j: int|
                0 <= j < i ==> !files.contains(#[trigger] candidates[j]),
    decreases candidates.len(),
{
    if candidates.len() > 0 {
        if files.contains(candidates[0]) {
            assert(candidates[0] == first_present(candidates, files)->0);
        } else {
            let rest = candidates.drop_first();
            first_present_is_first(rest, files);
            assert forall|i: int| 0 < i < candidates.len() implies candidates[i] == rest[i
                - 1] by {}
            if first_present(rest, files) is Some {
                let name = first_present(rest, files)->0;
                let k = choose|i: int|
                    0 <= i < rest.len() && #[trigger] rest[i] == name && forall|j: int|
                        0 <= j < i ==> !files.contains(#[trigger] rest[j]);
                assert(candidates[k + 1] == name);
                assert forall|j: int| 0 <= j < k + 1 implies !files.contains(
                    #[trigger] candidates[j],
                ) by {
                    if j > 0 {
                        assert(rest[j - 1] == candidates[j]);
                    }
                }
                assert(!(forall|i: int|
                    0 <= i < candidates.len() ==> !files.contains(#[trigger] candidates[i])));
            } else {
                assert forall|i: int| 0 <= i < candidates.len() implies !files.contains(
                    #[trigger] candidates[i],
                ) by {
                    if i > 0 {
                        assert(!files.contains(rest[i - 1]));
                    }
                }
            }
        }
    }
}

/// Three programs are looked for, in this order, with the ending of programs
/// where the system has one.
pub proof fn programs_are_looked_for_in_order(windows: bool)
    ensures
        binary_candidates(windows).len() == 3,
        !windows ==> binary_candidates(windows)[0] == "mihomo"@ && binary_candidates(windows)[1]
            == "clash-meta"@ && binary_candidates(windows)[2] == "clash"@,
        windows ==> binary_candidates(windows)[0] == "mihomo.exe"@ && binary_candidates(windows)[1]
            == "clash-meta.exe"@ && binary_candidates(windows)[2] == "clash.exe"@,
{
}

/// Where no program was chosen, the one that is used is the candidate at the
/// least position among the files. It is there if any of them is; where none
/// is, it is the first one.
pub proof fn default_program_is_there(windows: bool, files: Seq<Seq<char>>, i: int)
    requires
        0 <= i < 3,
    ensures
        files.contains(binary_candidates(windows)[i]) ==> files.contains(
            default_binary(windows, files),
        ),
        files.contains(binary_candidates(windows)[i]) && (forall|j: int|
            0 <= j < i ==> !files.contains(#[trigger] binary_candidates(windows)[j]))
            ==> default_binary(windows, files) == binary_candidates(windows)[i],
        (forall|j: int| 0 <= j < 3 ==> !files.contains(#[trigger] binary_candidates(windows)[j]))
            ==> default_binary(windows, files) == binary_candidates(windows)[0],
{
    let candidates = binary_candidates(windows);
    first_present_is_first(candidates, files);
    if files.contains(candidates[i]) {
        assert(first_present(candidates, files) is Some);
        let found = first_present(candidates, files)->0;
        let k = choose|k: int|
            0 <= k < candidates.len() && #[trigger] candidates[k] == found && forall|j: int|
                0 <= j < k ==> !files.contains(#[trigger] candidates[j]);
        if k < i {
            assert(files.contains(candidates[k]));
        } else if i < k {
            assert(!files.contains(candidates[i]));
        }
    }
}

/// A profile whose name has no YAML ending is looked for with `.yaml`, then
/// with `.yml` behind it; one whose name has such an ending under that name
/// alone.
pub proof fn profiles_are_looked_for_by_ending(profile: Seq<char>, stem: Seq<char>)
    ensures
        stem.len() > 0 && (profile == stem + ".yaml"@ || profile == stem + ".yml"@)
            ==> profile_candidates(profile) == seq![profile],
        (forall|s: Seq<char>|
            #![trigger s + ".yaml"@]
            s.len() > 0 ==> profile != s + ".yaml"@ && profile != s + ".yml"@) ==> {
            &&& profile_candidates(profile).len() == 2
            &&& profile_candidates(profile)[0] == profile + ".yaml"@
            &&& profile_candidates(profile)[1] == profile + ".yml"@
        },
{
    profile_files(profile, stem);
    if is_yaml_name(profile) {
        let own = profile_of(profile)->0;
        profile_files(profile, own);
        assert(own + ".yaml"@ == profile || own + ".yml"@ == profile);
    }
}

/// The directory of the profiles is the chosen one; without one it is
/// `mihomo` in the platform's directory, or in the current one where the
/// platform names none.
pub proof fn profiles_lie_in_their_directory(config: ConfigView, platform: Option<PathBuf>)
    ensures
        config.config_dir matches Some(dir) ==> config.directory(platform).base == BaseView::Named(
            dir,
        ) && config.directory(platform).children.len() == 0,
        config.config_dir is None ==> config.directory(platform).children == seq!["mihomo"@],
        config.config_dir is None && platform is Some ==> config.directory(platform).base
            == BaseView::Platform(platform->0),
        config.config_dir is None && platform is None ==> config.directory(platform).base
            == BaseView::Named("."@),
{
    assert(config.config_dir is None ==> config.directory(platform).children =~= seq!["mihomo"@]);
}

/// The file that the core reads lies in the directory of the profiles. It is
/// that of the active profile, where that is a plain name and one of its files
/// is there, and then `.yaml` comes before `.yml`; else it is `config.yaml`.
pub proof fn core_reads_the_active_profile(
    config: ConfigView,
    place: LocationView,
    files: Seq<Seq<char>>,
    directory: LocationView,
)
    requires
        config.reads_in(place, files, directory),
    ensures
        place.base == directory.base,
        place.children.len() == directory.children.len() + 1,
        place.children.drop_last() == directory.children,
        place.children.last() == "config.yaml"@ || files.contains(place.children.last()),
        config.active_profile is None ==> place.children.last() == "config.yaml"@,
        config.active_profile matches Some(name) ==> {
            &&& name.contains('/') || name.len() == 0 ==> place.children.last() == "config.yaml"@
            &&& plain_file_name(name) && !is_yaml_name(name) && files.contains(name + ".yaml"@)
                ==> place.children.last() == name + ".yaml"@
            &&& plain_file_name(name) && !is_yaml_name(name) && !files.contains(name + ".yaml"@)
                && files.contains(name + ".yml"@) ==> place.children.last() == name + ".yml"@
            &&& plain_file_name(name) && is_yaml_name(name) && files.contains(name)
                ==> place.children.last() == name
            &&& is_yaml_name(name) && !files.contains(name) ==> place.children.last()
                == "config.yaml"@
            &&& !is_yaml_name(name) && !files.contains(name + ".yaml"@) && !files.contains(
                name + ".yml"@,
            ) ==> place.children.last() == "config.yaml"@
            &&& name == "."@ || name == ".."@ ==> place.children.last() == "config.yaml"@
        },
{
    assert(place.children.drop_last() =~= directory.children);
    if let Some(name) = config.active_profile {
        let candidates = profile_candidates(name);
        first_present_is_first(candidates, files);
        reveal_with_fuel(first_present, 3);
        if candidates.len() == 2 {
            assert(candidates.drop_first()[0] == candidates[1]);
        }
    }
}

/// What the core reads, where the platform keeps configuration files in
/// `platform`, is what it reads in the directory that the profiles then lie
/// in.
pub proof fn core_reads_in_the_directory_of_the_profiles(
    config: ConfigView,
    place: LocationView,
    files: Seq<Seq<char>>,
    platform: Option<PathBuf>,
)
    requires
        config.reads_from(place, files, platform),
    ensures
        config.reads_in(place, files, config.directory(platform)),
        place.base == config.directory(platform).base,
        place.children.drop_last() == config.directory(platform).children,
{
    core_reads_the_active_profile(config, place, files, config.directory(platform));
}

/// Noting an address changes the subscriptions alone: there is one more where
/// the name is new, and else as many as before.
pub proof fn noting_changes_only_the_subscriptions(
    config: ConfigView,
    name: Seq<char>,
    url: Seq<char>,
)
    ensures
        ({
            let after = config.with_subscription(name, url);
            &&& after.clash_binary_path == config.clash_binary_path
            &&& after.config_dir == config.config_dir
            &&& after.active_profile == config.active_profile
            &&& after.api_port == config.api_port
            &&& after.api_secret == config.api_secret
            &&& after.subscriptions.len() == config.subscriptions.len() + (if exists|i: int|
                0 <= i < config.subscriptions.len() && (#[trigger] config.subscriptions[i]).name
                    == name {
                0int
            } else {
                1
            })
        }),
{
    first_named_matches(config.subscriptions, name);
    stable_sort_sorts(
        config.subscriptions.push(SubscriptionView { name, url }),
        subscription_key(),
        Seq::empty(),
    );
    let i = config.subscription_index(name);
    if i < config.subscriptions.len() {
        assert(config.subscriptions[i].name == name);
    }
}

/// The address of a name is that of the first subscription with it, and there
/// is none just where no subscription has the name.
pub proof fn address_is_that_of_the_name(config: ConfigView, name: Seq<char>)
    ensures
        config.url_of(name) is Some <==> exists|i: int|
            0 <= i < config.subscriptions.len() && (#[trigger] config.subscriptions[i]).name
                == name,
        config.url_of(name) matches Some(url) ==> exists|i: int|
            0 <= i < config.subscriptions.len() && (#[trigger] config.subscriptions[i]).name
                == name && config.subscriptions[i].url == url && forall|j: int|
                0 <= j < i ==> (#[trigger] config.subscriptions[j]).name != name,
{
    first_named_matches(config.subscriptions, name);
    let i = config.subscription_index(name);
    if i < config.subscriptions.len() {
        assert(config.subscriptions[i].name == name);
    }
}

/// Subscriptions are sorted by their names in lower case.
pub proof fn subscriptions_are_sorted_by_name(subscription: SubscriptionView)
    ensures
        subscription_key()(subscription) == lower_text(subscription.name),
{
}

/// The model of the settings holds what the settings do.
pub proof fn settings_model_is_faithful(config: Config)
    ensures
        config@.api_port == config.api_port,
        config@.clash_binary_path is Some <==> config.clash_binary_path is Some,
        config.clash_binary_path matches Some(s) ==> config@.clash_binary_path == Some(s@),
        config@.config_dir is Some <==> config.config_dir is Some,
        config.config_dir matches Some(s) ==> config@.config_dir == Some(s@),
        config@.active_profile is Some <==> config.active_profile is Some,
        config.active_profile matches Some(s) ==> config@.active_profile == Some(s@),
        config@.api_secret is Some <==> config.api_secret is Some,
        config.api_secret matches Some(s) ==> config@.api_secret == Some(s@),
        config@.subscriptions.len() == config.subscriptions@.len(),
        forall|i: int|
            0 <= i < config.subscriptions@.len() ==> (#[trigger] config@.subscriptions[i]).name
                == config.subscriptions@[i].name@ && config@.subscriptions[i].url
                == config.subscriptions@[i].url@,
{
}

/// Noting the address of a known name changes the address of its first
/// subscription, and nothing of the others, their names and their order.
pub proof fn known_name_gets_its_new_address(
    config: ConfigView,
    name: Seq<char>,
    url: Seq<char>,
    at: int,
)
    requires
        0 <= at < config.subscriptions.len(),
        config.subscriptions[at].name == name,
        forall|j: int| 0 <= j < at ==> (#[trigger] config.subscriptions[j]).name != name,
    ensures
        ({
            let after = config.with_subscription(name, url).subscriptions;
            &&& after.len() == config.subscriptions.len()
            &&& after[at].name == name && after[at].url == url
            &&& forall|j: int|
                0 <= j < after.len() && j != at ==> #[trigger] after[j] == config.subscriptions[j]
        }),
{
    first_named_matches(config.subscriptions, name);
    let i = config.subscription_index(name);
    if i < at {
        assert(config.subscriptions[i].name != name);
    } else if at < i {
        assert(config.subscriptions[at].name != name);
    }
}

/// A new name is put behind those that are the same in lower case, and these
/// stay in their order.
pub proof fn new_name_comes_behind_its_equals(
    config: ConfigView,
    name: Seq<char>,
    url: Seq<char>,
    value: Seq<char>,
)
    requires
        forall|j: int|
            0 <= j < config.subscriptions.len() ==> (#[trigger] config.subscriptions[j]).name
                != name,
    ensures
        with_key(
            config.with_subscription(name, url).subscriptions,
            subscription_key(),
            value,
        ) == with_key(
            config.subscriptions.push(SubscriptionView { name, url }),
            subscription_key(),
            value,
        ),
{
    first_named_matches(config.subscriptions, name);
    let i = config.subscription_index(name);
    if i < config.subscriptions.len() {
        assert(config.subscriptions[i].name == name);
    }
    stable_sort_sorts(
        config.subscriptions.push(SubscriptionView { name, url }),
        subscription_key(),
        value,
    );
}

} // verus!
