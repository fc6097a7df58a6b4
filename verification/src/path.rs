//! File names, paths and the places that the application keeps its files in.
use std::path::{Path, PathBuf};
use vstd::prelude::*;

use crate::text::{from_chars, opt_text, same_text, texts, to_chars};

verus! {

/// `std::path::PathBuf`, carried through as the platform hands it out.
#[verifier::external_type_specification]
#[verifier::external_body]
pub struct ExPathBuf(std::path::PathBuf);

/// `PathBuf::clone` gives a duplicate of the path.
pub assume_specification[ <std::path::PathBuf as Clone>::clone ](path: &PathBuf) -> (copy: PathBuf)
    ensures
        copy == *path,
;

/// Calls `dirs::config_dir`, which gives the directory that the platform keeps
/// the user's configuration files in, if it knows one. It reads the
/// environment, so nothing is claimed of the result.
#[verifier::external_body]
pub(crate) fn platform_config_dir() -> (dir: Option<PathBuf>) {
    dirs::config_dir()
}

/// Calls `Path::file_name`, which gives the last component of a path if that
/// is a normal one. A path that is its own file name has a single component,
/// which is not empty, not `.` or `..`, and holds no slash. On a path that
/// every platform reads alike the result is `final_name`; what a backslash, a
/// colon or two slashes at the start mean depends on the platform and is left
/// open.
#[verifier::external_body]
fn file_name_of(path: &str) -> (name: Option<&str>)
    ensures
        name matches Some(n) ==> (n@ == path@ ==> single_component(n@)),
        portable(path@) ==> name is Some == final_name(path@) is Some,
        portable(path@) ==> (name matches Some(n) ==> final_name(path@) == Some(n@)),
{
    match Path::new(path).file_name() {
        Some(name) => name.to_str(),
        None => None,
    }
}

/// Calls `Path::is_absolute`. A path that every platform reads alike and that
/// does not start with a slash is not absolute; whether another one is depends
/// on the platform.
#[verifier::external_body]
fn is_absolute(path: &str) -> (absolute: bool)
    ensures
        portable(path@) && !rooted(path@) ==> !absolute,
{
    Path::new(path).is_absolute()
}

/// Calls `Path::components` and counts them. On a path that every platform
/// reads alike there are `component_total`; on other paths the count depends
/// on the platform.
#[verifier::external_body]
fn component_count(path: &str) -> (count: usize)
    ensures
        portable(path@) ==> count == component_total(path@),
{
    Path::new(path).components().count()
}

/// The parts of a text between slashes.
pub open spec fn segments(path: Seq<char>) -> Seq<Seq<char>>
    decreases path.len(),
{
    if path.len() == 0 {
        seq![Seq::empty()]
    } else {
        let front = segments(path.drop_last());
        if path.last() == '/' {
            front.push(Seq::empty())
        } else {
            front.drop_last().push(front.last().push(path.last()))
        }
    }
}

/// Whether a path means the same on every platform: no backslash, no colon,
/// and not two slashes at the start.
pub open spec fn portable(path: Seq<char>) -> bool {
    &&& !path.contains('\\')
    &&& !path.contains(':')
    &&& !(path.len() >= 2 && path[0] == '/' && path[1] == '/')
}

/// Whether a path starts with a slash.
pub open spec fn rooted(path: Seq<char>) -> bool {
    path.len() > 0 && path[0] == '/'
}

/// Whether a part of a path counts as a component wherever it stands: it is
/// not empty and not a dot.
pub open spec fn counts(segment: Seq<char>) -> bool {
    segment.len() > 0 && segment != "."@
}

/// How many components a path has: the root, a leading dot, and every part
/// that is not empty and not a dot.
pub open spec fn component_total(path: Seq<char>) -> nat {
    let parts = segments(path);
    let root: nat = if rooted(path) {
        1
    } else {
        0
    };
    let dot: nat = if parts[0] == "."@ {
        1
    } else {
        0
    };
    root + dot + parts.filter(|part: Seq<char>| counts(part)).len()
}

/// The last component of a path, if it is neither a root, a dot nor two dots.
pub open spec fn final_name(path: Seq<char>) -> Option<Seq<char>> {
    let parts = segments(path).filter(|part: Seq<char>| counts(part));
    if parts.len() > 0 && parts.last() != ".."@ {
        Some(parts.last())
    } else {
        None
    }
}

/// Whether a text could be one component of a path: it is not empty, holds no
/// slash, and is neither `.` nor `..`.
pub open spec fn single_component(name: Seq<char>) -> bool {
    &&& name.len() > 0
    &&& !name.contains('/')
    &&& name != "."@
    &&& name != ".."@
}

/// Whether a text is one component of a path on every platform.
pub open spec fn plain_file_name(name: Seq<char>) -> bool {
    single_component(name) && !name.contains('\\') && !name.contains(':')
}

proof fn slashless_segments(path: Seq<char>)
    requires
        !path.contains('/'),
    ensures
        segments(path) == seq![path],
    decreases path.len(),
{
    if path.len() == 0 {
        assert(path =~= Seq::empty());
    } else {
        let front = path.drop_last();
        assert(!front.contains('/')) by {
            if front.contains('/') {
                let i = choose|i: int| 0 <= i < front.len() && front[i] == '/';
                assert(path[i] == '/');
            }
        }
        slashless_segments(front);
        assert(path[path.len() - 1] == path.last());
        assert(front.push(path.last()) =~= path);
        assert(segments(path) =~= seq![path]);
    }
}

proof fn plain_name_is_final(name: Seq<char>)
    requires
        plain_file_name(name),
    ensures
        portable(name),
        final_name(name) == Some(name),
{
    reveal(Seq::filter);
    slashless_segments(name);
    if name.len() >= 2 {
        assert(name[0] != '/') by {
            if name[0] == '/' {
                assert(name.contains('/'));
            }
        }
    }
    let parts = seq![name];
    let keep = |part: Seq<char>| counts(part);
    assert(parts.drop_last() =~= Seq::empty());
    assert(parts.drop_last().filter(keep) =~= Seq::empty());
    assert(parts.filter(keep) =~= seq![name]);
}

/// Whether a text is a single file name: its last component is the text
/// itself. Texts with a backslash or a colon are file names on some platforms
/// only.
pub fn is_file_name(name: &str) -> (single: bool)
    ensures
        single ==> single_component(name@),
        plain_file_name(name@) ==> single,
{
    proof {
        if plain_file_name(name@) {
            plain_name_is_final(name@);
        }
    }
    match file_name_of(name) {
        Some(last) => same_text(last, name),
        None => false,
    }
}

/// Whether a program named by a path has to exist as a file: a bare name is
/// looked up by the system instead.
pub fn requires_file(absolute: bool, components: usize) -> (required: bool)
    ensures
        required == (absolute || components > 1),
{
    absolute || components > 1
}

/// Whether a platform may answer so to the question whether a program path has
/// to exist as a file. A relative path that every platform reads alike has
/// just one answer: whether it has more than one component. A root alone, a
/// backslash, a colon or two slashes at the start leave it to the platform.
pub open spec fn may_require_file(path: Seq<char>, required: bool) -> bool {
    &&& portable(path) && !rooted(path) ==> required == (component_total(path) > 1)
    &&& portable(path) && component_total(path) > 1 ==> required
}

/// Whether the given program path has to exist as a file.
pub fn path_requires_file(value: &str) -> (required: bool)
    ensures
        may_require_file(value@, required),
{
    requires_file(is_absolute(value), component_count(value))
}

// File names and their extensions.

/// Where the last dot of a text stands, or -1.
pub open spec fn last_dot(name: Seq<char>) -> int
    decreases name.len(),
{
    if name.len() == 0 {
        -1
    } else if name.last() == '.' {
        name.len() - 1
    } else {
        last_dot(name.drop_last())
    }
}

/// What stands behind the last dot of a file name, unless there is none or
/// only one at the start.
pub open spec fn extension(name: Seq<char>) -> Option<Seq<char>> {
    if last_dot(name) <= 0 {
        None
    } else {
        Some(name.skip(last_dot(name) + 1))
    }
}

/// A file name without its extension.
pub open spec fn file_stem(name: Seq<char>) -> Seq<char> {
    if last_dot(name) <= 0 {
        name
    } else {
        name.take(last_dot(name))
    }
}

/// Whether a file name is that of a YAML file.
pub open spec fn is_yaml_name(name: Seq<char>) -> bool {
    extension(name) == Some("yaml"@) || extension(name) == Some("yml"@)
}

/// The name of the profile that a file holds: the file name without its
/// extension, if it is a YAML file.
pub open spec fn profile_of(file_name: Seq<char>) -> Option<Seq<char>> {
    if is_yaml_name(file_name) {
        Some(file_stem(file_name))
    } else {
        None
    }
}

proof fn last_dot_range(name: Seq<char>)
    ensures
        -1 <= last_dot(name) < name.len(),
        last_dot(name) >= 0 ==> name[last_dot(name)] == '.',
        forall|i: int| last_dot(name) < i < name.len() ==> name[i] != '.',
    decreases name.len(),
{
    if name.len() > 0 && name.last() != '.' {
        let front = name.drop_last();
        last_dot_range(front);
        assert forall|i: int| last_dot(name) < i < name.len() implies name[i] != '.' by {
            if i < front.len() {
                assert(front[i] == name[i]);
            }
        }
    }
}

/// The last dot of a text stands where a dot is followed by none.
pub proof fn last_dot_is(name: Seq<char>, at: int)
    requires
        0 <= at < name.len(),
        name[at] == '.',
        forall|i: int| at < i < name.len() ==> name[i] != '.',
    ensures
        last_dot(name) == at,
{
    last_dot_range(name);
}

fn find_last_dot(chars: &Vec<char>) -> (at: Option<usize>)
    ensures
        at matches Some(i) ==> i == last_dot(chars@) && i < chars@.len(),
        at is None ==> last_dot(chars@) == -1,
{
    let mut i = chars.len();
    assert(chars@.take(i as int) =~= chars@);
    while i > 0
        invariant
            i <= chars@.len(),
            last_dot(chars@) == last_dot(chars@.take(i as int)),
        decreases i,
    {
        assert(chars@.take(i as int).drop_last() =~= chars@.take(i - 1));
        if chars[i - 1] == '.' {
            return Some(i - 1);
        }
        i -= 1;
    }
    None
}

/// Whether a file name is that of a YAML file.
pub fn has_yaml_extension(file_name: &str) -> (yaml: bool)
    ensures
        yaml == is_yaml_name(file_name@),
{
    let chars = to_chars(file_name);
    let end = chars.len();
    match find_last_dot(&chars) {
        Some(dot) => {
            if dot == 0 {
                return false;
            }
            let ending = from_chars(&chars, dot + 1, end);
            assert(ending@ =~= file_name@.skip(dot + 1));
            same_text(ending.as_str(), "yaml") || same_text(ending.as_str(), "yml")
        },
        None => false,
    }
}

/// The name of the profile that the file of the given name holds, if it is a
/// YAML file.
pub fn file_profile(file_name: &str) -> (profile: Option<String>)
    ensures
        opt_text(profile) == profile_of(file_name@),
{
    if !has_yaml_extension(file_name) {
        return None;
    }
    let chars = to_chars(file_name);
    match find_last_dot(&chars) {
        Some(dot) => {
            let stem = from_chars(&chars, 0, dot);
            assert(stem@ =~= file_name@.take(dot as int));
            Some(stem)
        },
        None => None,
    }
}

/// The name of the profile that the file at the given path holds, if it is a
/// YAML file: the last component of the path without its extension. What the
/// last component is depends on the platform where the path holds a backslash
/// or a colon, or starts with two slashes.
pub fn profile_name(path: &str) -> (profile: Option<String>)
    ensures
        portable(path@) ==> opt_text(profile) == (match final_name(path@) {
            Some(name) => profile_of(name),
            None => None,
        }),
{
    match file_name_of(path) {
        Some(name) => file_profile(name),
        None => None,
    }
}

/// A name with a dot and an ending behind it has that ending as its extension
/// and is what is left without it.
pub proof fn ending_is_extension(front: Seq<char>, ending: Seq<char>)
    requires
        front.len() > 0,
        !ending.contains('.'),
    ensures
        last_dot(front + seq!['.'] + ending) == front.len(),
        extension(front + seq!['.'] + ending) == Some(ending),
        file_stem(front + seq!['.'] + ending) == front,
{
    let name = front + seq!['.'] + ending;
    assert forall|i: int| front.len() < i < name.len() implies name[i] != '.' by {
        assert(name[i] == ending[i - front.len() - 1]);
        assert(ending.contains(ending[i - front.len() - 1]));
    }
    last_dot_is(name, front.len() as int);
    assert(name.skip(front.len() as int + 1) =~= ending);
    assert(name.take(front.len() as int) =~= front);
}

/// The files that hold a profile are just those of its name with one of the
/// two endings.
pub proof fn profile_files(file_name: Seq<char>, profile: Seq<char>)
    ensures
        profile_of(file_name) == Some(profile) <==> profile.len() > 0 && (file_name == profile
            + ".yaml"@ || file_name == profile + ".yml"@),
{
    reveal_strlit(".yaml");
    reveal_strlit(".yml");
    reveal_strlit("yaml");
    reveal_strlit("yml");
    assert(!"yaml"@.contains('.'));
    assert(!"yml"@.contains('.'));
    assert(profile + ".yaml"@ =~= profile + seq!['.'] + "yaml"@);
    assert(profile + ".yml"@ =~= profile + seq!['.'] + "yml"@);
    if profile.len() > 0 {
        ending_is_extension(profile, "yaml"@);
        ending_is_extension(profile, "yml"@);
    }
    if profile_of(file_name) == Some(profile) {
        last_dot_range(file_name);
        let dot = last_dot(file_name);
        assert(file_name =~= profile + seq!['.'] + file_name.skip(dot + 1));
    }
}

// Places.

/// What a location starts from.
#[derive(Debug, PartialEq, Eq)]
pub enum Base {
    /// A path given as a text.
    Named(String),
    /// A directory that the platform named.
    Platform(PathBuf),
}

/// A file or a directory: a starting point and the names of what lies in it,
/// each inside the one before.
#[derive(Debug, PartialEq, Eq)]
pub struct Location {
    pub base: Base,
    pub children: Vec<String>,
}

/// The model of `Base`.
pub enum BaseView {
    Named(Seq<char>),
    Platform(PathBuf),
}

/// The model of `Location`.
#[verifier::ext_equal]
pub struct LocationView {
    pub base: BaseView,
    pub children: Seq<Seq<char>>,
}

impl View for Base {
    type V = BaseView;

    open spec fn view(&self) -> BaseView {
        match *self {
            Base::Named(path) => BaseView::Named(path@),
            Base::Platform(dir) => BaseView::Platform(dir),
        }
    }
}

impl View for Location {
    type V = LocationView;

    open spec fn view(&self) -> LocationView {
        LocationView { base: self.base@, children: texts(self.children@) }
    }
}

impl Clone for Base {
    fn clone(&self) -> (copy: Self)
        ensures
            copy@ == self@,
    {
        match self {
            Base::Named(path) => Base::Named(path.as_str().to_owned()),
            Base::Platform(dir) => Base::Platform(dir.clone()),
        }
    }
}

impl Clone for Location {
    fn clone(&self) -> (copy: Self)
        ensures
            copy@ == self@,
    {
        let mut children: Vec<String> = Vec::new();
        for i in 0..self.children.len()
            invariant
                texts(children@) == texts(self.children@).take(i as int),
        {
            let ghost before = texts(children@);
            let name = self.children[i].as_str().to_owned();
            children.push(name);
            assert(texts(children@) =~= before.push(name@));
            assert(texts(self.children@).take(i + 1) =~= before.push(name@));
        }
        let copy = Location { base: self.base.clone(), children };
        assert(copy@ =~= self@);
        copy
    }
}

impl LocationView {
    /// What lies in this location under the given name.
    pub open spec fn child(self, name: Seq<char>) -> LocationView {
        LocationView { base: self.base, children: self.children.push(name) }
    }

    /// The location that a path given as a text names.
    pub open spec fn named(path: Seq<char>) -> LocationView {
        LocationView { base: BaseView::Named(path), children: Seq::empty() }
    }

    /// The location that the platform's directory names, or the current
    /// directory where the platform names none.
    pub open spec fn platform(dir: Option<PathBuf>) -> LocationView {
        match dir {
            Some(dir) => LocationView { base: BaseView::Platform(dir), children: Seq::empty() },
            None => LocationView::named("."@),
        }
    }
}

impl Location {
    /// The location that a path given as a text names.
    pub fn named(path: &str) -> (location: Location)
        ensures
            location@ == LocationView::named(path@),
    {
        let location = Location { base: Base::Named(path.to_owned()), children: Vec::new() };
        assert(location@ =~= LocationView::named(path@));
        location
    }

    /// The location that the platform's directory names, or the current
    /// directory where the platform names none.
    pub fn platform(dir: Option<PathBuf>) -> (location: Location)
        ensures
            location@ == LocationView::platform(dir),
    {
        let location = match dir {
            Some(dir) => Location { base: Base::Platform(dir), children: Vec::new() },
            None => Location::named("."),
        };
        assert(location@ =~= LocationView::platform(dir));
        location
    }

    /// What lies in this location under the given name.
    pub fn child(self, name: &str) -> (location: Location)
        ensures
            location@ == self@.child(name@),
    {
        let mut children = self.children;
        children.push(name.to_owned());
        let location = Location { base: self.base, children };
        assert(location@ =~= self@.child(name@));
        location
    }
}

// What the paths above come to.

/// The parts of a path joined by slashes.
pub open spec fn joined(parts: Seq<Seq<char>>) -> Seq<char>
    decreases parts.len(),
{
    if parts.len() == 0 {
        Seq::empty()
    } else if parts.len() == 1 {
        parts[0]
    } else {
        joined(parts.drop_last()) + seq!['/'] + parts.last()
    }
}

/// A path is cut at its slashes and nowhere else: no part holds one, and the
/// parts joined by slashes are the path.
pub proof fn paths_are_cut_at_slashes(path: Seq<char>)
    ensures
        segments(path).len() > 0,
        forall|i: int, k: int|
            0 <= i < segments(path).len() && 0 <= k < segments(path)[i].len()
                ==> #[trigger] segments(path)[i][k] != '/',
        joined(segments(path)) == path,
    decreases path.len(),
{
    if path.len() == 0 {
        assert(joined(segments(path)) =~= path);
    } else {
        let front = path.drop_last();
        let before = segments(front);
        let parts = segments(path);
        paths_are_cut_at_slashes(front);
        if path.last() == '/' {
            assert(parts.drop_last() =~= before);
            assert(joined(parts) =~= path);
            assert forall|i: int, k: int|
                0 <= i < parts.len() && 0 <= k < parts[i].len() implies #[trigger] parts[i][k]
                != '/' by {
                if i < before.len() {
                    assert(before[i][k] != '/');
                }
            }
        } else {
            assert(parts.drop_last() =~= before.drop_last());
            assert(parts.last() == before.last().push(path.last()));
            assert(path =~= front.push(path.last()));
            if before.len() == 1 {
                assert(joined(before) == before[0]);
                assert(joined(parts) == parts[0]);
            } else {
                assert(joined(before) == joined(before.drop_last()) + seq!['/'] + before.last());
                assert(joined(parts) == joined(before.drop_last()) + seq!['/'] + parts.last());
            }
            assert(joined(parts) =~= path);
            assert forall|i: int, k: int|
                0 <= i < parts.len() && 0 <= k < parts[i].len() implies #[trigger] parts[i][k]
                != '/' by {
                if i < before.len() - 1 {
                    assert(before[i][k] != '/');
                } else if k < before.last().len() {
                    assert(before[i][k] != '/');
                }
            }
        }
    }
}

/// A file in a directory is named by what stands behind the last slash, and
/// slashes behind it change nothing.
pub proof fn last_component_is_behind_the_last_slash(directory: Seq<char>, name: Seq<char>)
    requires
        name.len() > 0,
        !name.contains('/'),
        name != "."@,
        name != ".."@,
    ensures
        final_name(name) == Some(name),
        final_name(directory + seq!['/'] + name) == Some(name),
        final_name(directory + seq!['/'] + name + seq!['/']) == Some(name),
        final_name(directory + seq!['/', '.', '.']) is None,
{
    reveal_strlit(".");
    reveal_strlit("..");
    reveal(Seq::filter);
    let keep = |part: Seq<char>| counts(part);
    slashless_segments(name);
    let single = seq![name];
    assert(single.drop_last() =~= Seq::empty());
    assert(single.drop_last().filter(keep) =~= Seq::empty());
    assert(single.filter(keep) =~= seq![name]);
    let before = segments(directory);
    segments_behind_a_slash(directory, name);
    let whole = directory + seq!['/'] + name;
    assert(segments(whole) == before.push(name));
    assert(before.push(name).drop_last() =~= before);
    assert(before.push(name).filter(keep) == before.filter(keep).push(name));
    let ended = whole + seq!['/'];
    assert(ended.drop_last() =~= whole);
    let parts = segments(ended);
    assert(parts.drop_last() =~= before.push(name));
    assert(parts.filter(keep) =~= before.filter(keep).push(name));
    segments_behind_a_slash(directory, ".."@);
    assert(directory + seq!['/'] + ".."@ =~= directory + seq!['/', '.', '.']);
    assert(!".."@.contains('/'));
    assert(before.push(".."@).drop_last() =~= before);
    assert(before.push(".."@).filter(keep) == before.filter(keep).push(".."@));
}

/// The components of a path are counted part by part: a part behind a slash is
/// one more, unless it is empty or a dot. A root is one by itself, and so is a
/// dot at the start.
pub proof fn components_are_counted(directory: Seq<char>, part: Seq<char>)
    requires
        !part.contains('/'),
    ensures
        component_total(Seq::empty()) == 0,
        part.len() > 0 ==> component_total(part) == 1,
        ({
            let one_more = if part.len() == 0 || part == "."@ {
                0int
            } else {
                1
            };
            &&& directory.len() > 0 ==> component_total(directory + seq!['/'] + part)
                == component_total(directory) + one_more
            &&& directory.len() == 0 ==> component_total(seq!['/'] + part) == 1 + one_more
        }),
{
    reveal_strlit(".");
    reveal(Seq::filter);
    let keep = |part: Seq<char>| counts(part);
    slashless_segments(part);
    let nothing = Seq::<char>::empty();
    slashless_segments(nothing);
    let alone = seq![part];
    let blank = seq![nothing];
    assert(alone.drop_last() =~= Seq::empty());
    assert(blank.drop_last() =~= Seq::empty());
    assert(alone.drop_last().filter(keep) =~= Seq::empty());
    assert(blank.filter(keep) =~= Seq::empty());
    assert(nothing != "."@);
    assert(alone.filter(keep) =~= if counts(part) {
        seq![part]
    } else {
        Seq::empty()
    });
    if part.len() > 0 && part[0] == '/' {
        assert(part.contains('/'));
    }
    let whole = directory + seq!['/'] + part;
    let before = segments(directory);
    segments_behind_a_slash(directory, part);
    assert(before.push(part).drop_last() =~= before);
    assert(segments(whole).filter(keep) == if counts(part) {
        before.filter(keep).push(part)
    } else {
        before.filter(keep)
    });
    paths_are_cut_at_slashes(directory);
    assert(segments(whole)[0] == before[0]);
    if directory.len() > 0 {
        assert(whole[0] == directory[0]);
    } else {
        assert(directory =~= nothing);
        assert(whole =~= seq!['/'] + part);
    }
}

proof fn segments_behind_a_slash(directory: Seq<char>, name: Seq<char>)
    requires
        !name.contains('/'),
    ensures
        segments(directory + seq!['/'] + name) == segments(directory).push(name),
    decreases name.len(),
{
    let whole = directory + seq!['/'] + name;
    if name.len() == 0 {
        assert(whole.drop_last() =~= directory);
        assert(whole.last() == '/');
        assert(name =~= Seq::empty());
    } else {
        let front = name.drop_last();
        assert(!front.contains('/')) by {
            if front.contains('/') {
                let i = choose|i: int| 0 <= i < front.len() && front[i] == '/';
                assert(name[i] == '/');
            }
        }
        segments_behind_a_slash(directory, front);
        assert(whole.drop_last() =~= directory + seq!['/'] + front);
        assert(name[name.len() - 1] == name.last());
        assert(whole.last() == name.last());
        let parts = segments(directory).push(front);
        assert(parts.drop_last() =~= segments(directory));
        assert(front.push(name.last()) =~= name);
    }
}

/// Every platform reads a path alike that holds no backslash and no colon and
/// does not start with two slashes.
pub proof fn portable_paths_are_free_of_marks(path: Seq<char>)
    ensures
        portable(path) <==> (forall|i: int|
            0 <= i < path.len() ==> #[trigger] path[i] != '\\' && path[i] != ':') && (path.len()
            < 2 || path[0] != '/' || path[1] != '/'),
        rooted(path) <==> path.len() > 0 && path[0] == '/',
{
    if path.contains('\\') {
        let i = choose|i: int| 0 <= i < path.len() && path[i] == '\\';
        assert(path[i] == '\\');
    }
    if path.contains(':') {
        let i = choose|i: int| 0 <= i < path.len() && path[i] == ':';
        assert(path[i] == ':');
    }
}

/// A file name is not empty, holds no slash, and is neither one dot nor two;
/// one that is a file name everywhere holds no backslash and no colon either.
pub proof fn file_names_are_single(name: Seq<char>)
    ensures
        single_component(name) <==> name.len() > 0 && (forall|i: int|
            0 <= i < name.len() ==> #[trigger] name[i] != '/') && name != seq!['.'] && name != seq![
            '.',
            '.',
        ],
        plain_file_name(name) <==> single_component(name) && (forall|i: int|
            0 <= i < name.len() ==> #[trigger] name[i] != '\\' && name[i] != ':'),
{
    reveal_strlit(".");
    reveal_strlit("..");
    assert("."@ =~= seq!['.']);
    assert(".."@ =~= seq!['.', '.']);
    if name.contains('/') {
        let i = choose|i: int| 0 <= i < name.len() && name[i] == '/';
        assert(name[i] == '/');
    }
    if name.contains('\\') {
        let i = choose|i: int| 0 <= i < name.len() && name[i] == '\\';
        assert(name[i] == '\\');
    }
    if name.contains(':') {
        let i = choose|i: int| 0 <= i < name.len() && name[i] == ':';
        assert(name[i] == ':');
    }
}

/// A YAML file has something before its ending, and one of two endings.
pub proof fn yaml_files_have_an_ending(name: Seq<char>, stem: Seq<char>)
    ensures
        is_yaml_name(name) <==> profile_of(name) is Some,
        stem.len() > 0 ==> is_yaml_name(stem + ".yaml"@) && is_yaml_name(stem + ".yml"@),
        is_yaml_name(name) ==> exists|s: Seq<char>|
            #![trigger s + ".yaml"@]
            s.len() > 0 && (name == s + ".yaml"@ || name == s + ".yml"@),
{
    profile_files(stem + ".yaml"@, stem);
    profile_files(stem + ".yml"@, stem);
    if is_yaml_name(name) {
        let own = profile_of(name)->0;
        profile_files(name, own);
        let longer = own + ".yaml"@;
        assert(own.len() > 0 && (name == longer || name == own + ".yml"@));
    }
}

/// A place is named by a path, by the platform, or by a name in another place,
/// and a name in a place adds that name and nothing else.
pub proof fn places_are_made_of_names(place: LocationView, name: Seq<char>, dir: PathBuf)
    ensures
        place.child(name).base == place.base,
        place.child(name).children.drop_last() == place.children,
        place.child(name).children.last() == name,
        LocationView::named(name).base == BaseView::Named(name),
        LocationView::named(name).children.len() == 0,
        LocationView::platform(Some(dir)).base == BaseView::Platform(dir),
        LocationView::platform(Some(dir)).children.len() == 0,
        LocationView::platform(None).base == BaseView::Named("."@),
        LocationView::platform(None).children.len() == 0,
{
    assert(place.child(name).children.drop_last() =~= place.children);
}

/// The model of a place holds what the place does.
pub proof fn place_model_is_faithful(place: Location)
    ensures
        place.base matches Base::Named(path) ==> place@.base == BaseView::Named(path@),
        place.base matches Base::Platform(dir) ==> place@.base == BaseView::Platform(dir),
        place@.children.len() == place.children@.len(),
        forall|i: int|
            0 <= i < place.children@.len() ==> #[trigger] place@.children[i]
                == place.children@[i]@,
{
}

/// On a relative path that every platform reads alike, a file is required just
/// where there is more than one component.
pub proof fn bare_names_require_no_file(path: Seq<char>, required: bool)
    requires
        may_require_file(path, required),
        portable(path),
    ensures
        component_total(path) > 1 ==> required,
        !(path.len() > 0 && path[0] == '/') && component_total(path) <= 1 ==> !required,
{
}

} // verus!
