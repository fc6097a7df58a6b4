//! Profiles from the network: what is accepted, and how it replaces a file.
use vstd::prelude::*;
use vstd::string::*;
use vstd::utf8::{
    decode_utf8, encode_utf8, encode_utf8_decode_utf8, encode_utf8_valid_utf8, valid_utf8,
};

use crate::files::{
    action_views, carried_out, performed, performed_all, step_views, Disk, FileAction,
    FileActionView, Step, StepView,
};
use crate::number::{decimal, decimal_reads_back, decimal_tells_numbers_apart, decimal_text};
use crate::path::{
    ending_is_extension, plain_file_name, profile_of, Location, LocationView,
};
use crate::text::{
    ascii_case_changes_letters_only, ascii_upper, decode_strict, from_chars, is_white_space, join2, join3, opt_text, same_text,
    to_ascii_upper, to_chars, trim, trimmed, trimming_keeps_the_inner_text, white_space,
    blank_is_all_white,
};

verus! {

/// How many bytes a profile may have.
pub const MAX_PROFILE_SIZE: usize = 16_777_216;

/// Why a profile is not taken from the network.
#[derive(Debug, PartialEq, Eq)]
pub enum SubscriptionError {
    /// The profile's name is empty or too long.
    NameLength,
    /// The profile's name is no file name on some system.
    NameCharacters,
    /// The address is no URL, for the given reason.
    InvalidUrl(String),
    /// The address is not one of the web.
    UnsupportedScheme,
    /// The address holds a user name or a password.
    Credentials,
    /// The profile is too large.
    TooLarge,
    /// The answer is not a text.
    NotUtf8,
    /// The answer is blank.
    Empty,
    /// The answer is not YAML, for the given reason.
    InvalidYaml(String),
    /// The answer is YAML, but no mapping.
    NotMapping,
    /// There is a profile of the given name already.
    AlreadyExists(String),
}

/// The model of `SubscriptionError`.
pub enum SubscriptionErrorView {
    NameLength,
    NameCharacters,
    InvalidUrl(Seq<char>),
    UnsupportedScheme,
    Credentials,
    TooLarge,
    NotUtf8,
    Empty,
    InvalidYaml(Seq<char>),
    NotMapping,
    AlreadyExists(Seq<char>),
}

impl View for SubscriptionError {
    type V = SubscriptionErrorView;

    open spec fn view(&self) -> SubscriptionErrorView {
        match *self {
            SubscriptionError::NameLength => SubscriptionErrorView::NameLength,
            SubscriptionError::NameCharacters => SubscriptionErrorView::NameCharacters,
            SubscriptionError::InvalidUrl(reason) => SubscriptionErrorView::InvalidUrl(reason@),
            SubscriptionError::UnsupportedScheme => SubscriptionErrorView::UnsupportedScheme,
            SubscriptionError::Credentials => SubscriptionErrorView::Credentials,
            SubscriptionError::TooLarge => SubscriptionErrorView::TooLarge,
            SubscriptionError::NotUtf8 => SubscriptionErrorView::NotUtf8,
            SubscriptionError::Empty => SubscriptionErrorView::Empty,
            SubscriptionError::InvalidYaml(reason) => SubscriptionErrorView::InvalidYaml(reason@),
            SubscriptionError::NotMapping => SubscriptionErrorView::NotMapping,
            SubscriptionError::AlreadyExists(name) => SubscriptionErrorView::AlreadyExists(name@),
        }
    }
}

impl SubscriptionErrorView {
    /// The error in words.
    pub open spec fn text(self) -> Seq<char> {
        match self {
            SubscriptionErrorView::NameLength => "Profile name must contain 1 to 64 characters"@,
            SubscriptionErrorView::NameCharacters =>
                "Profile name contains characters that cannot be used in a file name"@,
            SubscriptionErrorView::InvalidUrl(reason) => reason,
            SubscriptionErrorView::UnsupportedScheme =>
                "Subscription URL must use HTTP or HTTPS"@,
            SubscriptionErrorView::Credentials =>
                "Subscription URL credentials are not supported; use a tokenized URL"@,
            SubscriptionErrorView::TooLarge => "Subscription is larger than 16 MiB"@,
            SubscriptionErrorView::NotUtf8 => "Subscription response is not valid UTF-8"@,
            SubscriptionErrorView::Empty => "Subscription response is empty"@,
            SubscriptionErrorView::InvalidYaml(reason) => "Subscription is not valid YAML: "@
                + reason,
            SubscriptionErrorView::NotMapping =>
                "Subscription YAML must contain a top-level mapping"@,
            SubscriptionErrorView::AlreadyExists(name) => "Profile already exists: "@ + name,
        }
    }
}

impl SubscriptionError {
    /// The error in words.
    pub fn message(&self) -> (text: String)
        ensures
            text@ == self@.text(),
    {
        match self {
            SubscriptionError::NameLength =>
                "Profile name must contain 1 to 64 characters".to_owned(),
            SubscriptionError::NameCharacters =>
                "Profile name contains characters that cannot be used in a file name".to_owned(),
            SubscriptionError::InvalidUrl(reason) => reason.as_str().to_owned(),
            SubscriptionError::UnsupportedScheme =>
                "Subscription URL must use HTTP or HTTPS".to_owned(),
            SubscriptionError::Credentials =>
                "Subscription URL credentials are not supported; use a tokenized URL".to_owned(),
            SubscriptionError::TooLarge => "Subscription is larger than 16 MiB".to_owned(),
            SubscriptionError::NotUtf8 => "Subscription response is not valid UTF-8".to_owned(),
            SubscriptionError::Empty => "Subscription response is empty".to_owned(),
            SubscriptionError::InvalidYaml(reason) => join2(
                "Subscription is not valid YAML: ",
                reason.as_str(),
            ),
            SubscriptionError::NotMapping =>
                "Subscription YAML must contain a top-level mapping".to_owned(),
            SubscriptionError::AlreadyExists(name) => join2(
                "Profile already exists: ",
                name.as_str(),
            ),
        }
    }
}

/// The model of an outcome without a value.
pub open spec fn outcome_view(outcome: Result<(), SubscriptionError>) -> Result<
    (),
    SubscriptionErrorView,
> {
    match outcome {
        Ok(()) => Ok(()),
        Err(error) => Err(error@),
    }
}

// Names of profiles.

/// Whether a character is one that some system has no file names with.
pub open spec fn is_forbidden(c: char) -> bool {
    c == '<' || c == '>' || c == ':' || c == '"' || c == '/' || c == '\\' || c == '|' || c == '?'
        || c == '*'
}

/// What stands before the first dot of a text.
pub open spec fn before_dot(name: Seq<char>) -> Seq<char>
    decreases name.len(),
{
    if name.len() == 0 || name[0] == '.' {
        Seq::empty()
    } else {
        seq![name[0]] + before_dot(name.drop_first())
    }
}

/// Whether Windows keeps a name to itself: that of a device, whatever its
/// letter case, with or without something behind a dot.
pub open spec fn is_reserved(name: Seq<char>) -> bool {
    let stem = ascii_upper(before_dot(name));
    ||| stem == "CON"@
    ||| stem == "PRN"@
    ||| stem == "AUX"@
    ||| stem == "NUL"@
    ||| stem.len() == 4 && '1' <= stem[3] <= '9' && (stem.take(3) == "COM"@ || stem.take(3)
        == "LPT"@)
}

/// What is wrong with a profile's name, if anything is. White space at its
/// ends is disregarded.
pub open spec fn name_check(name: Seq<char>) -> Result<(), SubscriptionErrorView> {
    let inner = trimmed(name);
    if inner.len() == 0 || inner.len() > 64 {
        Err(SubscriptionErrorView::NameLength)
    } else if inner == "."@ || inner == ".."@ || inner.last() == ' ' || inner.last() == '.'
        || is_reserved(inner) || exists|i: int|
        0 <= i < inner.len() && is_forbidden(#[trigger] inner[i]) {
        Err(SubscriptionErrorView::NameCharacters)
    } else {
        Ok(())
    }
}

fn forbidden(c: char) -> (bad: bool)
    ensures
        bad == is_forbidden(c),
{
    c == '<' || c == '>' || c == ':' || c == '"' || c == '/' || c == '\\' || c == '|' || c == '?'
        || c == '*'
}

fn stem_of(name: &str) -> (stem: String)
    ensures
        stem@ == before_dot(name@),
{
    let chars = to_chars(name);
    let n = chars.len();
    let mut end: usize = 0;
    assert(chars@.take(0) + before_dot(chars@.skip(0)) =~= before_dot(chars@)) by {
        assert(chars@.skip(0) =~= chars@);
    }
    while end < n && chars[end] != '.'
        invariant
            end <= n == chars@.len(),
            chars@ == name@,
            before_dot(name@) == chars@.take(end as int) + before_dot(chars@.skip(end as int)),
        decreases n - end,
    {
        let ghost rest = chars@.skip(end as int);
        assert(rest.drop_first() =~= chars@.skip(end + 1));
        assert(chars@.take(end as int) + (seq![rest[0]] + before_dot(rest.drop_first()))
            =~= chars@.take(end + 1) + before_dot(chars@.skip(end + 1)));
        end += 1;
    }
    let stem = from_chars(&chars, 0, end);
    assert(stem@ =~= chars@.take(end as int) + before_dot(chars@.skip(end as int)));
    stem
}

/// Whether Windows keeps a name to itself.
pub fn is_windows_reserved_name(name: &str) -> (reserved: bool)
    ensures
        reserved == is_reserved(name@),
{
    let stem = to_ascii_upper(stem_of(name).as_str());
    if same_text(stem.as_str(), "CON") || same_text(stem.as_str(), "PRN") || same_text(
        stem.as_str(),
        "AUX",
    ) || same_text(stem.as_str(), "NUL") {
        return true;
    }
    let chars = to_chars(stem.as_str());
    if chars.len() != 4 {
        return false;
    }
    let device = from_chars(&chars, 0, 3);
    assert(device@ =~= stem@.take(3));
    '1' <= chars[3] && chars[3] <= '9' && (same_text(device.as_str(), "COM") || same_text(
        device.as_str(),
        "LPT",
    ))
}

/// Checks that a profile's name has 1 to 64 characters and can be a file name
/// on every system.
pub fn validate_profile_name(name: &str) -> (outcome: Result<(), SubscriptionError>)
    ensures
        outcome_view(outcome) == name_check(name@),
{
    let inner = trim(name);
    let chars = to_chars(inner.as_str());
    let n = chars.len();
    if n == 0 || n > 64 {
        return Err(SubscriptionError::NameLength);
    }
    if same_text(inner.as_str(), ".") || same_text(inner.as_str(), "..") || chars[n - 1] == ' '
        || chars[n - 1] == '.' || is_windows_reserved_name(inner.as_str()) {
        return Err(SubscriptionError::NameCharacters);
    }
    for i in 0..n
        invariant
            n == chars@.len(),
            n > 0,
            n <= 64,
            chars@ == trimmed(name@),
            trimmed(name@) != "."@,
            trimmed(name@) != ".."@,
            trimmed(name@).last() != ' ',
            trimmed(name@).last() != '.',
            !is_reserved(trimmed(name@)),
            forall|j: int| 0 <= j < i ==> !is_forbidden(#[trigger] chars@[j]),
    {
        if forbidden(chars[i]) {
            assert(is_forbidden(trimmed(name@)[i as int]));
            return Err(SubscriptionError::NameCharacters);
        }
    }
    Ok(())
}

// Addresses.

/// The parts of a URL that matter here.
pub struct UrlParts {
    pub scheme: String,
    pub username: String,
    pub has_password: bool,
}

/// What parsing a URL gives: its scheme, its user name and whether it has a
/// password, or the error in words.
pub uninterp spec fn url_parts(text: Seq<char>) -> Result<
    (Seq<char>, Seq<char>, bool),
    Seq<char>,
>;

/// The model of what parsing a URL gives.
pub open spec fn parts_view(parsed: Result<UrlParts, String>) -> Result<
    (Seq<char>, Seq<char>, bool),
    Seq<char>,
> {
    match parsed {
        Ok(parts) => Ok((parts.scheme@, parts.username@, parts.has_password)),
        Err(reason) => Err(reason@),
    }
}

/// Calls `reqwest::Url::parse`, which reads a URL by the rules of the web. The
/// result, with what `scheme`, `username` and `password` tell of the URL,
/// depends on the text alone.
#[verifier::external_body]
fn parse_url(text: &str) -> (parsed: Result<UrlParts, String>)
    ensures
        parts_view(parsed) == url_parts(text@),
{
    match reqwest::Url::parse(text) {
        Ok(url) => Ok(
            UrlParts {
                scheme: url.scheme().to_owned(),
                username: url.username().to_owned(),
                has_password: url.password().is_some(),
            },
        ),
        Err(error) => Err(error.to_string()),
    }
}

/// What is wrong with an address, given what parsing it gives.
pub open spec fn url_check(
    parsed: Result<(Seq<char>, Seq<char>, bool), Seq<char>>,
) -> Result<(), SubscriptionErrorView> {
    match parsed {
        Err(reason) => Err(SubscriptionErrorView::InvalidUrl(reason)),
        Ok((scheme, username, has_password)) => if scheme != "http"@ && scheme != "https"@ {
            Err(SubscriptionErrorView::UnsupportedScheme)
        } else if username.len() > 0 || has_password {
            Err(SubscriptionErrorView::Credentials)
        } else {
            Ok(())
        },
    }
}

/// Checks the parts of an address: it must use HTTP or HTTPS and hold no
/// credentials.
pub fn check_url_parts(parsed: Result<UrlParts, String>) -> (outcome: Result<
    (),
    SubscriptionError,
>)
    ensures
        outcome_view(outcome) == url_check(parts_view(parsed)),
{
    match parsed {
        Err(reason) => Err(SubscriptionError::InvalidUrl(reason)),
        Ok(parts) => {
            if !same_text(parts.scheme.as_str(), "http") && !same_text(
                parts.scheme.as_str(),
                "https",
            ) {
                Err(SubscriptionError::UnsupportedScheme)
            } else if !parts.username.as_str().is_empty() || parts.has_password {
                Err(SubscriptionError::Credentials)
            } else {
                Ok(())
            }
        },
    }
}

/// Checks an address: it must be a URL that uses HTTP or HTTPS and holds no
/// credentials.
pub fn validate_url(url: &str) -> (outcome: Result<(), SubscriptionError>)
    ensures
        outcome_view(outcome) == url_check(url_parts(url@)),
{
    check_url_parts(parse_url(url))
}

// Contents.

/// What parsing a YAML text gives: whether it is a mapping, or the error in
/// words.
pub uninterp spec fn yaml_mapping(text: Seq<char>) -> Result<bool, Seq<char>>;

/// The model of what parsing a YAML text gives.
pub open spec fn yaml_view(parsed: Result<bool, String>) -> Result<bool, Seq<char>> {
    match parsed {
        Ok(mapping) => Ok(mapping),
        Err(reason) => Err(reason@),
    }
}

/// Calls `serde_yaml_ng::from_str` for a `Value`, which reads one YAML
/// document, and `Value::is_mapping` on it. The result depends on the text
/// alone.
#[verifier::external_body]
fn parse_yaml(text: &str) -> (parsed: Result<bool, String>)
    ensures
        yaml_view(parsed) == yaml_mapping(text@),
{
    match serde_yaml_ng::from_str::<serde_yaml_ng::Value>(text) {
        Ok(value) => Ok(value.is_mapping()),
        Err(error) => Err(error.to_string()),
    }
}

/// What is wrong with a text that is not blank, given what parsing it gives.
pub open spec fn mapping_check(parsed: Result<bool, Seq<char>>) -> Result<
    (),
    SubscriptionErrorView,
> {
    match parsed {
        Err(reason) => Err(SubscriptionErrorView::InvalidYaml(reason)),
        Ok(false) => Err(SubscriptionErrorView::NotMapping),
        Ok(true) => Ok(()),
    }
}

/// What is wrong with the bytes of a profile, if anything is.
pub open spec fn yaml_check(bytes: Seq<u8>) -> Result<(), SubscriptionErrorView> {
    if !valid_utf8(bytes) {
        Err(SubscriptionErrorView::NotUtf8)
    } else if trimmed(decode_utf8(bytes)).len() == 0 {
        Err(SubscriptionErrorView::Empty)
    } else {
        mapping_check(yaml_mapping(decode_utf8(bytes)))
    }
}

/// Checks what parsing a YAML text gives: it must be a mapping.
pub fn check_mapping(parsed: Result<bool, String>) -> (outcome: Result<(), SubscriptionError>)
    ensures
        outcome_view(outcome) == mapping_check(yaml_view(parsed)),
{
    match parsed {
        Err(reason) => Err(SubscriptionError::InvalidYaml(reason)),
        Ok(mapping) => {
            if mapping {
                Ok(())
            } else {
                Err(SubscriptionError::NotMapping)
            }
        },
    }
}

fn is_blank(text: &str) -> (blank: bool)
    ensures
        blank == (trimmed(text@).len() == 0),
{
    proof {
        blank_is_all_white(text@);
    }
    for c in it: text.chars()
        invariant
            it.seq() == text@,
            trimmed(text@).len() == 0 <==> forall|i: int|
                0 <= i < text@.len() ==> is_white_space(#[trigger] text@[i]),
            forall|i: int| 0 <= i < it.index() ==> is_white_space(#[trigger] text@[i]),
    {
        if !white_space(c) {
            assert(!is_white_space(text@[it.index() as int]));
            return false;
        }
    }
    true
}

/// Checks that bytes are a profile: a text that is not blank and that is a
/// YAML mapping.
pub fn validate_yaml(bytes: &[u8]) -> (outcome: Result<(), SubscriptionError>)
    ensures
        outcome_view(outcome) == yaml_check(bytes@),
{
    match decode_strict(bytes) {
        None => Err(SubscriptionError::NotUtf8),
        Some(text) => {
            proof {
                encode_utf8_decode_utf8(text@);
            }
            if is_blank(text) {
                Err(SubscriptionError::Empty)
            } else {
                check_mapping(parse_yaml(text))
            }
        },
    }
}

// Downloads.

/// How profiles are asked for.
#[derive(Debug, PartialEq, Eq)]
pub struct SubscriptionService {
    /// How long to wait for a connection.
    pub connect_timeout_ms: u64,
    /// How long a download may take.
    pub timeout_ms: u64,
    /// What the application calls itself.
    pub user_agent: String,
}

/// A download of which the name and the address have been checked.
#[derive(Debug)]
pub struct ProfileDownload {
    profile: String,
    bytes: Vec<u8>,
}

/// The model of `ProfileDownload`: the profile's name and what has been read.
pub struct DownloadView {
    pub profile: Seq<char>,
    pub bytes: Seq<u8>,
}

impl View for ProfileDownload {
    type V = DownloadView;

    closed spec fn view(&self) -> DownloadView {
        DownloadView { profile: self.profile@, bytes: self.bytes@ }
    }
}

impl DownloadView {
    /// What holds of every download: the name was accepted, and no more has
    /// been read than a profile may have.
    pub open spec fn wf(self) -> bool {
        &&& name_check(self.profile) is Ok
        &&& self.bytes.len() <= MAX_PROFILE_SIZE
    }
}

/// A download that is complete and whose bytes are a profile.
#[derive(Debug)]
pub struct CheckedProfile {
    profile: String,
    bytes: Vec<u8>,
}

impl View for CheckedProfile {
    type V = DownloadView;

    closed spec fn view(&self) -> DownloadView {
        DownloadView { profile: self.profile@, bytes: self.bytes@ }
    }
}

impl Clone for SubscriptionService {
    fn clone(&self) -> (copy: Self)
        ensures
            copy.connect_timeout_ms == self.connect_timeout_ms,
            copy.timeout_ms == self.timeout_ms,
            copy.user_agent@ == self.user_agent@,
    {
        SubscriptionService {
            connect_timeout_ms: self.connect_timeout_ms,
            timeout_ms: self.timeout_ms,
            user_agent: self.user_agent.as_str().to_owned(),
        }
    }
}

impl SubscriptionService {
    /// A service for the given version of the application.
    pub fn new(version: &str) -> (service: SubscriptionService)
        ensures
            service.connect_timeout_ms == 5000,
            service.timeout_ms == 30000,
            service.user_agent@ == "slint-clash/"@ + version@,
    {
        SubscriptionService {
            connect_timeout_ms: 5000,
            timeout_ms: 30000,
            user_agent: join2("slint-clash/", version),
        }
    }

    /// Starts the download of a profile: checks its name, then its address.
    /// Nothing is asked for where this fails.
    pub fn download(&self, url: &str, profile_name: &str) -> (download: Result<
        ProfileDownload,
        SubscriptionError,
    >)
        ensures
            download is Ok <==> name_check(profile_name@) is Ok && url_check(url_parts(url@)) is Ok,
            download matches Ok(d) ==> d@ == (DownloadView {
                profile: profile_name@,
                bytes: Seq::empty(),
            }),
            download matches Err(e) ==> Err::<(), SubscriptionErrorView>(e@) == (
            if name_check(profile_name@) is Err {
                name_check(profile_name@)
            } else {
                url_check(url_parts(url@))
            }),
    {
        match validate_profile_name(profile_name) {
            Err(error) => return Err(error),
            Ok(()) => {},
        }
        match validate_url(url) {
            Err(error) => return Err(error),
            Ok(()) => {},
        }
        Ok(ProfileDownload { profile: profile_name.to_owned(), bytes: Vec::new() })
    }
}

impl ProfileDownload {
    #[verifier::type_invariant]
    spec fn inv(self) -> bool {
        name_check(self.profile@) is Ok && self.bytes@.len() <= MAX_PROFILE_SIZE
    }

    /// Looks at the length that the answer announces, if it does. The result
    /// is the room to set aside.
    pub fn announce(content_length: Option<u64>) -> (room: Result<usize, SubscriptionError>)
        ensures
            room is Err <==> (content_length matches Some(length) && length > MAX_PROFILE_SIZE),
            room matches Err(e) ==> e@ == SubscriptionErrorView::TooLarge,
            room matches Ok(n) ==> n == (match content_length {
                Some(length) => length as int,
                None => 65536,
            }),
    {
        match content_length {
            Some(length) => {
                if length > MAX_PROFILE_SIZE as u64 {
                    Err(SubscriptionError::TooLarge)
                } else {
                    Ok(length as usize)
                }
            },
            None => Ok(65536),
        }
    }

    /// Takes in the next bytes of the answer, unless the profile gets too
    /// large by them.
    pub fn append(self, chunk: &[u8]) -> (download: Result<ProfileDownload, SubscriptionError>)
        ensures
            download is Ok <==> self@.bytes.len() + chunk@.len() <= MAX_PROFILE_SIZE,
            download matches Ok(d) ==> d@.wf() && d@ == (DownloadView {
                profile: self@.profile,
                bytes: self@.bytes + chunk@,
            }),
            download matches Err(e) ==> e@ == SubscriptionErrorView::TooLarge,
    {
        proof {
            use_type_invariant(&self);
        }
        if chunk.len() > MAX_PROFILE_SIZE - self.bytes.len() {
            return Err(SubscriptionError::TooLarge);
        }
        let mut bytes = self.bytes;
        bytes.extend_from_slice(chunk);
        assert(bytes@ =~= self@.bytes + chunk@);
        Ok(ProfileDownload { profile: self.profile, bytes })
    }

    /// Ends the download: checks that what was read is a profile.
    pub fn finish(self) -> (checked: Result<CheckedProfile, SubscriptionError>)
        ensures
            checked is Ok <==> yaml_check(self@.bytes) is Ok,
            checked matches Ok(c) ==> c@ == self@ && c@.wf(),
            checked matches Err(e) ==> Err::<(), SubscriptionErrorView>(e@) == yaml_check(
                self@.bytes,
            ),
    {
        proof {
            use_type_invariant(&self);
        }
        match validate_yaml(self.bytes.as_slice()) {
            Err(error) => Err(error),
            Ok(()) => Ok(CheckedProfile { profile: self.profile, bytes: self.bytes }),
        }
    }
}

// Files.

/// The file of a profile.
pub open spec fn target_name(profile: Seq<char>) -> Seq<char> {
    profile + ".yaml"@
}

/// The file that a download is first written to.
pub open spec fn temporary_name(profile: Seq<char>, unique: nat) -> Seq<char> {
    "."@ + profile + "."@ + decimal(unique) + ".download"@
}

/// The file that a replaced profile is kept in.
pub open spec fn backup_name(profile: Seq<char>, unique: nat) -> Seq<char> {
    "."@ + profile + "."@ + decimal(unique) + ".backup"@
}

/// The steps that put a download in place: write it, set the file that it
/// replaces aside, and give it that file's name.
pub open spec fn install_steps(profile: Seq<char>, unique: nat, replacing: bool) -> Seq<StepView> {
    let target = target_name(profile);
    let temporary = temporary_name(profile, unique);
    let backup = backup_name(profile, unique);
    let write = StepView {
        action: FileActionView::Write { file: temporary },
        undo: Seq::empty(),
    };
    if replacing {
        seq![
            write,
            StepView {
                action: FileActionView::Rename { from: target, to: backup },
                undo: seq![FileActionView::Remove { file: temporary }],
            },
            StepView {
                action: FileActionView::Rename { from: temporary, to: target },
                undo: seq![
                    FileActionView::Rename { from: backup, to: target },
                    FileActionView::Remove { file: temporary },
                ],
            },
        ]
    } else {
        seq![
            write,
            StepView {
                action: FileActionView::Rename { from: temporary, to: target },
                undo: seq![FileActionView::Remove { file: temporary }],
            },
        ]
    }
}

/// A profile that has been put in place, and can be taken back as long as it
/// has not been committed.
#[derive(Debug, PartialEq, Eq)]
pub struct StagedProfile {
    place: Location,
    target: String,
    backup: Option<String>,
}

/// The model of `StagedProfile`: where the profile lies, the name of its file,
/// and that of the file that holds what it replaced.
pub struct StagedView {
    pub place: LocationView,
    pub target: Seq<char>,
    pub backup: Option<Seq<char>>,
}

impl View for StagedProfile {
    type V = StagedView;

    closed spec fn view(&self) -> StagedView {
        StagedView {
            place: self.place@,
            target: self.target@,
            backup: opt_text(self.backup),
        }
    }
}

impl StagedView {
    /// What is staged once a download has been put in place in the given
    /// directory.
    pub open spec fn of(
        directory: LocationView,
        profile: Seq<char>,
        unique: nat,
        replacing: bool,
    ) -> StagedView {
        StagedView {
            place: directory.child(target_name(profile)),
            target: target_name(profile),
            backup: if replacing {
                Some(backup_name(profile, unique))
            } else {
                None
            },
        }
    }

    /// What is done to keep the profile for good.
    pub open spec fn commit_actions(self) -> Seq<FileActionView> {
        match self.backup {
            Some(backup) => seq![FileActionView::Remove { file: backup }],
            None => Seq::empty(),
        }
    }

    /// What is done to take the profile back.
    pub open spec fn rollback_actions(self, target_exists: bool) -> Seq<FileActionView> {
        let removed: Seq<FileActionView> = if target_exists {
            seq![FileActionView::Remove { file: self.target }]
        } else {
            Seq::empty()
        };
        match self.backup {
            Some(backup) => removed.push(
                FileActionView::Rename { from: backup, to: self.target },
            ),
            None => removed,
        }
    }
}

/// How a download is put in place: the bytes, the steps, and what is staged
/// once all of them are done.
#[derive(Debug)]
pub struct Installation {
    pub bytes: Vec<u8>,
    pub steps: Vec<Step>,
    pub staged: StagedProfile,
}

fn hidden_name(profile: &str, unique: u128, ending: &str) -> (name: String)
    ensures
        name@ == "."@ + profile@ + "."@ + decimal(unique as nat) + ending@,
{
    join3(".", profile, ".").concat(decimal_text(unique).as_str()).concat(ending)
}

fn rename(from: &str, to: &str) -> (action: FileAction)
    ensures
        action@ == (FileActionView::Rename { from: from@, to: to@ }),
{
    FileAction::Rename { from: from.to_owned(), to: to.to_owned() }
}

fn remove(file: &str) -> (action: FileAction)
    ensures
        action@ == (FileActionView::Remove { file: file@ }),
{
    FileAction::Remove { file: file.to_owned() }
}

impl CheckedProfile {
    #[verifier::type_invariant]
    spec fn inv(self) -> bool {
        &&& name_check(self.profile@) is Ok
        &&& self.bytes@.len() <= MAX_PROFILE_SIZE
        &&& yaml_check(self.bytes@) is Ok
    }

    /// The file that the profile will have.
    pub fn target(&self) -> (file: String)
        ensures
            file@ == target_name(self@.profile),
    {
        join2(self.profile.as_str(), ".yaml")
    }

    /// Plans how the profile is put in place in the given directory. `exists`
    /// says whether there is a file of its name, `unique` is a number that tells the plan's own files
    /// from others. Only what passed all checks is ever put in place.
    pub fn stage(
        self,
        directory: Location,
        exists: bool,
        overwrite: bool,
        unique: u128,
    ) -> (plan: Result<Installation, SubscriptionError>)
        ensures
            plan is Err <==> exists && !overwrite,
            plan matches Err(e) ==> e@ == SubscriptionErrorView::AlreadyExists(self@.profile),
            self@.wf(),
            yaml_check(self@.bytes) is Ok,
            plan matches Ok(p) ==> {
                &&& p.bytes@ == self@.bytes
                &&& step_views(p.steps@) == install_steps(self@.profile, unique as nat, exists)
                &&& p.staged@ == StagedView::of(
                    directory@,
                    self@.profile,
                    unique as nat,
                    exists,
                )
                &&& p.staged@.place == directory@.child(target_name(self@.profile))
            },
    {
        proof {
            use_type_invariant(&self);
        }
        if exists && !overwrite {
            return Err(SubscriptionError::AlreadyExists(self.profile));
        }
        let target = self.target();
        let temporary = hidden_name(self.profile.as_str(), unique, ".download");
        let backup = hidden_name(self.profile.as_str(), unique, ".backup");
        let mut steps: Vec<Step> = Vec::new();
        let first = Step {
            action: FileAction::Write { file: temporary.as_str().to_owned() },
            undo: Vec::new(),
        };
        let ghost plan = install_steps(self@.profile, unique as nat, exists);
        assert(first@ =~= plan[0]);
        steps.push(first);
        if exists {
            let mut undo_aside: Vec<FileAction> = Vec::new();
            undo_aside.push(remove(temporary.as_str()));
            let aside = Step {
                action: rename(target.as_str(), backup.as_str()),
                undo: undo_aside,
            };
            assert(aside@ =~= plan[1]);
            steps.push(aside);
            let mut undo_publish: Vec<FileAction> = Vec::new();
            undo_publish.push(rename(backup.as_str(), target.as_str()));
            undo_publish.push(remove(temporary.as_str()));
            let publish = Step {
                action: rename(temporary.as_str(), target.as_str()),
                undo: undo_publish,
            };
            assert(publish@ =~= plan[2]);
            steps.push(publish);
        } else {
            let mut undo_publish: Vec<FileAction> = Vec::new();
            undo_publish.push(remove(temporary.as_str()));
            let publish = Step {
                action: rename(temporary.as_str(), target.as_str()),
                undo: undo_publish,
            };
            assert(publish@ =~= plan[1]);
            steps.push(publish);
        }
        assert(step_views(steps@) =~= plan);
        let staged = StagedProfile {
            place: directory.child(target.as_str()),
            target,
            backup: if exists {
                Some(backup)
            } else {
                None
            },
        };
        Ok(Installation { bytes: self.bytes, steps, staged })
    }
}

impl StagedProfile {
    /// Where the profile lies.
    pub fn path(&self) -> (place: &Location)
        ensures
            place@ == self@.place,
    {
        &self.place
    }

    /// What to do to keep the profile for good, up to the first failure.
    pub fn commit(self) -> (actions: Vec<FileAction>)
        ensures
            action_views(actions@) == self@.commit_actions(),
    {
        let mut actions: Vec<FileAction> = Vec::new();
        if let Some(backup) = &self.backup {
            actions.push(remove(backup.as_str()));
        }
        assert(action_views(actions@) =~= self@.commit_actions());
        actions
    }

    /// What to do to take the profile back, up to the first failure.
    /// `target_exists` says whether its file is still there.
    pub fn rollback(self, target_exists: bool) -> (actions: Vec<FileAction>)
        ensures
            action_views(actions@) == self@.rollback_actions(target_exists),
    {
        let mut actions: Vec<FileAction> = Vec::new();
        if target_exists {
            actions.push(remove(self.target.as_str()));
        }
        if let Some(backup) = &self.backup {
            actions.push(rename(backup.as_str(), self.target.as_str()));
        }
        assert(action_views(actions@) =~= self@.rollback_actions(target_exists));
        actions
    }
}

/// The files of a plan are three different ones.
pub proof fn plan_files_differ(profile: Seq<char>, unique: nat)
    ensures
        target_name(profile) != temporary_name(profile, unique),
        target_name(profile) != backup_name(profile, unique),
        temporary_name(profile, unique) != backup_name(profile, unique),
{
    reveal_strlit(".yaml");
    reveal_strlit(".download");
    reveal_strlit(".backup");
    assert(target_name(profile).last() == 'l');
    assert(temporary_name(profile, unique).last() == 'd');
    assert(backup_name(profile, unique).last() == 'p');
}

/// The files after a download has been put in place: the profile has the new
/// bytes, and the backup what it held before.
pub open spec fn installed(
    disk: Disk,
    profile: Seq<char>,
    unique: nat,
    contents: Seq<u8>,
) -> Disk {
    let target = target_name(profile);
    if disk.contains_key(target) {
        disk.insert(backup_name(profile, unique), disk[target]).insert(target, contents)
    } else {
        disk.insert(target, contents)
    }
}

/// Whether the files that a plan makes for itself are new: the one that the
/// download is first written to, and the backup where a profile is replaced.
pub open spec fn fresh(disk: Disk, profile: Seq<char>, unique: nat) -> bool {
    &&& !disk.contains_key(temporary_name(profile, unique))
    &&& disk.contains_key(target_name(profile)) ==> !disk.contains_key(
        backup_name(profile, unique),
    )
}

/// Where every step succeeds, the profile's file has the new bytes, the backup
/// has the old ones, and no other file has changed.
pub proof fn installation_succeeds(
    disk: Disk,
    profile: Seq<char>,
    unique: nat,
    contents: Seq<u8>,
)
    requires
        fresh(disk, profile, unique),
    ensures
        carried_out(
            disk,
            install_steps(profile, unique, disk.contains_key(target_name(profile))),
            contents,
            -1,
        ) == installed(disk, profile, unique, contents),
{
    plan_files_differ(profile, unique);
    let target = target_name(profile);
    let temporary = temporary_name(profile, unique);
    let backup = backup_name(profile, unique);
    let replacing = disk.contains_key(target);
    let steps = install_steps(profile, unique, replacing);
    reveal_with_fuel(carried_out, 4);
    let one = performed(disk, steps[0].action, contents);
    let rest = steps.drop_first();
    assert(rest[0] == steps[1]);
    let two = performed(one, rest[0].action, contents);
    let last = rest.drop_first();
    if replacing {
        assert(last[0] == steps[2]);
        let three = performed(two, last[0].action, contents);
        assert(last.drop_first().len() == 0);
        assert(carried_out(disk, steps, contents, -1) == three);
        assert(three =~= installed(disk, profile, unique, contents));
    } else {
        assert(last.len() == 0);
        assert(carried_out(disk, steps, contents, -1) == two);
        assert(two =~= installed(disk, profile, unique, contents));
    }
}

/// Where a step fails without a change of its own, and what is tried to undo
/// the others succeeds, every file is as it was before: the profile keeps what
/// it held, and the plan's own files are gone.
pub proof fn failed_installation_changes_nothing(
    disk: Disk,
    profile: Seq<char>,
    unique: nat,
    contents: Seq<u8>,
    failing: int,
)
    requires
        fresh(disk, profile, unique),
        0 <= failing < install_steps(
            profile,
            unique,
            disk.contains_key(target_name(profile)),
        ).len(),
    ensures
        carried_out(
            disk,
            install_steps(profile, unique, disk.contains_key(target_name(profile))),
            contents,
            failing,
        ) == disk,
{
    plan_files_differ(profile, unique);
    let target = target_name(profile);
    let temporary = temporary_name(profile, unique);
    let backup = backup_name(profile, unique);
    let replacing = disk.contains_key(target);
    let steps = install_steps(profile, unique, replacing);
    reveal_with_fuel(carried_out, 4);
    reveal_with_fuel(performed_all, 3);
    let one = performed(disk, steps[0].action, contents);
    let rest = steps.drop_first();
    assert(rest[0] == steps[1]);
    let two = performed(one, rest[0].action, contents);
    let last = rest.drop_first();
    if failing == 0 {
        assert(carried_out(disk, steps, contents, 0) == disk);
    } else if failing == 1 {
        let undo = rest[0].undo;
        assert(undo.drop_first().len() == 0);
        assert(carried_out(disk, steps, contents, 1) == performed(one, undo[0], contents));
        assert(performed(one, undo[0], contents) =~= disk);
    } else {
        assert(last[0] == steps[2]);
        let undo = last[0].undo;
        let back = performed(two, undo[0], contents);
        let tail = undo.drop_first();
        assert(tail[0] == undo[1]);
        assert(tail.drop_first().len() == 0);
        assert(carried_out(disk, steps, contents, 2) == performed(back, tail[0], contents));
        assert(performed(back, tail[0], contents) =~= disk);
    }
}

/// Taking a profile back leaves every file as it was before the download,
/// whether the profile's file is still there or has been deleted since.
pub proof fn rollback_restores(
    disk: Disk,
    directory: LocationView,
    profile: Seq<char>,
    unique: nat,
    contents: Seq<u8>,
)
    requires
        fresh(disk, profile, unique),
    ensures
        ({
            let staged = StagedView::of(
                directory,
                profile,
                unique,
                disk.contains_key(target_name(profile)),
            );
            let start = installed(disk, profile, unique, contents);
            &&& performed_all(start, staged.rollback_actions(true), contents) == disk
            &&& performed_all(
                start.remove(target_name(profile)),
                staged.rollback_actions(false),
                contents,
            ) == disk
        }),
{
    plan_files_differ(profile, unique);
    let target = target_name(profile);
    let replacing = disk.contains_key(target);
    let staged = StagedView::of(directory, profile, unique, replacing);
    let actions = staged.rollback_actions(true);
    let start = installed(disk, profile, unique, contents);
    reveal_with_fuel(performed_all, 3);
    let one = performed(start, actions[0], contents);
    let rest = actions.drop_first();
    let without = start.remove(target);
    let fewer = staged.rollback_actions(false);
    if replacing {
        assert(rest[0] == actions[1]);
        assert(rest.drop_first().len() == 0);
        assert(performed(one, rest[0], contents) =~= disk);
        assert(fewer.drop_first().len() == 0);
        assert(performed(without, fewer[0], contents) =~= disk);
    } else {
        assert(rest.len() == 0);
        assert(one =~= disk);
        assert(without =~= disk);
    }
}

/// Committing a profile leaves it as the only change: the backup is gone.
pub proof fn commit_keeps_only_the_profile(
    disk: Disk,
    directory: LocationView,
    profile: Seq<char>,
    unique: nat,
    contents: Seq<u8>,
)
    requires
        fresh(disk, profile, unique),
    ensures
        performed_all(
            installed(disk, profile, unique, contents),
            StagedView::of(
                directory,
                profile,
                unique,
                disk.contains_key(target_name(profile)),
            ).commit_actions(),
            contents,
        ) == disk.insert(target_name(profile), contents),
{
    plan_files_differ(profile, unique);
    let target = target_name(profile);
    let replacing = disk.contains_key(target);
    let actions = StagedView::of(directory, profile, unique, replacing).commit_actions();
    let start = installed(disk, profile, unique, contents);
    reveal_with_fuel(performed_all, 2);
    if replacing {
        assert(actions.drop_first().len() == 0);
        assert(performed(start, actions[0], contents) =~= disk.insert(target, contents));
    } else {
        assert(start =~= disk.insert(target, contents));
    }
}

/// A downloaded profile is listed under its own name, and the files that a
/// plan makes for itself are never listed.
pub proof fn only_the_profile_is_listed(profile: Seq<char>, unique: nat)
    requires
        name_check(profile) is Ok,
    ensures
        profile_of(target_name(profile)) == Some(profile),
        profile_of(temporary_name(profile, unique)) is None,
        profile_of(backup_name(profile, unique)) is None,
{
    reveal_strlit(".yaml");
    reveal_strlit("yaml");
    reveal_strlit("yml");
    reveal_strlit(".");
    reveal_strlit(".download");
    reveal_strlit("download");
    reveal_strlit(".backup");
    reveal_strlit("backup");
    trimming_keeps_the_inner_text(profile);
    assert(profile.len() > 0);
    assert(target_name(profile) =~= profile + seq!['.'] + "yaml"@);
    ending_is_extension(profile, "yaml"@);
    let front = "."@ + profile + "."@ + decimal(unique);
    assert(temporary_name(profile, unique) =~= front + seq!['.'] + "download"@);
    ending_is_extension(front, "download"@);
    assert("download"@.len() == 8 && "yaml"@.len() == 4 && "yml"@.len() == 3);
    assert(backup_name(profile, unique) =~= front + seq!['.'] + "backup"@);
    ending_is_extension(front, "backup"@);
    assert("backup"@.len() == 6);
}

proof fn no_forbidden_character(name: Seq<char>)
    requires
        forall|i: int| 0 <= i < name.len() ==> !is_forbidden(#[trigger] name[i]),
    ensures
        !name.contains('/') && !name.contains('\\') && !name.contains(':'),
{
    assert forall|c: char| #[trigger] name.contains(c) implies !is_forbidden(c) by {
        let i = choose|i: int| 0 <= i < name.len() && name[i] == c;
        assert(!is_forbidden(name[i]));
    }
}

proof fn accepted_name_is_clean(profile: Seq<char>)
    requires
        name_check(profile) is Ok,
    ensures
        profile.len() > 0,
        forall|i: int| 0 <= i < profile.len() ==> !is_forbidden(#[trigger] profile[i]),
{
    trimming_keeps_the_inner_text(profile);
    let inner = trimmed(profile);
    let (a, b) = choose|i: int, j: int|
        0 <= i <= j <= profile.len() && inner == #[trigger] profile.subrange(i, j) && (forall|
            k: int,
        |
            0 <= k < i ==> is_white_space(#[trigger] profile[k])) && (forall|k: int|
            j <= k < profile.len() ==> is_white_space(#[trigger] profile[k]));
    assert forall|i: int| 0 <= i < profile.len() implies !is_forbidden(#[trigger] profile[i]) by {
        if a <= i < b {
            assert(inner[i - a] == profile[i]);
        }
    }
}

/// The files of an accepted profile are single file names on every system: its
/// own, and those that a plan makes for itself. So a download never leaves its
/// directory.
pub proof fn accepted_names_stay_in_the_directory(profile: Seq<char>, unique: nat)
    requires
        name_check(profile) is Ok,
    ensures
        plain_file_name(target_name(profile)),
        plain_file_name(temporary_name(profile, unique)),
        plain_file_name(backup_name(profile, unique)),
{
    reveal_strlit(".yaml");
    reveal_strlit(".download");
    reveal_strlit(".backup");
    reveal_strlit(".");
    reveal_strlit("..");
    accepted_name_is_clean(profile);
    decimal_reads_back(unique);
    no_forbidden_character(target_name(profile));
    let digits = decimal(unique);
    let front = "."@ + profile + "."@ + digits;
    assert forall|i: int| 0 <= i < front.len() implies !is_forbidden(#[trigger] front[i]) by {
        if 1 <= i < 1 + profile.len() {
            assert(front[i] == profile[i - 1]);
        } else if i >= 2 + profile.len() {
            assert(front[i] == digits[i - 2 - profile.len()]);
        }
    }
    let temporary = temporary_name(profile, unique);
    assert forall|i: int| 0 <= i < temporary.len() implies !is_forbidden(
        #[trigger] temporary[i],
    ) by {
        if i < front.len() {
            assert(temporary[i] == front[i]);
        }
    }
    no_forbidden_character(temporary);
    let backup = backup_name(profile, unique);
    assert forall|i: int| 0 <= i < backup.len() implies !is_forbidden(#[trigger] backup[i]) by {
        if i < front.len() {
            assert(backup[i] == front[i]);
        }
    }
    no_forbidden_character(backup);
}

// What the checks above come to.

/// Whether a name is that of a device of Windows, by its letters: `con`,
/// `prn`, `aux`, `nul`, or `com` or `lpt` with a digit from one to nine, in
/// any letter case, alone or with a dot and something behind it.
pub open spec fn names_a_device(name: Seq<char>) -> bool {
    exists|end: int|
        #![trigger name.take(end)]
        0 <= end <= name.len() && (end == name.len() || name[end] == '.') && (forall|i: int|
            0 <= i < end ==> #[trigger] name[i] != '.') && (end == 3 && (spelled(
            name.take(3),
            'C',
            'O',
            'N',
        ) || spelled(name.take(3), 'P', 'R', 'N') || spelled(name.take(3), 'A', 'U', 'X')
            || spelled(name.take(3), 'N', 'U', 'L')) || end == 4 && '1' <= name[3] <= '9' && (
        spelled(name.take(3), 'C', 'O', 'M') || spelled(name.take(3), 'L', 'P', 'T')))
}

/// Whether a text has just these three letters, in any letter case.
pub open spec fn spelled(text: Seq<char>, a: char, b: char, c: char) -> bool {
    &&& text.len() == 3
    &&& text[0] as int == a as int || text[0] as int == a as int + 32
    &&& text[1] as int == b as int || text[1] as int == b as int + 32
    &&& text[2] as int == c as int || text[2] as int == c as int + 32
}

proof fn before_dot_ends_at_the_dot(name: Seq<char>)
    ensures
        before_dot(name).len() <= name.len(),
        before_dot(name) == name.take(before_dot(name).len() as int),
        before_dot(name).len() < name.len() ==> name[before_dot(name).len() as int] == '.',
        forall|i: int| 0 <= i < before_dot(name).len() ==> #[trigger] name[i] != '.',
    decreases name.len(),
{
    if name.len() > 0 && name[0] != '.' {
        let rest = name.drop_first();
        before_dot_ends_at_the_dot(rest);
        let n = before_dot(name).len();
        assert(before_dot(name) =~= name.take(n as int));
        if n < name.len() {
            assert(rest[n - 1] == name[n as int]);
        }
        assert forall|i: int| 0 <= i < n implies #[trigger] name[i] != '.' by {
            if i > 0 {
                assert(rest[i - 1] == name[i]);
            }
        }
    } else {
        assert(before_dot(name) =~= name.take(0));
    }
}

proof fn spelled_in_capitals(text: Seq<char>, a: char, b: char, c: char)
    requires
        'A' <= a <= 'Z',
        'A' <= b <= 'Z',
        'A' <= c <= 'Z',
    ensures
        spelled(text, a, b, c) <==> ascii_upper(text) == seq![a, b, c],
{
    ascii_case_changes_letters_only(text);
    let upper = ascii_upper(text);
    if spelled(text, a, b, c) {
        assert(upper[0] == a && upper[1] == b && upper[2] == c);
        assert(upper =~= seq![a, b, c]);
    }
    if upper == seq![a, b, c] {
        assert(upper[0] == a && upper[1] == b && upper[2] == c);
        assert(text.len() == 3);
    }
}

/// The names that Windows keeps to itself are those of its devices.
pub proof fn reserved_names_are_devices(name: Seq<char>)
    ensures
        is_reserved(name) <==> names_a_device(name),
{
    reveal_strlit("CON");
    reveal_strlit("PRN");
    reveal_strlit("AUX");
    reveal_strlit("NUL");
    reveal_strlit("COM");
    reveal_strlit("LPT");
    before_dot_ends_at_the_dot(name);
    let stem = before_dot(name);
    let n = stem.len() as int;
    let upper = ascii_upper(stem);
    ascii_case_changes_letters_only(stem);
    assert("CON"@ =~= seq!['C', 'O', 'N']);
    assert("PRN"@ =~= seq!['P', 'R', 'N']);
    assert("AUX"@ =~= seq!['A', 'U', 'X']);
    assert("NUL"@ =~= seq!['N', 'U', 'L']);
    assert("COM"@ =~= seq!['C', 'O', 'M']);
    assert("LPT"@ =~= seq!['L', 'P', 'T']);
    if n == 3 {
        assert(name.take(3) =~= stem);
        spelled_in_capitals(stem, 'C', 'O', 'N');
        spelled_in_capitals(stem, 'P', 'R', 'N');
        spelled_in_capitals(stem, 'A', 'U', 'X');
        spelled_in_capitals(stem, 'N', 'U', 'L');
    }
    if n == 4 {
        let front = stem.take(3);
        assert(name.take(3) =~= front);
        assert(ascii_upper(front) =~= upper.take(3));
        assert(name[3] == stem[3]);
        spelled_in_capitals(front, 'C', 'O', 'M');
        spelled_in_capitals(front, 'L', 'P', 'T');
    }
    if is_reserved(name) {
        assert(upper.len() == n);
        assert(name.take(n) == stem);
    }
    if names_a_device(name) {
        let end = choose|end: int|
            #![trigger name.take(end)]
            0 <= end <= name.len() && (end == name.len() || name[end] == '.') && (forall|i: int|
                0 <= i < end ==> #[trigger] name[i] != '.') && (end == 3 && (spelled(
                name.take(3),
                'C',
                'O',
                'N',
            ) || spelled(name.take(3), 'P', 'R', 'N') || spelled(name.take(3), 'A', 'U', 'X')
                || spelled(name.take(3), 'N', 'U', 'L')) || end == 4 && '1' <= name[3] <= '9' && (
            spelled(name.take(3), 'C', 'O', 'M') || spelled(name.take(3), 'L', 'P', 'T')));
        if end < n {
            assert(name[end] != '.');
        } else if n < end {
            assert(name[n] != '.');
        }
    }
}

/// A name without white space at its ends is accepted just if it has 1 to 64
/// characters, does not end in a dot, is no device of Windows, and holds none
/// of the nine characters that some system has no file names with.
pub proof fn good_names_are_accepted(name: Seq<char>)
    requires
        name.len() > 0 ==> !is_white_space(name[0]) && !is_white_space(name.last()),
    ensures
        name_check(name) is Ok <==> {
            &&& 1 <= name.len() <= 64
            &&& name.last() != '.'
            &&& !names_a_device(name)
            &&& forall|i: int|
                #![trigger name[i]]
                0 <= i < name.len() ==> name[i] != '<' && name[i] != '>' && name[i] != ':'
                    && name[i] != '"' && name[i] != '/' && name[i] != '\\' && name[i] != '|'
                    && name[i] != '?' && name[i] != '*'
        },
        name_check(name) == Err::<(), SubscriptionErrorView>(SubscriptionErrorView::NameLength)
            <==> name.len() == 0 || name.len() > 64,
        name_check(name) is Err && 1 <= name.len() <= 64 ==> name_check(name) == Err::<
            (),
            SubscriptionErrorView,
        >(SubscriptionErrorView::NameCharacters),
{
    reveal_strlit(".");
    reveal_strlit("..");
    reserved_names_are_devices(name);
    assert(trimmed(name) == name);
    if name == "."@ || name == ".."@ {
        assert(name.last() == '.');
    }
    if name.len() > 0 && name.last() == ' ' {
        assert(is_white_space(' '));
    }
    if exists|i: int| 0 <= i < name.len() && is_forbidden(#[trigger] name[i]) {
        let i = choose|i: int| 0 <= i < name.len() && is_forbidden(#[trigger] name[i]);
        assert(is_forbidden(name[i]));
    }
    assert forall|i: int| 0 <= i < name.len() implies (is_forbidden(#[trigger] name[i]) <==> (
    name[i] == '<' || name[i] == '>' || name[i] == ':' || name[i] == '"' || name[i] == '/'
        || name[i] == '\\' || name[i] == '|' || name[i] == '?' || name[i] == '*')) by {}
}

/// White space at the ends of a name changes nothing of what is said to it.
pub proof fn space_around_a_name_is_disregarded(name: Seq<char>)
    ensures
        name_check(name) == name_check(trimmed(name)),
{
    trimming_keeps_the_inner_text(name);
}

/// An address is accepted just if it is a URL of the web without a user name
/// and a password; else the first thing that is wrong is told.
pub proof fn plain_web_addresses_are_accepted(
    scheme: Seq<char>,
    username: Seq<char>,
    has_password: bool,
    reason: Seq<char>,
)
    ensures
        ({
            let web = scheme == "http"@ || scheme == "https"@;
            let outcome = url_check(Ok((scheme, username, has_password)));
            &&& outcome is Ok <==> web && username.len() == 0 && !has_password
            &&& !web ==> outcome == Err::<(), SubscriptionErrorView>(
                SubscriptionErrorView::UnsupportedScheme,
            )
            &&& web && (username.len() > 0 || has_password) ==> outcome == Err::<
                (),
                SubscriptionErrorView,
            >(SubscriptionErrorView::Credentials)
            &&& url_check(Err(reason)) == Err::<(), SubscriptionErrorView>(
                SubscriptionErrorView::InvalidUrl(reason),
            )
        }),
{
}

/// Bytes are a profile just if they are UTF-8, hold something besides white
/// space, and are a YAML mapping; else the first thing that is wrong is told.
pub proof fn profiles_are_texts_with_a_mapping(bytes: Seq<u8>, text: Seq<char>)
    ensures
        !valid_utf8(bytes) ==> yaml_check(bytes) == Err::<(), SubscriptionErrorView>(
            SubscriptionErrorView::NotUtf8,
        ),
        (forall|i: int| 0 <= i < text.len() ==> is_white_space(#[trigger] text[i])) ==> yaml_check(
            encode_utf8(text),
        ) == Err::<(), SubscriptionErrorView>(SubscriptionErrorView::Empty),
        (exists|i: int| 0 <= i < text.len() && !is_white_space(#[trigger] text[i])) ==> {
            let outcome = yaml_check(encode_utf8(text));
            &&& outcome is Ok <==> yaml_mapping(text) == Ok::<bool, Seq<char>>(true)
            &&& yaml_mapping(text) == Ok::<bool, Seq<char>>(false) ==> outcome == Err::<
                (),
                SubscriptionErrorView,
            >(SubscriptionErrorView::NotMapping)
            &&& yaml_mapping(text) matches Err(reason) ==> outcome == Err::<
                (),
                SubscriptionErrorView,
            >(SubscriptionErrorView::InvalidYaml(reason))
        },
{
    encode_utf8_valid_utf8(text);
    encode_utf8_decode_utf8(text);
    blank_is_all_white(text);
}

/// The models of what parsers give hold what they gave.
pub proof fn parsed_models_are_faithful(
    parts: UrlParts,
    mapping: bool,
    reason: String,
    error: SubscriptionError,
)
    ensures
        parts_view(Ok(parts)) == Ok::<(Seq<char>, Seq<char>, bool), Seq<char>>(
            (parts.scheme@, parts.username@, parts.has_password),
        ),
        parts_view(Err(reason)) == Err::<(Seq<char>, Seq<char>, bool), Seq<char>>(reason@),
        yaml_view(Ok(mapping)) == Ok::<bool, Seq<char>>(mapping),
        yaml_view(Err(reason)) == Err::<bool, Seq<char>>(reason@),
        outcome_view(Ok(())) is Ok,
        outcome_view(Err(error)) == Err::<(), SubscriptionErrorView>(error@),
{
}

/// The files of a profile are named after it: its own by its name and the
/// ending of YAML, and those of a plan by a dot, its name, the plan's number
/// and what they are for. Two plans with different numbers share none.
pub proof fn plan_files_are_named_after_the_profile(profile: Seq<char>, a: nat, b: nat)
    ensures
        target_name(profile) == profile + ".yaml"@,
        temporary_name(profile, a) == "."@ + profile + "."@ + decimal(a) + ".download"@,
        backup_name(profile, a) == "."@ + profile + "."@ + decimal(a) + ".backup"@,
        a != b ==> temporary_name(profile, a) != temporary_name(profile, b),
        a != b ==> backup_name(profile, a) != backup_name(profile, b),
{
    reveal_strlit(".");
    reveal_strlit(".download");
    reveal_strlit(".backup");
    let start = 2 + profile.len();
    let da = decimal(a);
    let db = decimal(b);
    if temporary_name(profile, a) == temporary_name(profile, b) {
        let ta = temporary_name(profile, a);
        let tb = temporary_name(profile, b);
        assert(da =~= ta.subrange(start as int, ta.len() - 9));
        assert(db =~= tb.subrange(start as int, tb.len() - 9));
        decimal_tells_numbers_apart(a, b);
    }
    if backup_name(profile, a) == backup_name(profile, b) {
        let ta = backup_name(profile, a);
        let tb = backup_name(profile, b);
        assert(da =~= ta.subrange(start as int, ta.len() - 7));
        assert(db =~= tb.subrange(start as int, tb.len() - 7));
        decimal_tells_numbers_apart(a, b);
    }
}

/// A staged profile lies in its directory under its own file's name; what it
/// replaced, and nothing else, is kept as a backup.
pub proof fn staged_profile_lies_in_its_directory(
    directory: LocationView,
    profile: Seq<char>,
    unique: nat,
    replacing: bool,
)
    ensures
        ({
            let staged = StagedView::of(directory, profile, unique, replacing);
            &&& staged.place.base == directory.base
            &&& staged.place.children == directory.children.push(profile + ".yaml"@)
            &&& staged.target == profile + ".yaml"@
            &&& staged.backup is Some <==> replacing
            &&& replacing ==> staged.backup == Some(backup_name(profile, unique))
        }),
{
}

/// What is known of a download is what was asked for and read: the name was
/// accepted, and there are at most 16 MiB.
pub proof fn downloads_are_bounded(download: DownloadView)
    ensures
        download.wf() <==> name_check(download.profile) is Ok && download.bytes.len() <= 16 * 1024
            * 1024,
{
}

/// Every error is told in its own words, with its cause where there is one.
pub proof fn download_errors_name_their_cause(cause: Seq<char>)
    ensures
        SubscriptionErrorView::InvalidUrl(cause).text() == cause,
        SubscriptionErrorView::InvalidYaml(cause).text() == "Subscription is not valid YAML: "@
            + cause,
        SubscriptionErrorView::AlreadyExists(cause).text() == "Profile already exists: "@ + cause,
{
}

/// The model of an error holds what the error does.
pub proof fn download_error_model_is_faithful(error: SubscriptionError)
    ensures
        error is NameLength <==> error@ is NameLength,
        error is NameCharacters <==> error@ is NameCharacters,
        error is UnsupportedScheme <==> error@ is UnsupportedScheme,
        error is Credentials <==> error@ is Credentials,
        error is TooLarge <==> error@ is TooLarge,
        error is NotUtf8 <==> error@ is NotUtf8,
        error is Empty <==> error@ is Empty,
        error is NotMapping <==> error@ is NotMapping,
        error matches SubscriptionError::InvalidUrl(cause) ==> error@
            == SubscriptionErrorView::InvalidUrl(cause@),
        error matches SubscriptionError::InvalidYaml(cause) ==> error@
            == SubscriptionErrorView::InvalidYaml(cause@),
        error matches SubscriptionError::AlreadyExists(cause) ==> error@
            == SubscriptionErrorView::AlreadyExists(cause@),
{
}

} // verus!
