//! Paths, in the syntax of the platform that the crate is built for. They need
//! not be text: a path is carried as the standard library has it, and spoken
//! of by its bytes.
use std::path::PathBuf;
use vstd::prelude::*;
#[allow(unused_imports)]
use vstd::utf8::{decode_utf8, encode_utf8, valid_utf8};

#[allow(unused_imports)]
use crate::text::strip_start;

verus! {

/// `std::path::PathBuf`, of which nothing but [`path_bytes`] is known.
#[verifier::external_type_specification]
#[verifier::external_body]
pub struct ExPathBuf(std::path::PathBuf);

/// The bytes that a path holds, as `OsStr::as_encoded_bytes` gives them: those
/// of its UTF-8 encoding where it is text.
pub uninterp spec fn path_bytes(path: PathBuf) -> Seq<u8>;

/// Whether a path is absolute, by `std::path::Path::is_absolute`.
pub uninterp spec fn path_is_absolute(path: Seq<u8>) -> bool;

/// A path with another one adjoined, by `std::path::Path::join`.
pub uninterp spec fn path_join(path: Seq<u8>, rest: Seq<u8>) -> Seq<u8>;

/// The final component of a path, by `std::path::Path::file_name`.
pub uninterp spec fn path_file_name(path: Seq<u8>) -> Option<Seq<u8>>;

/// A path without its final component, by `std::path::Path::parent`.
pub uninterp spec fn path_parent(path: Seq<u8>) -> Option<Seq<u8>>;

/// A path made absolute where `current` is the current directory, by
/// `std::path::absolute`.
pub uninterp spec fn path_made_absolute(current: Seq<u8>, path: Seq<u8>) -> Seq<u8>;

/// Whether two paths have the same components, by the `PartialEq` of
/// `std::path::Path`.
pub uninterp spec fn paths_are_equal(a: Seq<u8>, b: Seq<u8>) -> bool;

/// A path as text, by `std::path::Path::to_string_lossy`.
pub uninterp spec fn path_shown(path: Seq<u8>) -> Seq<char>;

/// The text whose encoding `bytes` are, if there is one.
pub open spec fn bytes_text(bytes: Seq<u8>) -> Option<Seq<char>> {
    if valid_utf8(bytes) {
        Some(decode_utf8(bytes))
    } else {
        None
    }
}

/// The final component of a path, where there is one and it is text.
pub open spec fn path_name(path: Seq<u8>) -> Option<Seq<char>> {
    match path_file_name(path) {
        Some(name) => bytes_text(name),
        None => None,
    }
}

/// What an optional text says.
pub open spec fn text_view(text: Option<String>) -> Option<Seq<char>> {
    match text {
        Some(text) => Some(text@),
        None => None,
    }
}

/// What an optional path holds.
pub open spec fn path_view(path: Option<PathBuf>) -> Option<Seq<u8>> {
    match path {
        Some(path) => Some(path_bytes(path)),
        None => None,
    }
}

/// What an optional borrowed path holds.
pub open spec fn path_ref_view(path: Option<&PathBuf>) -> Option<Seq<u8>> {
    match path {
        Some(path) => Some(path_bytes(*path)),
        None => None,
    }
}

/// Whether a path starts with a tilde.
pub open spec fn has_tilde(path: Seq<u8>) -> bool {
    path.len() > 0 && path[0] == 0x7e
}

/// Whether a path is absolute, with no tilde to expand.
pub open spec fn is_rooted(path: Seq<u8>) -> bool {
    path_is_absolute(path) && !has_tilde(path)
}

/// Whether a path may name a drive and no root on it: a character and a colon,
/// with no slash of either kind behind them.
pub open spec fn may_name_drive(path: Seq<u8>) -> bool {
    &&& path.len() >= 2 && path[1] == 0x3a
    &&& path.len() > 2 ==> path[2] != 0x2f && path[2] != 0x5c
}

/// The path that a text writes, by `PathBuf::from`: its bytes are those of the
/// text.
#[verifier::external_body]
pub(crate) fn path_of(text: &str) -> (path: PathBuf)
    ensures
        path_bytes(path) == encode_utf8(text@),
{
    PathBuf::from(text)
}

/// A copy of a path, by the `Clone` of `PathBuf`: it holds the same bytes.
#[verifier::external_body]
pub(crate) fn copy_path(path: &PathBuf) -> (copy: PathBuf)
    ensures
        path_bytes(copy) == path_bytes(*path),
{
    path.clone()
}

/// `path` as text, by `std::path::Path::to_string_lossy`: what is no text in
/// it is replaced, and a path that is text shows that text.
#[verifier::external_body]
pub(crate) fn show_path(path: &PathBuf) -> (text: String)
    ensures
        text@ == path_shown(path_bytes(*path)),
        bytes_text(path_bytes(*path)) matches Some(s) ==> text@ == s,
{
    path.to_string_lossy().into_owned()
}

/// Whether `path` is absolute, by `std::path::Path::is_absolute`. The answer
/// depends on its bytes alone, and an absolute path starts with a root or a
/// prefix, never with a tilde.
#[verifier::external_body]
pub(crate) fn is_absolute(path: &PathBuf) -> (yes: bool)
    ensures
        yes == path_is_absolute(path_bytes(*path)),
        yes ==> !has_tilde(path_bytes(*path)),
{
    path.is_absolute()
}

/// Adjoins `rest` to `path`, by `std::path::Path::join`. The result depends on
/// the bytes of the two alone. An absolute path stays absolute unless `rest`
/// has a prefix and no root: a `rest` without a prefix leaves the prefix of the
/// path in place, and its root too or puts one in its place, and one with both
/// is absolute itself.
#[verifier::external_body]
pub(crate) fn join(path: &PathBuf, rest: &PathBuf) -> (joined: PathBuf)
    ensures
        path_bytes(joined) == path_join(path_bytes(*path), path_bytes(*rest)),
        path_is_absolute(path_bytes(*path)) && !may_name_drive(path_bytes(*rest))
            ==> path_is_absolute(path_bytes(joined)),
{
    path.join(rest)
}

/// The final component of `path`, by `std::path::Path::file_name`. It depends
/// on the bytes alone.
#[verifier::external_body]
pub(crate) fn file_name(path: &PathBuf) -> (name: Option<PathBuf>)
    ensures
        path_view(name) == path_file_name(path_bytes(*path)),
{
    path.file_name().map(PathBuf::from)
}

/// The text that `path` is, by `std::path::Path::to_str`: there is one where
/// its bytes are valid UTF-8.
#[verifier::external_body]
pub(crate) fn text_of_path(path: &PathBuf) -> (text: Option<String>)
    ensures
        text_view(text) == bytes_text(path_bytes(*path)),
{
    path.to_str().map(String::from)
}

/// The final component of `path`, where there is one and it is text.
pub fn name_of_path(path: &PathBuf) -> (name: Option<String>)
    ensures
        text_view(name) == path_name(path_bytes(*path)),
{
    match file_name(path) {
        Some(name) => text_of_path(&name),
        None => None,
    }
}

/// `path` without its final component, by `std::path::Path::parent`. It
/// depends on the bytes alone.
#[verifier::external_body]
pub(crate) fn parent(path: &PathBuf) -> (parent: Option<PathBuf>)
    ensures
        path_view(parent) == path_parent(path_bytes(*path)),
{
    path.parent().map(PathBuf::from)
}

/// Whether two paths have the same components, by the `PartialEq` of
/// `std::path::Path`. The answer depends on the bytes of the two alone,
/// whichever comes first, and a path equals itself.
#[verifier::external_body]
pub(crate) fn same_path(a: &PathBuf, b: &PathBuf) -> (yes: bool)
    ensures
        yes == paths_are_equal(path_bytes(*a), path_bytes(*b)),
        yes == paths_are_equal(path_bytes(*b), path_bytes(*a)),
        path_bytes(*a) == path_bytes(*b) ==> yes,
{
    a == b
}

/// The home directory of the user, by `dirs::home_dir`. It depends on the
/// environment; nothing is stated of it.
#[verifier::external_body]
fn home_dir() -> Option<PathBuf> {
    dirs::home_dir()
}

/// Whether `home` is what a lookup of the home directory may give.
pub closed spec fn is_home_dir(home: Option<PathBuf>) -> bool {
    call_ensures(home_dir, (), home)
}

/// Whether `absolute` is what `path` is made absolute to in some current
/// directory, and in every one where `path` is absolute; an empty path is not.
pub open spec fn is_made_absolute(path: Seq<u8>, absolute: Seq<u8>) -> bool {
    &&& path.len() > 0
    &&& is_rooted(absolute)
    &&& exists|current: Seq<u8>| absolute == #[trigger] path_made_absolute(current, path)
    &&& path_is_absolute(path) ==> forall|current: Seq<u8>|
        absolute == #[trigger] path_made_absolute(current, path)
}

/// Makes `path` absolute, by `std::path::absolute`: a result is absolute, and
/// depends on the path and on the current directory alone, and where the path
/// is absolute not on that either. There is none for an empty path, nor where
/// the current directory is unknown.
#[verifier::external_body]
fn make_absolute(path: &PathBuf) -> (absolute: Option<PathBuf>)
    ensures
        absolute matches Some(absolute) ==> is_rooted(path_bytes(absolute)) && exists|
            current: Seq<u8>,
        |
            path_bytes(absolute) == #[trigger] path_made_absolute(current, path_bytes(*path)),
        absolute matches Some(absolute) ==> path_is_absolute(path_bytes(*path)) ==> forall|
            current: Seq<u8>,
        |
            path_bytes(absolute) == #[trigger] path_made_absolute(current, path_bytes(*path)),
        path_bytes(*path).len() == 0 ==> absolute is None,
{
    std::path::absolute(path).ok()
}

/// Whether `absolute` is what making `path` absolute may give.
pub closed spec fn may_be_made_absolute(path: PathBuf, absolute: Option<PathBuf>) -> bool {
    call_ensures(make_absolute, (&path,), absolute)
}

/// The character that separates the components of a path.
pub open spec fn slashes() -> spec_fn(char) -> bool {
    |c: char| c == '/'
}

/// Whether `raw` asks for something in the home directory.
pub open spec fn is_below_home(raw: Seq<char>) -> bool {
    raw.len() >= 2 && raw[0] == '~' && raw[1] == '/'
}

/// What `raw` asks for in the home directory. Further slashes behind `~/`
/// separate nothing.
pub open spec fn below_home(raw: Seq<char>) -> Seq<u8> {
    encode_utf8(strip_start(raw.skip(2), slashes()))
}

/// `raw` with a leading `~` or `~/` replaced by the home directory, if there
/// is one.
pub open spec fn home_expanded(raw: Seq<char>, home: Option<Seq<u8>>) -> Seq<u8> {
    match home {
        Some(home) => if raw =~= seq!['~'] {
            home
        } else if is_below_home(raw) {
            path_join(home, below_home(raw))
        } else {
            encode_utf8(raw)
        },
        None => encode_utf8(raw),
    }
}

/// Whether `raw` asks for the home directory, which is absolute, or for
/// something in it that cannot lead out of it by naming a drive.
pub open spec fn stays_home(raw: Seq<char>, home: Option<Seq<u8>>) -> bool {
    &&& home matches Some(home) && path_is_absolute(home)
    &&& raw =~= seq!['~'] || (is_below_home(raw) && !may_name_drive(below_home(raw)))
}

/// Replaces a leading `~` or `~/` by the home directory, if there is one.
pub fn expand_home(raw: &str, home: Option<PathBuf>) -> (expanded: PathBuf)
    ensures
        path_bytes(expanded) == home_expanded(raw@, path_view(home)),
        stays_home(raw@, path_view(home)) ==> path_is_absolute(path_bytes(expanded)),
{
    let home = match home {
        Some(home) => home,
        None => {
            return path_of(raw);
        },
    };
    let len: usize = raw.unicode_len();
    if len == 0 {
        return path_of(raw);
    }
    if raw.get_char(0) == '~' {
        if len == 1 {
            assert(raw@ =~= seq!['~']);
            return home;
        }
        if raw.get_char(1) == '/' {
            let mut at: usize = 2;
            while at < len && raw.get_char(at) == '/'
                invariant
                    2 <= at <= len == raw@.len(),
                    strip_start(raw@.skip(at as int), slashes()) == strip_start(
                        raw@.skip(2),
                        slashes(),
                    ),
                decreases len - at,
            {
                assert(raw@.skip(at as int).drop_first() =~= raw@.skip(at + 1));
                at += 1;
            }
            let rest = raw.substring_char(at, len);
            assert(rest@ =~= raw@.skip(at as int));
            return join(&home, &path_of(rest));
        }
    }
    path_of(raw)
}

/// What `raw` leads to, given what it expands to and what that is made absolute
/// to, if it can be: absolute input passes through unchanged.
pub open spec fn settled_path(
    raw: Seq<char>,
    expanded: Seq<u8>,
    absolute: Option<Seq<u8>>,
) -> Seq<u8> {
    if is_rooted(encode_utf8(raw)) {
        encode_utf8(raw)
    } else {
        match absolute {
            Some(absolute) => absolute,
            None => expanded,
        }
    }
}

/// What `raw` leads to, given the home directory and what the expanded path is
/// made absolute to, if it can be.
pub open spec fn resolved_path(
    raw: Seq<char>,
    home: Option<Seq<u8>>,
    absolute: Option<Seq<u8>>,
) -> Seq<u8> {
    settled_path(raw, home_expanded(raw, home), absolute)
}

/// Whether `path` is what `raw` leads to, given the home directory: the path
/// that `raw` expands to was made absolute, if it could be.
pub open spec fn path_leads_from(raw: Seq<char>, home: Option<Seq<u8>>, path: Seq<u8>) -> bool {
    exists|expanded: PathBuf, absolute: Option<PathBuf>|
        {
            &&& #[trigger] may_be_made_absolute(expanded, absolute)
            &&& path_bytes(expanded) == home_expanded(raw, home)
            &&& absolute matches Some(absolute) ==> is_made_absolute(
                path_bytes(expanded),
                path_bytes(absolute),
            )
            &&& path == resolved_path(raw, home, path_view(absolute))
        }
}

/// Whether `path` is what `raw` leads to from the home directory that was
/// looked up.
pub open spec fn path_leads_to(raw: Seq<char>, path: Seq<u8>) -> bool {
    exists|home: Option<PathBuf>| #[trigger]
        is_home_dir(home) && path_leads_from(raw, path_view(home), path)
}

/// Settles what `raw` leads to.
pub fn settle_path(raw: &str, expanded: PathBuf, absolute: Option<PathBuf>) -> (path: PathBuf)
    ensures
        path_bytes(path) == settled_path(raw@, path_bytes(expanded), path_view(absolute)),
        path_is_absolute(encode_utf8(raw@)) ==> path_bytes(path) == encode_utf8(raw@),
{
    let entered = path_of(raw);
    if is_absolute(&entered) {
        return entered;
    }
    match absolute {
        Some(absolute) => absolute,
        None => expanded,
    }
}

/// Expands a leading `~` or `~/` to `home` and makes the path absolute
/// (resolved against the current directory for relative input). Absolute input
/// passes through unchanged.
pub fn expand_path_from(raw: &str, home: Option<PathBuf>) -> (path: PathBuf)
    ensures
        path_is_absolute(encode_utf8(raw@)) ==> path_bytes(path) == encode_utf8(raw@),
        stays_home(raw@, path_view(home)) ==> path_is_absolute(path_bytes(path)),
        path_leads_from(raw@, path_view(home), path_bytes(path)),
{
    let expanded = expand_home(raw, home);
    let absolute = make_absolute(&expanded);
    assert(may_be_made_absolute(expanded, absolute));
    settle_path(raw, expanded, absolute)
}

/// Expands a leading `~` or `~/` to the user's home directory and makes the
/// path absolute (resolved against the current directory for relative input).
/// Absolute input passes through unchanged. The path need not exist.
pub fn expand_path(raw: &str) -> (path: PathBuf)
    ensures
        path_is_absolute(encode_utf8(raw@)) ==> path_bytes(path) == encode_utf8(raw@),
        path_leads_to(raw@, path_bytes(path)),
{
    let home = home_dir();
    assert(is_home_dir(home));
    expand_path_from(raw, home)
}

/// A text that starts with a tilde is a path that does.
pub proof fn lemma_tilde_encoding(raw: Seq<char>)
    requires
        raw.len() > 0,
        raw[0] == '~',
    ensures
        has_tilde(encode_utf8(raw)),
{
    assert((0x7eu32 & 0x7F) as u8 == 0x7e) by (bit_vector);
}

/// A path that could be made absolute leads to an absolute path, which leads to
/// itself from then on, whatever the home directory and the current directory
/// are.
pub proof fn law_expanding_again_changes_nothing(
    raw: Seq<char>,
    home: Option<Seq<u8>>,
    absolute: Seq<u8>,
    again: Seq<char>,
    other_home: Option<Seq<u8>>,
    other_absolute: Option<Seq<u8>>,
)
    requires
        is_made_absolute(home_expanded(raw, home), absolute),
        encode_utf8(again) == resolved_path(raw, home, Some(absolute)),
    ensures
        ({
            let path = resolved_path(raw, home, Some(absolute));
            &&& path_is_absolute(path)
            &&& resolved_path(again, other_home, other_absolute) == path
        }),
{
}

/// A tilde leads to what the home directory is made absolute to, and a path
/// behind `~/` to what that path, joined to the home directory, is made absolute
/// to. Where these are absolute, the current directory plays no part.
pub proof fn law_a_tilde_leads_home(
    home: Seq<u8>,
    rest: Seq<char>,
    absolute: Seq<u8>,
    current: Seq<u8>,
)
    requires
        rest.len() > 0 ==> rest[0] != '/',
    ensures
        is_made_absolute(home, absolute) ==> {
            &&& resolved_path(seq!['~'], Some(home), Some(absolute)) == absolute
            &&& path_is_absolute(home) ==> absolute == path_made_absolute(current, home)
        },
        is_made_absolute(path_join(home, encode_utf8(rest)), absolute) ==> {
            let joined = path_join(home, encode_utf8(rest));
            &&& resolved_path(seq!['~', '/'] + rest, Some(home), Some(absolute)) == absolute
            &&& path_is_absolute(joined) ==> absolute == path_made_absolute(current, joined)
        },
{
    lemma_tilde_encoding(seq!['~']);
    lemma_tilde_encoding(seq!['~', '/'] + rest);
    assert((seq!['~', '/'] + rest).skip(2) =~= rest);
    assert(strip_start(rest, slashes()) == rest);
}

/// A relative path that does not ask for the home directory leads to what it is
/// made absolute to.
pub proof fn law_relative_paths_are_made_absolute(
    raw: Seq<char>,
    home: Option<Seq<u8>>,
    absolute: Seq<u8>,
)
    requires
        !path_is_absolute(encode_utf8(raw)),
        raw != seq!['~'],
        !is_below_home(raw),
    ensures
        resolved_path(raw, home, Some(absolute)) == absolute,
{
}

} // verus!
