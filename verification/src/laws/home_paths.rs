//! Paths that are entered: the home directory, and absolute paths.
#![allow(unused_imports)]
use std::path::PathBuf;
use vstd::prelude::*;
use vstd::utf8::encode_utf8;

use crate::paths::{
    expand_home, expand_path, expand_path_from, may_be_made_absolute, has_tilde, home_expanded,
    is_home_dir, is_made_absolute, path_bytes, path_is_absolute, path_join, path_leads_from,
    path_leads_to, path_view, resolved_path, settle_path, slashes,
};
use crate::text::strip_start;

verus! {

/// `n` slashes.
pub open spec fn run_of_slashes(n: nat) -> Seq<char> {
    Seq::new(n, |i: int| '/')
}

proof fn lemma_slashes_are_stripped(n: nat, rest: Seq<char>)
    requires
        rest.len() > 0 ==> rest[0] != '/',
    ensures
        strip_start(run_of_slashes(n) + rest, slashes()) == rest,
    decreases n,
{
    let all = run_of_slashes(n) + rest;
    if n == 0 {
        assert(all =~= rest);
    } else {
        assert(all.drop_first() =~= run_of_slashes((n - 1) as nat) + rest);
        assert(all[0] == '/');
        lemma_slashes_are_stripped((n - 1) as nat, rest);
    }
}

/// A tilde alone is the home directory, a path behind a tilde and slashes is that
/// path in the home directory, however many slashes there are, and any other text
/// is a path as it stands, as is every text where there is no home directory.
pub proof fn law_a_leading_tilde_is_the_home_directory(
    raw: &str,
    home: Option<PathBuf>,
    expanded: PathBuf,
    extra: nat,
    rest: Seq<char>,
)
    requires
        call_ensures(expand_home, (raw, home), expanded),
        rest.len() > 0 ==> rest[0] != '/',
    ensures
        home is None ==> path_bytes(expanded) == encode_utf8(raw@),
        home matches Some(home) ==> {
            &&& raw@ == seq!['~'] ==> path_bytes(expanded) == path_bytes(home)
            &&& raw@ == seq!['~', '/'] + run_of_slashes(extra) + rest ==> path_bytes(expanded)
                == path_join(path_bytes(home), encode_utf8(rest))
            &&& raw@ != seq!['~'] && !(raw@.len() >= 2 && raw@[0] == '~' && raw@[1] == '/')
                ==> path_bytes(expanded) == encode_utf8(raw@)
        },
{
    if raw@ == seq!['~', '/'] + run_of_slashes(extra) + rest {
        assert(raw@.skip(2) =~= run_of_slashes(extra) + rest);
        lemma_slashes_are_stripped(extra, rest);
    }
}

/// Absolute input stays as it is; any other leads to what it was made absolute
/// to, or else to what it was expanded to.
pub proof fn law_absolute_input_stays(
    raw: &str,
    expanded: PathBuf,
    absolute: Option<PathBuf>,
    path: PathBuf,
)
    requires
        call_ensures(settle_path, (raw, expanded, absolute), path),
    ensures
        path_is_absolute(encode_utf8(raw@)) ==> path_bytes(path) == encode_utf8(raw@),
        !path_is_absolute(encode_utf8(raw@)) ==> path_bytes(path) == (match absolute {
            Some(absolute) => path_bytes(absolute),
            None => path_bytes(expanded),
        }),
{
}

/// What a path leads to is what it expands to in the home directory that was
/// looked up, made absolute if that could be done; absolute input stays.
pub proof fn law_a_path_leads_on_from_home(raw: Seq<char>, path: Seq<u8>)
    requires
        path_leads_to(raw, path),
    ensures
        exists|home: Option<PathBuf>, expanded: PathBuf, absolute: Option<PathBuf>|
            {
                &&& #[trigger] is_home_dir(home)
                &&& #[trigger] may_be_made_absolute(expanded, absolute)
                &&& path_bytes(expanded) == home_expanded(raw, path_view(home))
                &&& path == (if path_is_absolute(encode_utf8(raw)) && !has_tilde(
                    encode_utf8(raw),
                ) {
                    encode_utf8(raw)
                } else {
                    match absolute {
                        Some(absolute) => path_bytes(absolute),
                        None => path_bytes(expanded),
                    }
                })
            },
{
    let home = choose|home: Option<PathBuf>| #[trigger]
        is_home_dir(home) && path_leads_from(raw, path_view(home), path);
    let (expanded, absolute) = choose|expanded: PathBuf, absolute: Option<PathBuf>|
        {
            &&& #[trigger] may_be_made_absolute(expanded, absolute)
            &&& path_bytes(expanded) == home_expanded(raw, path_view(home))
            &&& absolute matches Some(absolute) ==> is_made_absolute(
                path_bytes(expanded),
                path_bytes(absolute),
            )
            &&& path == resolved_path(raw, path_view(home), path_view(absolute))
        };
    assert(is_home_dir(home) && may_be_made_absolute(expanded, absolute));
}

/// Expanding what was entered leads on from the home directory; absolute input
/// stays.
pub proof fn law_expanding_leads_on_from_home(raw: &str, path: PathBuf)
    requires
        call_ensures(expand_path, (raw,), path),
    ensures
        path_leads_to(raw@, path_bytes(path)),
        path_is_absolute(encode_utf8(raw@)) ==> path_bytes(path) == encode_utf8(raw@),
{
}

/// What was entered is expanded, what it expands to is made absolute, and the
/// result is settled from the two.
pub proof fn law_paths_are_expanded_and_made_absolute(
    raw: &str,
    home: Option<PathBuf>,
    path: PathBuf,
    expanded: PathBuf,
)
    requires
        call_ensures(expand_path_from, (raw, home), path),
        call_ensures(expand_home, (raw, home), expanded),
    ensures
        path_is_absolute(encode_utf8(raw@)) ==> path_bytes(path) == encode_utf8(raw@),
        !path_is_absolute(encode_utf8(raw@)) ==> exists|same: PathBuf, absolute: Option<PathBuf>|
            {
                &&& #[trigger] may_be_made_absolute(same, absolute)
                &&& path_bytes(same) == path_bytes(expanded)
                &&& path_bytes(path) == (match absolute {
                    Some(absolute) => path_bytes(absolute),
                    None => path_bytes(expanded),
                })
            },
{
}

} // verus!
