//! A content type for a path, from its extension.

use vstd::prelude::*;
use vstd::string::StrSliceExecFns;
use vstd::string::StringExecFns;
use crate::text::after_last;
use crate::text::chars_of;
use crate::text::last_position;
use crate::text::lemma_last_position_skip;
use crate::text::tail_is;

verus! {

/// The content type that `mime_guess` lists first for the extension `ext`,
/// or `None` if it lists none. The table is not written down here.
pub uninterp spec fn mime_of_extension(ext: Seq<char>) -> Option<Seq<char>>;

/// Calls `mime_guess::from_ext` and `MimeGuess::first`: the first content
/// type that the table holds for `ext`, as text.
#[verifier::external_body]
fn first_guess(ext: &str) -> (res: Option<String>)
    ensures
        match mime_of_extension(ext@) {
            Some(mime) => res matches Some(m) && m@ == mime,
            None => res is None,
        },
{
    mime_guess::from_ext(ext).first().map(|mime| mime.to_string())
}

/// What follows the last `.` of `path`, or all of `path` if it has none.
pub open spec fn spec_suffix(path: Seq<char>) -> Seq<char> {
    path.skip(last_position(path, '.') + 1)
}

/// Whether the last character of `path` belongs to no file name: it is a
/// `/`, or a `.` that is a segment by itself.
pub open spec fn ends_loosely(path: Seq<char>) -> bool {
    path.len() > 0 && (path.last() == '/' || (path.last() == '.' && (path.len() == 1
        || path[path.len() - 2] == '/')))
}

/// Where the last segment of `path` ends that is neither empty nor `.`:
/// such segments at the end of a path do not count.
pub open spec fn file_end(path: Seq<char>) -> int
    decreases path.len(),
{
    if ends_loosely(path) {
        file_end(path.drop_last())
    } else {
        path.len() as int
    }
}

/// The name of the file that `path` points to, as `std::path::Path` reads
/// a path whose segments are parted by `/`: its last segment that is
/// neither empty nor `.`. A path without such a segment, or whose last one
/// is `..`, has no file name.
pub open spec fn spec_file_name(path: Seq<char>) -> Option<Seq<char>> {
    let kept = path.take(file_end(path));
    let name = kept.skip(last_position(kept, '/') + 1);
    if name.len() == 0 || name == seq!['.', '.'] {
        None
    } else {
        Some(name)
    }
}

/// The extension of `path`, as `std::path::Path` reads it: what follows
/// the last `.` of its file name. A path without a file name, a file name
/// without a `.`, or with none but the one it begins with, has no
/// extension.
pub open spec fn spec_extension(path: Seq<char>) -> Option<Seq<char>> {
    match spec_file_name(path) {
        Some(name) => {
            let dot = last_position(name, '.');
            if dot > 0 {
                Some(name.skip(dot + 1))
            } else {
                None
            }
        },
        None => None,
    }
}

/// The content type of `path` when the table's guess for its extension is
/// `guess`. A path that ends in `xhtml` is served as HTML whatever the
/// table says; one that the table does not know is JavaScript if it ends
/// in `ts` or `tsx`, and a stream of bytes otherwise.
pub open spec fn spec_mime_type(path: Seq<char>, guess: Option<Seq<char>>) -> Seq<char> {
    let suffix = spec_suffix(path);
    if suffix == "xhtml"@ {
        "text/html"@
    } else {
        match guess {
            Some(mime) => mime,
            None => if suffix == "tsx"@ || suffix == "ts"@ {
                "text/javascript"@
            } else {
                "application/octet-stream"@
            },
        }
    }
}

/// The guess of the table for `path`: that for its extension.
pub open spec fn spec_guess(path: Seq<char>) -> Option<Seq<char>> {
    match spec_extension(path) {
        Some(ext) => mime_of_extension(ext),
        None => None,
    }
}

/// Whether the last of the first `end` characters belongs to no file
/// name.
fn loose_end(chars: &Vec<char>, end: usize) -> (loose: bool)
    requires
        end <= chars.len(),
    ensures
        loose == ends_loosely(chars@.take(end as int)),
{
    if end == 0 {
        return false;
    }
    let last = chars[end - 1];
    last == '/' || (last == '.' && (end == 1 || chars[end - 2] == '/'))
}

/// Finds the extension of `path`.
pub fn extension(path: &str) -> (res: Option<String>)
    ensures
        match spec_extension(path@) {
            Some(ext) => res matches Some(e) && e@ == ext,
            None => res is None,
        },
{
    let chars = chars_of(path);
    let mut end = chars.len();
    assert(chars@.take(end as int) =~= chars@);
    while loose_end(&chars, end)
        invariant
            end <= chars.len(),
            file_end(chars@) == file_end(chars@.take(end as int)),
        decreases end,
    {
        assert(chars@.take(end as int).drop_last() =~= chars@.take(end - 1));
        end = end - 1;
    }
    let start = after_last(&chars, end, '/');
    let after = after_last(&chars, end, '.');
    let ghost kept = chars@.take(end as int);
    let ghost name = kept.skip(start as int);
    proof {
        lemma_last_position_skip(kept, start as int, '.');
    }
    if end - start == 2 && chars[start] == '.' && chars[start + 1] == '.' {
        assert(name =~= seq!['.', '.']);
        return None;
    }
    if after > start && after - start > 1 {
        proof {
            assert(name[0] == kept[start as int]);
            assert(name.len() == 2 ==> name[1] == kept[start + 1]);
            assert(path@.subrange(after as int, end as int) =~= name.skip(after - start));
        }
        Some(path.substring_char(after, end).to_owned())
    } else {
        None
    }
}

/// The content type of `path`, given the table's guess for its extension.
pub fn mime_type(path: &str, guess: Option<String>) -> (res: String)
    ensures
        res@ == spec_mime_type(
            path@,
            match guess {
                Some(mime) => Some(mime@),
                None => None,
            },
        ),
{
    let chars = chars_of(path);
    let from = after_last(&chars, chars.len(), '.');
    proof {
        assert(chars@.take(chars.len() as int) =~= chars@);
    }
    if tail_is(&chars, from, "xhtml") {
        String::from_str("text/html")
    } else {
        match guess {
            Some(mime) => mime,
            None => if tail_is(&chars, from, "tsx") || tail_is(&chars, from, "ts") {
                String::from_str("text/javascript")
            } else {
                String::from_str("application/octet-stream")
            },
        }
    }
}

/// Guesses the content type of `path`. There is always a guess.
pub fn guess_mime_type(path: &str) -> (res: Option<String>)
    ensures
        res matches Some(mime) && mime@ == spec_mime_type(path@, spec_guess(path@)),
{
    let guess = match extension(path) {
        Some(ext) => first_guess(ext.as_str()),
        None => None,
    };
    Some(mime_type(path, guess))
}

} // verus!
