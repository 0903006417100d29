//! The content type of a file, guessed from the extension of its name.

use vstd::prelude::*;
use vstd::string::*;
use crate::path::{lemma_split_is_not_empty, segments, split_segments, text_of, texts};
use crate::text::chars_of;

verus! {

/// The index of the last `.` in `name`, or `-1` where it has none.
pub open spec fn last_dot(name: Seq<char>) -> int
    decreases name.len(),
{
    if name.len() == 0 {
        -1
    } else if name.last() == '.' {
        name.len() - 1
    } else {
        last_dot(name.drop_last())
    }
}

/// The file name of a path: what follows its last `/`.
pub open spec fn file_name(path: Seq<char>) -> Seq<char> {
    split_segments(path).last()
}

/// The extension of a file name: what follows its last `.`, unless that dot
/// is the first character of the name. Empty where there is none.
pub open spec fn extension(name: Seq<char>) -> Seq<char> {
    if last_dot(name) > 0 {
        name.skip(last_dot(name) + 1)
    } else {
        Seq::empty()
    }
}

/// The first media type that `mime_guess` knows for an extension, if any.
pub uninterp spec fn known_mime(extension: Seq<char>) -> Option<Seq<char>>;

/// `mime_guess::from_ext` followed by `first_raw`: the first media type in
/// the crate's table for this extension, looked up without regard to case, or
/// nothing where the table has no entry. The table is fixed when the crate is
/// built, so the answer depends on the extension alone. Believed of the
/// outside code, not proved.
#[verifier::external_body]
fn lookup_mime(extension: &str) -> (found: Option<String>)
    ensures
        match found {
            Some(name) => known_mime(extension@) == Some(name@),
            None => known_mime(extension@) is None,
        },
{
    match mime_guess::from_ext(extension).first_raw() {
        Some(name) => Some(name.to_string()),
        None => None,
    }
}

/// The media type to send when the table gave `found`: that type, or
/// `text/plain` where it gave none.
pub open spec fn mime_or_text_plain(found: Option<Seq<char>>) -> Seq<char> {
    match found {
        Some(name) => name,
        None => "text/plain"@,
    }
}

/// The media type guessed for the file at `path`.
pub open spec fn guessed_mime(path: Seq<char>) -> Seq<char> {
    mime_or_text_plain(known_mime(extension(file_name(path))))
}

/// The last `.` of a name is a `.`, and no `.` follows it.
pub proof fn lemma_last_dot(name: Seq<char>)
    ensures
        -1 <= last_dot(name) < name.len(),
        last_dot(name) >= 0 ==> name[last_dot(name)] == '.',
        forall|i: int| last_dot(name) < i < name.len() ==> name[i] != '.',
    decreases name.len(),
{
    if name.len() > 0 && name.last() != '.' {
        let shorter = name.drop_last();
        lemma_last_dot(shorter);
        assert forall|i: int| last_dot(name) < i < name.len() implies name[i] != '.' by {
            if i < shorter.len() {
                assert(shorter[i] == name[i]);
            }
        }
    }
}

fn find_last_dot(name: &str) -> (found: Option<usize>)
    ensures
        match found {
            Some(at) => last_dot(name@) == at,
            None => last_dot(name@) == -1,
        },
{
    let chars = chars_of(name);
    let mut found: Option<usize> = None;
    let mut at: usize = 0;
    assert(chars@.take(0) =~= Seq::<char>::empty());
    while at < chars.len()
        invariant
            chars@ == name@,
            at <= chars.len(),
            match found {
                Some(dot) => last_dot(chars@.take(at as int)) == dot,
                None => last_dot(chars@.take(at as int)) == -1,
            },
        decreases chars.len() - at,
    {
        proof {
            let longer = chars@.take(at + 1);
            assert(longer.drop_last() =~= chars@.take(at as int));
            assert(longer.last() == chars@[at as int]);
        }
        if chars[at] == '.' {
            found = Some(at);
        }
        at = at + 1;
    }
    assert(chars@.take(at as int) =~= name@);
    found
}

/// The extension of the file that `path` names.
pub fn extension_of(path: &str) -> (found: String)
    ensures
        found@ == extension(file_name(path@)),
{
    let parts = segments(path);
    proof {
        lemma_split_is_not_empty(path@);
    }
    let name = parts[parts.len() - 1].as_str();
    assert(name@ == texts(parts@)[parts.len() - 1]);
    proof {
        lemma_last_dot(name@);
    }
    let count = name.unicode_len();
    match find_last_dot(name) {
        Some(dot) => {
            if dot > 0 {
                name.substring_char(dot + 1, count).to_owned()
            } else {
                String::new()
            }
        },
        None => String::new(),
    }
}

/// The media type to send when the table gave `found`: that type, or
/// `text/plain` where it gave none.
pub fn first_or_text_plain(found: Option<String>) -> (name: String)
    ensures
        name@ == mime_or_text_plain(text_of(found)),
{
    match found {
        Some(name) => name,
        None => "text/plain".to_owned(),
    }
}

/// Guess the media type of the file at `path` from its extension.
pub fn guess_mime(path: &str) -> (name: String)
    ensures
        name@ == guessed_mime(path@),
{
    let ext = extension_of(path);
    first_or_text_plain(lookup_mime(ext.as_str()))
}

} // verus!
