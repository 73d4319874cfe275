//! Checks on desktop-entry text before it is stored.
use vstd::prelude::*;

use crate::placement::{entry_file_name, entry_leaf};

verus! {

/// Why a desktop entry was refused.
#[derive(Debug)]
pub enum ValidationError {
    /// An entry with this application id is already installed elsewhere.
    DuplicateAppID,
    /// The text is not a desktop entry; the reason is given.
    NotValid(String),
}

impl Clone for ValidationError {
    fn clone(&self) -> (r: Self)
        ensures
            r == *self,
    {
        match self {
            ValidationError::DuplicateAppID => ValidationError::DuplicateAppID,
            ValidationError::NotValid(m) => ValidationError::NotValid(m.clone()),
        }
    }
}

impl ValidationError {
    /// The message shown to a client.
    pub fn message(&self) -> (r: String)
        ensures
            self is DuplicateAppID ==> r@ == "Duplicate app id"@,
            self matches ValidationError::NotValid(m) ==> r@ == "Desktop entry failed validation: "@
                + m@,
    {
        match self {
            ValidationError::DuplicateAppID => String::from_str("Duplicate app id"),
            ValidationError::NotValid(m) => {
                let mut r = String::from_str("Desktop entry failed validation: ");
                r.append(m.as_str());
                r
            },
        }
    }
}

/// Whether `c` is white space in Unicode's sense (what `char::is_whitespace` tests).
pub open spec fn is_blank(c: char) -> bool {
    let u = c as u32;
    (0x09 <= u <= 0x0D) || u == 0x20 || u == 0x85 || u == 0xA0 || u == 0x1680 || (0x2000 <= u
        <= 0x200A) || u == 0x2028 || u == 0x2029 || u == 0x202F || u == 0x205F || u == 0x3000
}

/// Whether everything on the line of position `i` before `i` is blank.
pub open spec fn blank_before(t: Seq<char>, i: int) -> bool
    decreases i,
{
    if i <= 0 {
        true
    } else if t[i - 1] == '\n' {
        true
    } else {
        is_blank(t[i - 1]) && blank_before(t, i - 1)
    }
}

/// Whether some line of `t` has `=` as its first non-blank character: a
/// key-value line whose key is empty.
pub open spec fn has_keyless_line(t: Seq<char>) -> bool {
    exists|i: int| 0 <= i < t.len() && t[i] == '=' && #[trigger] blank_before(t, i)
}

pub fn is_blank_char(c: char) -> (r: bool)
    ensures
        r == is_blank(c),
{
    let u = c as u32;
    (0x09 <= u && u <= 0x0D) || u == 0x20 || u == 0x85 || u == 0xA0 || u == 0x1680 || (0x2000
        <= u && u <= 0x200A) || u == 0x2028 || u == 0x2029 || u == 0x202F || u == 0x205F || u
        == 0x3000
}

/// Whether some line of `text` has `=` as its first non-blank character.
pub fn keyless_line(text: &str) -> (r: bool)
    ensures
        r == has_keyless_line(text@),
{
    let n = text.unicode_len();
    let mut blank = true;
    let mut i: usize = 0;
    while i < n
        invariant
            n == text@.len(),
            i <= n,
            blank == blank_before(text@, i as int),
            forall|j: int| 0 <= j < i ==> !(text@[j] == '=' && #[trigger] blank_before(text@, j)),
        decreases n - i,
    {
        let c = text.get_char(i);
        if blank && c == '=' {
            return true;
        }
        blank = c == '\n' || (blank && is_blank_char(c));
        i += 1;
    }
    false
}

/// Whether `f` is the file name of some desktop entry: an id followed by `.desktop`.
pub open spec fn desktop_file_name(f: Seq<char>) -> bool {
    exists|appid: Seq<char>| f == #[trigger] entry_leaf(appid)
}

/// Relies on `freedesktop_desktop_entry::DesktopEntry::decode`: a path whose
/// name ends in `.desktop` always has a file stem, so the text is accepted;
/// decode indexes out of bounds on a line whose key is empty, which the
/// caller rules out.
#[verifier::external_body]
fn decode_desktop_entry(text: &str, file_name: &str) -> (r: Result<(), String>)
    requires
        !has_keyless_line(text@),
        desktop_file_name(file_name@),
    ensures
        r is Ok,
{
    match freedesktop_desktop_entry::DesktopEntry::decode(std::path::Path::new(file_name), text) {
        Ok(_) => Ok(()),
        Err(e) => Err(e.to_string()),
    }
}

/// Validates the text of a desktop entry for `appid`. `listed_elsewhere`
/// tells whether an entry with that id is already installed outside this
/// catalog. The text comes back unchanged.
pub fn validate_desktop_entry(entry: &str, appid: &str, listed_elsewhere: bool) -> (r: Result<
    String,
    ValidationError,
>)
    ensures
        r matches Ok(t) ==> t@ == entry@,
        r is Ok <==> !has_keyless_line(entry@) && !listed_elsewhere,
        r matches Err(ValidationError::NotValid(_)) <==> has_keyless_line(entry@),
        r matches Err(ValidationError::DuplicateAppID) <==> !has_keyless_line(entry@)
            && listed_elsewhere,
{
    if keyless_line(entry) {
        return Err(ValidationError::NotValid(String::from_str("a line has no key before '='")));
    }
    let file_name = entry_file_name(appid);
    assert(file_name@ == entry_leaf(appid@));
    match decode_desktop_entry(entry, file_name.as_str()) {
        Err(reason) => Err(ValidationError::NotValid(reason)),
        Ok(()) => {
            if listed_elsewhere {
                Err(ValidationError::DuplicateAppID)
            } else {
                Ok(String::from_str(entry))
            }
        },
    }
}

} // verus!
