//! Mapping of human-typed key labels to the symbolic key names of the
//! hotkey facility.
use vstd::prelude::*;

verus! {

/// An ASCII letter, either case.
pub open spec fn is_ascii_letter(c: char) -> bool {
    ('a' <= c && c <= 'z') || ('A' <= c && c <= 'Z')
}

/// An ASCII decimal digit.
pub open spec fn is_ascii_digit(c: char) -> bool {
    '0' <= c && c <= '9'
}

/// The ASCII upper-case form of `c`; every other character is unchanged.
pub open spec fn ascii_upper(c: char) -> char {
    if 'a' <= c && c <= 'z' {
        ((c as u32) - 32) as char
    } else {
        c
    }
}

/// The symbolic key name for a configuration label: a single ASCII letter
/// names its letter key, a single digit its digit key, and anything longer
/// (or any other single character) is already a symbolic name.
pub open spec fn normalized(label: Seq<char>) -> Seq<char> {
    if label.len() == 1 && is_ascii_letter(label[0]) {
        seq!['K', 'e', 'y', ascii_upper(label[0])]
    } else if label.len() == 1 && is_ascii_digit(label[0]) {
        seq!['D', 'i', 'g', 'i', 't', label[0]]
    } else {
        label
    }
}

/// Relies on `str::to_ascii_uppercase`: each ASCII lower-case letter is
/// replaced by its upper-case form, every other character is kept.
#[verifier::external_body]
fn to_ascii_upper(s: &str) -> (r: String)
    ensures
        r@.len() == s@.len(),
        forall|i: int| 0 <= i < s@.len() ==> #[trigger] r@[i] == ascii_upper(s@[i]),
{
    s.to_ascii_uppercase()
}

/// Maps a configuration label to the symbolic key name that the hotkey
/// facility understands.
pub fn normalize(label: &str) -> (name: String)
    ensures
        name@ == normalized(label@),
{
    if label.unicode_len() == 1 {
        let c = label.get_char(0);
        if ('a' <= c && c <= 'z') || ('A' <= c && c <= 'Z') {
            let upper = to_ascii_upper(label);
            let prefix = String::from_str("Key");
            proof {
                reveal_strlit("Key");
            }
            let name = prefix.concat(upper.as_str());
            assert(name@ =~= normalized(label@));
            return name;
        } else if '0' <= c && c <= '9' {
            let prefix = String::from_str("Digit");
            proof {
                reveal_strlit("Digit");
            }
            let name = prefix.concat(label);
            assert(name@ =~= normalized(label@));
            return name;
        }
    }
    String::from_str(label)
}

} // verus!
