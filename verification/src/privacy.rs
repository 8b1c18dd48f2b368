//! What the display is told about the foreground window: titles that look
//! sensitive are masked, long titles are shortened.

use vstd::prelude::*;
use crate::text::{chars_of, has_substring, push_char, str_contains};

verus! {

/// Longest title, in characters, that is shown unshortened.
pub const MAX_TITLE_CHARS: usize = 30;

/// Characters kept from a title that is too long, before the ellipsis.
pub const KEPT_TITLE_CHARS: usize = 27;

/// Unicode lower-casing of a string, as `str::to_lowercase` performs it.
pub uninterp spec fn lowercase(s: Seq<char>) -> Seq<char>;

/// Calls `str::to_lowercase`; its result is the Unicode lower-case mapping
/// of the whole string, which depends on the string alone.
#[verifier::external_body]
fn to_lowercase(s: &str) -> (lower: String)
    ensures
        lower@ == lowercase(s@),
{
    s.to_lowercase()
}

/// Lower-case text that mentions private browsing, passwords or banking.
pub open spec fn mentions_sensitive_word(lower: Seq<char>) -> bool {
    has_substring(lower, "private"@) || has_substring(lower, "incognito"@) || has_substring(
        lower,
        "password"@,
    ) || has_substring(lower, "bank"@) || has_substring(lower, "vault"@)
}

/// A title is sensitive when its lower-case form mentions one of the words.
pub open spec fn is_sensitive_title(title: Seq<char>) -> bool {
    mentions_sensitive_word(lowercase(title))
}

/// The title as the display shows it.
pub open spec fn shown_title(title: Seq<char>) -> Seq<char> {
    if is_sensitive_title(title) {
        "Privacy Restricted"@
    } else if title.len() > MAX_TITLE_CHARS {
        title.take(KEPT_TITLE_CHARS as int) + "..."@
    } else {
        title
    }
}

/// Whether lower-cased text mentions one of the sensitive words.
pub fn has_sensitive_word(lower: &str) -> (found: bool)
    ensures
        found == mentions_sensitive_word(lower@),
{
    str_contains(lower, "private") || str_contains(lower, "incognito") || str_contains(
        lower,
        "password",
    ) || str_contains(lower, "bank") || str_contains(lower, "vault")
}

/// Whether `title` must be masked.
pub fn title_is_sensitive(title: &str) -> (sensitive: bool)
    ensures
        sensitive == is_sensitive_title(title@),
{
    let lower = to_lowercase(title);
    has_sensitive_word(lower.as_str())
}

/// The privacy-filtered, length-limited window title that goes into a packet.
pub fn display_title(title: &str) -> (shown: String)
    ensures
        shown@ == shown_title(title@),
{
    if title_is_sensitive(title) {
        return String::from_str("Privacy Restricted");
    }
    let chars = chars_of(title);
    if chars.len() > MAX_TITLE_CHARS {
        let mut out = String::new();
        let mut i: usize = 0;
        while i < KEPT_TITLE_CHARS
            invariant
                i <= KEPT_TITLE_CHARS,
                chars@ == title@,
                chars.len() > MAX_TITLE_CHARS,
                out@ == title@.take(i as int),
            decreases KEPT_TITLE_CHARS - i,
        {
            push_char(&mut out, chars[i]);
            assert(title@.take(i + 1) =~= title@.take(i as int).push(title@[i as int]));
            i = i + 1;
        }
        out.append("...");
        out
    } else {
        String::from_str(title)
    }
}

/// The label for the foreground window: its title, or `Desktop` when there
/// is no window or it has no title.
pub fn window_label(title: &str) -> (label: String)
    ensures
        title@.len() == 0 ==> label@ == "Desktop"@,
        title@.len() != 0 ==> label@ == title@,
{
    if title.is_empty() {
        String::from_str("Desktop")
    } else {
        String::from_str(title)
    }
}

/// Whatever the foreground window is called, the display never receives
/// more than `MAX_TITLE_CHARS` characters of it.
pub proof fn shown_title_fits(title: Seq<char>)
    ensures
        shown_title(title).len() <= 30,
{
    reveal_strlit("Privacy Restricted");
    reveal_strlit("...");
}

/// A title whose lower-case form mentions private browsing, incognito mode,
/// a password, a bank or a vault is masked, however long it is.
pub proof fn sensitive_titles_are_masked(title: Seq<char>)
    requires
        has_substring(lowercase(title), "private"@) || has_substring(lowercase(title), "incognito"@)
            || has_substring(lowercase(title), "password"@) || has_substring(lowercase(title), "bank"@)
            || has_substring(lowercase(title), "vault"@),
    ensures
        shown_title(title) == "Privacy Restricted"@,
{
}

/// A title that mentions none of those words and has at most 30 characters
/// reaches the display unchanged.
pub proof fn short_titles_pass_through(title: Seq<char>)
    requires
        !has_substring(lowercase(title), "private"@),
        !has_substring(lowercase(title), "incognito"@),
        !has_substring(lowercase(title), "password"@),
        !has_substring(lowercase(title), "bank"@),
        !has_substring(lowercase(title), "vault"@),
        title.len() <= 30,
    ensures
        shown_title(title) == title,
{
}

/// A longer title that mentions none of those words is cut to its first 27
/// characters followed by three dots, 30 characters in all.
pub proof fn long_titles_keep_their_start(title: Seq<char>)
    requires
        !has_substring(lowercase(title), "private"@),
        !has_substring(lowercase(title), "incognito"@),
        !has_substring(lowercase(title), "password"@),
        !has_substring(lowercase(title), "bank"@),
        !has_substring(lowercase(title), "vault"@),
        title.len() > 30,
    ensures
        shown_title(title).len() == 30,
        forall|i: int| 0 <= i < 27 ==> #[trigger] shown_title(title)[i] == title[i],
        shown_title(title)[27] == '.' && shown_title(title)[28] == '.' && shown_title(title)[29] == '.',
{
    reveal_strlit("...");
}

} // verus!
