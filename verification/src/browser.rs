//! What the URL bar of a browser panel loads for what the user typed.

use vstd::prelude::*;
use vstd::string::StringExecFns;

verus! {

broadcast use vstd::string::group_string_axioms;

/// The text holds "://", the separator after a URL's scheme.
pub open spec fn has_scheme_separator(s: Seq<char>) -> bool {
    exists|i: int| 0 <= i && i + 3 <= s.len() && #[trigger] s[i] == ':' && s[i + 1] == '/' && s[i + 2] == '/'
}

/// The URL loaded for what was typed: nothing for an empty entry, the text
/// itself when it names a scheme, else the text as an https URL.
pub open spec fn normalized_url(s: Seq<char>) -> Option<Seq<char>> {
    if s.len() == 0 {
        None
    } else if has_scheme_separator(s) {
        Some(s)
    } else {
        Some("https://"@ + s)
    }
}

/// The URL to load for what was typed into the URL bar, if anything.
pub fn normalize_url(input: &str) -> (url: Option<String>)
    ensures
        match url {
            Some(u) => normalized_url(input@) == Some(u@),
            None => normalized_url(input@) is None,
        },
{
    if input.is_empty() {
        return None;
    }
    let mut chars: Vec<char> = Vec::new();
    for c in it: input.chars()
        invariant
            it.seq() == input@,
            chars@ == it.seq().take(it.index()),
        ensures
            chars@ == input@,
    {
        assert(it.seq().take(it.index() + 1) =~= chars@.push(c));
        chars.push(c);
    }
    let n = chars.len();
    let mut found = false;
    let mut i: usize = 0;
    while !found && i < n && n - i >= 3
        invariant
            i <= n,
            n == chars@.len(),
            chars@ == input@,
            found ==> has_scheme_separator(input@),
            !found ==> i + 3 > n ==> !has_scheme_separator(input@),
            !found ==> forall|j: int|
                0 <= j < i && j + 3 <= n ==> !(#[trigger] chars@[j] == ':' && chars@[j + 1] == '/'
                    && chars@[j + 2] == '/'),
        decreases n - i + (if found { 0int } else { 1int }),
    {
        if chars[i] == ':' && chars[i + 1] == '/' && chars[i + 2] == '/' {
            found = true;
        } else {
            i += 1;
        }
    }
    if found {
        Some(input.to_owned())
    } else {
        Some("https://".to_owned().concat(input))
    }
}

} // verus!
