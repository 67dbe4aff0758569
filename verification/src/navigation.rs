//! Turning what the user typed in the address bar into a URL to load.
use vstd::prelude::*;
use vstd::utf8::encode_utf8;
use crate::text::{
    chars_eq_ignore_ascii_case, chars_of, contains_char, contains_white_space, eq_ignore_ascii_case,
    extend_chars, has_white_space, replace_all, replace_chars, string_of, trim, trim_chars,
};
use crate::web_url::{form_serialize, form_urlencode, parse_url, whatwg_parse};

verus! {

/// An owned copy of a string slice.
pub fn owned(s: &str) -> (r: String)
    ensures
        r@ == s@,
{
    s.to_owned()
}

/// Text that reads as a bare host name: no white space, and a dot or the
/// word `localhost` in any ASCII case.
pub open spec fn looks_like_host(value: Seq<char>) -> bool {
    !has_white_space(value) && (value.contains('.') || eq_ignore_ascii_case(value, "localhost"@))
}

/// The address that the browser opens for the typed `input`: `about:blank`
/// for blank input, the trimmed input when it already parses as a URL,
/// `https://` and the input when that makes a URL of a host-like text, and
/// otherwise the search template with `{query}` replaced by the
/// form-encoded input.
pub open spec fn normalized_address(input: Seq<char>, search_template: Seq<char>) -> Seq<char> {
    let value = trim(input);
    if value.len() == 0 {
        "about:blank"@
    } else if whatwg_parse(value) is Some {
        value
    } else if looks_like_host(value) && whatwg_parse("https://"@ + value) is Some {
        "https://"@ + value
    } else {
        replace_all(search_template, "{query}"@, form_serialize(encode_utf8(value)))
    }
}

/// Normalizes an address-bar entry into a loadable URL.
pub fn normalize_address(input: &str, search_template: &str) -> (r: String)
    ensures
        r@ == normalized_address(input@, search_template@),
{
    let raw = chars_of(input);
    let value = trim_chars(&raw);
    if value.len() == 0 {
        return owned("about:blank");
    }
    let value_text = string_of(&value);
    if parse_url(value_text.as_str()).is_some() {
        return value_text;
    }
    let localhost = chars_of("localhost");
    let looks_like = !contains_white_space(&value) && (contains_char(&value, '.')
        || chars_eq_ignore_ascii_case(&value, &localhost));
    if looks_like {
        let mut candidate = chars_of("https://");
        extend_chars(&mut candidate, &value);
        let candidate_text = string_of(&candidate);
        if parse_url(candidate_text.as_str()).is_some() {
            return candidate_text;
        }
    }
    let encoded = form_urlencode(value_text.as_str());
    let template = chars_of(search_template);
    let pattern = chars_of("{query}");
    proof {
        reveal_strlit("{query}");
    }
    let replaced = replace_chars(&template, &pattern, &chars_of(encoded.as_str()));
    string_of(&replaced)
}

} // verus!
