//! What the library takes on trust from the code it calls. Nothing here is
//! proved: each contract says of a function that is not the library's own
//! what the library relies on.

use vstd::prelude::*;
use vstd::string::*;

verus! {

/// What `syn::parse_path` makes of a text: the path that it reads the whole
/// of the text as, in the words in which syn's own printing of a path writes
/// it, and nothing where the parser refuses the text. The grammar is that
/// parser's; the library knows nothing of it but this outcome.
pub uninterp spec fn parsed_path(text: Seq<char>) -> Option<Seq<char>>;

/// The lower-case form that `str::to_lowercase` gives to a text.
pub uninterp spec fn lowercase(text: Seq<char>) -> Seq<char>;

/// Calls `syn::parse_path` on `text` and hands the path out as text, written
/// by syn's printing of a `Path` into `quote::Tokens`. Parser and printer
/// read nothing but what they are given, so the outcome is a function of the
/// text; that is all the contract claims. The parser cuts its input at byte
/// offsets and panics where such a cut falls inside a character of several
/// bytes, so only texts without such characters are admitted.
#[verifier::external_body]
pub(crate) fn parse_path(text: &str) -> (path: Option<String>)
    requires
        is_ascii(text),
    ensures
        match path {
            Some(written) => parsed_path(text@) == Some(written@),
            None => parsed_path(text@) is None,
        },
{
    match syn::parse_path(text) {
        Ok(path) => {
            let mut tokens = quote::Tokens::new();
            quote::ToTokens::to_tokens(&path, &mut tokens);
            Some(tokens.into_string())
        },
        Err(_) => None,
    }
}

/// Calls `str::to_lowercase`, which maps a text to its lower-case form by
/// the Unicode tables alone; the contract gives that form its name and
/// claims nothing else of it.
#[verifier::external_body]
pub(crate) fn to_lowercase(text: &str) -> (lower: String)
    ensures
        lower@ == lowercase(text@),
{
    text.to_lowercase()
}

} // verus!
