//! Identifiers for generated code, made from module and pattern names.

use heck::ToShoutySnakeCase;
use vstd::prelude::*;
use vstd::string::{StrSliceExecFns, StringExecFns};

verus! {

/// `regex::Error`: why a regular expression does not compile.
#[verifier::external_type_specification]
#[verifier::external_body]
pub struct ExRegexError(regex::Error);

/// What `char::is_alphanumeric` says of a character.
pub uninterp spec fn alphanumeric(c: char) -> bool;

/// What `str::to_lowercase` makes of a string.
pub uninterp spec fn lowercase(s: Seq<char>) -> Seq<char>;

/// What `ToShoutySnakeCase::to_shouty_snake_case` of heck makes of a
/// string.
pub uninterp spec fn shouty_snake_case(s: Seq<char>) -> Seq<char>;

/// What `Regex::replace_all` of regex makes of a haystack, for the regular
/// expression compiled from `pattern`; nothing where `Regex::new` refuses
/// the pattern.
pub uninterp spec fn regex_replaced(
    pattern: Seq<char>,
    haystack: Seq<char>,
    replacement: Seq<char>,
) -> Option<Seq<char>>;

/// `char::is_alphanumeric`.
pub assume_specification[ char::is_alphanumeric ](c: char) -> (b: bool)
    ensures
        b == alphanumeric(c),
;

/// `str::to_lowercase`.
pub assume_specification[ str::to_lowercase ](s: &str) -> (r: String)
    ensures
        r@ == lowercase(s@),
;

/// `String::push`: the character is appended.
pub assume_specification[ String::push ](s: &mut String, c: char)
    ensures
        final(s)@ == old(s)@.push(c),
;

/// `ToShoutySnakeCase::to_shouty_snake_case` of heck.
#[verifier::external_body]
fn to_shouty_snake_case(s: &str) -> (r: String)
    ensures
        r@ == shouty_snake_case(s@),
{
    s.to_shouty_snake_case()
}

/// `Regex::new` and `Regex::replace_all` of regex: every match of the
/// pattern in the haystack replaced, or the error of a pattern that does
/// not compile.
#[verifier::external_body]
fn replace_all(pattern: &str, haystack: &str, replacement: &str) -> (r: Result<String, regex::Error>)
    ensures
        match r {
            Ok(s) => regex_replaced(pattern@, haystack@, replacement@) == Some(s@),
            Err(_) => regex_replaced(pattern@, haystack@, replacement@) is None,
        },
{
    let re = regex::Regex::new(pattern)?;
    Ok(re.replace_all(haystack, replacement).into_owned())
}

/// The regular expression for a run of underscores.
pub const UNDERSCORE_RUN: &'static str = "_+";

/// What a run of underscores is replaced with.
pub const UNDERSCORE: &'static str = "_";

/// What stands for a name of which nothing is left.
pub const EMPTY_NAME: &'static str = "_empty_";

/// An identifier may hold the character as it is.
pub open spec fn keeps(c: char) -> bool {
    alphanumeric(c) || c == '_'
}

/// The name with an underscore in place of every character that an
/// identifier may not hold.
pub open spec fn replaced_specials(name: Seq<char>) -> Seq<char> {
    name.map_values(|c: char| if keeps(c) { c } else { '_' })
}

/// A decimal digit, with which no identifier starts.
pub open spec fn decimal_digit(c: char) -> bool {
    '0' <= c <= '9'
}

/// The string behind an underscore, where it starts with a digit.
pub open spec fn guarded(s: Seq<char>) -> Seq<char> {
    if s.len() > 0 && decimal_digit(s[0]) {
        seq!['_'] + s
    } else {
        s
    }
}

/// The string with every run of underscores replaced by one; the string
/// itself, should the regular expression not compile.
pub open spec fn squeezed(s: Seq<char>) -> Seq<char> {
    match regex_replaced(UNDERSCORE_RUN@, s, UNDERSCORE@) {
        Some(t) => t,
        None => s,
    }
}

/// The last step: an underscore at the end goes, unless the name itself
/// ends with one or nothing else is there; and an empty string becomes
/// [`EMPTY_NAME`].
pub open spec fn finished(name: Seq<char>, s: Seq<char>) -> Seq<char> {
    let trimmed = if s.len() > 1 && s.last() == '_' && !(name.len() > 0 && name.last() == '_') {
        s.drop_last()
    } else {
        s
    };
    if trimmed.len() == 0 {
        EMPTY_NAME@
    } else {
        trimmed
    }
}

/// The identifier made from a name.
pub open spec fn sanitized(name: Seq<char>, for_rust_constant: bool) -> Seq<char> {
    let replaced = replaced_specials(name);
    let cased = if for_rust_constant {
        shouty_snake_case(replaced)
    } else {
        replaced
    };
    finished(name, squeezed(guarded(cased)))
}

/// Replaces every character that an identifier may not hold by an
/// underscore.
pub fn replace_specials(name: &str) -> (r: String)
    ensures
        r@ == replaced_specials(name@),
{
    let mut out = String::new();
    for c in it: name.chars()
        invariant
            it.seq() == name@,
            out@ == replaced_specials(name@.take(it.index())),
    {
        if c.is_alphanumeric() || c == '_' {
            out.push(c);
        } else {
            out.push('_');
        }
        assert(name@.take(it.index() + 1) =~= name@.take(it.index()).push(name@[it.index()]));
        assert(out@ =~= replaced_specials(name@.take(it.index() + 1)));
    }
    assert(name@.take(name@.len() as int) =~= name@);
    out
}

/// Puts an underscore in front of a string that starts with a digit.
pub fn guard_leading_digit(s: String) -> (r: String)
    ensures
        r@ == guarded(s@),
{
    let n = s.as_str().unicode_len();
    if n > 0 {
        let first = s.as_str().get_char(0);
        if '0' <= first && first <= '9' {
            proof {
                reveal_strlit("_");
            }
            let r = "_".to_owned().concat(s.as_str());
            assert(r@ =~= seq!['_'] + s@);
            return r;
        }
    }
    s
}

/// Replaces every run of underscores by a single one.
pub fn squeeze_underscores(s: String) -> (r: String)
    ensures
        r@ == squeezed(s@),
{
    match replace_all(UNDERSCORE_RUN, s.as_str(), UNDERSCORE) {
        Ok(t) => t,
        Err(_) => s,
    }
}

/// Finishes an identifier: takes the underscore off its end, unless the
/// name itself ends with one or nothing else is there, and gives an empty
/// one its stand-in.
pub fn finish_identifier(name: &str, s: String) -> (r: String)
    ensures
        r@ == finished(name@, s@),
{
    let n = s.as_str().unicode_len();
    if n == 0 {
        return EMPTY_NAME.to_owned();
    }
    if n > 1 && s.as_str().get_char(n - 1) == '_' {
        let m = name.unicode_len();
        let name_ends_with_underscore = m > 0 && name.get_char(m - 1) == '_';
        if !name_ends_with_underscore {
            let r = s.as_str().substring_char(0, n - 1).to_owned();
            assert(r@ =~= s@.drop_last());
            return r;
        }
    }
    s
}

/// Makes an identifier from a name: characters that an identifier may not
/// hold become underscores, a constant of Rust is put in upper snake case,
/// a leading digit gets an underscore in front, runs of underscores shrink
/// to one, and an underscore at the end goes unless the name has one.
pub fn sanitize_identifier(name: &str, for_rust_constant: bool) -> (r: String)
    ensures
        r@ == sanitized(name@, for_rust_constant),
{
    let replaced = replace_specials(name);
    let cased = if for_rust_constant {
        to_shouty_snake_case(replaced.as_str())
    } else {
        replaced
    };
    finish_identifier(name, squeeze_underscores(guard_leading_digit(cased)))
}

} // verus!
