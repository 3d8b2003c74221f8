//! Byte signatures: the text a pattern is written in, and its compiled form.

use vstd::prelude::*;

verus! {

/// `pelite::pattern::Atom`: one step of a compiled signature, carried
/// through as it is.
#[verifier::external_type_specification]
#[verifier::external_body]
pub struct ExAtom(pelite::pattern::Atom);

/// `pelite::pattern::ParsePatError`: the syntax error of the parser.
#[verifier::external_type_specification]
#[verifier::external_body]
pub struct ExParsePatError(pelite::pattern::ParsePatError);

/// What `pelite::pattern::parse` makes of a signature text: the compiled
/// atoms, or nothing where it reports a syntax error.
pub uninterp spec fn parsed_atoms(text: Seq<char>) -> Option<Seq<pelite::pattern::Atom>>;

/// What `pelite::pattern::save_len` returns for compiled atoms: the number
/// of capture slots that a scan with them writes to.
pub uninterp spec fn slot_count(atoms: Seq<pelite::pattern::Atom>) -> nat;

/// The most opening braces `{` that a signature may hold, nested or not.
/// The parser counts the braces that are open in a byte, and no more can be
/// open than the text holds.
pub const MAX_OPENING_BRACES: usize = 255;

/// The characters a signature is written with: hex digits for literal bytes,
/// `?` for a wildcard byte, `[n]` for a skip, `'` for a capture, `$` and `%`
/// to follow a relative displacement, `{ }` to come back from one, `u` and
/// `i` to capture an operand, and blanks.
pub open spec fn supported_char(c: char) -> bool {
    ||| '0' <= c <= '9'
    ||| 'a' <= c <= 'f'
    ||| 'A' <= c <= 'F'
    ||| c == ' '
    ||| c == '?'
    ||| c == '\''
    ||| c == '$'
    ||| c == '%'
    ||| c == '{'
    ||| c == '}'
    ||| c == '['
    ||| c == ']'
    ||| c == 'u'
    ||| c == 'i'
}

/// The number of `{` in a text.
pub open spec fn opening_braces(text: Seq<char>) -> nat
    decreases text.len(),
{
    if text.len() == 0 {
        0
    } else {
        opening_braces(text.drop_last()) + if text.last() == '{' {
            1nat
        } else {
            0nat
        }
    }
}

/// Why a signature text is refused.
#[derive(Debug, Clone, Copy, PartialEq, Eq, Structural)]
pub enum SignatureError {
    /// The character at this index is none that signatures are written with.
    UnsupportedCharacter { position: usize },
    /// The text holds more than [`MAX_OPENING_BRACES`] opening braces, nested or
    /// one after the other.
    TooManyBraces,
    /// The parser reports a syntax error.
    Malformed,
    /// No capture marker: a match would have no offset to give.
    NoCapture,
}

/// The index of the first unsupported character of `text`, if it has one.
pub open spec fn first_unsupported(text: Seq<char>) -> Option<int> {
    if forall|i: int| 0 <= i < text.len() ==> supported_char(#[trigger] text[i]) {
        None
    } else {
        Some(
            choose|i: int|
                0 <= i < text.len() && !supported_char(#[trigger] text[i]) && forall|j: int|
                    0 <= j < i ==> supported_char(#[trigger] text[j]),
        )
    }
}

/// What the check of a text before parsing gives: the first character that
/// signatures are not written with is an error, and so are too many opening
/// braces.
pub open spec fn lint_outcome(text: Seq<char>) -> Result<(), SignatureError> {
    if let Some(i) = first_unsupported(text) {
        Err(SignatureError::UnsupportedCharacter { position: i as usize })
    } else if opening_braces(text) > MAX_OPENING_BRACES {
        Err(SignatureError::TooManyBraces)
    } else {
        Ok(())
    }
}

/// What compiling `text` gives: its atoms, or the first reason to refuse it.
pub open spec fn compile_outcome(text: Seq<char>) -> Result<
    Seq<pelite::pattern::Atom>,
    SignatureError,
> {
    match lint_outcome(text) {
        Err(e) => Err(e),
        Ok(()) => match parsed_atoms(text) {
            None => Err(SignatureError::Malformed),
            Some(atoms) => if slot_count(atoms) < 2 {
                Err(SignatureError::NoCapture)
            } else {
                Ok(atoms)
            },
        },
    }
}

/// The atoms of a text that compiles; of no meaning for one that does not.
pub open spec fn atoms_of(text: Seq<char>) -> Seq<pelite::pattern::Atom> {
    match compile_outcome(text) {
        Ok(atoms) => atoms,
        Err(_) => Seq::empty(),
    }
}

/// `pelite::pattern::parse`: the atoms it compiles the text to, or its
/// syntax error. Texts that hold more than [`MAX_OPENING_BRACES`] opening braces
/// are kept from it, as its counter of open braces is a byte.
#[verifier::external_body]
fn parse(text: &str) -> (r: Result<Vec<pelite::pattern::Atom>, pelite::pattern::ParsePatError>)
    requires
        opening_braces(text@) <= MAX_OPENING_BRACES,
    ensures
        match r {
            Ok(atoms) => parsed_atoms(text@) == Some(atoms@),
            Err(_) => parsed_atoms(text@) is None,
        },
{
    pelite::pattern::parse(text)
}

/// `pelite::pattern::save_len`: the length of the save array that a scan
/// with these atoms needs.
pub assume_specification[ pelite::pattern::save_len ](pat: &[pelite::pattern::Atom]) -> (n: usize)
    ensures
        n == slot_count(pat@),
;

pub fn is_supported_char(c: char) -> (r: bool)
    ensures
        r == supported_char(c),
{
    ('0' <= c && c <= '9') || ('a' <= c && c <= 'f') || ('A' <= c && c <= 'F') || c == ' '
        || c == '?' || c == '\'' || c == '$' || c == '%' || c == '{' || c == '}' || c == '['
        || c == ']' || c == 'u' || c == 'i'
}

/// Checks a text against what signatures are written with, before it is
/// handed to the parser.
pub fn lint(text: &str) -> (r: Result<(), SignatureError>)
    ensures
        r == lint_outcome(text@),
{
    let n = text.unicode_len();
    let mut pos: usize = 0;
    let mut braces: usize = 0;
    let mut bad: Option<usize> = None;
    for c in it: text.chars()
        invariant
            n == text@.len(),
            it.seq() == text@,
            pos == it.index(),
            braces == opening_braces(text@.take(pos as int)),
            braces <= pos,
            match bad {
                None => forall|j: int| 0 <= j < pos ==> supported_char(#[trigger] text@[j]),
                Some(i) => i < pos && !supported_char(text@[i as int]) && forall|j: int|
                    0 <= j < i ==> supported_char(#[trigger] text@[j]),
            },
    {
        assert(text@.take(pos + 1).drop_last() =~= text@.take(pos as int));
        if bad.is_none() && !is_supported_char(c) {
            bad = Some(pos);
        }
        if c == '{' {
            braces += 1;
        }
        pos += 1;
    }
    assert(text@.take(text@.len() as int) =~= text@);
    match bad {
        Some(i) => {
            proof {
                lemma_first_unsupported(text@, i as int);
            }
            Err(SignatureError::UnsupportedCharacter { position: i })
        },
        None => if braces > MAX_OPENING_BRACES {
            Err(SignatureError::TooManyBraces)
        } else {
            Ok(())
        },
    }
}

/// The first unsupported character is at `i` where `i` holds one and no
/// index before it does.
pub proof fn lemma_first_unsupported(text: Seq<char>, i: int)
    requires
        0 <= i < text.len(),
        !supported_char(text[i]),
        forall|j: int| 0 <= j < i ==> supported_char(#[trigger] text[j]),
    ensures
        first_unsupported(text) == Some(i),
{
    let k = first_unsupported(text)->0;
    assert(0 <= k < text.len() && !supported_char(text[k]) && forall|j: int|
        0 <= j < k ==> supported_char(#[trigger] text[j]));
    if k < i {
        assert(supported_char(text[k]));
    } else if i < k {
        assert(supported_char(text[i]));
    }
}

/// A signature: its text, and the atoms that the text compiles to.
pub struct Signature {
    text: String,
    atoms: Vec<pelite::pattern::Atom>,
    slots: usize,
}

impl Signature {
    pub closed spec fn text(&self) -> Seq<char> {
        self.text@
    }

    pub closed spec fn atoms(&self) -> Seq<pelite::pattern::Atom> {
        self.atoms@
    }

    /// The number of capture slots of a match.
    pub closed spec fn slots(&self) -> nat {
        self.slots as nat
    }

    /// The atoms are what the text compiles to, and a match has a first
    /// marked capture.
    pub open spec fn wf(&self) -> bool {
        &&& compile_outcome(self.text()) == Ok::<_, SignatureError>(self.atoms())
        &&& self.slots() == slot_count(self.atoms())
    }

    /// Compiles `text`, once. A text that signatures are not written with,
    /// or that the parser refuses, or that marks no capture, is an error.
    pub fn compile(text: &str) -> (r: Result<Signature, SignatureError>)
        ensures
            match r {
                Ok(sig) => sig.wf() && sig.text() == text@,
                Err(e) => compile_outcome(text@) == Err::<Seq<pelite::pattern::Atom>, _>(e),
            },
    {
        match lint(text) {
            Err(e) => Err(e),
            Ok(()) => match parse(text) {
                Err(_) => Err(SignatureError::Malformed),
                Ok(atoms) => {
                    let slots = pelite::pattern::save_len(atoms.as_slice());
                    if slots < 2 {
                        Err(SignatureError::NoCapture)
                    } else {
                        Ok(Signature { text: text.to_owned(), atoms, slots })
                    }
                },
            },
        }
    }

    pub fn as_str(&self) -> (s: &str)
        ensures
            s@ == self.text(),
    {
        self.text.as_str()
    }

    pub fn slot_len(&self) -> (n: usize)
        ensures
            n == self.slots(),
    {
        self.slots
    }

    pub(crate) fn compiled(&self) -> (a: &Vec<pelite::pattern::Atom>)
        ensures
            a@ == self.atoms(),
    {
        &self.atoms
    }
}

/// Compiling is a function of the text alone: two signatures compiled from
/// the same text have the same atoms.
pub proof fn lemma_compile_deterministic(a: Signature, b: Signature)
    requires
        a.wf(),
        b.wf(),
        a.text() == b.text(),
    ensures
        a.atoms() == b.atoms(),
        a.slots() == b.slots(),
{
}

} // verus!
