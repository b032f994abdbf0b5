//! Path newtypes enforcing the path discipline: relative paths (NFC-normalised)
//! and absolute paths.

use vstd::prelude::*;

use crate::text::str_chars;
use vstd::utf8::encode_utf8;
use unicode_normalization::UnicodeNormalization;

verus! {

/// Maximum allowed byte length for any path value.
pub const MAX_PATH_BYTES: usize = 1024;

/// Errors returned when parsing a [`RelPath`] or [`AbsPath`].
#[derive(Debug, PartialEq, Eq)]
pub enum PathParseError {
    /// The supplied string was empty.
    Empty,
    /// The supplied string exceeds the byte limit.
    TooLong { got: usize, limit: usize },
    /// The supplied string contains an embedded NUL.
    EmbeddedNul,
    /// The supplied string contains a `..` component.
    ParentComponent,
    /// A relative path was supplied that starts with `/`.
    LeadingSlash,
    /// An absolute path was supplied without a leading `/`.
    NotAbsolute,
}

/// A `..` component starts at index `i`.
pub open spec fn parent_at(c: Seq<char>, i: int) -> bool {
    0 <= i && i + 1 < c.len() && (i == 0 || c[i - 1] == '/') && c[i] == '.' && c[i + 1] == '.'
        && (i + 2 == c.len() || c[i + 2] == '/')
}

/// Some component between `/` separators is exactly `..`.
pub open spec fn has_parent_component(c: Seq<char>) -> bool {
    exists|i: int| parent_at(c, i)
}

/// The checks shared by both path kinds, in order: empty, too long (in UTF-8
/// bytes), embedded NUL, `..` component.
pub open spec fn common_check(c: Seq<char>) -> Option<PathParseError> {
    if c.len() == 0 {
        Some(PathParseError::Empty)
    } else if encode_utf8(c).len() > MAX_PATH_BYTES {
        Some(PathParseError::TooLong { got: encode_utf8(c).len() as usize, limit: MAX_PATH_BYTES })
    } else if c.contains('\0') {
        Some(PathParseError::EmbeddedNul)
    } else if has_parent_component(c) {
        Some(PathParseError::ParentComponent)
    } else {
        None
    }
}

/// The Unicode NFC normal form of `s`, as `unicode-normalization` computes it.
pub uninterp spec fn nfc_spec(s: Seq<char>) -> Seq<char>;

/// `unicode_normalization::UnicodeNormalization::nfc` collected into a `String`.
///
/// The contract only names the result: it is a function of the input text.
#[verifier::external_body]
fn nfc(s: &str) -> (r: String)
    ensures
        r@ == nfc_spec(s@),
{
    s.nfc().collect::<String>()
}

fn has_nul(c: &[char]) -> (r: bool)
    ensures
        r == c@.contains('\0'),
{
    let n = c.len();
    for i in 0..n
        invariant
            n == c@.len(),
            forall|j: int| 0 <= j < i ==> c@[j] != '\0',
    {
        if c[i] == '\0' {
            return true;
        }
    }
    false
}

fn find_parent_component(c: &[char]) -> (r: bool)
    ensures
        r == has_parent_component(c@),
{
    let n = c.len();
    let mut i: usize = 0;
    while i < n && i + 1 < n
        invariant
            i <= n,
            n == c@.len(),
            forall|k: int| 0 <= k < i ==> !#[trigger] parent_at(c@, k),
        decreases n - i,
    {
        if (i == 0 || c[i - 1] == '/') && c[i] == '.' && c[i + 1] == '.' && (i + 2 == n || c[i + 2]
            == '/') {
            assert(parent_at(c@, i as int));
            return true;
        }
        i = i + 1;
    }
    proof {
        assert forall|k: int| !#[trigger] parent_at(c@, k) by {
            if 0 <= k < i {
            }
        }
    }
    false
}

/// Runs the checks shared by both path kinds.
pub fn validate_common(s: &str) -> (r: Result<(), PathParseError>)
    ensures
        match common_check(s@) {
            Some(e) => r == Err::<(), PathParseError>(e),
            None => r is Ok,
        },
{
    let c = str_chars(s);
    if c.len() == 0 {
        return Err(PathParseError::Empty);
    }
    let nbytes = s.as_bytes().len();
    if nbytes > MAX_PATH_BYTES {
        return Err(PathParseError::TooLong { got: nbytes, limit: MAX_PATH_BYTES });
    }
    if has_nul(c.as_slice()) {
        return Err(PathParseError::EmbeddedNul);
    }
    if find_parent_component(c.as_slice()) {
        return Err(PathParseError::ParentComponent);
    }
    Ok(())
}

/// A validated, NFC-normalised relative path.
#[derive(Clone, Debug, PartialEq, Eq, Hash, PartialOrd, Ord)]
pub struct RelPath(String);

/// A validated absolute path.
#[derive(Clone, Debug, PartialEq, Eq, Hash)]
pub struct AbsPath(String);

impl View for RelPath {
    type V = Seq<char>;

    closed spec fn view(&self) -> Seq<char> {
        self.0@
    }
}

impl View for AbsPath {
    type V = Seq<char>;

    closed spec fn view(&self) -> Seq<char> {
        self.0@
    }
}

/// What parsing a relative path yields: a leading `/` is refused, otherwise the
/// NFC form is checked and kept.
pub open spec fn rel_path_result(s: Seq<char>) -> Result<Seq<char>, PathParseError> {
    if s.len() > 0 && s[0] == '/' {
        Err(PathParseError::LeadingSlash)
    } else {
        match common_check(nfc_spec(s)) {
            Some(e) => Err(e),
            None => Ok(nfc_spec(s)),
        }
    }
}

/// What parsing an absolute path yields: it must start with `/` and pass the
/// common checks; the text is kept as given.
pub open spec fn abs_path_result(s: Seq<char>) -> Result<Seq<char>, PathParseError> {
    if !(s.len() > 0 && s[0] == '/') {
        Err(PathParseError::NotAbsolute)
    } else {
        match common_check(s) {
            Some(e) => Err(e),
            None => Ok(s),
        }
    }
}

fn starts_with_slash(s: &str) -> (r: bool)
    ensures
        r == (s@.len() > 0 && s@[0] == '/'),
{
    let c = str_chars(s);
    c.len() > 0 && c[0] == '/'
}

impl RelPath {
    /// Parses and normalises a relative path.
    pub fn parse(s: &str) -> (r: Result<RelPath, PathParseError>)
        ensures
            match rel_path_result(s@) {
                Ok(p) => r matches Ok(v) && v@ == p,
                Err(e) => r == Err::<RelPath, PathParseError>(e),
            },
    {
        if starts_with_slash(s) {
            return Err(PathParseError::LeadingSlash);
        }
        let normal = nfc(s);
        match validate_common(normal.as_str()) {
            Ok(()) => Ok(RelPath(normal)),
            Err(e) => Err(e),
        }
    }

    /// The path text.
    pub fn as_str(&self) -> (r: &str)
        ensures
            r@ == self@,
    {
        self.0.as_str()
    }

    /// The path text, by value.
    pub fn into_string(self) -> (r: String)
        ensures
            r@ == self@,
    {
        self.0
    }
}

impl AbsPath {
    /// Parses an absolute path.
    pub fn parse(s: &str) -> (r: Result<AbsPath, PathParseError>)
        ensures
            match abs_path_result(s@) {
                Ok(p) => r matches Ok(v) && v@ == p,
                Err(e) => r == Err::<AbsPath, PathParseError>(e),
            },
    {
        if !starts_with_slash(s) {
            return Err(PathParseError::NotAbsolute);
        }
        match validate_common(s) {
            Ok(()) => Ok(AbsPath(String::from_str(s))),
            Err(e) => Err(e),
        }
    }

    /// The path text.
    pub fn as_str(&self) -> (r: &str)
        ensures
            r@ == self@,
    {
        self.0.as_str()
    }

    /// The path text, by value.
    pub fn into_string(self) -> (r: String)
        ensures
            r@ == self@,
    {
        self.0
    }
}

impl core::str::FromStr for RelPath {
    type Err = PathParseError;

    /// As [`RelPath::parse`].
    fn from_str(s: &str) -> (r: Result<RelPath, PathParseError>)
        ensures
            match rel_path_result(s@) {
                Ok(p) => r matches Ok(v) && v@ == p,
                Err(e) => r == Err::<RelPath, PathParseError>(e),
            },
    {
        RelPath::parse(s)
    }
}

impl core::str::FromStr for AbsPath {
    type Err = PathParseError;

    /// As [`AbsPath::parse`].
    fn from_str(s: &str) -> (r: Result<AbsPath, PathParseError>)
        ensures
            match abs_path_result(s@) {
                Ok(p) => r matches Ok(v) && v@ == p,
                Err(e) => r == Err::<AbsPath, PathParseError>(e),
            },
    {
        AbsPath::parse(s)
    }
}

} // verus!

verus! {

/// The text of a parsed absolute path parses again to the same path.
pub proof fn law_abs_path_reparses(s: Seq<char>)
    requires
        abs_path_result(s) is Ok,
    ensures
        abs_path_result(abs_path_result(s)->Ok_0) == abs_path_result(s),
{
}

/// `c` has a component, between `/` separators or at either end, that is
/// exactly `..`: it is `before + ".." + after`, where `before` is empty or ends
/// with `/` and `after` is empty or starts with `/`.
pub open spec fn splits_around_dotdot(c: Seq<char>, before: Seq<char>, after: Seq<char>) -> bool {
    &&& c == before + seq!['.', '.'] + after
    &&& (before.len() == 0 || before.last() == '/')
    &&& (after.len() == 0 || after[0] == '/')
}

/// Text within the byte limit and free of NUL that has a `..` component,
/// wherever it stands (first, middle or last), fails the common checks with
/// `ParentComponent`.
pub proof fn law_dotdot_component_is_refused(c: Seq<char>, before: Seq<char>, after: Seq<char>)
    requires
        splits_around_dotdot(c, before, after),
        encode_utf8(c).len() <= MAX_PATH_BYTES,
        !c.contains('\0'),
    ensures
        common_check(c) == Some(PathParseError::ParentComponent),
{
    let i = before.len() as int;
    assert(c[i] == '.' && c[i + 1] == '.');
    if before.len() > 0 {
        assert(c[i - 1] == before.last());
    }
    if after.len() > 0 {
        assert(c[i + 2] == after[0]);
    }
    assert(parent_at(c, i));
}

/// A `ParentComponent` refusal is only ever given for text that has a
/// component that is exactly `..`.
pub proof fn law_parent_refusal_has_dotdot(c: Seq<char>)
    requires
        common_check(c) == Some(PathParseError::ParentComponent),
    ensures
        exists|before: Seq<char>, after: Seq<char>| splits_around_dotdot(c, before, after),
{
    let i = choose|i: int| parent_at(c, i);
    let before = c.take(i);
    let after = c.skip(i + 2);
    assert(c =~= before + seq!['.', '.'] + after);
    assert(splits_around_dotdot(c, before, after));
}

/// An absolute path with a `..` component is refused with `ParentComponent`,
/// once it is within the byte limit and free of NUL.
pub proof fn law_abs_path_refuses_dotdot(s: Seq<char>, before: Seq<char>, after: Seq<char>)
    requires
        s.len() > 0 && s[0] == '/',
        splits_around_dotdot(s, before, after),
        encode_utf8(s).len() <= MAX_PATH_BYTES,
        !s.contains('\0'),
    ensures
        abs_path_result(s) == Err::<Seq<char>, PathParseError>(PathParseError::ParentComponent),
{
    law_dotdot_component_is_refused(s, before, after);
}

/// A relative path whose NFC form has a `..` component, including a leading
/// one such as `../etc/passwd`, is refused with `ParentComponent`, once that
/// form is within the byte limit and free of NUL.
pub proof fn law_rel_path_refuses_dotdot(s: Seq<char>, before: Seq<char>, after: Seq<char>)
    requires
        !(s.len() > 0 && s[0] == '/'),
        splits_around_dotdot(nfc_spec(s), before, after),
        encode_utf8(nfc_spec(s)).len() <= MAX_PATH_BYTES,
        !nfc_spec(s).contains('\0'),
    ensures
        rel_path_result(s) == Err::<Seq<char>, PathParseError>(PathParseError::ParentComponent),
{
    law_dotdot_component_is_refused(nfc_spec(s), before, after);
}

/// A parsed relative path passes every common check (non-empty, within the
/// byte limit, no NUL, no `..` component).
pub proof fn law_rel_path_passes_checks(s: Seq<char>)
    requires
        rel_path_result(s) is Ok,
    ensures
        common_check(rel_path_result(s)->Ok_0) is None,
{
}

} // verus!
