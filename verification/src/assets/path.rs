//! Paths of assets: `/`-separated names made of a restricted set of characters.
use vstd::prelude::*;

verus! {

#[verifier::external_type_specification]
#[verifier::external_body]
pub struct ExRegexError(regex::Error);

/// Whether `regex::Regex::new` accepts `pattern`.
pub uninterp spec fn regex_compiles(pattern: Seq<char>) -> bool;

/// Whether the regular expression `pattern` matches somewhere in `haystack`, as
/// `regex::Regex::is_match` decides.
pub uninterp spec fn regex_is_match(pattern: Seq<char>, haystack: Seq<char>) -> bool;

/// `c` may stand in an asset path: an ASCII letter or digit, `/`, `.`, `-` or `_`.
pub open spec fn is_path_char(c: char) -> bool {
    ('a' <= c && c <= 'z') || ('A' <= c && c <= 'Z') || ('0' <= c && c <= '9') || c == '/' || c
        == '.' || c == '-' || c == '_'
}

/// `path` is not empty and holds only characters that may stand in an asset path.
pub open spec fn is_allowed_path(path: Seq<char>) -> bool {
    path.len() > 0 && forall|i: int| 0 <= i < path.len() ==> is_path_char(#[trigger] path[i])
}

/// Compiles `pattern` with `regex::Regex::new` and, when that succeeds, tests `haystack` with
/// `regex::Regex::is_match`. Trusted: the result is `Ok` exactly when the crate accepts
/// `pattern`, and then holds whether `pattern` matches somewhere in `haystack`. For the pattern
/// [AssetPath::ALLOWED_CHARS], `^[/a-zA-Z\.\-_0-9]+$`, the crate's documented syntax fixes the
/// answer: the pattern compiles, and it matches exactly the non-empty texts made of the
/// characters of its class (`^` and `$` anchor at the start and end of the text).
#[verifier::external_body]
fn regex_match(pattern: &str, haystack: &str) -> (r: Result<bool, regex::Error>)
    ensures
        r is Ok <==> regex_compiles(pattern@),
        r matches Ok(matched) ==> matched == regex_is_match(pattern@, haystack@),
        pattern@ == AssetPath::ALLOWED_CHARS@ ==> r is Ok,
        r matches Ok(matched) ==> (pattern@ == AssetPath::ALLOWED_CHARS@ ==> matched == is_allowed_path(haystack@)),
{
    match regex::Regex::new(pattern) {
        Ok(regex) => Ok(regex.is_match(haystack)),
        Err(error) => Err(error),
    }
}

/// The path of an asset. A path that starts with [AssetPath::SEPARATOR] is absolute; any other
/// path is relative.
#[derive(Clone, Debug, PartialOrd, PartialEq, Ord, Eq, Hash)]
pub struct AssetPath(String);

/// A path contained characters that asset paths cannot hold.
#[derive(Debug, Eq, PartialEq)]
pub struct InvalidCharacters(String);

impl View for AssetPath {
    type V = Seq<char>;

    closed spec fn view(&self) -> Seq<char> {
        self.0@
    }
}

impl View for InvalidCharacters {
    type V = Seq<char>;

    closed spec fn view(&self) -> Seq<char> {
        self.0@
    }
}

impl InvalidCharacters {
    /// The rejected path.
    pub fn path(&self) -> (r: &str)
        ensures
            r@ == self@,
    {
        self.0.as_str()
    }

    /// How the error displays.
    pub fn message(&self) -> (r: String)
        ensures
            r@ == "asset path "@ + self@ + " contains invalid characters."@,
    {
        let mut message = String::from_str("asset path ");
        message.append(self.0.as_str());
        message.append(" contains invalid characters.");
        message
    }
}

/// The position of the last `/` in `path`, or -1 when there is none.
pub open spec fn last_separator(path: Seq<char>) -> int
    decreases path.len(),
{
    if path.len() == 0 {
        -1
    } else if path.last() == '/' {
        path.len() - 1
    } else {
        last_separator(path.drop_last())
    }
}

/// The path is absolute: it starts with `/`.
pub open spec fn is_absolute_path(path: Seq<char>) -> bool {
    path.len() > 0 && path[0] == '/'
}

/// The path that `path` refers to when named by the asset at the absolute path `base`: `path`
/// in place of the last segment of `base`.
pub open spec fn resolved_path(base: Seq<char>, path: Seq<char>) -> Seq<char> {
    base.subrange(0, last_separator(base)) + seq!['/'] + path
}

/// `last_separator` is the position of the last `/` of `path`: it is -1 or a position that holds
/// `/`, and no `/` stands after it.
pub proof fn lemma_last_separator_is_last(path: Seq<char>)
    ensures
        -1 <= last_separator(path) < path.len(),
        last_separator(path) >= 0 ==> path[last_separator(path)] == '/',
        forall|i: int| last_separator(path) < i < path.len() ==> path[i] != '/',
    decreases path.len(),
{
    if path.len() > 0 && path.last() != '/' {
        let rest = path.drop_last();
        lemma_last_separator_is_last(rest);
        assert forall|i: int| last_separator(path) < i < path.len() implies path[i] != '/' by {
            if i < path.len() - 1 {
                assert(path[i] == rest[i]);
            }
        }
    }
}

/// Resolving against an absolute base keeps every directory of the base: the result is the base
/// up to and including its last `/`, followed by the relative path.
pub proof fn lemma_resolved_path_keeps_directories(base: Seq<char>, path: Seq<char>)
    requires
        is_absolute_path(base),
    ensures
        exists|k: int|
            0 <= k < base.len() && base[k] == '/' && (forall|i: int| k < i < base.len() ==> base[i]
                != '/') && #[trigger] resolved_path(base, path) == base.subrange(0, k + 1) + path,
{
    lemma_last_separator_is_last(base);
    assert(last_separator(base) >= 0) by {
        if last_separator(base) < 0 {
            assert(base[0] == '/');
        }
    }
    let k = last_separator(base);
    assert(resolved_path(base, path) =~= base.subrange(0, k + 1) + path);
}

impl AssetPath {
    pub const ALLOWED_CHARS: &'static str = r"^[/a-zA-Z\.\-_0-9]+$";

    pub const SEPARATOR: &'static str = "/";

    /// The path `path`, if the regular expression [AssetPath::ALLOWED_CHARS] compiles and
    /// matches it: if it is not empty and holds only ASCII letters and digits, `/`, `.`, `-`
    /// and `_`.
    pub fn new(path: &str) -> (r: Result<Self, InvalidCharacters>)
        ensures
            r is Ok <==> regex_compiles(Self::ALLOWED_CHARS@) && regex_is_match(
                Self::ALLOWED_CHARS@,
                path@,
            ),
            r is Ok <==> is_allowed_path(path@),
            r matches Ok(asset_path) ==> asset_path@ == path@,
            r matches Err(error) ==> error@ == path@,
    {
        let matched = match regex_match(Self::ALLOWED_CHARS, path) {
            Ok(matched) => matched,
            Err(_) => false,
        };
        Self::from_match(path, matched)
    }

    /// The path `path` when it was found to consist of allowed characters; the error otherwise.
    pub fn from_match(path: &str, allowed: bool) -> (r: Result<Self, InvalidCharacters>)
        ensures
            r is Ok <==> allowed,
            r matches Ok(asset_path) ==> asset_path@ == path@,
            r matches Err(error) ==> error@ == path@,
    {
        if allowed {
            Ok(AssetPath(path.to_owned()))
        } else {
            Err(InvalidCharacters(path.to_owned()))
        }
    }

    pub fn is_absolute(&self) -> (r: bool)
        ensures
            r == is_absolute_path(self@),
    {
        let path = self.0.as_str();
        path.unicode_len() > 0 && path.get_char(0) == '/'
    }

    pub fn is_relative(&self) -> (r: bool)
        ensures
            r == !is_absolute_path(self@),
    {
        !self.is_absolute()
    }

    /// The path that `path` refers to when named by the asset at `self`. An absolute `path`
    /// stands for itself; a relative one replaces the last segment of `self`, which must then be
    /// absolute, or there is no answer.
    pub fn resolve(&self, path: AssetPath) -> (r: Option<AssetPath>)
        ensures
            is_absolute_path(path@) ==> r == Some(path),
            !is_absolute_path(path@) && !is_absolute_path(self@) ==> r is None,
            !is_absolute_path(path@) && is_absolute_path(self@) ==> (r matches Some(resolved)
                && resolved@ == resolved_path(self@, path@)),
            r matches Some(resolved) ==> is_absolute_path(resolved@),
    {
        if path.is_absolute() {
            return Some(path);
        } else if self.is_relative() {
            return None;
        }
        let base = self.0.as_str();
        let separator = Self::last_separator_index(base);
        let mut resolved = String::from_str(base.substring_char(0, separator));
        proof {
            reveal_strlit("/");
        }
        resolved.append("/");
        resolved.append(path.0.as_str());
        assert(resolved@ =~= resolved_path(self@, path@));
        assert(resolved@[0] == '/') by {
            if separator > 0 {
                assert(resolved@[0] == self@[0]);
            }
        }
        Some(AssetPath(resolved))
    }

    /// The position of the last `/` of an absolute path.
    fn last_separator_index(path: &str) -> (r: usize)
        requires
            is_absolute_path(path@),
        ensures
            r == last_separator(path@),
            r < path@.len(),
    {
        let mut end = path.unicode_len();
        assert(path@.subrange(0, end as int) =~= path@);
        while end > 0 && path.get_char(end - 1) != '/'
            invariant
                1 <= end <= path@.len(),
                is_absolute_path(path@),
                last_separator(path@) == last_separator(path@.subrange(0, end as int)),
            decreases end,
        {
            assert(path@.subrange(0, end as int).drop_last() =~= path@.subrange(0, end - 1));
            end -= 1;
        }
        assert(path@.subrange(0, end as int).last() == '/');
        end - 1
    }

    /// The path as a string.
    pub fn path_string(&self) -> (r: &str)
        ensures
            r@ == self@,
    {
        self.0.as_str()
    }

    /// The path with `segment` appended to its last segment.
    pub fn append(self, segment: &str) -> (r: AssetPath)
        ensures
            r@ == self@ + segment@,
    {
        let mut path = self.0;
        path.append(segment);
        AssetPath(path)
    }
}

impl std::str::FromStr for AssetPath {
    type Err = InvalidCharacters;

    fn from_str(s: &str) -> (r: Result<Self, Self::Err>)
        ensures
            r is Ok <==> regex_compiles(AssetPath::ALLOWED_CHARS@) && regex_is_match(
                AssetPath::ALLOWED_CHARS@,
                s@,
            ),
            r is Ok <==> is_allowed_path(s@),
            r matches Ok(asset_path) ==> asset_path@ == s@,
            r matches Err(error) ==> error@ == s@,
    {
        AssetPath::new(s)
    }
}

} // verus!
