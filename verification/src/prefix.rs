//! The type prefix: a possibly-empty tag over `[a-z_]` whose first and
//! last characters are lowercase ASCII letters, at most 63 characters
//! long. Strict validation rejects anything else; sanitization coerces
//! arbitrary text into a valid prefix.

use crate::errors::ValidationError;
use crate::text::push_char;
use vstd::prelude::*;
use vstd::string::StrSliceExecFns;

verus! {

/// A lowercase ASCII letter.
pub open spec fn is_lower(c: char) -> bool {
    'a' <= c <= 'z'
}

/// A character a prefix may contain: a lowercase ASCII letter or `_`.
pub open spec fn is_prefix_char(c: char) -> bool {
    is_lower(c) || c == '_'
}

/// The position of the first character outside `[a-z_]` at or after
/// index `i`, if any.
pub open spec fn spec_first_bad(s: Seq<char>, i: int) -> Option<int>
    decreases s.len() - i,
{
    if i < 0 || i >= s.len() {
        None
    } else if !is_prefix_char(s[i]) {
        Some(i)
    } else {
        spec_first_bad(s, i + 1)
    }
}

/// What strict validation yields. The empty string is a valid prefix
/// value; a non-empty one is checked in the order: length, characters,
/// first character, last character.
pub open spec fn spec_validate(s: Seq<char>) -> Result<(), ValidationError> {
    if s.len() == 0 {
        Ok(())
    } else if s.len() > 63 {
        Err(ValidationError::TooLong(s.len() as usize))
    } else if spec_first_bad(s, 0) is Some {
        let i = spec_first_bad(s, 0)->Some_0;
        Err(ValidationError::InvalidCharacter(s[i], i as usize))
    } else if !is_lower(s[0]) {
        Err(ValidationError::InvalidStartCharacter)
    } else if !is_lower(s[s.len() - 1]) {
        Err(ValidationError::InvalidEndCharacter)
    } else {
        Ok(())
    }
}

/// A valid prefix: empty, or matching `[a-z]([a-z_]{0,61}[a-z])?`.
pub open spec fn is_valid_prefix(s: Seq<char>) -> bool {
    spec_validate(s) is Ok
}

/// ASCII uppercase letters lowered; every other character unchanged.
pub open spec fn spec_lower(c: char) -> char {
    if 'A' <= c <= 'Z' {
        (((c as u8) + 32) as u8) as char
    } else {
        c
    }
}

/// The first sanitization step: lowercase ASCII letters, then keep only
/// the characters a prefix may contain.
pub open spec fn spec_scrub(s: Seq<char>) -> Seq<char>
    decreases s.len(),
{
    if s.len() == 0 {
        Seq::empty()
    } else {
        let rest = spec_scrub(s.drop_last());
        let c = spec_lower(s.last());
        if is_prefix_char(c) {
            rest.push(c)
        } else {
            rest
        }
    }
}

pub open spec fn spec_trim_front(s: Seq<char>) -> Seq<char>
    decreases s.len(),
{
    if s.len() > 0 && s.first() == '_' {
        spec_trim_front(s.drop_first())
    } else {
        s
    }
}

pub open spec fn spec_trim_back(s: Seq<char>) -> Seq<char>
    decreases s.len(),
{
    if s.len() > 0 && s.last() == '_' {
        spec_trim_back(s.drop_last())
    } else {
        s
    }
}

/// The second sanitization step: leading and trailing underscores dropped.
pub open spec fn spec_trim(s: Seq<char>) -> Seq<char> {
    spec_trim_back(spec_trim_front(s))
}

/// The third sanitization step: truncation to 63 characters.
pub open spec fn spec_clip(s: Seq<char>) -> Seq<char> {
    if s.len() <= 63 {
        s
    } else {
        s.take(63)
    }
}

/// What sanitization yields: scrub, trim, truncate; and if the result
/// still fails strict validation, the empty prefix.
pub open spec fn spec_sanitize(s: Seq<char>) -> Seq<char> {
    let t = spec_clip(spec_trim(spec_scrub(s)));
    if is_valid_prefix(t) {
        t
    } else {
        Seq::empty()
    }
}

proof fn lemma_first_bad_props(s: Seq<char>, i: int)
    requires
        0 <= i <= s.len(),
    ensures
        match spec_first_bad(s, i) {
            None => forall|j: int| i <= j < s.len() ==> is_prefix_char(#[trigger] s[j]),
            Some(k) => i <= k < s.len() && !is_prefix_char(s[k]) && forall|j: int|
                i <= j < k ==> is_prefix_char(#[trigger] s[j]),
        },
    decreases s.len() - i,
{
    if i < s.len() && is_prefix_char(s[i]) {
        lemma_first_bad_props(s, i + 1);
    }
}

/// The shape of a valid non-empty prefix: at most 63 characters over
/// `[a-z_]`, starting and ending with a letter.
pub proof fn lemma_valid_prefix_chars(s: Seq<char>)
    requires
        is_valid_prefix(s),
        s.len() > 0,
    ensures
        s.len() <= 63,
        is_lower(s[0]),
        is_lower(s[s.len() - 1]),
        forall|j: int| 0 <= j < s.len() ==> is_prefix_char(#[trigger] s[j]),
{
    lemma_first_bad_props(s, 0);
}

proof fn lemma_scrub_of_clean(s: Seq<char>)
    requires
        forall|j: int| 0 <= j < s.len() ==> is_prefix_char(#[trigger] s[j]),
    ensures
        spec_scrub(s) == s,
    decreases s.len(),
{
    if s.len() > 0 {
        let dl = s.drop_last();
        lemma_scrub_of_clean(dl);
        assert(spec_lower(s.last()) == s.last());
        assert(dl.push(s.last()) =~= s);
    }
}

/// A strictly valid prefix sanitizes to itself; in particular sanitizing
/// agrees with strict validation on every input validation accepts.
pub proof fn lemma_sanitize_of_valid(s: Seq<char>)
    requires
        is_valid_prefix(s),
    ensures
        spec_sanitize(s) == s,
{
    if s.len() == 0 {
        assert(spec_scrub(s) =~= Seq::<char>::empty());
        assert(spec_sanitize(s) =~= s);
    } else {
        lemma_valid_prefix_chars(s);
        lemma_scrub_of_clean(s);
        assert(spec_trim_front(s) == s);
        assert(spec_trim_back(s) == s);
    }
}

/// Sanitizing twice is the same as sanitizing once.
pub proof fn lemma_sanitize_idempotent(s: Seq<char>)
    ensures
        spec_sanitize(spec_sanitize(s)) == spec_sanitize(s),
{
    let t = spec_clip(spec_trim(spec_scrub(s)));
    if is_valid_prefix(t) {
        lemma_sanitize_of_valid(t);
    } else {
        assert(spec_sanitize(s) == Seq::<char>::empty());
        assert(spec_scrub(Seq::<char>::empty()) =~= Seq::<char>::empty());
        assert(spec_sanitize(Seq::<char>::empty()) =~= Seq::<char>::empty());
    }
}

/// A validated type prefix: its text always satisfies the prefix grammar.
#[derive(Debug, Hash)]
pub struct TypeIdPrefix {
    value: String,
}

impl Clone for TypeIdPrefix {
    /// An identical prefix.
    fn clone(&self) -> (r: Self)
        ensures
            r@ == self@,
    {
        proof {
            use_type_invariant(self);
        }
        TypeIdPrefix { value: self.value.clone() }
    }
}

impl View for TypeIdPrefix {
    type V = Seq<char>;

    closed spec fn view(&self) -> Seq<char> {
        self.value@
    }
}

impl TypeIdPrefix {
    #[verifier::type_invariant]
    spec fn type_inv(self) -> bool {
        is_valid_prefix(self.value@)
    }

    /// The empty prefix, the "no type tag" value.
    pub fn empty() -> (r: TypeIdPrefix)
        ensures
            r@ == Seq::<char>::empty(),
    {
        TypeIdPrefix { value: String::new() }
    }

    /// Validates a string strictly against the prefix grammar: empty is
    /// accepted; otherwise the length, the characters, and the first and
    /// last characters are checked, in that order.
    pub fn validate(s: &str) -> (r: Result<TypeIdPrefix, ValidationError>)
        ensures
            r is Ok <==> spec_validate(s@) is Ok,
            r matches Ok(p) ==> p@ == s@,
            r matches Err(e) ==> spec_validate(s@) == Err::<(), ValidationError>(e),
    {
        let n = s.unicode_len();
        if n == 0 {
            return Ok(TypeIdPrefix { value: s.to_owned() });
        }
        if n > 63 {
            return Err(ValidationError::TooLong(n));
        }
        let mut i: usize = 0;
        while i < n
            invariant
                n == s@.len(),
                0 < n <= 63,
                i <= n,
                forall|j: int| 0 <= j < i ==> is_prefix_char(#[trigger] s@[j]),
            decreases n - i,
        {
            let c = s.get_char(i);
            if !(('a' <= c && c <= 'z') || c == '_') {
                proof {
                    lemma_first_bad_props(s@, 0);
                }
                return Err(ValidationError::InvalidCharacter(c, i));
            }
            i += 1;
        }
        proof {
            lemma_first_bad_props(s@, 0);
        }
        let first = s.get_char(0);
        if !('a' <= first && first <= 'z') {
            return Err(ValidationError::InvalidStartCharacter);
        }
        let last = s.get_char(n - 1);
        if !('a' <= last && last <= 'z') {
            return Err(ValidationError::InvalidEndCharacter);
        }
        Ok(TypeIdPrefix { value: s.to_owned() })
    }

    /// Coerces arbitrary text into a valid prefix: ASCII uppercase is
    /// lowered, characters outside `[a-z_]` are dropped, leading and
    /// trailing underscores are trimmed, the rest is cut to 63 characters;
    /// if that still fails validation, the empty prefix results.
    pub fn sanitize(s: &str) -> (r: TypeIdPrefix)
        ensures
            r@ == spec_sanitize(s@),
    {
        let n = s.unicode_len();
        let mut buf = String::new();
        let mut i: usize = 0;
        proof {
            assert(s@.take(0) =~= Seq::<char>::empty());
        }
        while i < n
            invariant
                n == s@.len(),
                i <= n,
                buf@ == spec_scrub(s@.take(i as int)),
                buf@.len() <= i,
                forall|j: int| 0 <= j < buf@.len() ==> is_prefix_char(#[trigger] buf@[j]),
            decreases n - i,
        {
            let c = s.get_char(i);
            let low: char = if 'A' <= c && c <= 'Z' {
                (((c as u8) + 32) as u8) as char
            } else {
                c
            };
            proof {
                assert(low == spec_lower(s@[i as int]));
                assert(s@.take(i as int + 1).drop_last() =~= s@.take(i as int));
                assert(s@.take(i as int + 1).last() == s@[i as int]);
            }
            if ('a' <= low && low <= 'z') || low == '_' {
                push_char(&mut buf, low);
            }
            i += 1;
        }
        proof {
            assert(s@.take(n as int) =~= s@);
        }
        // Trim leading and trailing underscores.
        let m = buf.as_str().unicode_len();
        let mut a: usize = 0;
        proof {
            assert(buf@.skip(0) =~= buf@);
        }
        while a < m && buf.as_str().get_char(a) == '_'
            invariant
                m == buf@.len(),
                a <= m,
                spec_trim_front(buf@) == spec_trim_front(buf@.skip(a as int)),
            decreases m - a,
        {
            proof {
                assert(buf@.skip(a as int).drop_first() =~= buf@.skip(a as int + 1));
            }
            a += 1;
        }
        proof {
            assert(spec_trim_front(buf@.skip(a as int)) == buf@.skip(a as int));
        }
        let mut b: usize = m;
        proof {
            assert(buf@.skip(a as int).take((m - a) as int) =~= buf@.skip(a as int));
        }
        while b > a && buf.as_str().get_char(b - 1) == '_'
            invariant
                m == buf@.len(),
                a <= b <= m,
                spec_trim_front(buf@) == buf@.skip(a as int),
                spec_trim_back(buf@.skip(a as int)) == spec_trim_back(
                    buf@.skip(a as int).take((b - a) as int),
                ),
            decreases b,
        {
            proof {
                let t = buf@.skip(a as int).take((b - a) as int);
                assert(t.last() == buf@[b as int - 1]);
                assert(t.drop_last() =~= buf@.skip(a as int).take((b - 1 - a) as int));
            }
            b -= 1;
        }
        proof {
            let t = buf@.skip(a as int).take((b - a) as int);
            assert(spec_trim_back(t) == t);
            assert(forall|j: int| 0 <= j < buf@.len() ==> is_prefix_char(#[trigger] buf@[j]));
            assert forall|c: char| is_prefix_char(c) implies '\0' <= c <= '\u{7f}' by {}
            assert(vstd::utf8::is_ascii_chars(buf@));
        }
        let trimmed = buf.as_str().substring_ascii(a, b);
        proof {
            assert(trimmed@ =~= buf@.skip(a as int).take((b - a) as int));
            assert(trimmed@ == spec_trim(spec_scrub(s@)));
        }
        let tn = trimmed.unicode_len();
        let clipped = if tn > 63 {
            trimmed.substring_ascii(0, 63)
        } else {
            trimmed
        };
        proof {
            if tn > 63 {
                assert(clipped@ =~= trimmed@.take(63));
            }
            assert(clipped@ == spec_clip(spec_trim(spec_scrub(s@))));
        }
        match TypeIdPrefix::validate(clipped) {
            Ok(p) => p,
            Err(_) => TypeIdPrefix::empty(),
        }
    }

    /// The prefix text.
    pub fn as_str(&self) -> (r: &str)
        ensures
            r@ == self@,
            is_valid_prefix(self@),
    {
        proof {
            use_type_invariant(self);
        }
        self.value.as_str()
    }

    /// Whether this is the empty prefix.
    pub fn is_empty(&self) -> (r: bool)
        ensures
            r == (self@.len() == 0),
    {
        self.value.as_str().is_empty()
    }

    /// The length of the prefix text.
    pub fn len(&self) -> (r: usize)
        ensures
            r == self@.len(),
    {
        proof {
            use_type_invariant(self);
            if self@.len() > 0 {
                lemma_valid_prefix_chars(self@);
            }
            assert forall|c: char| is_prefix_char(c) implies '\0' <= c <= '\u{7f}' by {}
            assert(vstd::utf8::is_ascii_chars(self.value@));
        }
        self.value.as_str().unicode_len()
    }

}

impl core::default::Default for TypeIdPrefix {
    /// The empty prefix.
    fn default() -> (r: TypeIdPrefix)
        ensures
            r@ == Seq::<char>::empty(),
    {
        TypeIdPrefix::empty()
    }
}

/// Validates the string strictly as a prefix, without modifying it.
pub fn try_create_prefix(s: &str) -> (r: Result<TypeIdPrefix, ValidationError>)
    ensures
        r is Ok <==> spec_validate(s@) is Ok,
        r matches Ok(p) ==> p@ == s@,
        r matches Err(e) ==> spec_validate(s@) == Err::<(), ValidationError>(e),
{
    TypeIdPrefix::validate(s)
}

/// Sanitizes the string into a valid prefix; never fails.
pub fn create_prefix_sanitized(s: &str) -> (r: TypeIdPrefix)
    ensures
        r@ == spec_sanitize(s@),
{
    TypeIdPrefix::sanitize(s)
}

} // verus!
