use super::SecurityError;
use crate::text::{concat2, contains_char, decimal, push_char};
use vstd::prelude::*;
use vstd::utf8::encode_utf8;

verus! {

/// A check of inputs of type `T`.
pub trait Validator<T> {
    /// `Ok` when `input` passes the check, else the reason.
    fn validate(&self, input: &T) -> Result<(), SecurityError>;
}

/// Checks the length of a text in bytes, and optionally that it uses only given characters.
pub struct StringValidator {
    max_length: usize,
    allowed_chars: Option<String>,
}

/// Whether every character of `s` occurs in `allowed`.
pub open spec fn only_chars(s: Seq<char>, allowed: Seq<char>) -> bool {
    forall|i: int| 0 <= i < s.len() ==> allowed.contains(#[trigger] s[i])
}

/// Whether position `i` holds the first character of `s` that is not in `allowed`.
pub open spec fn first_stranger(s: Seq<char>, allowed: Seq<char>, i: int) -> bool {
    &&& 0 <= i < s.len()
    &&& !allowed.contains(s[i])
    &&& only_chars(s.subrange(0, i), allowed)
}

impl StringValidator {
    /// The most bytes an input may have.
    pub closed spec fn max_length(self) -> usize {
        self.max_length
    }

    /// The characters an input may use, if restricted.
    pub closed spec fn allowed(self) -> Option<Seq<char>> {
        match self.allowed_chars {
            Some(s) => Some(s@),
            None => None,
        }
    }

    /// A validator for texts of at most `max_length` bytes, of any characters.
    pub fn new(max_length: usize) -> (r: StringValidator)
        ensures
            r.max_length() == max_length,
            r.allowed() is None,
    {
        StringValidator { max_length, allowed_chars: None }
    }

    /// The validator restricted to the characters of `chars`.
    pub fn with_allowed_chars(self, chars: &str) -> (r: StringValidator)
        ensures
            r.max_length() == self.max_length(),
            r.allowed() == Some(chars@),
    {
        StringValidator { max_length: self.max_length, allowed_chars: Some(chars.to_string()) }
    }
}

impl Validator<String> for StringValidator {
    /// An input longer than the limit (in UTF-8 bytes) fails with a message naming the limit;
    /// otherwise, under a restriction, the first character outside it fails with a message
    /// naming that character.
    fn validate(&self, input: &String) -> (r: Result<(), SecurityError>)
        ensures
            encode_utf8(input@).len() > self.max_length() ==> (r matches Err(SecurityError::ValidationFailed(m))
                && m@ == "Input exceeds maximum length of "@ + decimal(self.max_length() as nat)),
            encode_utf8(input@).len() <= self.max_length() ==> match self.allowed() {
                None => r is Ok,
                Some(allowed) => if only_chars(input@, allowed) {
                    r is Ok
                } else {
                    exists|i: int| first_stranger(input@, allowed, i) && (r matches Err(SecurityError::ValidationFailed(m))
                        && m@ == "Invalid character '"@ + seq![input@[i]] + "' in input"@)
                },
            },
    {
        if input.as_str().as_bytes().len() > self.max_length {
            let mut m = "Input exceeds maximum length of ".to_string();
            crate::text::push_decimal(&mut m, self.max_length as u64);
            return Err(SecurityError::ValidationFailed(m));
        }
        match &self.allowed_chars {
            Some(allowed) => {
                let text = input.as_str();
                let n = text.unicode_len();
                let mut i: usize = 0;
                while i < n
                    invariant
                        n == input@.len(),
                        text@ == input@,
                        encode_utf8(input@).len() <= self.max_length(),
                        self.allowed() == Some(allowed@),
                        i <= n,
                        only_chars(input@.subrange(0, i as int), allowed@),
                    decreases n - i,
                {
                    let c = text.get_char(i);
                    if !contains_char(allowed.as_str(), c) {
                        let mut m = "Invalid character '".to_string();
                        push_char(&mut m, c);
                        m.append("' in input");
                        proof {
                            assert(first_stranger(input@, allowed@, i as int));
                        }
                        return Err(SecurityError::ValidationFailed(m));
                    }
                    proof {
                        assert forall|j: int| 0 <= j < i + 1 implies allowed@.contains(#[trigger] input@.subrange(0, i + 1)[j]) by {
                            if j < i {
                                assert(input@.subrange(0, i + 1)[j] == input@.subrange(0, i as int)[j]);
                            }
                        }
                    }
                    i = i + 1;
                }
                assert(input@.subrange(0, n as int) =~= input@);
                Ok(())
            },
            None => Ok(()),
        }
    }
}

/// Checks paths: by default no absolute path and no `..`.
pub struct PathValidator {
    allow_absolute: bool,
    allow_parent: bool,
}

/// Whether a path is absolute: it begins with `/`.
pub open spec fn is_absolute(s: Seq<char>) -> bool {
    s.len() > 0 && s[0] == '/'
}

/// Whether a path holds `..` anywhere.
pub open spec fn has_double_dot(s: Seq<char>) -> bool {
    exists|i: int| 0 <= i && i + 1 < s.len() && #[trigger] s[i] == '.' && s[i + 1] == '.'
}

impl PathValidator {
    /// Whether absolute paths pass.
    pub closed spec fn absolute_allowed(self) -> bool {
        self.allow_absolute
    }

    /// Whether paths with `..` pass.
    pub closed spec fn parent_allowed(self) -> bool {
        self.allow_parent
    }

    /// A validator that refuses absolute paths and `..`.
    pub fn new() -> (r: PathValidator)
        ensures
            !r.absolute_allowed(),
            !r.parent_allowed(),
    {
        PathValidator { allow_absolute: false, allow_parent: false }
    }

    /// The validator with absolute paths allowed or not.
    pub fn allow_absolute(self, allow: bool) -> (r: PathValidator)
        ensures
            r.absolute_allowed() == allow,
            r.parent_allowed() == self.parent_allowed(),
    {
        PathValidator { allow_absolute: allow, allow_parent: self.allow_parent }
    }

    /// The validator with `..` allowed or not.
    pub fn allow_parent(self, allow: bool) -> (r: PathValidator)
        ensures
            r.absolute_allowed() == self.absolute_allowed(),
            r.parent_allowed() == allow,
    {
        PathValidator { allow_absolute: self.allow_absolute, allow_parent: allow }
    }
}

impl Default for PathValidator {
    fn default() -> (r: PathValidator)
        ensures
            !r.absolute_allowed(),
            !r.parent_allowed(),
    {
        PathValidator::new()
    }
}

/// Whether `s` holds `..`.
fn contains_double_dot(s: &str) -> (r: bool)
    ensures
        r == has_double_dot(s@),
{
    let n = s.unicode_len();
    if n < 2 {
        return false;
    }
    let mut i: usize = 0;
    while i + 1 < n
        invariant
            n == s@.len(),
            n >= 2,
            i + 1 <= n,
            forall|j: int| 0 <= j < i ==> !(#[trigger] s@[j] == '.' && s@[j + 1] == '.'),
        decreases n - i,
    {
        if s.get_char(i) == '.' && s.get_char(i + 1) == '.' {
            return true;
        }
        i = i + 1;
    }
    false
}

impl Validator<String> for PathValidator {
    /// An absolute path fails unless allowed; then a path with `..` fails unless allowed.
    fn validate(&self, input: &String) -> (r: Result<(), SecurityError>)
        ensures
            !self.absolute_allowed() && is_absolute(input@) ==> (r matches Err(SecurityError::ValidationFailed(m))
                && m@ == "Absolute paths are not allowed"@),
            !(!self.absolute_allowed() && is_absolute(input@)) && !self.parent_allowed() && has_double_dot(input@)
                ==> (r matches Err(SecurityError::ValidationFailed(m))
                && m@ == "Parent directory references are not allowed"@),
            r is Ok <==> (self.absolute_allowed() || !is_absolute(input@)) && (self.parent_allowed() || !has_double_dot(input@)),
    {
        let text = input.as_str();
        if !self.allow_absolute && text.unicode_len() > 0 && text.get_char(0) == '/' {
            return Err(SecurityError::ValidationFailed("Absolute paths are not allowed".to_string()));
        }
        if !self.allow_parent && contains_double_dot(text) {
            return Err(SecurityError::ValidationFailed("Parent directory references are not allowed".to_string()));
        }
        Ok(())
    }
}

} // verus!
