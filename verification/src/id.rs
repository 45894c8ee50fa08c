//! Validated identifiers for game content.
use vstd::prelude::*;

use crate::text::chars_of;

verus! {

/// The characters a content ID may hold: lowercase ASCII letters, digits,
/// `.`, `_` and `-`.
pub open spec fn is_id_char(c: char) -> bool {
    ||| ('a' <= c && c <= 'z')
    ||| ('0' <= c && c <= '9')
    ||| c == '.'
    ||| c == '_'
    ||| c == '-'
}

/// `s` holds a `.` and, split at every `.`, no segment is empty: it neither
/// starts nor ends with a `.` and holds no two `.` in a row.
pub open spec fn is_namespaced(s: Seq<char>) -> bool {
    &&& s.contains('.')
    &&& s[0] != '.'
    &&& s[s.len() - 1] != '.'
    &&& forall|i: int| 0 <= i < s.len() - 1 ==> !(#[trigger] s[i] == '.' && s[i + 1] == '.')
}

/// The rules every content ID follows: it is not empty, it is namespaced,
/// and each of its characters is an ID character.
pub open spec fn is_valid_content_id(s: Seq<char>) -> bool {
    &&& s.len() > 0
    &&& is_namespaced(s)
    &&& forall|i: int| 0 <= i < s.len() ==> is_id_char(#[trigger] s[i])
}

/// A validated identifier used to reference game content, such as
/// `story.intro`, `npc.shopkeeper` or `item.health_potion`.
///
/// Construction goes through [`ContentId::new`], so every value follows
/// [`is_valid_content_id`].
#[derive(Debug, Hash, PartialOrd, Ord)]
pub struct ContentId(String);

/// Errors that can occur while constructing a `ContentId`.
#[derive(Debug, PartialEq, Eq)]
pub enum IdError {
    /// The supplied identifier failed one or more validation rules.
    Invalid(String),
}

impl View for ContentId {
    type V = Seq<char>;

    closed spec fn view(&self) -> Seq<char> {
        self.0@
    }
}

impl ContentId {
    #[verifier::type_invariant]
    closed spec fn well_formed(self) -> bool {
        is_valid_content_id(self.0@)
    }

    /// Creates a validated content ID from `value`, or reports it as
    /// invalid when it is empty, not namespaced, or holds a character
    /// other than a lowercase ASCII letter, a digit, `.`, `_` or `-`.
    pub fn new(value: &str) -> (r: Result<ContentId, IdError>)
        ensures
            r is Ok <==> is_valid_content_id(value@),
            r matches Ok(id) ==> id@ == value@,
            r matches Err(IdError::Invalid(v)) ==> v@ == value@,
    {
        let chars = chars_of(value);
        let n = chars.len();
        let mut has_dot = false;
        let mut valid_characters = true;
        let mut no_empty_segment = true;
        let mut i: usize = 0;
        while i < n
            invariant
                n == chars@.len(),
                chars@ == value@,
                i <= n,
                has_dot <==> chars@.subrange(0, i as int).contains('.'),
                valid_characters <==> forall|k: int| 0 <= k < i ==> is_id_char(#[trigger] chars@[k]),
                no_empty_segment <==> forall|k: int|
                    0 <= k < i - 1 ==> !(#[trigger] chars@[k] == '.' && chars@[k + 1] == '.'),
            decreases n - i,
        {
            let c = chars[i];
            proof {
                let before = chars@.subrange(0, i as int);
                let after = chars@.subrange(0, i + 1);
                assert(after =~= before.push(c));
                if before.contains('.') {
                    let w = choose|w: int| 0 <= w < before.len() && before[w] == '.';
                    assert(after[w] == '.');
                }
                if after.contains('.') && !before.contains('.') {
                    let w = choose|w: int| 0 <= w < after.len() && after[w] == '.';
                    if w < i {
                        assert(before[w] == '.');
                    }
                }
            }
            if c == '.' {
                if !has_dot {
                    assert(chars@.subrange(0, i + 1)[i as int] == '.');
                }
                has_dot = true;
                if i > 0 && chars[i - 1] == '.' {
                    no_empty_segment = false;
                }
            }
            let is_lower = 'a' <= c && c <= 'z';
            let is_digit = '0' <= c && c <= '9';
            if !(is_lower || is_digit || c == '.' || c == '_' || c == '-') {
                valid_characters = false;
            }
            i = i + 1;
        }
        assert(chars@.subrange(0, n as int) =~= chars@);
        let namespaced = has_dot && chars[0] != '.' && chars[n - 1] != '.' && no_empty_segment;
        if n == 0 || !namespaced || !valid_characters {
            return Err(IdError::Invalid(value.to_owned()));
        }
        Ok(ContentId(value.to_owned()))
    }

    /// The identifier's text.
    pub fn as_str(&self) -> (s: &str)
        ensures
            s@ == self@,
    {
        self.0.as_str()
    }
}

impl Clone for ContentId {
    fn clone(&self) -> (r: Self)
        ensures
            r@ == self@,
    {
        proof {
            use_type_invariant(self);
        }
        ContentId(self.0.clone())
    }
}

/// The explanation given for an identifier that fails the ID rules.
pub open spec fn invalid_id_message(value: Seq<char>) -> Seq<char> {
    "content ID `"@ + value + "` must be lowercase, namespaced, and ASCII"@
}

impl IdError {
    /// A human-readable explanation of the error.
    pub fn message(&self) -> (text: String)
        ensures
            self matches IdError::Invalid(v) && text@ == invalid_id_message(v@),
    {
        match self {
            IdError::Invalid(value) => {
                let mut text = "content ID `".to_owned();
                text.append(value.as_str());
                text.append("` must be lowercase, namespaced, and ASCII");
                text
            },
        }
    }
}

impl std::str::FromStr for ContentId {
    type Err = IdError;

    /// Parses a content ID with the same rules as [`ContentId::new`].
    fn from_str(s: &str) -> (r: Result<ContentId, IdError>)
        ensures
            r is Ok <==> is_valid_content_id(s@),
            r matches Ok(id) ==> id@ == s@,
            r matches Err(IdError::Invalid(v)) ==> v@ == s@,
    {
        ContentId::new(s)
    }
}

impl Clone for IdError {
    fn clone(&self) -> (r: Self)
        ensures
            r matches IdError::Invalid(v) && self matches IdError::Invalid(w) && v@ == w@,
    {
        match self {
            IdError::Invalid(v) => IdError::Invalid(v.clone()),
        }
    }
}

impl PartialEq for ContentId {
    fn eq(&self, other: &Self) -> (r: bool) {
        self.0 == other.0
    }
}

impl Eq for ContentId {}

impl vstd::std_specs::cmp::PartialEqSpecImpl for ContentId {
    open spec fn obeys_eq_spec() -> bool {
        true
    }

    open spec fn eq_spec(&self, other: &Self) -> bool {
        self@ == other@
    }
}

} // verus!
