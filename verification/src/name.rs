//! Asset names: generated identifiers, extensions, and the validation that
//! keeps every name a single harmless path segment.

use vstd::prelude::*;
use crate::text::chars_of;

verus! {

/// A character that may not occur in a name: a path separator or NUL.
pub open spec fn forbidden_char(c: char) -> bool {
    c == '/' || c == '\\' || c == '\0'
}

/// Two dots in a row start at position `i`.
pub open spec fn dots_at(s: Seq<char>, i: int) -> bool {
    0 <= i && i + 1 < s.len() && s[i] == '.' && s[i + 1] == '.'
}

/// No forbidden character and no `..` anywhere in `s`.
pub open spec fn clean(s: Seq<char>) -> bool {
    &&& forall|i: int| 0 <= i < s.len() ==> !forbidden_char(#[trigger] s[i])
    &&& forall|i: int| !dots_at(s, i)
}

/// A name that is safe to hand to a storage layer: non-empty, free of path
/// separators, NUL and `..`, and not the single dot.
pub open spec fn safe_name(s: Seq<char>) -> bool {
    &&& s.len() > 0
    &&& clean(s)
    &&& s != seq!['.']
}

/// An extension that keeps a generated name safe: non-empty, clean and not
/// starting with a dot.
pub open spec fn safe_extension(s: Seq<char>) -> bool {
    &&& s.len() > 0
    &&& clean(s)
    &&& s[0] != '.'
}

/// A lower-case hexadecimal digit.
pub open spec fn lower_hex(c: char) -> bool {
    ('0' <= c && c <= '9') || ('a' <= c && c <= 'f')
}

/// Position of a hyphen in a hyphenated 128-bit identifier.
pub open spec fn hyphen_position(i: int) -> bool {
    i == 8 || i == 13 || i == 18 || i == 23
}

/// The 36-character hyphenated lower-case form of a 128-bit identifier:
/// `xxxxxxxx-xxxx-xxxx-xxxx-xxxxxxxxxxxx`.
pub open spec fn hyphenated_id(s: Seq<char>) -> bool {
    &&& s.len() == 36
    &&& forall|i: int|
        0 <= i < 36 ==> if hyphen_position(i) {
            #[trigger] s[i] == '-'
        } else {
            lower_hex(s[i])
        }
}

/// The name made of an identifier, a dot and an extension.
pub open spec fn joined(id: Seq<char>, extension: Seq<char>) -> Seq<char> {
    id + seq!['.'] + extension
}

/// A generated identifier followed by a safe extension is a safe name.
pub proof fn lemma_generated_name_safe(id: Seq<char>, extension: Seq<char>)
    requires
        hyphenated_id(id),
        safe_extension(extension),
    ensures
        safe_name(joined(id, extension)),
{
    let n = joined(id, extension);
    assert(n.len() == 37 + extension.len());
    assert forall|i: int| 0 <= i < n.len() implies !forbidden_char(#[trigger] n[i]) by {
        if i < 36 {
            assert(n[i] == id[i]);
        } else if i == 36 {
            assert(n[i] == '.');
        } else {
            assert(n[i] == extension[i - 37]);
        }
    }
    assert forall|i: int| !dots_at(n, i) by {
        if 0 <= i && i + 1 < n.len() {
            if i < 35 {
                assert(n[i] == id[i]);
            } else if i == 35 {
                assert(n[i] == id[35]);
                assert(lower_hex(id[35]));
            } else if i == 36 {
                assert(n[i + 1] == extension[0]);
            } else {
                assert(n[i] == extension[i - 37]);
                assert(n[i + 1] == extension[i - 37 + 1]);
                assert(!dots_at(extension, i - 37));
            }
        }
    }
    assert(n[0] == id[0]);
    assert(lower_hex(id[0]));
}

/// Whether a run of characters is clean.
fn is_clean(s: &[char]) -> (ok: bool)
    ensures
        ok == clean(s@),
{
    let mut i: usize = 0;
    let mut after_dot = false;
    while i < s.len()
        invariant
            i <= s@.len(),
            after_dot == (i > 0 && s@[i - 1] == '.'),
            forall|k: int| 0 <= k < i ==> !forbidden_char(#[trigger] s@[k]),
            forall|k: int| k + 1 < i ==> !dots_at(s@, k),
        decreases s@.len() - i,
    {
        let c = s[i];
        if c == '/' || c == '\\' || c == '\0' {
            return false;
        }
        if c == '.' {
            if after_dot {
                proof {
                    assert(dots_at(s@, i - 1));
                }
                return false;
            }
            after_dot = true;
        } else {
            after_dot = false;
        }
        i += 1;
    }
    true
}

/// Whether `name` is a safe name.
pub fn is_safe_name(name: &str) -> (ok: bool)
    ensures
        ok == safe_name(name@),
{
    let cs = chars_of(name);
    if cs.len() == 0 {
        return false;
    }
    if cs.len() == 1 && cs[0] == '.' {
        proof {
            assert(name@ =~= seq!['.']);
        }
        return false;
    }
    is_clean(cs.as_slice())
}

/// Whether `extension` is a safe extension.
pub fn is_safe_extension(extension: &str) -> (ok: bool)
    ensures
        ok == safe_extension(extension@),
{
    let cs = chars_of(extension);
    if cs.len() == 0 {
        return false;
    }
    if cs[0] == '.' {
        return false;
    }
    is_clean(cs.as_slice())
}

/// Joins an identifier and an extension with a dot.
pub fn join_name(id: &str, extension: &str) -> (name: String)
    ensures
        name@ == joined(id@, extension@),
{
    proof {
        reveal_strlit(".");
    }
    let name = String::from_str(id).concat(".").concat(extension);
    proof {
        assert("."@ =~= seq!['.']);
    }
    name
}

/// Calls `uuid::Uuid::new_v4` and formats the identifier with its `Display`
/// impl. Trusted: the text is the hyphenated lower-case form, 36 characters
/// with hyphens at positions 8, 13, 18 and 23 and hexadecimal digits
/// elsewhere. Which digits come out is random and nothing is claimed of them.
#[verifier::external_body]
fn random_id() -> (id: String)
    ensures
        hyphenated_id(id@),
{
    uuid::Uuid::new_v4().to_string()
}

/// A validated asset name: one path segment that cannot leave the directory
/// it is resolved in.
#[derive(Debug)]
pub struct AssetName {
    text: String,
}

impl View for AssetName {
    type V = Seq<char>;

    closed spec fn view(&self) -> Seq<char> {
        self.text@
    }
}

impl AssetName {
    #[verifier::type_invariant]
    spec fn well_formed(&self) -> bool {
        safe_name(self.text@)
    }

    /// Validates a name taken from outside, such as a URL path segment.
    pub fn parse(text: &str) -> (name: Option<AssetName>)
        ensures
            name.is_some() == safe_name(text@),
            name matches Some(n) ==> n@ == text@,
    {
        if is_safe_name(text) {
            Some(AssetName { text: String::from_str(text) })
        } else {
            None
        }
    }

    /// Joins an identifier with an extension, where the result is safe.
    pub fn compose(id: &str, extension: &str) -> (name: Option<AssetName>)
        ensures
            name.is_some() == safe_name(joined(id@, extension@)),
            name matches Some(n) ==> n@ == joined(id@, extension@),
    {
        let text = join_name(id, extension);
        if is_safe_name(text.as_str()) {
            Some(AssetName { text })
        } else {
            None
        }
    }

    /// Generates a fresh name with the given extension: a random 128-bit
    /// identifier, a dot, the extension. Succeeds exactly on safe extensions.
    /// The identifier is never derived from the caller's input.
    pub fn generate(extension: &str) -> (name: Option<AssetName>)
        ensures
            name.is_some() == safe_extension(extension@),
            name matches Some(n) ==> exists|id: Seq<char>|
                hyphenated_id(id) && n@ == joined(id, extension@),
    {
        if !is_safe_extension(extension) {
            return None;
        }
        let id = random_id();
        let text = join_name(id.as_str(), extension);
        proof {
            lemma_generated_name_safe(id@, extension@);
        }
        Some(AssetName { text })
    }

    /// The name as text.
    pub fn as_str(&self) -> (text: &str)
        ensures
            text@ == self@,
            safe_name(text@),
    {
        proof {
            use_type_invariant(self);
        }
        self.text.as_str()
    }

    /// An owned copy of the name's text.
    pub fn to_text(&self) -> (text: String)
        ensures
            text@ == self@,
            safe_name(text@),
    {
        proof {
            use_type_invariant(self);
        }
        self.text.clone()
    }

    /// A copy of the name.
    pub fn duplicate(&self) -> (copy: AssetName)
        ensures
            copy@ == self@,
    {
        proof {
            use_type_invariant(self);
        }
        AssetName { text: self.text.clone() }
    }
}

} // verus!
