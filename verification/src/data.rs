//! Small shared data types: avatars, named entities, and resources, each of
//! which can also be built from a bare string.

use vstd::prelude::*;
use vstd::string::{StrSliceExecFns, StringExecFns};

verus! {

/// Does the character sequence start with `http`? Strings built from such
/// input are treated as URLs.
pub open spec fn spec_has_http_prefix(s: Seq<char>) -> bool {
    s.len() >= 4 && s[0] == 'h' && s[1] == 't' && s[2] == 't' && s[3] == 'p'
}

/// Decide [`spec_has_http_prefix`] for a string slice.
fn has_http_prefix(s: &str) -> (b: bool)
    ensures
        b == spec_has_http_prefix(s@),
{
    let n = s.unicode_len();
    if n < 4 {
        return false;
    }
    s.get_char(0) == 'h' && s.get_char(1) == 't' && s.get_char(2) == 't' && s.get_char(3) == 'p'
}

/// An avatar: either a URL to an image or a named placeholder, with an
/// optional colour.
#[derive(Clone, Debug, PartialEq)]
pub struct Avatar {
    pub url: String,
    pub name: Option<String>,
    pub color: Option<String>,
}

impl Avatar {
    /// Build an avatar from a bare string: input starting with `http` is
    /// taken as the image URL; anything else names a placeholder and leaves
    /// the URL empty. No colour either way.
    pub fn from_str(s: &str) -> (a: Avatar)
        ensures
            spec_has_http_prefix(s@) ==> a.url@ == s@ && a.name is None,
            !spec_has_http_prefix(s@) ==> a.url@ == Seq::<char>::empty() && (a.name matches Some(n)
                && n@ == s@),
            a.color is None,
    {
        if has_http_prefix(s) {
            Avatar { url: String::from_str(s), name: None, color: None }
        } else {
            Avatar { url: String::new(), name: Some(String::from_str(s)), color: None }
        }
    }
}

/// A person or organisation: a name with optional email and URL.
#[derive(Clone, Debug, PartialEq)]
pub struct Entity {
    pub name: String,
    pub email: Option<String>,
    pub url: Option<String>,
}

impl Entity {
    /// Build an entity from a bare string: the string is the name; email
    /// and URL stay unset.
    pub fn from_str(s: &str) -> (e: Entity)
        ensures
            e.name@ == s@,
            e.email is None,
            e.url is None,
    {
        Entity { name: String::from_str(s), email: None, url: None }
    }
}

/// A downloadable resource: a URL with an optional display name.
#[derive(Clone, Debug, PartialEq)]
pub struct Resource {
    pub url: String,
    pub name: Option<String>,
}

impl Resource {
    /// Build a resource from a bare string: the string is the URL; the name
    /// stays unset.
    pub fn from_str(s: &str) -> (r: Resource)
        ensures
            r.url@ == s@,
            r.name is None,
    {
        Resource { url: String::from_str(s), name: None }
    }
}

} // verus!
