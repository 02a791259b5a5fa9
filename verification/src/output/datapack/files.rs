//! Where the files of a datapack go inside its `data` directory.
use vstd::prelude::*;

use crate::strutil::{find_char, push_char, push_str, substring};

verus! {

/// Why a resource location has no file path
#[derive(Debug, Clone, Copy, PartialEq, Eq, Structural)]
pub enum ResourcePathError {
    /// The location has no `:` between namespace and path
    NoColon,
}

impl ResourcePathError {
    /// The message that describes the error
    pub open spec fn message_text(&self) -> Seq<char> {
        match self {
            ResourcePathError::NoColon => "No colon in resource location"@,
        }
    }

    /// A message that describes the error
    pub fn message(&self) -> (r: &'static str)
        ensures
            r@ == self.message_text(),
    {
        match self {
            ResourcePathError::NoColon => "No colon in resource location",
        }
    }
}

/// The index of the first `:` of a string; meaningful where it has one
pub open spec fn colon_index(s: Seq<char>) -> int {
    choose|i: int| 0 <= i < s.len() && s[i] == ':' && forall|j: int| 0 <= j < i ==> s[j] != ':'
}

/// The path of a resource's file: the namespace, then the kind of resource,
/// then the path after the first `:`, then the extension
pub open spec fn resource_path(loc: Seq<char>, ty: Seq<char>, extension: Seq<char>) -> Seq<char> {
    let i = colon_index(loc);
    loc.subrange(0, i) + seq!['/'] + ty + seq!['/'] + loc.subrange(i + 1, loc.len() as int) + seq![
        '.',
    ] + extension
}

/// The relative path of a function's file
pub fn get_func_path(loc: &str) -> (r: Result<String, ResourcePathError>)
    ensures
        match r {
            Ok(p) => loc@.contains(':') && p@ == resource_path(
                loc@,
                seq!['f', 'u', 'n', 'c', 't', 'i', 'o', 'n', 's'],
                seq!['m', 'c', 'f', 'u', 'n', 'c', 't', 'i', 'o', 'n'],
            ),
            Err(e) => !loc@.contains(':') && e == ResourcePathError::NoColon,
        },
{
    proof {
        reveal_strlit("functions");
        reveal_strlit("mcfunction");
        assert("functions"@ =~= seq!['f', 'u', 'n', 'c', 't', 'i', 'o', 'n', 's']);
        assert("mcfunction"@ =~= seq!['m', 'c', 'f', 'u', 'n', 'c', 't', 'i', 'o', 'n']);
    }
    get_resource_path(loc, "functions", "mcfunction")
}

/// The relative path of a function tag's file
pub fn get_func_tag_path(loc: &str) -> (r: Result<String, ResourcePathError>)
    ensures
        match r {
            Ok(p) => loc@.contains(':') && p@ == resource_path(
                loc@,
                seq!['t', 'a', 'g', 's', '/', 'f', 'u', 'n', 'c', 't', 'i', 'o', 'n', 's'],
                seq!['j', 's', 'o', 'n'],
            ),
            Err(e) => !loc@.contains(':') && e == ResourcePathError::NoColon,
        },
{
    proof {
        reveal_strlit("tags/functions");
        reveal_strlit("json");
        assert("tags/functions"@ =~= seq![
            't',
            'a',
            'g',
            's',
            '/',
            'f',
            'u',
            'n',
            'c',
            't',
            'i',
            'o',
            'n',
            's',
        ]);
        assert("json"@ =~= seq!['j', 's', 'o', 'n']);
    }
    get_resource_path(loc, "tags/functions", "json")
}

/// The relative path of a resource's file; fails where the location has no `:`
pub fn get_resource_path(loc: &str, ty: &str, extension: &str) -> (r: Result<
    String,
    ResourcePathError,
>)
    ensures
        match r {
            Ok(p) => loc@.contains(':') && p@ == resource_path(loc@, ty@, extension@),
            Err(e) => !loc@.contains(':') && e == ResourcePathError::NoColon,
        },
{
    match find_char(loc, ':') {
        None => {
            proof {
                if loc@.contains(':') {
                    let k = choose|k: int| 0 <= k < loc@.len() && loc@[k] == ':';
                    assert(loc@[k] != ':');
                }
            }
            Err(ResourcePathError::NoColon)
        },
        Some(i) => {
            let ghost c = colon_index(loc@);
            proof {
                assert(loc@.contains(':'));
                assert(0 <= c < loc@.len() && loc@[c] == ':' && forall|j: int|
                    0 <= j < c ==> loc@[j] != ':');
                assert(c == i as int) by {
                    if c < i as int {
                        assert(loc@[c] != ':');
                    } else if c > i as int {
                        assert(loc@[i as int] != ':');
                    }
                }
            }
            let n = loc.unicode_len();
            let left = substring(loc, 0, i);
            let right = substring(loc, i + 1, n);
            let mut out = left;
            push_char(&mut out, '/');
            push_str(&mut out, ty);
            push_char(&mut out, '/');
            push_str(&mut out, right.as_str());
            push_char(&mut out, '.');
            push_str(&mut out, extension);
            assert(out@ =~= resource_path(loc@, ty@, extension@));
            Ok(out)
        },
    }
}

} // verus!
