//! Names and paths: which kind of document a file holds, under which path
//! its patches are filed, and how the output of a mod is named.

use vstd::prelude::*;
use crate::identifier::NodeType;
use crate::text::str_equal;

verus! {

/// `parts` written one after the other with `separator` between them.
pub open spec fn joined(parts: Seq<Seq<char>>, separator: Seq<char>) -> Seq<char>
    decreases parts.len(),
{
    if parts.len() == 0 {
        Seq::empty()
    } else if parts.len() == 1 {
        parts[0]
    } else {
        joined(parts.drop_last(), separator) + separator + parts.last()
    }
}

/// The components of a path without the first, joined by backslashes.
pub open spec fn inner_path(components: Seq<Seq<char>>) -> Seq<char> {
    if components.len() < 2 {
        Seq::empty()
    } else {
        joined(components.skip(1), "\\"@)
    }
}

/// The kind of document that a file of this name holds.
pub open spec fn kind_of_file(file_name: Seq<char>) -> Option<NodeType> {
    if file_name == "properties.xml"@ {
        Some(NodeType::DefaultValues)
    } else if file_name == "templates.xml"@ {
        Some(NodeType::Template)
    } else if file_name == "assets.xml"@ {
        Some(NodeType::Asset)
    } else {
        None
    }
}

/// The name of the directory that holds the output of the mod `mod_name`.
pub fn enhanced_name(mod_name: &str) -> (r: String)
    ensures
        r@ == "JJ's Enhanced "@ + mod_name@,
{
    String::from_str("JJ's Enhanced ").concat(mod_name)
}

/// Accepts a path that exists and refuses one that does not, with a message
/// that names it. `exists` says whether the path was found.
pub fn check_if_path_exists(path: &str, exists: bool) -> (r: Result<String, String>)
    ensures
        match r {
            Ok(accepted) => exists && accepted@ == path@,
            Err(message) => !exists && message@ == "Path does not exist: "@ + path@,
        },
{
    if exists {
        Ok(String::from_str(path))
    } else {
        Err(String::from_str("Path does not exist: ").concat(path))
    }
}

/// Tells by its name which kind of document a file holds; `None` for a file
/// that is none of the three.
pub fn file_kind(file_name: &str) -> (r: Option<NodeType>)
    ensures
        r == kind_of_file(file_name@),
{
    if str_equal(file_name, "properties.xml") {
        Some(NodeType::DefaultValues)
    } else if str_equal(file_name, "templates.xml") {
        Some(NodeType::Template)
    } else if str_equal(file_name, "assets.xml") {
        Some(NodeType::Asset)
    } else {
        None
    }
}

/// The path under which the patches of a source file are filed: the
/// components of its path below the input directory, without the first,
/// joined by backslashes.
pub fn inner_data_path(components: &Vec<String>) -> (r: String)
    ensures
        r@ == inner_path(crate::views::view_all(components@)),
{
    let ghost parts = crate::views::view_all(components@).skip(1);
    let mut out = String::new();
    if components.len() < 2 {
        return out;
    }
    out.append(components[1].as_str());
    proof {
        assert(parts.take(1).len() == 1);
        assert(parts.take(1)[0] == components@[1]@);
        assert(out@ =~= joined(parts.take(1), "\\"@));
    }
    let mut i: usize = 2;
    while i < components.len()
        invariant
            2 <= i <= components.len(),
            parts == crate::views::view_all(components@).skip(1),
            out@ == joined(parts.take(i - 1), "\\"@),
        decreases components.len() - i,
    {
        proof {
            assert(parts.take(i as int).drop_last() =~= parts.take(i - 1));
            assert(parts.take(i as int).last() == components@[i as int]@);
            assert(parts.take(i as int).len() == i);
        }
        out.append("\\");
        out.append(components[i].as_str());
        i = i + 1;
    }
    proof {
        assert(parts.take(i - 1) =~= parts);
    }
    out
}

} // verus!
