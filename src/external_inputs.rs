//! Which bucket holds an externally catalogued item.
use vstd::prelude::*;

use crate::text::{find_char, find_char_from, has_prefix, starts_with};

verus! {

/// A configured group of external inputs.
#[derive(Debug)]
pub struct ExternalInput {
    /// None where the configured name is not a string.
    pub name: Option<String>,
    /// None where the configured bucket is not a string.
    pub bucket: Option<String>,
}

/// The input group an item id names: for `external/<name>/...`, `<name>`.
pub open spec fn input_group_of(id: Seq<char>) -> Option<Seq<char>> {
    if starts_with(id, "external/"@) {
        let rest = id.subrange("external/"@.len() as int, id.len() as int);
        match find_char_from(rest, '/', 0) {
            Some(j) => Some(rest.subrange(0, j)),
            None => Some(rest),
        }
    } else {
        None
    }
}

/// The bucket of the first group in `inputs` from position `i` on named `name`.
pub open spec fn bucket_from(inputs: Seq<ExternalInput>, name: Seq<char>, i: int) -> Option<
    Seq<char>,
>
    decreases inputs.len() - i,
{
    if i < 0 || i >= inputs.len() {
        None
    } else if inputs[i].name.deep_view() == Some(name) {
        inputs[i].bucket.deep_view()
    } else {
        bucket_from(inputs, name, i + 1)
    }
}

/// The bucket of an item: that of the first configured group its id names.
pub open spec fn bucket_of_item(id: Seq<char>, inputs: Seq<ExternalInput>) -> Option<Seq<char>> {
    match input_group_of(id) {
        Some(name) => bucket_from(inputs, name, 0),
        None => None,
    }
}

proof fn lemma_find_bounds(s: Seq<char>, c: char, i: int)
    requires
        0 <= i,
    ensures
        find_char_from(s, c, i) matches Some(j) ==> i <= j < s.len(),
    decreases s.len() - i,
{
    if i < s.len() && s[i] != c {
        lemma_find_bounds(s, c, i + 1);
    }
}

/// The input group named by an item id.
pub fn input_group(id: &str) -> (r: Option<String>)
    ensures
        r.deep_view() == input_group_of(id@),
{
    if !has_prefix(id, "external/") {
        return None;
    }
    let rest = id.substring_char("external/".unicode_len(), id.unicode_len());
    match find_char(rest, '/') {
        Some(j) => {
            proof {
                lemma_find_bounds(rest@, '/', 0);
            }
            Some(String::from_str(rest.substring_char(0, j)))
        },
        None => Some(String::from_str(rest)),
    }
}

/// The bucket holding the item `id`, from the configured external inputs.
pub fn bucket_for_item(id: &str, inputs: &Vec<ExternalInput>) -> (r: Option<String>)
    ensures
        r.deep_view() == bucket_of_item(id@, inputs@),
{
    let name = match input_group(id) {
        Some(n) => n,
        None => return None,
    };
    let mut i: usize = 0;
    while i < inputs.len()
        invariant
            0 <= i <= inputs@.len(),
            input_group_of(id@) == Some(name@),
            bucket_of_item(id@, inputs@) == bucket_from(inputs@, name@, i as int),
        decreases inputs@.len() - i,
    {
        let entry = &inputs[i];
        let matches_name = match &entry.name {
            Some(n) => *n == name,
            None => false,
        };
        if matches_name {
            return match &entry.bucket {
                Some(b) => Some(b.clone()),
                None => None,
            };
        }
        i += 1;
    }
    None
}

} // verus!
