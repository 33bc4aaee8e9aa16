//! Fetching albums and tracks: the addresses asked for, and what the answers mean.
use vstd::prelude::*;

use crate::text::{last_field, last_field_of, lemma_split_join, split_fields};

pub mod album;
pub mod track;

verus! {

/// The name under which a download from `url` is stored: the last part of its
/// path (`url.split("/").last()`). It holds no `/`, so the file stays in the
/// directory it is stored in.
pub fn temp_file_name(url: &str) -> (r: String)
    ensures
        r@ == last_field(url@, '/'),
        forall|i: int| 0 <= i < r@.len() ==> r@[i] != '/',
{
    let name = last_field_of(url, '/');
    proof {
        lemma_split_join(url@, '/');
        crate::text::lemma_split_fields_len(url@, '/');
        let fields = split_fields(url@, '/');
        assert forall|i: int| 0 <= i < name@.len() implies name@[i] != '/' by {
            assert(name@[i] == fields[fields.len() - 1][i]);
        }
    }
    name
}

} // verus!
