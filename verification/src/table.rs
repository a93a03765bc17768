//! The hash table behind the atlas, keyed by tuples of integers.

use vstd::prelude::*;
use rustc_hash::FxHashMap;
use crate::glyph::{AtlasEntry, GlyphKey};

verus! {

#[verifier::external_type_specification]
#[verifier::external_body]
pub struct ExFxBuildHasher(rustc_hash::FxBuildHasher);

/// `HashMap::get` on a table hashed by `rustc_hash::FxBuildHasher`.
///
/// Believed, not proved: the hasher is deterministic and the key is a tuple
/// of integers, so the table finds exactly the entry stored under an equal
/// key, and nothing where none was stored.
#[verifier::external_body]
pub(crate) fn table_get<'a, B>(
    table: &'a FxHashMap<GlyphKey, AtlasEntry<B>>,
    key: &GlyphKey,
) -> (found: Option<&'a AtlasEntry<B>>)
    ensures
        found == (if table@.contains_key(*key) {
            Some(&table@[*key])
        } else {
            None
        }),
{
    table.get(key)
}

/// `HashMap::insert` on a table hashed by `rustc_hash::FxBuildHasher`.
///
/// Believed, not proved: afterwards the table maps `key` to `entry` and
/// every other key to what it mapped to before.
#[verifier::external_body]
pub(crate) fn table_insert<B>(
    table: &mut FxHashMap<GlyphKey, AtlasEntry<B>>,
    key: GlyphKey,
    entry: AtlasEntry<B>,
)
    ensures
        final(table)@ == old(table)@.insert(key, entry),
{
    table.insert(key, entry);
}

} // verus!
