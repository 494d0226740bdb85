//! Keyed rows: sequences of keys with values, and the mappings they stand for.

use crate::details::Text;
use vstd::prelude::*;

verus! {

/// Keyed values as the contracts see them: each key as its characters, each
/// value by its view. For records these are addresses with their records.
pub open spec fn entries_of<V: View>(rows: Seq<(String, V)>) -> Seq<(Text, V::V)> {
    Seq::new(rows.len(), |i: int| (rows[i].0@, rows[i].1@))
}

/// The mapping that a sequence of keys with values stands for; of two values
/// for one key the later counts.
pub open spec fn table<V>(pairs: Seq<(Text, V)>) -> Map<Text, V>
    decreases pairs.len(),
{
    if pairs.len() == 0 {
        Map::empty()
    } else {
        table(pairs.drop_last()).insert(pairs.last().0, pairs.last().1)
    }
}

} // verus!
