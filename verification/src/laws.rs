//! What holds of the conversion for every sheet.

use vstd::prelude::*;
use crate::cell::CellModel;
use crate::convert::{cell_json, lists_of, object_entries, objects_of, pairs, ConvertError};
use crate::json::JsonTree;
use crate::keys::{stripped, underscore_spaces, without_periods};

verus! {

/// What is left of a text without its periods holds no period, holds only
/// characters of the text, and is no longer than the text.
proof fn lemma_without_periods(s: Seq<char>)
    ensures
        without_periods(s).len() <= s.len(),
        forall|i: int|
            0 <= i < without_periods(s).len() ==> (#[trigger] without_periods(s)[i]) != '.'
                && s.contains(without_periods(s)[i]),
    decreases s.len(),
{
    if s.len() > 0 {
        let init = s.drop_last();
        lemma_without_periods(init);
        assert forall|i: int| 0 <= i < without_periods(s).len() implies (#[trigger] without_periods(
            s,
        )[i]) != '.' && s.contains(without_periods(s)[i]) by {
            if i < without_periods(init).len() {
                let c = without_periods(init)[i];
                assert(init.contains(c));
                let k = choose|k: int| 0 <= k < init.len() && init[k] == c;
                assert(s[k] == c);
            } else {
                assert(s[s.len() - 1] == s.last());
            }
        }
    }
}

/// The text that is lower-cased into a key holds neither a space nor a
/// period, and is no longer than the header text it comes from.
pub proof fn lemma_stripped_text(text: Seq<char>)
    ensures
        stripped(text).len() <= text.len(),
        forall|i: int|
            0 <= i < stripped(text).len() ==> (#[trigger] stripped(text)[i]) != ' ' && stripped(
                text,
            )[i] != '.',
{
    let spaced = underscore_spaces(text);
    lemma_without_periods(spaced);
    assert forall|i: int| 0 <= i < stripped(text).len() implies (#[trigger] stripped(text)[i])
        != ' ' && stripped(text)[i] != '.' by {
        let c = stripped(text)[i];
        assert(spaced.contains(c));
        let k = choose|k: int| 0 <= k < spaced.len() && spaced[k] == c;
        assert(spaced[k] != ' ');
    }
}

/// A text that holds neither a space nor a period is handed to lower-casing
/// as it is.
pub proof fn lemma_stripped_plain(text: Seq<char>)
    requires
        forall|i: int| 0 <= i < text.len() ==> (#[trigger] text[i]) != ' ' && text[i] != '.',
    ensures
        stripped(text) == text,
{
    assert(underscore_spaces(text) =~= text);
    lemma_keeps_plain(text);
}

/// Removing periods from a text without periods changes nothing.
proof fn lemma_keeps_plain(s: Seq<char>)
    requires
        forall|i: int| 0 <= i < s.len() ==> (#[trigger] s[i]) != '.',
    ensures
        without_periods(s) == s,
    decreases s.len(),
{
    if s.len() > 0 {
        lemma_keeps_plain(s.drop_last());
        assert(s.drop_last().push(s.last()) =~= s);
    } else {
        assert(s =~= Seq::empty());
    }
}

/// Object mode gives one object for each row after the header row, and list
/// mode one array for each row from `skip` on: with `R` rows, `R - skip - 1`
/// objects and `R - skip` arrays, and none where that is negative.
pub proof fn lemma_row_counts(sheet: Seq<Seq<CellModel>>, skip: nat)
    ensures
        objects_of(sheet, skip) matches Ok(out) ==> out.len() == if sheet.len() > skip + 1 {
            sheet.len() - skip - 1
        } else {
            0
        },
        lists_of(sheet, skip) matches Ok(out) ==> out.len() == if sheet.len() > skip {
            sheet.len() - skip
        } else {
            0
        },
{
}

/// Object mode fails for want of a header row exactly where the sheet has
/// no row at index `skip`.
pub proof fn lemma_short_sheet(sheet: Seq<Seq<CellModel>>, skip: nat)
    ensures
        sheet.len() <= skip <==> objects_of(sheet, skip) == Err::<Seq<JsonTree>, ConvertError>(
            ConvertError::HeaderRowMissing,
        ),
{
}

/// The keys of the first `n` entries are exactly the first `n` keys.
proof fn lemma_entry_keys(keys: Seq<Seq<char>>, row: Seq<CellModel>, n: nat)
    requires
        n <= keys.len(),
    ensures
        object_entries(keys, row, n).dom().finite(),
        object_entries(keys, row, n).dom().len() <= n,
        forall|key: Seq<char>| #[trigger]
            object_entries(keys, row, n).dom().contains(key) <==> exists|j: int|
                0 <= j < n && #[trigger] keys[j] == key,
        (forall|a: int, b: int| 0 <= a < b < n ==> keys[a] != keys[b]) ==> object_entries(
            keys,
            row,
            n,
        ).dom().len() == n,
    decreases n,
{
    if n > 0 {
        let before = object_entries(keys, row, (n - 1) as nat);
        lemma_entry_keys(keys, row, (n - 1) as nat);
        assert(object_entries(keys, row, n).dom() =~= before.dom().insert(keys[n - 1]));
        assert forall|key: Seq<char>| #[trigger]
            object_entries(keys, row, n).dom().contains(key) implies exists|j: int|
            0 <= j < n && #[trigger] keys[j] == key by {
            if key != keys[n - 1] {
                assert(before.dom().contains(key));
                let j = choose|j: int| 0 <= j < n - 1 && #[trigger] keys[j] == key;
                assert(0 <= j < n && keys[j] == key);
            }
        }
        if forall|a: int, b: int| 0 <= a < b < n ==> keys[a] != keys[b] {
            if before.dom().contains(keys[n - 1]) {
                let j = choose|j: int| 0 <= j < n - 1 && #[trigger] keys[j] == keys[n - 1];
                assert(keys[j] != keys[n - 1]);
            }
        }
    }
}

/// An object never has more entries than pairs of key and cell. Where the
/// paired keys are pairwise different, it has exactly one entry for each
/// pair: as many as the shorter of header and row has cells, whatever the
/// longer one holds beyond that.
pub proof fn lemma_object_size(keys: Seq<Seq<char>>, row: Seq<CellModel>)
    ensures
        object_entries(keys, row, pairs(keys, row)).dom().finite(),
        object_entries(keys, row, pairs(keys, row)).dom().len() <= pairs(keys, row),
        (forall|a: int, b: int| 0 <= a < b < pairs(keys, row) ==> keys[a] != keys[b])
            ==> object_entries(keys, row, pairs(keys, row)).dom().len() == if keys.len()
            <= row.len() {
            keys.len()
        } else {
            row.len()
        },
{
    lemma_entry_keys(keys, row, pairs(keys, row));
}

/// Of the paired cells under one key the last one gives the entry's value:
/// an earlier cell under an equal key is overwritten.
pub proof fn lemma_last_key_wins(keys: Seq<Seq<char>>, row: Seq<CellModel>, n: nat, j: int)
    requires
        0 <= j < n,
        forall|k: int| j < k < n ==> keys[k] != keys[j],
    ensures
        object_entries(keys, row, n).contains_key(keys[j]),
        object_entries(keys, row, n)[keys[j]] == cell_json(row[j]).unwrap(),
    decreases n,
{
    if j < n - 1 {
        lemma_last_key_wins(keys, row, (n - 1) as nat, j);
    }
}

} // verus!
