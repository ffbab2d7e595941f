//! Small helpers for presenting records: character counts and key padding.

use vstd::prelude::*;
use vstd::string::StringSliceAdditionalSpecFns;

verus! {

/// Retrieves the current UNIX epoch time in seconds, through the clock source.
pub fn unix_epoch_sec_now() -> (r: Option<u64>) {
    crate::time::unix_epoch_sec_now()
}

/// Counts the total number of characters in a string.
pub fn total_chars(string: &String) -> (r: usize)
    ensures
        r == string@.len(),
{
    string.as_str().unicode_len()
}

/// Finds the longest string in a list of values, in characters; an optional
/// starting point (defaulting to 0) gives the least value returned.
pub fn longest_value(values: &Vec<String>, starting: Option<usize>) -> (r: usize)
    ensures
        r >= (match starting {
            Some(s) => s,
            None => 0,
        }),
        forall|i: int| 0 <= i < values@.len() ==> r >= values@[i]@.len(),
        r == (match starting {
            Some(s) => s as nat,
            None => 0,
        }) || exists|i: int| 0 <= i < values@.len() && r == values@[i]@.len(),
{
    let mut longest_key: usize = match starting {
        Some(s) => s,
        None => 0,
    };
    let ghost start_val = longest_key as nat;
    let mut i: usize = 0;
    while i < values.len()
        invariant
            i <= values@.len(),
            longest_key >= start_val,
            forall|j: int| 0 <= j < i ==> longest_key >= values@[j]@.len(),
            longest_key == start_val || exists|j: int|
                0 <= j < i && longest_key == values@[j]@.len(),
        decreases values@.len() - i,
    {
        let total = total_chars(&values[i]);
        if longest_key < total {
            longest_key = total;
        }
        i = i + 1;
    }
    longest_key
}

/// The padding that follows a key: nothing, or a space and then dashes.
pub open spec fn pad_tail(count: nat) -> Seq<char> {
    if count == 0 {
        Seq::empty()
    } else {
        seq![' '] + Seq::new((count - 1) as nat, |i: int| '-')
    }
}

/// Pads the given key to a desired length, counted in bytes.
///
/// The format is the key, a space, then dashes up to the length. A length
/// shorter than the key is not accepted: the caller checks first.
pub fn pad_key(key: &str, len: &usize) -> (r: String)
    requires
        key.spec_bytes().len() <= *len,
    ensures
        r@ == key@ + pad_tail((*len - key.spec_bytes().len()) as nat),
{
    proof {
        reveal_strlit(" ");
        reveal_strlit("-");
    }
    let key_len = key.len();
    let mut to_append: usize = *len - key_len;
    let ghost total = to_append as nat;
    let mut rtn = String::new();
    rtn.append(key);
    if to_append > 0 {
        rtn.append(" ");
        to_append = to_append - 1;
        let ghost dashes = to_append as nat;
        let mut i: usize = 0;
        while i < to_append
            invariant
                i <= to_append,
                rtn@.len() == key@.len() + 1 + i,
                rtn@.subrange(0, key@.len() as int) =~= key@,
                rtn@[key@.len() as int] == ' ',
                forall|j: int|
                    key@.len() + 1 <= j < rtn@.len() ==> rtn@[j] == '-',
                "-"@ =~= seq!['-'],
            decreases to_append - i,
        {
            rtn.append("-");
            i = i + 1;
        }
        proof {
            assert(rtn@ =~= key@ + pad_tail(total));
        }
        rtn
    } else {
        proof {
            assert(rtn@ =~= key@ + pad_tail(total));
        }
        rtn
    }
}

} // verus!
