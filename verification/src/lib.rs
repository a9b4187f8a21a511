pub mod bytes;
pub mod dataset;
pub mod duration;
pub mod manifest;
pub mod merge;

use vstd::prelude::*;

verus! {

/// The complete list of missing-item messages a dataset owes: one for the
/// training manifest, one for the validation manifest, one for the clip
/// directory, each present exactly when the piece is absent, in that order.
pub open spec fn missing_items(train_exists: bool, val_exists: bool, wavs_exists: bool) -> Seq<
    Seq<char>,
> {
    (if train_exists {
        Seq::<Seq<char>>::empty()
    } else {
        seq!["list_train.txt not found"@]
    }) + (if val_exists {
        Seq::<Seq<char>>::empty()
    } else {
        seq!["list_val.txt not found"@]
    }) + (if wavs_exists {
        Seq::<Seq<char>>::empty()
    } else {
        seq!["wavs directory not found"@]
    })
}

/// Reports which of a dataset's three required pieces are missing: the
/// training manifest, the validation manifest, and the clip directory.
/// Succeeds only when all three are present; otherwise returns the complete
/// list of missing-item messages, never just the first.
pub fn basic_dataset_validation(
    train_exists: bool,
    val_exists: bool,
    wavs_exists: bool,
) -> (r: Result<bool, Vec<String>>)
    ensures
        r is Ok <==> (train_exists && val_exists && wavs_exists),
        r is Ok ==> r->Ok_0 == true,
        r is Err ==> r->Err_0.deep_view() == missing_items(train_exists, val_exists, wavs_exists),
{
    let mut errs: Vec<String> = Vec::new();
    if !train_exists {
        errs.push("list_train.txt not found".to_owned());
    }
    if !val_exists {
        errs.push("list_val.txt not found".to_owned());
    }
    if !wavs_exists {
        errs.push("wavs directory not found".to_owned());
    }
    if errs.len() == 0 {
        return Ok(true);
    }
    proof {
        assert(errs.deep_view() =~~= missing_items(train_exists, val_exists, wavs_exists));
    }
    Err(errs)
}

} // verus!
