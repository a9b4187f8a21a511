use corpus_mixer::basic_dataset_validation;

#[test]
fn complete_dataset_passes() {
    assert_eq!(basic_dataset_validation(true, true, true), Ok(true));
}

#[test]
fn every_missing_item_is_reported() {
    let errs = basic_dataset_validation(false, false, false).unwrap_err();
    assert_eq!(
        errs,
        vec![
            "list_train.txt not found".to_string(),
            "list_val.txt not found".to_string(),
            "wavs directory not found".to_string(),
        ]
    );
}

#[test]
fn missing_train_manifest_alone_is_reported() {
    let errs = basic_dataset_validation(false, true, true).unwrap_err();
    assert_eq!(errs, vec!["list_train.txt not found".to_string()]);
}

#[test]
fn missing_val_manifest_alone_is_reported() {
    let errs = basic_dataset_validation(true, false, true).unwrap_err();
    assert_eq!(errs, vec!["list_val.txt not found".to_string()]);
}

#[test]
fn missing_clip_directory_alone_is_reported() {
    let errs = basic_dataset_validation(true, true, false).unwrap_err();
    assert_eq!(errs, vec!["wavs directory not found".to_string()]);
}

#[test]
fn two_missing_items_are_both_reported() {
    let errs = basic_dataset_validation(false, true, false).unwrap_err();
    assert_eq!(
        errs,
        vec![
            "list_train.txt not found".to_string(),
            "wavs directory not found".to_string(),
        ]
    );
    let errs = basic_dataset_validation(true, false, false).unwrap_err();
    assert_eq!(
        errs,
        vec![
            "list_val.txt not found".to_string(),
            "wavs directory not found".to_string(),
        ]
    );
    let errs = basic_dataset_validation(false, false, true).unwrap_err();
    assert_eq!(
        errs,
        vec![
            "list_train.txt not found".to_string(),
            "list_val.txt not found".to_string(),
        ]
    );
}
