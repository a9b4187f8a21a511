use corpus_mixer::manifest::{parse_train_manifest, parse_val_manifest, split_lines};

fn b(s: &str) -> Vec<u8> {
    s.as_bytes().to_vec()
}

#[test]
fn splits_lines_and_strips_line_endings() {
    let lines = split_lines(&b("a|x\r\nb|y\nlast|z"));
    assert_eq!(lines, vec![b("a|x"), b("b|y"), b("last|z")]);
}

#[test]
fn final_newline_closes_the_last_line() {
    assert_eq!(split_lines(&b("a|x\n")), vec![b("a|x")]);
    assert_eq!(split_lines(&b("")), Vec::<Vec<u8>>::new());
}

#[test]
fn blank_interior_lines_are_kept_as_lines() {
    assert_eq!(split_lines(&b("a|x\n\nb|y\n")), vec![b("a|x"), b(""), b("b|y")]);
}

#[test]
fn train_parse_keeps_both_fields() {
    let es = parse_train_manifest(&b("wavs/c1.wav|hello there\n")).unwrap();
    assert_eq!(es.len(), 1);
    assert_eq!(es[0].source_ref, b("wavs/c1.wav"));
    assert_eq!(es[0].text, b("hello there"));
}

#[test]
fn text_after_a_second_delimiter_is_dropped() {
    let es = parse_train_manifest(&b("c.wav|first|second\n")).unwrap();
    assert_eq!(es[0].source_ref, b("c.wav"));
    assert_eq!(es[0].text, b("first"));
}

#[test]
fn train_parse_stops_at_first_undelimited_line() {
    let r = parse_train_manifest(&b("a.wav|ok\nno delimiter here\nb.wav|fine\n"));
    assert_eq!(r.unwrap_err(), 1);
}

#[test]
fn val_parse_skips_bad_lines_and_keeps_the_rest() {
    let r = parse_val_manifest(&b("a.wav|ok\nbroken\nb.wav|also ok\n"));
    assert_eq!(r.entries.len(), 2);
    assert_eq!(r.entries[0].source_ref, b("a.wav"));
    assert_eq!(r.entries[1].source_ref, b("b.wav"));
    assert_eq!(r.skipped, vec![1usize]);
}

#[test]
fn empty_fields_still_parse() {
    let es = parse_train_manifest(&b("|\n")).unwrap();
    assert_eq!(es[0].source_ref, b(""));
    assert_eq!(es[0].text, b(""));
}
