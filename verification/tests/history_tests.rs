use npushell::history::{history_candidates_in, history_file_candidates, history_from_reads, recent_history};

#[test]
fn recent_history_keeps_last_lines() {
    assert_eq!(recent_history("a\nb\nc\nd\n", 2), "c\nd");
    assert_eq!(recent_history("a\nb", 5), "a\nb");
    assert_eq!(recent_history("a\nb", 0), "");
    assert_eq!(recent_history("", 3), "");
    assert_eq!(recent_history("a\r\nb\r\n", 1), "b");
}

#[test]
fn history_candidates_order() {
    assert_eq!(
        history_candidates_in(Some("/h/hist"), Some(&b"/home/u"[..])),
        vec![b"/h/hist".to_vec(), b"/home/u/.bash_history".to_vec(), b"/home/u/.zsh_history".to_vec()]
    );
    assert_eq!(history_candidates_in(None, None), Vec::<Vec<u8>>::new());
    assert_eq!(history_candidates_in(None, Some(&b"/"[..])), vec![b"/.bash_history".to_vec(), b"/.zsh_history".to_vec()]);
    assert_eq!(history_candidates_in(None, Some(&[0x2f, 0x80][..]))[0], b"/\x80/.bash_history".to_vec());
}

#[test]
fn history_file_candidates_start_with_histfile() {
    let c = history_file_candidates(Some("/tmp/h"));
    assert_eq!(c[0], b"/tmp/h".to_vec());
    assert!(c.len() == 1 || c.len() == 3);
}

#[test]
fn history_from_first_readable_file() {
    let reads = vec![None, Some("a\nb\nc\n".to_string()), Some("x\n".to_string())];
    assert_eq!(history_from_reads(&reads, 2), "b\nc");
    assert_eq!(history_from_reads(&vec![None, None], 5), "");
    assert_eq!(history_from_reads(&Vec::new(), 5), "");
}
