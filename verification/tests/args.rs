use lsr::Args;

#[test]
fn args_default_to_the_current_directory() {
    let args = Args::new(Vec::new(), false, false);
    assert_eq!(args.paths, vec![".".to_string()]);
    assert!(!args.long);
    assert!(!args.show_hidden);
}

#[test]
fn args_keep_the_paths_given() {
    let args = Args::new(vec!["a".to_string(), "b/c".to_string()], true, true);
    assert_eq!(args.paths, vec!["a".to_string(), "b/c".to_string()]);
    assert!(args.long);
    assert!(args.show_hidden);
}
