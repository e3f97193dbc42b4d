use peerdrive_ctl::flags;

#[test]
fn read_returns_tail_after_base_invocation() {
    let doc = b"ExecStart=/usr/local/bin/peerdrive init --verbose\nRestart=on-failure";
    assert_eq!(flags::read_flags_from_doc(doc), b" --verbose".to_vec());
}

#[test]
fn write_rewrites_directive_and_preserves_rest() {
    let doc = b"ExecStart=/usr/local/bin/peerdrive init --verbose\nRestart=on-failure";
    let written = flags::write_flags_to_doc(doc, b"--quiet");
    assert_eq!(
        written,
        b"ExecStart=/usr/local/bin/peerdrive init --quiet\nRestart=on-failure".to_vec()
    );
}

#[test]
fn write_then_read_round_trip() {
    let doc = b"[Service]\nExecStart=/usr/local/bin/peerdrive init\nRestart=on-failure\n";
    let written = flags::write_flags_to_doc(doc, "--a --b".as_bytes());
    let read = flags::read_flags_from_doc(&written);
    assert_eq!(read, b" --a --b".to_vec());
    assert_eq!(peerdrive_ctl::text::trim_bytes(&read), b"--a --b".to_vec());
}

#[test]
fn write_trims_supplied_flags() {
    let doc = b"ExecStart=/usr/local/bin/peerdrive init";
    let written = flags::write_flags_to_doc(doc, b"  --x \t");
    assert_eq!(
        written,
        b"ExecStart=/usr/local/bin/peerdrive init --x".to_vec()
    );
}

#[test]
fn write_without_directive_changes_nothing() {
    let doc = b"[Unit]\nDescription=storage daemon\n\nRestart=always\n";
    assert_eq!(flags::write_flags_to_doc(doc, b"--x"), doc.to_vec());
}

#[test]
fn write_preserves_unrelated_lines_byte_for_byte() {
    let doc = b"# comment \t with spaces \nExecStart=/usr/local/bin/peerdrive init --a\n\n  weird  line  \nExecStart=/usr/local/bin/peerdrive init --b\ntail";
    let written = flags::write_flags_to_doc(doc, b"--c");
    let expected = b"# comment \t with spaces \nExecStart=/usr/local/bin/peerdrive init --c\n\n  weird  line  \nExecStart=/usr/local/bin/peerdrive init --c\ntail";
    assert_eq!(written, expected.to_vec());
}

#[test]
fn read_last_directive_wins() {
    let doc = b"ExecStart=/usr/local/bin/peerdrive init --first\nExecStart=/usr/local/bin/peerdrive init --second";
    assert_eq!(flags::read_flags_from_doc(doc), b" --second".to_vec());
}

#[test]
fn read_last_directive_without_base_invocation_is_empty() {
    // The last directive overrides the earlier one even when its command is
    // something else entirely.
    let doc = b"ExecStart=/usr/local/bin/peerdrive init --a\nExecStart=/bin/true";
    assert_eq!(flags::read_flags_from_doc(doc), Vec::<u8>::new());
}

#[test]
fn read_without_directive_is_empty() {
    assert_eq!(
        flags::read_flags_from_doc(b"[Unit]\nDescription=x\n"),
        Vec::<u8>::new()
    );
    assert_eq!(flags::read_flags_from_doc(b""), Vec::<u8>::new());
}

#[test]
fn read_accepts_indented_directive() {
    let doc = b"  ExecStart=/usr/local/bin/peerdrive init --deep  \n";
    assert_eq!(flags::read_flags_from_doc(doc), b" --deep".to_vec());
}

#[test]
fn unit_file_relpath_is_normalized() {
    assert_eq!(
        flags::unit_file_relpath(b"peerdrive"),
        b"systemd/user/peerdrive.service".to_vec()
    );
    assert_eq!(
        flags::unit_file_relpath(b"peerdrive.service"),
        b"systemd/user/peerdrive.service".to_vec()
    );
}
