use rsgit::object::parse_utils::{attribution_is_valid, header, object_id_is_valid, take_line};

#[test]
fn read_line_fn() {
    let c: &[u8] = b"abc\ndef\n";

    let (line, c) = take_line(c);
    assert_eq!(line, b"abc");

    let (line, c) = take_line(c);
    assert_eq!(line, b"def");

    assert_eq!(c.len(), 0);

    let c: &[u8] = b"abc\n";

    let (line, c) = take_line(c);
    assert_eq!(line, b"abc");

    assert_eq!(c.len(), 0);

    let c: &[u8] = b"abc";

    let (line, c) = take_line(c);
    assert_eq!(line, b"abc");

    assert_eq!(c.len(), 0);
}

#[test]
fn header_fn() {
    assert_eq!(header(b"tagger abc", b"tagger").unwrap(), b"abc");
    assert_eq!(header(b"tagger ", b"tagger").unwrap(), b"");

    assert_eq!(header(b"taggex abc", b"tagger"), None);
    assert_eq!(header(b"tagger", b"tagger"), None);
    assert_eq!(header(b"taggerx abc", b"tagger"), None);
}

#[test]
fn attribution_is_valid_fn() {
    assert_eq!(
        attribution_is_valid(b"A. U. Thor <author@localhost> 1 +0000"),
        true
    );
    assert_eq!(
        attribution_is_valid(b"A. U. Thor <author@localhost> 1222757360 -0730"),
        true
    );
    assert_eq!(attribution_is_valid(b"<> 0 +0000"), true);

    assert_eq!(attribution_is_valid(b"b <b@c> <b@c> 0 +0000"), false);
    assert_eq!(attribution_is_valid(b"A. U. Thor <foo 1 +0000"), false);
    assert_eq!(attribution_is_valid(b"A. U. Thor foo> 1 +0000"), false);
    assert_eq!(attribution_is_valid(b"1 +0000"), false);
    assert_eq!(attribution_is_valid(b"a <b> +0000"), false);
    assert_eq!(attribution_is_valid(b"a <b> 1 ~0700"), false);
    assert_eq!(attribution_is_valid(b"a <b> 1 +0760"), false);
    assert_eq!(attribution_is_valid(b"a <b> 1 +07x0"), false);
    assert_eq!(attribution_is_valid(b"a <b> 1 +07"), false);
    assert_eq!(attribution_is_valid(b"a <b> 1 +07000"), false);
    assert_eq!(attribution_is_valid(b"a <b> 1 -1300"), false);
    assert_eq!(attribution_is_valid(b"a <b> 1 +1500"), false);
    assert_eq!(attribution_is_valid(b"a <b>"), false);
    assert_eq!(attribution_is_valid(b"a <b> z"), false);
    assert_eq!(attribution_is_valid(b"a <b> 1 z"), false);
}

#[test]
fn object_id_is_valid_fn() {
    assert_eq!(
        object_id_is_valid(b"0123456789012345678901234567890123456789"),
        true
    );
    assert_eq!(
        object_id_is_valid(b"abcdef6789012345678901234567890123456789"),
        true
    );
    assert_eq!(
        object_id_is_valid(b"abcdefg789012345678901234567890123456789"),
        false
    );
    assert_eq!(
        object_id_is_valid(b"Abcdef6789012345678901234567890123456789"),
        false
    );
    assert_eq!(
        object_id_is_valid(b"0123456789/12345678901234567890123456789"),
        false
    );
    assert_eq!(
        object_id_is_valid(b"0123456789:12345678901234567890123456789"),
        false
    );
    assert_eq!(
        object_id_is_valid(b"012345678901234567890123456789012345678"),
        false
    );
    assert_eq!(
        object_id_is_valid(b"01234567890123456789012345678901234567890"),
        false
    );
}
