use emicon::markup::remove_tags;

#[test]
fn strips_tags() {
    assert_eq!(remove_tags("<p>Hello <b>world</b></p>"), "Hello world");
}

#[test]
fn keeps_plain_text() {
    assert_eq!(remove_tags("no tags here"), "no tags here");
    assert_eq!(remove_tags(""), "");
}

#[test]
fn unclosed_tag_drops_rest() {
    assert_eq!(remove_tags("a<b c"), "a");
    assert_eq!(remove_tags("a>b"), "ab");
    assert_eq!(remove_tags("é<i>ü</i>"), "éü");
}
