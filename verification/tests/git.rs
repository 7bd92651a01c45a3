use oneup::git::{commit_message, tag_name, tag_step, TagStep};

#[test]
fn tag_is_v_and_the_version() {
    assert_eq!(tag_name("26.2.0"), "v26.2.0");
    assert_eq!(tag_name(""), "v");
}

#[test]
fn message_holds_the_version_for_each_placeholder() {
    assert_eq!(commit_message("%s", "26.2.0"), "26.2.0");
    assert_eq!(commit_message("release %s", "26.2.0"), "release 26.2.0");
    assert_eq!(commit_message("%s and %s", "1.0"), "1.0 and 1.0");
    assert_eq!(commit_message("no placeholder", "1.0"), "no placeholder");
    assert_eq!(commit_message("%%s", "1.0"), "%1.0");
    assert_eq!(commit_message("100%", "1.0"), "100%");
    assert_eq!(commit_message("%d %s", "1.0"), "%d 1.0");
    assert_eq!(commit_message("", "1.0"), "");
    assert_eq!(commit_message("v%s: ünïcode", "1.0"), "v1.0: ünïcode");
    assert_eq!(commit_message("%s", "%s"), "%s");
}

#[test]
fn existing_tag_is_replaced_only_by_force() {
    assert_eq!(tag_step(false, false), TagStep::Create);
    assert_eq!(tag_step(false, true), TagStep::Create);
    assert_eq!(tag_step(true, true), TagStep::Replace);
    assert_eq!(tag_step(true, false), TagStep::Refuse);
}
