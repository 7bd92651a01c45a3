//! What is said to the repository: the name of the tag, the message of
//! commit and tag, and what to do about a tag that exists.

use vstd::prelude::*;
use crate::text::{glue, to_chars};

verus! {

/// The name of the tag of a version: `v` and the version.
pub open spec fn tag_of(version: Seq<char>) -> Seq<char> {
    "v"@ + version
}

/// The message template with the version in place of each `%s`, read from
/// the left.
pub open spec fn filled(template: Seq<char>, version: Seq<char>) -> Seq<char>
    decreases template.len(),
{
    if template.len() == 0 {
        Seq::<char>::empty()
    } else if template.len() >= 2 && template[0] == '%' && template[1] == 's' {
        version + filled(template.skip(2), version)
    } else {
        seq![template[0]] + filled(template.drop_first(), version)
    }
}

/// What to do about the tag of the new version.
#[derive(Debug, Clone, Copy, PartialEq, Eq, Structural)]
pub enum TagStep {
    /// No such tag exists: create it.
    Create,
    /// The tag exists and `force` is on: delete it, then create it.
    Replace,
    /// The tag exists and `force` is off: give up.
    Refuse,
}

/// The name of the tag of a version.
pub fn tag_name(version: &str) -> (name: String)
    ensures
        name@ == tag_of(version@),
{
    glue("v", version)
}

/// The message of commit and tag: the template with the version in place of
/// each `%s`.
pub fn commit_message(template: &str, version: &str) -> (message: String)
    ensures
        message@ == filled(template@, version@),
{
    let x = to_chars(template);
    let mut message = String::new();
    let mut i: usize = 0;
    assert(template@.skip(0) == template@);
    while i < x.len()
        invariant
            i <= x.len(),
            x@ == template@,
            filled(template@, version@) == message@ + filled(template@.skip(i as int), version@),
        decreases x.len() - i,
    {
        let ghost rest = template@.skip(i as int);
        assert(rest[0] == template@[i as int]);
        if x[i] == '%' && i + 1 < x.len() && x[i + 1] == 's' {
            assert(rest[1] == template@[i + 1]);
            assert(rest.skip(2) == template@.skip(i + 2));
            message.append(version);
            assert(message@ + filled(template@.skip(i + 2), version@) == filled(
                template@,
                version@,
            ));
            i += 2;
        } else {
            proof {
                if rest.len() >= 2 {
                    assert(rest[1] == template@[i + 1]);
                }
                assert(rest.drop_first() == template@.skip(i + 1));
                assert(template@.subrange(i as int, i + 1) == seq![template@[i as int]]);
            }
            message.append(template.substring_char(i, i + 1));
            assert(message@ + filled(template@.skip(i + 1), version@) == filled(
                template@,
                version@,
            ));
            i += 1;
        }
    }
    assert(template@.skip(i as int).len() == 0);
    assert(message@ + Seq::<char>::empty() == message@);
    message
}

/// What to do about the tag of the new version, given whether it is there
/// already and whether `force` is on.
pub open spec fn tag_step_spec(present: bool, force: bool) -> TagStep {
    if !present {
        TagStep::Create
    } else if force {
        TagStep::Replace
    } else {
        TagStep::Refuse
    }
}

/// What to do about the tag of the new version, given whether it is there
/// already.
pub fn tag_step(present: bool, force: bool) -> (r: TagStep)
    ensures
        r == tag_step_spec(present, force),
{
    if !present {
        TagStep::Create
    } else if force {
        TagStep::Replace
    } else {
        TagStep::Refuse
    }
}

} // verus!
