//! The grammar of a calendar version format such as `YY.MM.MICRO`.

use vstd::prelude::*;
use crate::text::{glue3, has_char, same_text, split, split_on, views};

verus! {

/// One token of a version format.
#[derive(Debug, Clone, Copy, PartialEq, Eq, Structural)]
pub enum Component {
    /// The full year, as in 2026.
    Yyyy,
    /// The year within its century, as in 26.
    Yy,
    /// The month, 1 to 12, not padded.
    Mm,
    /// The day of the month, 1 to 31, not padded.
    Dd,
    /// The counter that tells apart the releases of one period.
    Micro,
}

/// A parsed version format: its tokens in order, and where the counter stands.
#[derive(Debug)]
pub struct VersionFormat {
    pub components: Vec<Component>,
    pub micro_index: Option<usize>,
}

/// Why a format string was refused.
#[derive(Debug)]
pub enum FormatError {
    /// The string holds `-` or `_`; only `.` separates tokens.
    Separator,
    /// A segment is none of the known tokens.
    UnknownToken { token: String },
    /// `MICRO` occurs a second time.
    RepeatedMicro,
    /// `MICRO` occurs, but not as the last token.
    MicroNotLast,
    /// No date token occurs.
    NoDateToken,
    /// A date token occurs twice.
    DuplicateDate,
}

/// The mathematical value of a [`FormatError`].
pub enum FormatFault {
    Separator,
    UnknownToken(Seq<char>),
    RepeatedMicro,
    MicroNotLast,
    NoDateToken,
    DuplicateDate,
}

impl View for FormatError {
    type V = FormatFault;

    open spec fn view(&self) -> FormatFault {
        match self {
            FormatError::Separator => FormatFault::Separator,
            FormatError::UnknownToken { token } => FormatFault::UnknownToken(token@),
            FormatError::RepeatedMicro => FormatFault::RepeatedMicro,
            FormatError::MicroNotLast => FormatFault::MicroNotLast,
            FormatError::NoDateToken => FormatFault::NoDateToken,
            FormatError::DuplicateDate => FormatFault::DuplicateDate,
        }
    }
}

/// What is said of a fault in the format string `format`.
pub open spec fn fault_text(fault: FormatFault, format: Seq<char>) -> Seq<char> {
    let head = "invalid format '"@ + format;
    match fault {
        FormatFault::Separator => head + "': only dot (.) separator is allowed"@,
        FormatFault::UnknownToken(token) => head + "': unknown token '"@ + token + "'"@,
        FormatFault::RepeatedMicro => head + "': MICRO can only appear once"@,
        FormatFault::MicroNotLast => head + "': MICRO must be the last component"@,
        FormatFault::NoDateToken => head + "': must have at least one date token"@,
        FormatFault::DuplicateDate => head + "': duplicate date token"@,
    }
}

impl FormatError {
    /// What to say of this fault in the format string `format`.
    pub fn message(&self, format: &str) -> (text: String)
        ensures
            text@ == fault_text(self@, format@),
    {
        match self {
            FormatError::Separator => glue3(
                "invalid format '",
                format,
                "': only dot (.) separator is allowed",
            ),
            FormatError::UnknownToken { token } => {
                let mut text = glue3("invalid format '", format, "': unknown token '");
                text.append(token.as_str());
                text.append("'");
                text
            },
            FormatError::RepeatedMicro => glue3(
                "invalid format '",
                format,
                "': MICRO can only appear once",
            ),
            FormatError::MicroNotLast => glue3(
                "invalid format '",
                format,
                "': MICRO must be the last component",
            ),
            FormatError::NoDateToken => glue3(
                "invalid format '",
                format,
                "': must have at least one date token",
            ),
            FormatError::DuplicateDate => glue3(
                "invalid format '",
                format,
                "': duplicate date token",
            ),
        }
    }
}

/// The token that a segment of a format string spells, if any.
pub open spec fn token(seg: Seq<char>) -> Option<Component> {
    if seg == "YYYY"@ {
        Some(Component::Yyyy)
    } else if seg == "YY"@ {
        Some(Component::Yy)
    } else if seg == "MM"@ {
        Some(Component::Mm)
    } else if seg == "DD"@ {
        Some(Component::Dd)
    } else if seg == "MICRO"@ {
        Some(Component::Micro)
    } else {
        None
    }
}

/// The tokens that the segments spell. Meaningful where each segment spells one.
pub open spec fn tokens(segs: Seq<Seq<char>>) -> Seq<Component> {
    Seq::new(segs.len(), |i: int| token(segs[i]).unwrap())
}

/// The first fault met when the segments are read from left to right: a
/// segment that spells no token, or a second `MICRO`.
pub open spec fn scan_fault(segs: Seq<Seq<char>>) -> Option<FormatFault>
    decreases segs.len(),
{
    if segs.len() == 0 {
        None
    } else {
        let before = segs.drop_last();
        match scan_fault(before) {
            Some(fault) => Some(fault),
            None => match token(segs.last()) {
                None => Some(FormatFault::UnknownToken(segs.last())),
                Some(Component::Micro) => if tokens(before).contains(Component::Micro) {
                    Some(FormatFault::RepeatedMicro)
                } else {
                    None
                },
                Some(_) => None,
            },
        }
    }
}

/// Whether one date token stands at two places.
pub open spec fn has_duplicate_date(cs: Seq<Component>) -> bool {
    exists|i: int, j: int|
        0 <= i < j < cs.len() && cs[i] != Component::Micro && #[trigger] cs[i] == #[trigger] cs[j]
}

/// Whether any token is a date token.
pub open spec fn has_date(cs: Seq<Component>) -> bool {
    exists|i: int| 0 <= i < cs.len() && #[trigger] cs[i] != Component::Micro
}

/// Where the counter stands in a format whose tokens are `cs`, given that it
/// can only stand last.
pub open spec fn counter_index(cs: Seq<Component>) -> Option<usize> {
    if cs.len() >= 1 && cs.last() == Component::Micro {
        Some((cs.len() - 1) as usize)
    } else {
        None
    }
}

/// The rules that a list of tokens must meet to be a format: at least one
/// token, the first a date token, the counter nowhere but last, and no date
/// token twice.
pub open spec fn tokens_valid(cs: Seq<Component>) -> bool {
    &&& cs.len() >= 1
    &&& cs[0] != Component::Micro
    &&& forall|i: int| 0 <= i < cs.len() - 1 ==> #[trigger] cs[i] != Component::Micro
    &&& !has_duplicate_date(cs)
}

/// What parsing a format string gives: the tokens and the counter's place, or
/// the first fault in the order in which the checks are made.
pub open spec fn parse_spec(s: Seq<char>) -> Result<(Seq<Component>, Option<usize>), FormatFault> {
    if s.contains('-') || s.contains('_') {
        Err(FormatFault::Separator)
    } else {
        let segs = split(s, '.');
        match scan_fault(segs) {
            Some(fault) => Err(fault),
            None => {
                let cs = tokens(segs);
                if cs.contains(Component::Micro) && cs.last() != Component::Micro {
                    Err(FormatFault::MicroNotLast)
                } else if !has_date(cs) {
                    Err(FormatFault::NoDateToken)
                } else if has_duplicate_date(cs) {
                    Err(FormatFault::DuplicateDate)
                } else {
                    Ok((cs, counter_index(cs)))
                }
            },
        }
    }
}

impl VersionFormat {
    /// The invariant of a format: its tokens meet the rules of the grammar and
    /// `micro_index` says where the counter stands.
    pub open spec fn wf(&self) -> bool {
        &&& tokens_valid(self.components@)
        &&& self.micro_index == counter_index(self.components@)
    }

    /// Parses a format string such as `YY.MM.MICRO`. Tokens are separated by
    /// `.` only. A format is accepted whole or refused with its first fault.
    pub fn parse(format: &str) -> (r: Result<VersionFormat, FormatError>)
        ensures
            match r {
                Ok(f) => parse_spec(format@) == Ok::<(Seq<Component>, Option<usize>), FormatFault>(
                    (f.components@, f.micro_index),
                ) && f.wf(),
                Err(e) => parse_spec(format@) == Err::<(Seq<Component>, Option<usize>), FormatFault>(
                    e@,
                ),
            },
    {
        if has_char(format, '-') || has_char(format, '_') {
            return Err(FormatError::Separator);
        }
        let parts = split_on(format, '.');
        let ghost segs = split(format@, '.');
        let mut components: Vec<Component> = Vec::new();
        let mut micro_index: Option<usize> = None;
        let mut i: usize = 0;
        assert(segs.take(0) == Seq::<Seq<char>>::empty());
        while i < parts.len()
            invariant
                i <= parts.len(),
                views(parts@) == segs,
                segs == split(format@, '.'),
                !format@.contains('-'),
                !format@.contains('_'),
                scan_fault(segs.take(i as int)) is None,
                components@ == tokens(segs.take(i as int)),
                micro_index is Some <==> components@.contains(Component::Micro),
                micro_index matches Some(k) ==> k < i && components@[k as int] == Component::Micro,
            decreases parts.len() - i,
        {
            let part = parts[i];
            let ghost before = segs.take(i as int);
            let ghost here = segs.take(i + 1);
            proof {
                assert(here.drop_last() == before);
                assert(here.last() == part@);
            }
            let c = match token_of(part) {
                Some(c) => c,
                None => {
                    proof {
                        lemma_scan_fault_stays(segs, i + 1);
                    }
                    return Err(FormatError::UnknownToken { token: part.to_owned() });
                },
            };
            if c == Component::Micro {
                if micro_index.is_some() {
                    proof {
                        lemma_scan_fault_stays(segs, i + 1);
                    }
                    return Err(FormatError::RepeatedMicro);
                }
                micro_index = Some(i);
            }
            let ghost old_components = components@;
            components.push(c);
            proof {
                assert(components@ == tokens(here));
                if c == Component::Micro {
                    assert(components@[i as int] == Component::Micro);
                } else if components@.contains(Component::Micro) {
                    let k = choose|k: int|
                        0 <= k < components@.len() && components@[k] == Component::Micro;
                    assert(old_components[k] == Component::Micro);
                }
                if old_components.contains(Component::Micro) {
                    let k = choose|k: int|
                        0 <= k < old_components.len() && old_components[k] == Component::Micro;
                    assert(components@[k] == Component::Micro);
                }
            }
            i += 1;
        }
        proof {
            assert(segs.take(i as int) == segs);
            crate::text::lemma_split_nonempty(format@, '.');
            lemma_scan_one_micro(segs);
        }
        let n = components.len();
        if let Some(idx) = micro_index {
            if idx != n - 1 {
                return Err(FormatError::MicroNotLast);
            }
        }
        proof {
            if components@.contains(Component::Micro) && components@.last() != Component::Micro {
                assert(false);
            }
        }
        if !any_date(&components) {
            return Err(FormatError::NoDateToken);
        }
        if repeats_date(&components) {
            return Err(FormatError::DuplicateDate);
        }
        proof {
            lemma_parse_valid(format@);
            if components@.last() == Component::Micro {
                assert(components@.contains(Component::Micro));
            }
        }
        Ok(VersionFormat { components, micro_index })
    }
}

/// The token that `seg` spells, if any.
fn token_of(seg: &str) -> (r: Option<Component>)
    ensures
        r == token(seg@),
{
    if same_text(seg, "YYYY") {
        Some(Component::Yyyy)
    } else if same_text(seg, "YY") {
        Some(Component::Yy)
    } else if same_text(seg, "MM") {
        Some(Component::Mm)
    } else if same_text(seg, "DD") {
        Some(Component::Dd)
    } else if same_text(seg, "MICRO") {
        Some(Component::Micro)
    } else {
        None
    }
}

/// Whether any of the tokens is a date token.
fn any_date(cs: &Vec<Component>) -> (r: bool)
    ensures
        r == has_date(cs@),
{
    let mut i: usize = 0;
    while i < cs.len()
        invariant
            i <= cs.len(),
            forall|k: int| 0 <= k < i ==> cs@[k] == Component::Micro,
        decreases cs.len() - i,
    {
        if cs[i] != Component::Micro {
            return true;
        }
        i += 1;
    }
    false
}

/// Whether a date token stands at two places.
fn repeats_date(cs: &Vec<Component>) -> (r: bool)
    ensures
        r == has_duplicate_date(cs@),
{
    let mut i: usize = 0;
    while i < cs.len()
        invariant
            i <= cs.len(),
            forall|a: int, b: int|
                0 <= a < i && a < b < cs.len() && cs@[a] != Component::Micro ==> #[trigger] cs@[a]
                    != #[trigger] cs@[b],
        decreases cs.len() - i,
    {
        if cs[i] != Component::Micro {
            let mut j: usize = i + 1;
            while j < cs.len()
                invariant
                    i < j <= cs.len(),
                    cs@[i as int] != Component::Micro,
                    forall|b: int| i < b < j ==> cs@[i as int] != #[trigger] cs@[b],
                decreases cs.len() - j,
            {
                if cs[i] == cs[j] {
                    return true;
                }
                j += 1;
            }
        }
        i += 1;
    }
    false
}

/// A fault found in a prefix of the segments is the fault of the whole.
pub proof fn lemma_scan_fault_stays(segs: Seq<Seq<char>>, k: int)
    requires
        0 <= k <= segs.len(),
        scan_fault(segs.take(k)) is Some,
    ensures
        scan_fault(segs) == scan_fault(segs.take(k)),
    decreases segs.len(),
{
    if k == segs.len() {
        assert(segs.take(k) == segs);
    } else {
        assert(segs.drop_last().take(k) == segs.take(k));
        lemma_scan_fault_stays(segs.drop_last(), k);
    }
}

/// Segments read without a fault hold at most one `MICRO`.
pub proof fn lemma_scan_one_micro(segs: Seq<Seq<char>>)
    requires
        scan_fault(segs) is None,
    ensures
        forall|i: int| 0 <= i < segs.len() ==> token(#[trigger] segs[i]) is Some,
        forall|i: int, j: int|
            0 <= i < j < segs.len() && tokens(segs)[i] == Component::Micro ==> tokens(segs)[j]
                != Component::Micro,
    decreases segs.len(),
{
    if segs.len() > 0 {
        let before = segs.drop_last();
        lemma_scan_one_micro(before);
        assert forall|i: int| 0 <= i < segs.len() implies token(#[trigger] segs[i]) is Some by {
            if i < segs.len() - 1 {
                assert(segs[i] == before[i]);
            }
        }
        assert forall|i: int, j: int|
            0 <= i < j < segs.len() && tokens(segs)[i] == Component::Micro implies tokens(segs)[j]
                != Component::Micro by {
            assert(tokens(before)[i] == tokens(segs)[i]);
            if j < segs.len() - 1 {
                assert(tokens(before)[j] == tokens(segs)[j]);
            } else {
                assert(tokens(before).contains(Component::Micro));
            }
        }
    }
}

/// Every format that parsing accepts meets the rules of the grammar.
pub proof fn lemma_parse_valid(s: Seq<char>)
    requires
        parse_spec(s) is Ok,
    ensures
        tokens_valid(parse_spec(s)->Ok_0.0),
        parse_spec(s)->Ok_0.1 == counter_index(parse_spec(s)->Ok_0.0),
{
    let segs = split(s, '.');
    let cs = tokens(segs);
    lemma_scan_one_micro(segs);
    crate::text::lemma_split_nonempty(s, '.');
    let w = choose|i: int| 0 <= i < cs.len() && #[trigger] cs[i] != Component::Micro;
    assert forall|i: int| 0 <= i < cs.len() - 1 implies #[trigger] cs[i] != Component::Micro by {
        if cs[i] == Component::Micro {
            assert(cs.contains(Component::Micro));
            assert(cs[cs.len() - 1] != Component::Micro);
        }
    }
    if cs[0] == Component::Micro {
        assert(cs.len() == 1);
        assert(w == 0);
    }
}

/// How a token is spelled.
pub open spec fn token_name(c: Component) -> Seq<char> {
    match c {
        Component::Yyyy => "YYYY"@,
        Component::Yy => "YY"@,
        Component::Mm => "MM"@,
        Component::Dd => "DD"@,
        Component::Micro => "MICRO"@,
    }
}

/// How each of the tokens is spelled.
pub open spec fn token_names(cs: Seq<Component>) -> Seq<Seq<char>> {
    Seq::new(cs.len(), |i: int| token_name(cs[i]))
}

/// The format string of a list of tokens: their names with dots between.
pub open spec fn format_text(cs: Seq<Component>) -> Seq<char> {
    crate::text::join(token_names(cs), '.')
}

/// A token's name spells that token, and holds none of `.`, `-` and `_`.
pub proof fn lemma_token_name(c: Component)
    ensures
        token(token_name(c)) == Some(c),
        !token_name(c).contains('.'),
        !token_name(c).contains('-'),
        !token_name(c).contains('_'),
{
    reveal_strlit("YYYY");
    reveal_strlit("YY");
    reveal_strlit("MM");
    reveal_strlit("DD");
    reveal_strlit("MICRO");
    let name = token_name(c);
    assert("YYYY"@.len() == 4 && "YY"@.len() == 2 && "MM"@.len() == 2 && "DD"@.len() == 2
        && "MICRO"@.len() == 5);
    assert("YY"@[0] == 'Y' && "MM"@[0] == 'M' && "DD"@[0] == 'D');
    assert forall|x: char| x == '.' || x == '-' || x == '_' implies !name.contains(x) by {
        if name.contains(x) {
            let k = choose|k: int| 0 <= k < name.len() && name[k] == x;
            assert(name[k] == 'Y' || name[k] == 'M' || name[k] == 'D' || name[k] == 'I' || name[k]
                == 'C' || name[k] == 'R' || name[k] == 'O');
        }
    }
}

/// The names of tokens, read from left to right, meet no fault as long as
/// `MICRO` does not occur twice.
proof fn lemma_names_scan(cs: Seq<Component>)
    requires
        forall|i: int, j: int|
            0 <= i < j < cs.len() && #[trigger] cs[i] == Component::Micro ==> #[trigger] cs[j]
                != Component::Micro,
    ensures
        scan_fault(token_names(cs)) is None,
        tokens(token_names(cs)) == cs,
    decreases cs.len(),
{
    let names = token_names(cs);
    assert forall|i: int| 0 <= i < cs.len() implies #[trigger] tokens(names)[i] == cs[i] by {
        lemma_token_name(cs[i]);
    }
    if cs.len() > 0 {
        let before = cs.drop_last();
        assert(names.drop_last() == token_names(before));
        lemma_names_scan(before);
        lemma_token_name(cs.last());
        if cs.last() == Component::Micro && before.contains(Component::Micro) {
            let k = choose|k: int| 0 <= k < before.len() && before[k] == Component::Micro;
            assert(cs[k] == Component::Micro);
            assert(cs[cs.len() - 1] == Component::Micro);
        }
    }
}

/// Every list of tokens that meets the rules of the grammar is what parsing
/// its format string gives.
pub proof fn lemma_valid_tokens_parse(cs: Seq<Component>)
    requires
        tokens_valid(cs),
    ensures
        parse_spec(format_text(cs)) == Ok::<(Seq<Component>, Option<usize>), FormatFault>(
            (cs, counter_index(cs)),
        ),
{
    let names = token_names(cs);
    let text = format_text(cs);
    assert forall|i: int| 0 <= i < names.len() implies !(#[trigger] names[i]).contains('.')
        && !names[i].contains('-') && !names[i].contains('_') by {
        lemma_token_name(cs[i]);
    }
    crate::text::lemma_join_lacks(names, '.', '-');
    crate::text::lemma_join_lacks(names, '.', '_');
    crate::text::lemma_split_join(names, '.');
    lemma_names_scan(cs);
    if cs.contains(Component::Micro) && cs.last() != Component::Micro {
        let k = choose|k: int| 0 <= k < cs.len() && cs[k] == Component::Micro;
        assert(cs[k] != Component::Micro);
    }
    assert(cs[0] != Component::Micro);
}

/// Every format string that parsing accepts is the format string of the
/// tokens it gives: a format is accepted whole, never in part.
pub proof fn lemma_parse_exact(s: Seq<char>)
    requires
        parse_spec(s) is Ok,
    ensures
        s == format_text(parse_spec(s)->Ok_0.0),
{
    let segs = split(s, '.');
    let cs = tokens(segs);
    lemma_scan_one_micro(segs);
    crate::text::lemma_join_split(s, '.');
    assert(token_names(cs) == segs) by {
        reveal_strlit("YYYY");
        reveal_strlit("YY");
        reveal_strlit("MM");
        reveal_strlit("DD");
        reveal_strlit("MICRO");
        assert forall|i: int| 0 <= i < segs.len() implies #[trigger] token_names(cs)[i]
            == segs[i] by {
            assert(token(segs[i]) is Some);
        }
    }
}

} // verus!
