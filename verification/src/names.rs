//! The names of waterfall files, and the observation that one belongs to.

use vstd::prelude::*;

verus! {

/// Whether `c` is a decimal digit.
pub open spec fn is_digit(c: char) -> bool {
    '0' <= c <= '9'
}

/// Whether all of `s` are decimal digits.
pub open spec fn digits_only(s: Seq<char>) -> bool {
    forall|i: int| 0 <= i < s.len() ==> is_digit(#[trigger] s[i])
}

/// The number that the digits `s` write.
pub open spec fn value_of(s: Seq<char>) -> nat
    decreases s.len(),
{
    if s.len() == 0 {
        0
    } else {
        10 * value_of(s.drop_last()) + (s.last() as nat - '0' as nat) as nat
    }
}

/// `s` without a leading plus sign.
pub open spec fn unsigned(s: Seq<char>) -> Seq<char> {
    if s.len() > 0 && s[0] == '+' {
        s.skip(1)
    } else {
        s
    }
}

/// The number that `s` writes, if it writes one that fits.
pub open spec fn number(s: Seq<char>) -> Option<u64> {
    let t = unsigned(s);
    if t.len() > 0 && digits_only(t) && value_of(t) <= u64::MAX {
        Some(value_of(t) as u64)
    } else {
        None
    }
}

proof fn lemma_value_grows(s: Seq<char>, n: int)
    requires
        digits_only(s),
        0 <= n <= s.len(),
    ensures
        value_of(s.take(n)) <= value_of(s),
    decreases s.len(),
{
    if n == s.len() {
        assert(s.take(n) =~= s);
    } else {
        let t = s.drop_last();
        assert(digits_only(t));
        lemma_value_grows(t, n);
        assert(t.take(n) =~= s.take(n));
    }
}

/// Reads a number.
pub fn read_number(text: &str) -> (r: Option<u64>)
    ensures
        r == number(text@),
{
    let len: usize = text.unicode_len();
    let from: usize = if len > 0 && text.get_char(0) == '+' {
        1
    } else {
        0
    };
    let ghost t = unsigned(text@);
    assert(t =~= text@.skip(from as int));
    if from == len {
        return None;
    }
    let mut value: u64 = 0;
    let mut i: usize = from;
    assert(t.take(0) =~= Seq::<char>::empty());
    while i < len
        invariant
            from <= i <= len,
            len == text@.len(),
            t == unsigned(text@),
            t == text@.skip(from as int),
            from < len,
            digits_only(t.take(i - from)),
            value == value_of(t.take(i - from)),
        decreases len - i,
    {
        let c: char = text.get_char(i);
        let ghost n = i - from;
        assert(c == t[n]);
        assert(t.take(n + 1) =~= t.take(n).push(c));
        assert(t.take(n + 1).drop_last() =~= t.take(n));
        if c < '0' || c > '9' {
            assert(!is_digit(t[n]));
            return None;
        }
        assert forall|j: int| 0 <= j < n + 1 implies is_digit(#[trigger] t.take(n + 1)[j]) by {
            if j < n {
                assert(is_digit(t.take(n)[j]));
            }
        }
        let d: u64 = (c as u32 - '0' as u32) as u64;
        if value > (u64::MAX - d) / 10 {
            proof {
                if digits_only(t) {
                    lemma_value_grows(t, n + 1);
                }
            }
            return None;
        }
        value = 10 * value + d;
        i = i + 1;
    }
    assert(t.take(len - from) =~= t);
    Some(value)
}

/// What is written in decimal is read back as it was.
pub proof fn law_number_reads_decimal(n: u64)
    ensures
        number(crate::text::decimal(n as nat)) == Some(n),
{
    lemma_decimal_value(n as nat);
    let s = crate::text::decimal(n as nat);
    assert(is_digit(s[0]));
}

proof fn lemma_decimal_value(n: nat)
    ensures
        crate::text::decimal(n).len() > 0,
        digits_only(crate::text::decimal(n)),
        value_of(crate::text::decimal(n)) == n,
    decreases n,
{
    reveal_strlit("0123456789");
    let s = crate::text::decimal(n);
    let d = crate::text::digit((n % 10) as int);
    assert(is_digit(d) && d as nat - '0' as nat == n % 10);
    if n >= 10 {
        lemma_decimal_value(n / 10);
        assert(s.drop_last() =~= crate::text::decimal(n / 10));
    } else {
        assert(s.drop_last() =~= Seq::<char>::empty());
        assert(value_of(s.drop_last()) == 0);
    }
}

/// The pattern of the path of a waterfall file. The group is the number of the
/// observation.
pub open spec fn file_pattern() -> Seq<char> {
    ".*/.*receiving_waterfall_(\\d+)_.*\\.dat.*"@
}

/// What the first group of `pattern` holds at its first match in `text`, if the
/// pattern matches there.
pub uninterp spec fn regex_group(pattern: Seq<char>, text: Seq<char>) -> Option<Seq<char>>;

/// The characters of a text that may be missing.
pub open spec fn text_view(text: Option<String>) -> Option<Seq<char>> {
    match text {
        Some(s) => Some(s@),
        None => None,
    }
}

/// The path of a waterfall file in `directory`: the digits are the number of the
/// observation, and a time stamp follows.
pub open spec fn waterfall_path(directory: Seq<char>, digits: Seq<char>, stamp: Seq<char>) -> Seq<
    char,
> {
    directory + "/receiving_waterfall_"@ + digits + "_"@ + stamp + ".dat"@
}

/// Whether the three make up a usual path: the directory is one line, and the
/// time stamp has digits, hyphens, colons, underscores and the letter T only.
pub open spec fn usual_path(directory: Seq<char>, digits: Seq<char>, stamp: Seq<char>) -> bool {
    &&& !directory.contains('\n')
    &&& digits.len() > 0
    &&& digits_only(digits)
    &&& forall|i: int|
        0 <= i < stamp.len() ==> is_digit(#[trigger] stamp[i]) || stamp[i] == '-' || stamp[i] == ':'
            || stamp[i] == '_' || stamp[i] == 'T'
}

/// Calls `regex::Regex::new`, `Regex::captures` and `Captures::get` for the
/// first group. The result depends on the pattern and the text alone; it is
/// `None` where the pattern is no pattern, does not match or has no such group.
/// The file pattern matches a usual path, and as its parts take as much as they
/// can from the left on, its group then holds the digits behind the last slash.
#[verifier::external_body]
fn first_group(pattern: &str, text: &str) -> (r: Option<String>)
    ensures
        text_view(r) == regex_group(pattern@, text@),
        forall|directory: Seq<char>, digits: Seq<char>, stamp: Seq<char>|
            pattern@ == file_pattern() && usual_path(directory, digits, stamp) && text@
                == #[trigger] waterfall_path(directory, digits, stamp) ==> text_view(r) == Some(
                digits,
            ),
{
    let regex = regex::Regex::new(pattern).ok()?;
    let captures = regex.captures(text)?;
    captures.get(1).map(|group| group.as_str().to_owned())
}

/// What a path says of an observation.
#[derive(Clone, Copy, Debug, PartialEq, Eq, Structural)]
pub enum Found {
    /// It is not the path of a waterfall file.
    Nothing,
    /// It is the waterfall of this observation.
    Observation(u64),
    /// It is a waterfall, but its number cannot be read.
    Unreadable,
}

/// What the group of the file pattern says.
pub open spec fn found(group: Option<Seq<char>>) -> Found {
    match group {
        None => Found::Nothing,
        Some(digits) => match number(digits) {
            Some(id) => Found::Observation(id),
            None => Found::Unreadable,
        },
    }
}

/// Reads the group of the file pattern.
pub fn observation_of(group: Option<String>) -> (r: Found)
    ensures
        r == found(text_view(group)),
{
    match group {
        None => Found::Nothing,
        Some(digits) => match read_number(digits.as_str()) {
            Some(id) => Found::Observation(id),
            None => Found::Unreadable,
        },
    }
}

/// Finds out which observation the waterfall file at `path` belongs to. From a
/// usual path it is the one whose number was written there.
pub fn observation_in(path: &str) -> (r: Found)
    ensures
        r == found(regex_group(file_pattern(), path@)),
        forall|directory: Seq<char>, id: u64, stamp: Seq<char>|
            usual_path(directory, crate::text::decimal(id as nat), stamp) && path@
                == #[trigger] waterfall_path(directory, crate::text::decimal(id as nat), stamp)
                ==> r == Found::Observation(id),
{
    let group = first_group(".*/.*receiving_waterfall_(\\d+)_.*\\.dat.*", path);
    let ghost digits = text_view(group);
    let r = observation_of(group);
    assert forall|directory: Seq<char>, id: u64, stamp: Seq<char>|
        usual_path(directory, crate::text::decimal(id as nat), stamp) && path@
            == #[trigger] waterfall_path(
            directory,
            crate::text::decimal(id as nat),
            stamp,
        ) implies r == Found::Observation(id) by {
        assert(digits == Some(crate::text::decimal(id as nat)));
        law_number_reads_decimal(id);
    }
    r
}

} // verus!
