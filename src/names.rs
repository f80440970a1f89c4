//! Names of the files kept under the storage root, and the recognition of
//! archived tables of contents among a directory's entries.
use vstd::prelude::*;

verus! {

/// The decimal digit `d` as a character.
pub open spec fn digit_char(d: nat) -> char {
    seq!['0', '1', '2', '3', '4', '5', '6', '7', '8', '9'][d as int]
}

/// The decimal form of `n`, most significant digit first, without leading zeros.
pub open spec fn decimal(n: nat) -> Seq<char>
    decreases n,
{
    if n < 10 {
        seq![digit_char(n)]
    } else {
        decimal(n / 10).push(digit_char(n % 10))
    }
}

pub open spec fn is_ascii_digit(c: char) -> bool {
    '0' <= c && c <= '9'
}

pub open spec fn all_ascii_digits(s: Seq<char>) -> bool {
    forall|i: int| 0 <= i < s.len() ==> is_ascii_digit(#[trigger] s[i])
}

/// The number that a string of decimal digits stands for.
pub open spec fn decimal_value(s: Seq<char>) -> nat
    decreases s.len(),
{
    if s.len() == 0 {
        0
    } else {
        10 * decimal_value(s.drop_last()) + (s.last() as nat - '0' as nat) as nat
    }
}

/// The value of a digit string, if it is one (non-empty, ASCII digits only) and fits a `u32`.
pub open spec fn parse_u32_spec(s: Seq<char>) -> Option<u32> {
    if s.len() > 0 && all_ascii_digits(s) && decimal_value(s) <= u32::MAX {
        Some(decimal_value(s) as u32)
    } else {
        None
    }
}

/// What precedes the number in the name of an archived table of contents.
pub open spec fn archive_prefix(file_pattern: Seq<char>) -> Seq<char> {
    file_pattern + "_archived_"@
}

/// The archive number that `name` carries, if it is `{file_pattern}_archived_{N}`
/// with `N` ASCII digits that fit a `u32`.
pub open spec fn archive_spec(file_pattern: Seq<char>, name: Seq<char>) -> Option<u32> {
    let pre = archive_prefix(file_pattern);
    if name.len() > pre.len() && name.subrange(0, pre.len() as int) == pre {
        parse_u32_spec(name.subrange(pre.len() as int, name.len() as int))
    } else {
        None
    }
}

proof fn lemma_digit_char(d: nat)
    requires
        d < 10,
    ensures
        is_ascii_digit(digit_char(d)),
        digit_char(d) as nat - '0' as nat == d,
{
}

/// The decimal form of a number is a digit string that stands for the number.
pub proof fn lemma_decimal_round_trip(n: nat)
    ensures
        decimal(n).len() > 0,
        all_ascii_digits(decimal(n)),
        decimal_value(decimal(n)) == n,
    decreases n,
{
    if n < 10 {
        lemma_digit_char(n);
        reveal_with_fuel(decimal_value, 2);
    } else {
        lemma_decimal_round_trip(n / 10);
        lemma_digit_char(n % 10);
        let s = decimal(n);
        assert(s.drop_last() == decimal(n / 10));
        assert forall|i: int| 0 <= i < s.len() implies is_ascii_digit(#[trigger] s[i]) by {
            if i < s.len() - 1 {
                assert(s[i] == decimal(n / 10)[i]);
            }
        }
    }
}

/// The one-character string of digit `d`.
fn digit_str(d: u64) -> (r: &'static str)
    requires
        d < 10,
    ensures
        r@ == seq![digit_char(d as nat)],
{
    proof {
        reveal_strlit("0");
        reveal_strlit("1");
        reveal_strlit("2");
        reveal_strlit("3");
        reveal_strlit("4");
        reveal_strlit("5");
        reveal_strlit("6");
        reveal_strlit("7");
        reveal_strlit("8");
        reveal_strlit("9");
    }
    if d == 0 {
        "0"
    } else if d == 1 {
        "1"
    } else if d == 2 {
        "2"
    } else if d == 3 {
        "3"
    } else if d == 4 {
        "4"
    } else if d == 5 {
        "5"
    } else if d == 6 {
        "6"
    } else if d == 7 {
        "7"
    } else if d == 8 {
        "8"
    } else {
        "9"
    }
}

/// Appends the decimal form of `n` to `out`.
pub fn push_decimal(out: &mut String, n: u64)
    ensures
        final(out)@ == old(out)@ + decimal(n as nat),
    decreases n,
{
    if n >= 10 {
        push_decimal(out, n / 10);
    }
    out.append(digit_str(n % 10));
    assert(out@ =~= old(out)@ + decimal(n as nat));
}

/// `{file_pattern}_latest`: the current table of contents.
pub fn format_latest_file_name(file_pattern: &str) -> (r: String)
    ensures
        r@ == file_pattern@ + "_latest"@,
{
    let mut r = file_pattern.to_string();
    r.append("_latest");
    r
}

/// `{file_pattern}_archived_{counter}`: a superseded table of contents.
pub fn format_archived_file_name(file_pattern: &str, counter: u32) -> (r: String)
    ensures
        r@ == archive_prefix(file_pattern@) + decimal(counter as nat),
{
    let mut r = file_pattern.to_string();
    r.append("_archived_");
    push_decimal(&mut r, counter as u64);
    r
}

/// `.{file_pattern}_working`: a table of contents being written.
pub fn format_working_file_name(file_pattern: &str) -> (r: String)
    ensures
        r@ == "."@ + file_pattern@ + "_working"@,
{
    let mut r = ".".to_string();
    r.append(file_pattern);
    r.append("_working");
    r
}

/// `.{file_pattern}_{file_count}`: a segment of an append or rolling log.
pub fn format_nth_file_name(file_pattern: &str, file_count: u32) -> (r: String)
    ensures
        r@ == "."@ + file_pattern@ + "_"@ + decimal(file_count as nat),
{
    let mut r = ".".to_string();
    r.append(file_pattern);
    r.append("_");
    push_decimal(&mut r, file_count as u64);
    r
}

/// `{file_pattern}_{file_count}`: the stem of a segment's backup name.
pub fn format_segment_stem(file_pattern: &str, file_count: u32) -> (r: String)
    ensures
        r@ == file_pattern@ + "_"@ + decimal(file_count as nat),
{
    let mut r = file_pattern.to_string();
    r.append("_");
    push_decimal(&mut r, file_count as u64);
    r
}

/// `{file_pattern}_index`: the header of a fixed-slot log.
pub fn format_index_file_name(file_pattern: &str) -> (r: String)
    ensures
        r@ == file_pattern@ + "_index"@,
{
    let mut r = file_pattern.to_string();
    r.append("_index");
    r
}

/// `.{file_pattern}_index_backup`: the previous header, kept while a new one is put in place.
pub fn format_backup_index_file_name(file_pattern: &str) -> (r: String)
    ensures
        r@ == "."@ + file_pattern@ + "_index_backup"@,
{
    let mut r = ".".to_string();
    r.append(file_pattern);
    r.append("_index_backup");
    r
}

/// `.{file_pattern}_index_working`: a header being written.
pub fn format_working_index_file_name(file_pattern: &str) -> (r: String)
    ensures
        r@ == "."@ + file_pattern@ + "_index_working"@,
{
    let mut r = ".".to_string();
    r.append(file_pattern);
    r.append("_index_working");
    r
}

/// `{file_pattern}_{from_index}_{up_to_index}`: the segment of a fixed-slot log
/// that holds slots `from_index..up_to_index`.
pub fn format_range_file_name(file_pattern: &str, from_index: u64, up_to_index: u64) -> (r: String)
    ensures
        r@ == file_pattern@ + "_"@ + decimal(from_index as nat) + "_"@ + decimal(
            up_to_index as nat,
        ),
{
    let mut r = file_pattern.to_string();
    r.append("_");
    push_decimal(&mut r, from_index);
    r.append("_");
    push_decimal(&mut r, up_to_index);
    r
}

/// `{stem}.bak.{timestamp}`: where a segment's unconfirmed tail is kept.
pub fn format_backup_file_name(stem: &str, timestamp: i64) -> (r: String)
    ensures
        timestamp >= 0 ==> r@ == stem@ + ".bak."@ + decimal(timestamp as nat),
        timestamp < 0 ==> r@ == stem@ + ".bak.-"@ + decimal((-timestamp) as nat),
{
    let mut r = stem.to_string();
    if timestamp >= 0 {
        r.append(".bak.");
        push_decimal(&mut r, timestamp as u64);
    } else {
        r.append(".bak.-");
        let magnitude: u64 = if timestamp == i64::MIN {
            0x8000_0000_0000_0000u64
        } else {
            (-timestamp) as u64
        };
        push_decimal(&mut r, magnitude);
    }
    r
}

/// Reads a string of ASCII decimal digits as a `u32`.
pub fn parse_u32(s: &str) -> (r: Option<u32>)
    ensures
        r == parse_u32_spec(s@),
{
    let n = s.unicode_len();
    if n == 0 {
        return None;
    }
    let mut acc: u64 = 0;
    let mut i: usize = 0;
    while i < n
        invariant
            n == s@.len(),
            i <= n,
            all_ascii_digits(s@.subrange(0, i as int)),
            acc == decimal_value(s@.subrange(0, i as int)),
            acc <= u32::MAX,
        decreases n - i,
    {
        let c = s.get_char(i);
        let ghost pre = s@.subrange(0, i as int);
        let ghost next = s@.subrange(0, i + 1);
        assert(next.drop_last() =~= pre);
        if !('0' <= c && c <= '9') {
            assert(!all_ascii_digits(s@)) by {
                assert(!is_ascii_digit(s@[i as int]));
            }
            return None;
        }
        acc = 10 * acc + (c as u64 - '0' as u64);
        assert forall|j: int| 0 <= j < next.len() implies is_ascii_digit(#[trigger] next[j]) by {
            if j < i {
                assert(next[j] == pre[j]);
            }
        }
        if acc > 0xFFFF_FFFFu64 {
            proof {
                lemma_decimal_value_grows(s@, i + 1);
            }
            return None;
        }
        i = i + 1;
    }
    assert(s@.subrange(0, n as int) =~= s@);
    Some(acc as u32)
}

/// A digit string stands for at least what any of its prefixes stands for.
proof fn lemma_decimal_value_grows(s: Seq<char>, k: int)
    requires
        0 <= k <= s.len(),
    ensures
        decimal_value(s) >= decimal_value(s.subrange(0, k)),
    decreases s.len() - k,
{
    if k < s.len() {
        lemma_decimal_value_grows(s, k + 1);
        let a = s.subrange(0, k + 1);
        assert(a.drop_last() =~= s.subrange(0, k));
    } else {
        assert(s.subrange(0, k) =~= s);
    }
}

/// Relies on regex::Regex: built from `^{escaped file_pattern}_archived_(\d+)$`
/// (regex::escape makes the pattern literal) and applied with `captures`, it
/// returns the text of group 1. A match spans the whole name, so that text is
/// the non-empty rest of the name after the fixed prefix; `\d` matches every
/// ASCII digit. The regex is built within the crate's default size limit for
/// patterns of up to 255 characters.
#[verifier::external_body]
fn archive_suffix(file_pattern: &str, name: &str) -> (r: Option<String>)
    ensures
        r matches Some(d) ==> d@.len() > 0 && name@ == archive_prefix(file_pattern@) + d@,
        file_pattern@.len() <= 255 && name@.len() > archive_prefix(file_pattern@).len()
            && name@.subrange(0, archive_prefix(file_pattern@).len() as int) == archive_prefix(
            file_pattern@,
        ) && all_ascii_digits(
            name@.subrange(archive_prefix(file_pattern@).len() as int, name@.len() as int),
        ) ==> r is Some,
{
    let re = regex::Regex::new(&format!("^{}_archived_(\\d+)$", regex::escape(file_pattern))).ok()?;
    let captures = re.captures(name)?;
    let digits = captures.get(1)?;
    Some(digits.as_str().to_string())
}

/// The archive number of `name`, when it names an archived table of contents of
/// `file_pattern`.
pub fn archive_number(file_pattern: &str, name: &str) -> (r: Option<u32>)
    ensures
        r matches Some(n) ==> archive_spec(file_pattern@, name@) == Some(n),
        file_pattern@.len() <= 255 ==> r == archive_spec(file_pattern@, name@),
{
    let ghost pre = archive_prefix(file_pattern@);
    match archive_suffix(file_pattern, name) {
        None => None,
        Some(d) => {
            proof {
                assert(name@.subrange(0, pre.len() as int) =~= pre);
                assert(name@.subrange(pre.len() as int, name@.len() as int) =~= d@);
            }
            parse_u32(d.as_str())
        },
    }
}

/// Formatting an archive name and reading its number back agree.
pub proof fn lemma_archive_name_round_trip(file_pattern: Seq<char>, counter: u32)
    ensures
        archive_spec(file_pattern, archive_prefix(file_pattern) + decimal(counter as nat))
            == Some(counter),
{
    let pre = archive_prefix(file_pattern);
    let name = pre + decimal(counter as nat);
    lemma_decimal_round_trip(counter as nat);
    assert(name.subrange(0, pre.len() as int) =~= pre);
    assert(name.subrange(pre.len() as int, name.len() as int) =~= decimal(counter as nat));
}

} // verus!
