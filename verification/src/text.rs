//! Text that the logger and the console assemble: decimal numbers, padded
//! fields, and the leading segment of a module path.

use vstd::prelude::*;
use vstd::string::StringExecFns;
use vstd::string::StrSliceExecFns;

verus! {

/// The character of one decimal digit.
pub open spec fn digit(d: int) -> char {
    if d == 0 {
        '0'
    } else if d == 1 {
        '1'
    } else if d == 2 {
        '2'
    } else if d == 3 {
        '3'
    } else if d == 4 {
        '4'
    } else if d == 5 {
        '5'
    } else if d == 6 {
        '6'
    } else if d == 7 {
        '7'
    } else if d == 8 {
        '8'
    } else {
        '9'
    }
}

/// A natural number in decimal, without leading zeros.
pub open spec fn decimal(n: nat) -> Seq<char>
    decreases n,
{
    if n < 10 {
        seq![digit(n as int)]
    } else {
        decimal(n / 10).push(digit((n % 10) as int))
    }
}

/// A natural number in decimal, with a leading zero where it has one digit.
pub open spec fn two_digits(n: nat) -> Seq<char> {
    if n < 10 {
        seq!['0'] + decimal(n)
    } else {
        decimal(n)
    }
}

fn digit_str(d: u8) -> (s: &'static str)
    requires
        d < 10,
    ensures
        s@ == seq![digit(d as int)],
{
    proof {
        reveal_strlit("0");
        reveal_strlit("1");
        reveal_strlit("2");
        reveal_strlit("3");
        reveal_strlit("4");
        reveal_strlit("5");
        reveal_strlit("6");
        reveal_strlit("7");
        reveal_strlit("8");
        reveal_strlit("9");
    }
    match d {
        0 => "0",
        1 => "1",
        2 => "2",
        3 => "3",
        4 => "4",
        5 => "5",
        6 => "6",
        7 => "7",
        8 => "8",
        _ => "9",
    }
}

/// A number in decimal, without leading zeros.
pub fn decimal_string(n: u128) -> (s: String)
    ensures
        s@ == decimal(n as nat),
    decreases n,
{
    if n < 10 {
        String::from_str(digit_str(n as u8))
    } else {
        let mut s = decimal_string(n / 10);
        s.append(digit_str((n % 10) as u8));
        s
    }
}

/// A number in decimal, with a leading zero where it has one digit.
pub fn two_digit_string(n: u32) -> (s: String)
    ensures
        s@ == two_digits(n as nat),
{
    let digits = decimal_string(n as u128);
    if n < 10 {
        let mut s = String::from_str("0");
        proof {
            reveal_strlit("0");
        }
        s.append(digits.as_str());
        s
    } else {
        digits
    }
}

/// Whether `"::"` stands at position `i` of `s`.
pub open spec fn separator_at(s: Seq<char>, i: int) -> bool {
    0 <= i && i + 1 < s.len() && s[i] == ':' && s[i + 1] == ':'
}

/// The position of the first `"::"` at or after `i`, or the length of `s`
/// where there is none.
pub open spec fn first_separator(s: Seq<char>, i: int) -> int
    decreases s.len() - i,
{
    if i < 0 || i >= s.len() {
        s.len() as int
    } else if separator_at(s, i) {
        i
    } else {
        first_separator(s, i + 1)
    }
}

/// The leading segment of a module path: what stands before the first
/// `"::"`, or the whole path.
pub open spec fn top_level(s: Seq<char>) -> Seq<char> {
    s.subrange(0, first_separator(s, 0))
}

/// The first `"::"` from `i` on stands where none stands before it.
pub proof fn lemma_first_separator(s: Seq<char>, i: int)
    requires
        0 <= i <= s.len(),
    ensures
        i <= first_separator(s, i) <= s.len(),
        first_separator(s, i) < s.len() ==> separator_at(s, first_separator(s, i)),
        forall|j: int| i <= j < first_separator(s, i) ==> !separator_at(s, j),
    decreases s.len() - i,
{
    if i < s.len() && !separator_at(s, i) {
        lemma_first_separator(s, i + 1);
    }
}

/// If no `"::"` stands in `i..k`, the first one from `i` is the first one from `k`.
proof fn lemma_skip_to(s: Seq<char>, i: int, k: int)
    requires
        0 <= i <= k <= s.len(),
        forall|j: int| i <= j < k ==> !separator_at(s, j),
    ensures
        first_separator(s, i) == first_separator(s, k),
    decreases k - i,
{
    if i < k {
        lemma_skip_to(s, i + 1, k);
    }
}

/// The leading segment of a module path: the path up to its first `"::"`,
/// or all of it where it has none.
pub fn top_level_namespace(path: &str) -> (head: &str)
    ensures
        head@ == top_level(path@),
        head@.len() <= path@.len(),
        head@ == path@.subrange(0, head@.len() as int),
        forall|j: int| 0 <= j < head@.len() ==> !separator_at(path@, j),
        head@.len() < path@.len() ==> separator_at(path@, head@.len() as int),
{
    proof {
        lemma_first_separator(path@, 0);
    }
    let n: usize = path.unicode_len();
    let mut end: usize = n;
    let mut found: bool = false;
    let mut previous_colon: bool = false;
    let mut i: usize = 0;
    for c in it: path.chars()
        invariant
            it.seq() == path@,
            n == path@.len(),
            i == it.index(),
            i <= n,
            previous_colon == (i > 0 && path@[i - 1] == ':'),
            found ==> end + 1 < n && separator_at(path@, end as int) && forall|j: int|
                0 <= j < end ==> !separator_at(path@, j),
            !found ==> end == n && forall|j: int| 0 <= j < i - 1 ==> !separator_at(path@, j),
    {
        if !found && previous_colon && c == ':' {
            found = true;
            end = i - 1;
        }
        previous_colon = c == ':';
        i += 1;
    }
    proof {
        if found {
            lemma_skip_to(path@, 0, end as int);
        } else {
            assert forall|j: int| 0 <= j < n implies !separator_at(path@, j) by {}
            lemma_skip_to(path@, 0, n as int);
        }
    }
    path.substring_char(0, end)
}

/// A list of named things, each name as its characters.
pub open spec fn names_of<T>(entries: Seq<(String, T)>) -> Seq<(Seq<char>, T)> {
    entries.map_values(|e: (String, T)| (e.0@, e.1))
}

/// The table that a list of named things stands for. Where a name occurs
/// twice, the later entry counts.
pub open spec fn table_of<V>(entries: Seq<(Seq<char>, V)>) -> Map<Seq<char>, V>
    decreases entries.len(),
{
    if entries.len() == 0 {
        Map::empty()
    } else {
        table_of(entries.drop_last()).insert(entries.last().0, entries.last().1)
    }
}

/// A table holds a name where the list does.
pub proof fn lemma_table_names<V>(entries: Seq<(Seq<char>, V)>, name: Seq<char>)
    ensures
        table_of(entries).contains_key(name) <==> exists|i: int|
            0 <= i < entries.len() && (#[trigger] entries[i]).0 == name,
    decreases entries.len(),
{
    if entries.len() > 0 {
        let rest = entries.drop_last();
        lemma_table_names(rest, name);
        if exists|i: int| 0 <= i < entries.len() && (#[trigger] entries[i]).0 == name {
            let i = choose|i: int| 0 <= i < entries.len() && (#[trigger] entries[i]).0 == name;
            if i < rest.len() {
                assert(rest[i].0 == name);
            }
        }
    }
}

/// The text that `{:?}` prints for a string: the string in double quotes,
/// with the characters that need it escaped.
pub uninterp spec fn debug_text(s: Seq<char>) -> Seq<char>;

/// `str`'s `Debug` formatting, by way of `format!`. It depends on the
/// characters alone, so its result has a name; what the name holds for a
/// given string is not stated.
#[verifier::external_body]
pub(crate) fn debug_string(s: &str) -> (quoted: String)
    ensures
        quoted@ == debug_text(s@),
{
    format!("{:?}", s)
}

/// Whether two pieces of text hold the same characters.
pub fn same_text(a: &str, b: &str) -> (same: bool)
    ensures
        same == (a@ == b@),
{
    a.to_owned() == b.to_owned()
}

} // verus!
