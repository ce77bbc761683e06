//! Text as sequences of characters: decimal numbers, trimming, splitting.

use vstd::prelude::*;
use vstd::string::*;

verus! {

/// The view of a value that may be absent.
pub open spec fn view_opt<T: View>(o: Option<T>) -> Option<T::V> {
    match o {
        Some(x) => Some(x@),
        None => None,
    }
}

/// The views of the elements of a sequence.
pub open spec fn view_all<T: View>(s: Seq<T>) -> Seq<T::V> {
    Seq::new(s.len(), |i: int| s[i]@)
}

/// Whether two strings hold the same characters.
pub fn same(a: &str, b: &str) -> (r: bool)
    ensures
        r == (a@ == b@),
{
    a.to_owned() == b.to_owned()
}

/// `a` followed by `b`.
pub fn join(a: &str, b: &str) -> (r: String)
    ensures
        r@ == a@ + b@,
{
    a.to_owned().concat(b)
}

/// `a`, then `b`, then `c`.
pub fn join3(a: &str, b: &str, c: &str) -> (r: String)
    ensures
        r@ == a@ + b@ + c@,
{
    a.to_owned().concat(b).concat(c)
}

// ---------------------------------------------------------------------------
// Decimal numbers
// ---------------------------------------------------------------------------

pub open spec fn digit_char(d: int) -> char {
    (48 + d) as char
}

/// The decimal digits of `n`, without leading zeros.
pub open spec fn digits(n: nat) -> Seq<char>
    decreases n,
{
    if n < 10 {
        seq![digit_char(n as int)]
    } else {
        digits(n / 10).push(digit_char((n % 10) as int))
    }
}

/// The decimal form of an integer.
pub open spec fn decimal(n: int) -> Seq<char> {
    if n < 0 {
        seq!['-'] + digits((-n) as nat)
    } else {
        digits(n as nat)
    }
}

pub open spec fn is_digit(c: char) -> bool {
    '0' <= c <= '9'
}

pub open spec fn digit_value(c: char) -> int {
    c as int - 48
}

/// The number that a sequence of digits denotes.
pub open spec fn digits_value(s: Seq<char>) -> int
    decreases s.len(),
{
    if s.len() == 0 {
        0
    } else {
        digits_value(s.drop_last()) * 10 + digit_value(s.last())
    }
}

pub open spec fn all_digits(s: Seq<char>) -> bool {
    forall|i: int| 0 <= i < s.len() ==> is_digit(#[trigger] s[i])
}

/// The digits of a number, behind an optional plus sign.
pub open spec fn unsigned_body(s: Seq<char>) -> Seq<char> {
    if s.len() > 0 && s[0] == '+' {
        s.skip(1)
    } else {
        s
    }
}

/// The unsigned number that `s` denotes, if it is one and at most `max`: an
/// optional plus sign, then one or more digits and nothing else.
pub open spec fn unsigned(s: Seq<char>, max: int) -> Option<int> {
    let body = unsigned_body(s);
    if body.len() > 0 && all_digits(body) && digits_value(body) <= max {
        Some(digits_value(body))
    } else {
        None
    }
}

fn digit_text(d: u8) -> (r: &'static str)
    requires
        d < 10,
    ensures
        r@ == seq![digit_char(d as int)],
{
    proof {
        reveal_strlit("0");
        reveal_strlit("1");
        reveal_strlit("2");
        reveal_strlit("3");
        reveal_strlit("4");
        reveal_strlit("5");
        reveal_strlit("6");
        reveal_strlit("7");
        reveal_strlit("8");
        reveal_strlit("9");
    }
    let r = match d {
        0 => "0",
        1 => "1",
        2 => "2",
        3 => "3",
        4 => "4",
        5 => "5",
        6 => "6",
        7 => "7",
        8 => "8",
        _ => "9",
    };
    assert(r@ =~= seq![digit_char(d as int)]);
    r
}

/// Writes an unsigned number in decimal.
pub fn u128_text(n: u128) -> (r: String)
    ensures
        r@ == decimal(n as int),
    decreases n,
{
    if n < 10 {
        digit_text(n as u8).to_owned()
    } else {
        u128_text(n / 10).concat(digit_text((n % 10) as u8))
    }
}

/// Writes an unsigned number in decimal.
pub fn u64_text(n: u64) -> (r: String)
    ensures
        r@ == decimal(n as int),
{
    u128_text(n as u128)
}

/// Writes a signed number in decimal.
pub fn i64_text(n: i64) -> (r: String)
    ensures
        r@ == decimal(n as int),
{
    if n < 0 {
        proof {
            reveal_strlit("-");
            assert("-"@ =~= seq!['-']);
        }
        join("-", u128_text((-(n as i128)) as u128).as_str())
    } else {
        u128_text(n as u128)
    }
}

/// Reads an unsigned number of at most `max`.
pub fn parse_unsigned(s: &str, max: u64) -> (r: Option<u64>)
    ensures
        r matches Some(n) ==> unsigned(s@, max as int) == Some(n as int),
        r is None ==> unsigned(s@, max as int) is None,
{
    let len = s.unicode_len();
    let start: usize = if len > 0 && s.get_char(0) == '+' {
        1
    } else {
        0
    };
    let ghost body = unsigned_body(s@);
    assert(body =~= s@.skip(start as int));
    if start == len {
        return None;
    }
    let mut n: u64 = 0;
    let mut i: usize = start;
    while i < len
        invariant
            start <= i <= len,
            len == s@.len(),
            body == s@.skip(start as int),
            body == unsigned_body(s@),
            forall|k: int| 0 <= k < i - start ==> is_digit(#[trigger] body[k]),
            n == digits_value(body.take(i - start)),
            n <= max,
        decreases len - i,
    {
        let c = s.get_char(i);
        let ghost k = i - start;
        assert(body[k] == c);
        assert(body.take(k + 1).drop_last() =~= body.take(k));
        assert(body.take(k + 1).last() == c);
        if c < '0' || c > '9' {
            assert(!is_digit(body[k]));
            return None;
        }
        let d: u64 = (c as u32 - 48) as u64;
        let next: u128 = (n as u128) * 10 + d as u128;
        if next > max as u128 {
            proof {
                if all_digits(body) {
                    lemma_prefix_value(body, k + 1);
                }
            }
            return None;
        }
        n = next as u64;
        i = i + 1;
    }
    assert(body.take(len - start) =~= body);
    Some(n)
}

/// A number is at least as large as any prefix of its digits.
proof fn lemma_prefix_value(s: Seq<char>, k: int)
    requires
        all_digits(s),
        0 <= k <= s.len(),
    ensures
        0 <= digits_value(s.take(k)) <= digits_value(s),
    decreases s.len(),
{
    if k == s.len() {
        assert(s.take(k) =~= s);
        if k > 0 {
            assert(s.take(k - 1) =~= s.drop_last());
            lemma_prefix_value(s.drop_last(), k - 1);
            assert(s.drop_last().take(k - 1) =~= s.drop_last());
        }
    } else {
        assert(s.drop_last().take(k) =~= s.take(k));
        lemma_prefix_value(s.drop_last(), k);
    }
}

proof fn lemma_digits(n: nat)
    ensures
        digits(n).len() > 0,
        all_digits(digits(n)),
        digits_value(digits(n)) == n,
    decreases n,
{
    if n < 10 {
        assert(digits(n).drop_last() =~= Seq::<char>::empty());
        assert(digits_value(Seq::<char>::empty()) == 0);
    } else {
        lemma_digits(n / 10);
        assert(digits(n).drop_last() =~= digits(n / 10));
    }
}

/// Reading a number back from its decimal form gives the number.
pub proof fn law_decimal_reads_back(n: nat, max: int)
    requires
        n <= max,
    ensures
        unsigned(decimal(n as int), max) == Some(n as int),
{
    lemma_digits(n);
    assert(is_digit(digits(n)[0]));
}

/// Different numbers have different decimal forms.
pub proof fn law_decimal_is_injective(m: nat, n: nat)
    requires
        decimal(m as int) == decimal(n as int),
    ensures
        m == n,
{
    lemma_digits(m);
    lemma_digits(n);
}

// ---------------------------------------------------------------------------
// Trimming and splitting
// ---------------------------------------------------------------------------

/// Whether a character has the Unicode property `White_Space`.
pub open spec fn white_space(c: char) -> bool {
    ||| '\u{9}' <= c <= '\u{d}'
    ||| c == ' ' || c == '\u{85}' || c == '\u{a0}' || c == '\u{1680}'
    ||| '\u{2000}' <= c <= '\u{200a}'
    ||| c == '\u{2028}' || c == '\u{2029}' || c == '\u{202f}' || c == '\u{205f}'
    ||| c == '\u{3000}'
}

fn is_white_space(c: char) -> (r: bool)
    ensures
        r == white_space(c),
{
    ('\u{9}' <= c && c <= '\u{d}') || c == ' ' || c == '\u{85}' || c == '\u{a0}' || c == '\u{1680}'
        || ('\u{2000}' <= c && c <= '\u{200a}') || c == '\u{2028}' || c == '\u{2029}'
        || c == '\u{202f}' || c == '\u{205f}' || c == '\u{3000}'
}

pub open spec fn trim_start(s: Seq<char>) -> Seq<char>
    decreases s.len(),
{
    if s.len() > 0 && white_space(s[0]) {
        trim_start(s.skip(1))
    } else {
        s
    }
}

pub open spec fn trim_end(s: Seq<char>) -> Seq<char>
    decreases s.len(),
{
    if s.len() > 0 && white_space(s.last()) {
        trim_end(s.drop_last())
    } else {
        s
    }
}

/// `s` without its leading and trailing white space.
pub open spec fn trimmed(s: Seq<char>) -> Seq<char> {
    trim_end(trim_start(s))
}

/// Removes leading and trailing white space.
pub fn trim(s: &str) -> (r: String)
    ensures
        r@ == trimmed(s@),
{
    let len = s.unicode_len();
    let mut i: usize = 0;
    assert(s@.skip(0) =~= s@);
    while i < len && is_white_space(s.get_char(i))
        invariant
            i <= len,
            len == s@.len(),
            trim_start(s@) == trim_start(s@.skip(i as int)),
        ensures
            i <= len,
            trim_start(s@) == s@.skip(i as int),
        decreases len - i,
    {
        assert(s@.skip(i as int).skip(1) =~= s@.skip(i + 1));
        i = i + 1;
    }
    let mut j: usize = len;
    assert(s@.subrange(i as int, j as int) =~= s@.skip(i as int));
    while j > i && is_white_space(s.get_char(j - 1))
        invariant
            i <= j <= len,
            len == s@.len(),
            trimmed(s@) == trim_end(s@.subrange(i as int, j as int)),
        ensures
            i <= j <= len,
            trimmed(s@) == s@.subrange(i as int, j as int),
        decreases j,
    {
        assert(s@.subrange(i as int, j as int).drop_last() =~= s@.subrange(i as int, j - 1));
        j = j - 1;
    }
    s.substring_char(i, j).to_owned()
}

/// The pieces of `s` between occurrences of `sep`; at least one, perhaps empty.
pub open spec fn split(s: Seq<char>, sep: char) -> Seq<Seq<char>>
    decreases s.len(),
{
    if s.len() == 0 {
        seq![s]
    } else if s.last() == sep {
        split(s.drop_last(), sep).push(Seq::empty())
    } else {
        let head = split(s.drop_last(), sep);
        head.update(head.len() - 1, head.last().push(s.last()))
    }
}

/// The trimmed pieces that are not empty.
pub open spec fn nonempty_trimmed(pieces: Seq<Seq<char>>) -> Seq<Seq<char>>
    decreases pieces.len(),
{
    if pieces.len() == 0 {
        seq![]
    } else {
        let head = nonempty_trimmed(pieces.drop_last());
        let piece = trimmed(pieces.last());
        if piece.len() == 0 {
            head
        } else {
            head.push(piece)
        }
    }
}

/// The entries of a comma-separated list, trimmed, without the empty ones.
pub open spec fn list_entries(s: Seq<char>) -> Seq<Seq<char>> {
    nonempty_trimmed(split(s, ','))
}

/// Reads a comma-separated list.
pub fn parse_list(s: &str) -> (r: Vec<String>)
    ensures
        view_all(r@) == list_entries(s@),
{
    let len = s.unicode_len();
    let mut out: Vec<String> = Vec::new();
    let mut start: usize = 0;
    let mut i: usize = 0;
    assert(s@.take(0) =~= Seq::<char>::empty());
    assert(split(s@.take(0), ',').drop_last() =~= seq![]);
    assert(view_all(out@) =~= seq![]);
    while i < len
        invariant
            start <= i <= len,
            len == s@.len(),
            split(s@.take(i as int), ',').len() > 0,
            split(s@.take(i as int), ',').last() == s@.subrange(start as int, i as int),
            view_all(out@) == nonempty_trimmed(split(s@.take(i as int), ',').drop_last()),
        decreases len - i,
    {
        let ghost before = split(s@.take(i as int), ',');
        let ghost after = split(s@.take(i + 1), ',');
        assert(s@.take(i + 1).drop_last() =~= s@.take(i as int));
        assert(s@.take(i + 1).last() == s@[i as int]);
        if s.get_char(i) == ',' {
            let ghost old_out = view_all(out@);
            let piece = trim(s.substring_char(start, i));
            assert(after.drop_last() =~= before);
            if !piece.as_str().is_empty() {
                let ghost piece_text = piece@;
                out.push(piece);
                assert(view_all(out@) =~= old_out.push(piece_text));
            }
            start = i + 1;
            assert(s@.subrange(i + 1, i + 1) =~= Seq::<char>::empty());
        } else {
            assert(after.drop_last() =~= before.drop_last());
            assert(before.last().push(s@[i as int]) =~= s@.subrange(start as int, i + 1));
        }
        i = i + 1;
    }
    assert(s@.take(len as int) =~= s@);
    let ghost old_out = view_all(out@);
    let piece = trim(s.substring_char(start, len));
    if !piece.as_str().is_empty() {
        let ghost piece_text = piece@;
        out.push(piece);
        assert(view_all(out@) =~= old_out.push(piece_text));
    }
    out
}

/// The part of `s` behind the last `::`, or all of `s`.
pub open spec fn last_segment(s: Seq<char>) -> Seq<char>
    decreases s.len(),
{
    if s.len() < 2 {
        s
    } else if s[s.len() - 2] == ':' && s[s.len() - 1] == ':' {
        Seq::empty()
    } else {
        last_segment(s.drop_last()).push(s.last())
    }
}

/// The last segment of a qualified name.
pub fn segment(s: &str) -> (r: &str)
    ensures
        r@ == last_segment(s@),
{
    let len = s.unicode_len();
    let mut i: usize = len;
    assert(s@.take(len as int) =~= s@);
    assert(s@.skip(len as int) =~= Seq::<char>::empty());
    while i >= 2 && !(s.get_char(i - 2) == ':' && s.get_char(i - 1) == ':')
        invariant
            i <= len,
            len == s@.len(),
            last_segment(s@) == last_segment(s@.take(i as int)) + s@.skip(i as int),
        ensures
            i <= len,
            i >= 2 ==> s@[i - 2] == ':' && s@[i - 1] == ':',
            last_segment(s@) == last_segment(s@.take(i as int)) + s@.skip(i as int),
        decreases i,
    {
        let ghost t = s@.take(i as int);
        assert(t.drop_last() =~= s@.take(i - 1));
        assert(last_segment(t.drop_last()).push(t.last()) + s@.skip(i as int) =~= last_segment(
            t.drop_last(),
        ) + s@.skip(i - 1));
        i = i - 1;
    }
    let from: usize = if i >= 2 {
        i
    } else {
        0
    };
    assert(last_segment(s@) =~= s@.subrange(from as int, len as int));
    s.substring_char(from, len)
}

/// `s` without its leading repetitions of `0x`.
pub open spec fn strip_hex_prefix(s: Seq<char>) -> Seq<char>
    decreases s.len(),
{
    if s.len() >= 2 && s[0] == '0' && s[1] == 'x' {
        strip_hex_prefix(s.skip(2))
    } else {
        s
    }
}

/// Removes every leading `0x`.
pub fn without_hex_prefix(s: &str) -> (r: &str)
    ensures
        r@ == strip_hex_prefix(s@),
{
    let len = s.unicode_len();
    let mut i: usize = 0;
    assert(s@.skip(0) =~= s@);
    while len - i >= 2 && s.get_char(i) == '0' && s.get_char(i + 1) == 'x'
        invariant
            i <= len,
            len == s@.len(),
            strip_hex_prefix(s@) == strip_hex_prefix(s@.skip(i as int)),
        ensures
            i <= len,
            strip_hex_prefix(s@) == s@.skip(i as int),
        decreases len - i,
    {
        assert(s@.skip(i as int).skip(2) =~= s@.skip(i + 2));
        i = i + 2;
    }
    assert(s@.subrange(i as int, len as int) =~= s@.skip(i as int));
    s.substring_char(i, len)
}

pub open spec fn ascii_lower(c: char) -> char {
    if 'A' <= c <= 'Z' {
        (c as int + 32) as char
    } else {
        c
    }
}

/// `s` with its ASCII letters in lower case.
pub open spec fn lower(s: Seq<char>) -> Seq<char> {
    Seq::new(s.len(), |i: int| ascii_lower(s[i]))
}

/// The small letter of a capital one.
fn small_letter(c: char) -> (r: &'static str)
    requires
        'A' <= c <= 'Z',
    ensures
        r@ == seq![ascii_lower(c)],
{
    proof {
        reveal_strlit("abcdefghijklmnopqrstuvwxyz");
    }
    let i: usize = (c as u32 - 'A' as u32) as usize;
    let r = "abcdefghijklmnopqrstuvwxyz".substring_char(i, i + 1);
    assert(r@ =~= seq![ascii_lower(c)]);
    r
}

/// Writes `s` with its ASCII letters in lower case.
pub fn to_lower(s: &str) -> (r: String)
    ensures
        r@ == lower(s@),
{
    let len = s.unicode_len();
    let mut out = String::new();
    let mut i: usize = 0;
    while i < len
        invariant
            i <= len,
            len == s@.len(),
            out@ =~= lower(s@).take(i as int),
        decreases len - i,
    {
        let c = s.get_char(i);
        if 'A' <= c && c <= 'Z' {
            out.append(small_letter(c));
        } else {
            out.append(s.substring_char(i, i + 1));
        }
        i = i + 1;
    }
    assert(lower(s@).take(len as int) =~= lower(s@));
    out
}

// ---------------------------------------------------------------------------
// What the readers mean
// ---------------------------------------------------------------------------

/// A number below zero is written as its absolute value behind a minus sign.
pub proof fn law_negative_numbers_have_a_sign(n: int)
    requires
        n > 0,
    ensures
        decimal(-n) == seq!['-'] + decimal(n),
{
}

/// Whatever is read as a number consists of digits, but for a plus sign in front, and
/// the sign makes no difference.
pub proof fn law_numbers_are_digits(s: Seq<char>, max: int)
    ensures
        unsigned(s, max) is Some && s.len() > 0 ==> forall|i: int|
            0 < i < s.len() ==> '0' <= #[trigger] s[i] <= '9',
        unsigned(s, max) is Some ==> s.len() > 0 && ('0' <= s[0] <= '9' || s[0] == '+' && s.len()
            > 1),
        unsigned(s, max) matches Some(n) ==> 0 <= n <= max,
        s.len() > 0 && s[0] != '+' ==> unsigned(seq!['+'] + s, max) == unsigned(s, max),
{
    let body = unsigned_body(s);
    if unsigned(s, max) is Some {
        lemma_prefix_value(body, 0);
        assert(is_digit(body[0]));
        assert forall|i: int| 0 < i < s.len() implies '0' <= #[trigger] s[i] <= '9' by {
            if s[0] == '+' {
                assert(s[i] == body[i - 1]);
            } else {
                assert(s[i] == body[i]);
            }
        }
    }
    if s.len() > 0 && s[0] != '+' {
        assert((seq!['+'] + s).skip(1) =~= s);
    }
}

/// The last segment of a qualified name is what follows the last `::`, and a name
/// without `::` is its own last segment.
pub proof fn law_last_segment_follows_the_colons(path: Seq<char>, name: Seq<char>)
    requires
        forall|i: int| 0 <= i < name.len() ==> #[trigger] name[i] != ':',
    ensures
        last_segment(path + seq![':', ':'] + name) == name,
        last_segment(name) == name,
    decreases name.len(),
{
    let s = path + seq![':', ':'] + name;
    if name.len() == 0 {
        assert(s[s.len() - 2] == ':' && s[s.len() - 1] == ':');
        assert(last_segment(s) =~= name);
    } else {
        let head = name.drop_last();
        assert forall|i: int| 0 <= i < head.len() implies #[trigger] head[i] != ':' by {
            assert(head[i] == name[i]);
        }
        law_last_segment_follows_the_colons(path, head);
        assert(s.drop_last() =~= path + seq![':', ':'] + head);
        assert(s.last() == name.last());
        assert(name[name.len() - 1] != ':');
        assert(head.push(name.last()) =~= name);
    }
}

/// White space around a text that has none at its ends is what trimming takes away.
pub proof fn law_trimming_takes_the_white_space(
    before: Seq<char>,
    s: Seq<char>,
    after: Seq<char>,
)
    requires
        forall|i: int| 0 <= i < before.len() ==> white_space(#[trigger] before[i]),
        forall|i: int| 0 <= i < after.len() ==> white_space(#[trigger] after[i]),
        s.len() > 0 ==> !white_space(s[0]) && !white_space(s.last()),
    ensures
        trimmed(before + s + after) == s,
    decreases before.len() + after.len(),
{
    let all = before + s + after;
    if before.len() > 0 {
        assert(white_space(before[0]));
        assert(all.skip(1) =~= before.skip(1) + s + after);
        law_trimming_takes_the_white_space(before.skip(1), s, after);
    } else if after.len() > 0 {
        assert(white_space(after[after.len() - 1]));
        assert(all.drop_last() =~= before + s + after.drop_last());
        law_trimming_takes_the_white_space(before, s, after.drop_last());
        if s.len() > 0 {
            assert(trim_start(all) == all);
            assert(trim_start(all.drop_last()) == all.drop_last());
        } else {
            assert(all =~= after);
            lemma_all_white(after);
            assert(trim_start(after) =~= s);
            assert(trim_end(s) =~= s);
        }
    } else {
        assert(all =~= s);
    }
}

proof fn lemma_all_white(s: Seq<char>)
    requires
        forall|i: int| 0 <= i < s.len() ==> white_space(#[trigger] s[i]),
    ensures
        trim_start(s) == Seq::<char>::empty(),
    decreases s.len(),
{
    if s.len() > 0 {
        lemma_all_white(s.skip(1));
    } else {
        assert(s =~= Seq::<char>::empty());
    }
}

/// A blank, a tab and the ends of lines are white space; letters and digits are not.
pub proof fn law_white_space(c: char)
    ensures
        c == ' ' || c == '\t' || c == '\n' || c == '\r' ==> white_space(c),
        'a' <= c <= 'z' || 'A' <= c <= 'Z' || '0' <= c <= '9' || c == ',' ==> !white_space(c),
{
}

/// The entries of two lists that are joined by a comma are those of the one, then those
/// of the other. The only entry of a list without a comma is the text without the white
/// space around it, if anything is left.
pub proof fn law_list_entries(a: Seq<char>, b: Seq<char>)
    ensures
        list_entries(a + seq![','] + b) == list_entries(a) + list_entries(b),
        (forall|i: int| 0 <= i < a.len() ==> #[trigger] a[i] != ',') ==> list_entries(a)
            == if trimmed(a).len() > 0 {
            seq![trimmed(a)]
        } else {
            seq![]
        },
{
    lemma_split_joined(a, b);
    lemma_entries_joined(split(a, ','), split(b, ','));
    if forall|i: int| 0 <= i < a.len() ==> #[trigger] a[i] != ',' {
        lemma_split_whole(a);
        assert(seq![a].drop_last() =~= Seq::<Seq<char>>::empty());
        assert(nonempty_trimmed(Seq::<Seq<char>>::empty()) =~= seq![]);
        assert(list_entries(a) =~= if trimmed(a).len() > 0 {
            seq![trimmed(a)]
        } else {
            seq![]
        });
    }
}

proof fn lemma_split_some(s: Seq<char>)
    ensures
        split(s, ',').len() > 0,
    decreases s.len(),
{
    if s.len() > 0 {
        lemma_split_some(s.drop_last());
    }
}

proof fn lemma_split_whole(s: Seq<char>)
    requires
        forall|i: int| 0 <= i < s.len() ==> #[trigger] s[i] != ',',
    ensures
        split(s, ',') == seq![s],
    decreases s.len(),
{
    if s.len() > 0 {
        let head = s.drop_last();
        assert forall|i: int| 0 <= i < head.len() implies #[trigger] head[i] != ',' by {
            assert(head[i] == s[i]);
        }
        lemma_split_whole(head);
        assert(s[s.len() - 1] != ',');
        assert(head.push(s.last()) =~= s);
        assert(split(s, ',') =~= seq![s]);
    }
}

proof fn lemma_split_joined(a: Seq<char>, b: Seq<char>)
    ensures
        split(a + seq![','] + b, ',') == split(a, ',') + split(b, ','),
    decreases b.len(),
{
    let s = a + seq![','] + b;
    lemma_split_some(a);
    if b.len() == 0 {
        assert(s.drop_last() =~= a);
        assert(s.last() == ',');
        assert(b =~= Seq::<char>::empty());
        assert(split(s, ',') =~= split(a, ',') + split(b, ','));
    } else {
        lemma_split_joined(a, b.drop_last());
        lemma_split_some(b.drop_last());
        assert(s.drop_last() =~= a + seq![','] + b.drop_last());
        assert(s.last() == b.last());
        assert(split(s, ',') =~= split(a, ',') + split(b, ','));
    }
}

proof fn lemma_entries_joined(a: Seq<Seq<char>>, b: Seq<Seq<char>>)
    ensures
        nonempty_trimmed(a + b) == nonempty_trimmed(a) + nonempty_trimmed(b),
    decreases b.len(),
{
    if b.len() == 0 {
        assert(a + b =~= a);
        assert(nonempty_trimmed(a + b) =~= nonempty_trimmed(a) + nonempty_trimmed(b));
    } else {
        lemma_entries_joined(a, b.drop_last());
        assert((a + b).drop_last() =~= a + b.drop_last());
        assert(nonempty_trimmed(a + b) =~= nonempty_trimmed(a) + nonempty_trimmed(b));
    }
}

/// An id is the same with and without `0x`; whatever is left has no such prefix.
pub proof fn law_hex_prefix_is_ignored(s: Seq<char>)
    ensures
        strip_hex_prefix(seq!['0', 'x'] + s) == strip_hex_prefix(s),
        !(s.len() >= 2 && s[0] == '0' && s[1] == 'x') ==> strip_hex_prefix(s) == s,
        ({
            let r = strip_hex_prefix(s);
            !(r.len() >= 2 && r[0] == '0' && r[1] == 'x')
        }),
    decreases s.len(),
{
    assert((seq!['0', 'x'] + s).skip(2) =~= s);
    if s.len() >= 2 && s[0] == '0' && s[1] == 'x' {
        law_hex_prefix_is_ignored(s.skip(2));
    }
}

/// Lowering is done letter by letter, and twice is once.
pub proof fn law_lowering(s: Seq<char>, i: int)
    requires
        0 <= i < s.len(),
    ensures
        lower(s).len() == s.len(),
        'A' <= s[i] <= 'Z' ==> lower(s)[i] as int - 'a' as int == s[i] as int - 'A' as int,
        !('A' <= s[i] <= 'Z') ==> lower(s)[i] == s[i],
        lower(lower(s)) == lower(s),
{
    assert(lower(lower(s)) =~= lower(s));
}

proof fn lemma_trim_start_keeps(s: Seq<char>, i: int)
    requires
        0 <= i < s.len(),
        !white_space(s[i]),
    ensures
        trim_start(s).len() > 0,
        !white_space(trim_start(s)[0]),
    decreases s.len(),
{
    if white_space(s[0]) {
        assert(s.skip(1)[i - 1] == s[i]);
        lemma_trim_start_keeps(s.skip(1), i - 1);
    }
}

proof fn lemma_trim_end_keeps(s: Seq<char>)
    requires
        s.len() > 0,
        !white_space(s[0]),
    ensures
        trim_end(s).len() > 0,
    decreases s.len(),
{
    if white_space(s.last()) {
        assert(s.len() > 1);
        lemma_trim_end_keeps(s.drop_last());
    }
}

/// Nothing is left of a text if and only if it is all white space.
pub proof fn law_white_space_trims_to_nothing(s: Seq<char>)
    ensures
        trimmed(s).len() == 0 <==> forall|i: int| 0 <= i < s.len() ==> white_space(#[trigger] s[i]),
{
    if forall|i: int| 0 <= i < s.len() ==> white_space(#[trigger] s[i]) {
        lemma_all_white(s);
    } else {
        let i = choose|i: int| 0 <= i < s.len() && !white_space(#[trigger] s[i]);
        lemma_trim_start_keeps(s, i);
        lemma_trim_end_keeps(trim_start(s));
    }
}

/// Exactly these characters are white space.
pub proof fn law_white_space_is_listed(c: char)
    ensures
        white_space(c) <==> 9 <= c as int <= 13 || c as int == 32 || c as int == 0x85 || c as int
            == 0xa0 || c as int == 0x1680 || 0x2000 <= c as int <= 0x200a || c as int == 0x2028
            || c as int == 0x2029 || c as int == 0x202f || c as int == 0x205f || c as int == 0x3000,
{
}

/// A number is read digit by digit: one more digit makes it ten times as large and adds
/// the digit, as long as it does not exceed the largest number. A digit alone is its own
/// value; nothing, and a sign alone, are no number.
pub proof fn law_numbers_are_read_digit_by_digit(s: Seq<char>, c: char, max: int)
    requires
        '0' <= c <= '9',
    ensures
        ({
            let d = c as int - '0' as int;
            &&& unsigned(s, max) matches Some(n) ==> unsigned(s.push(c), max) == if 10 * n + d
                <= max {
                Some(10 * n + d)
            } else {
                None
            }
            &&& d <= max ==> unsigned(seq![c], max) == Some(d)
            &&& unsigned(Seq::<char>::empty(), max) is None
            &&& unsigned(seq!['+'], max) is None
        }),
{
    if unsigned(s, max) is Some {
        let body = unsigned_body(s);
        assert(unsigned_body(s.push(c)) =~= body.push(c));
        assert(body.push(c).drop_last() =~= body);
        assert(all_digits(body.push(c)));
    }
    assert(seq![c].drop_last() =~= Seq::<char>::empty());
    assert(digits_value(Seq::<char>::empty()) == 0);
    assert(seq!['+'].skip(1) =~= Seq::<char>::empty());
}

/// A number beyond the largest one is none, however many digits still follow.
pub proof fn law_large_numbers_are_refused(n: nat, more: Seq<char>, max: int)
    requires
        n > max,
        forall|i: int| 0 <= i < more.len() ==> '0' <= #[trigger] more[i] <= '9',
    ensures
        unsigned(decimal(n as int) + more, max) is None,
{
    lemma_digits(n);
    let s = decimal(n as int) + more;
    assert(s[0] == digits(n)[0] && is_digit(digits(n)[0]));
    assert(all_digits(s)) by {
        assert forall|i: int| 0 <= i < s.len() implies is_digit(#[trigger] s[i]) by {
            if i < digits(n).len() {
                assert(s[i] == digits(n)[i]);
            } else {
                assert(s[i] == more[i - digits(n).len()]);
            }
        }
    }
    lemma_prefix_value(s, digits(n).len() as int);
    assert(s.take(digits(n).len() as int) =~= digits(n));
}

/// The decimal form of a number has no leading zero, and only digits.
pub proof fn law_decimal_has_no_leading_zero(n: nat)
    ensures
        n > 0 ==> decimal(n as int)[0] != '0',
        decimal(0) == seq!['0'],
        forall|i: int|
            0 <= i < decimal(n as int).len() ==> '0' <= #[trigger] decimal(n as int)[i] <= '9',
        decimal(n as int).len() > 0,
    decreases n,
{
    lemma_digits(n);
    assert forall|i: int| 0 <= i < decimal(n as int).len() implies '0' <= #[trigger] decimal(
        n as int,
    )[i] <= '9' by {
        assert(is_digit(digits(n)[i]));
    }
    if n >= 10 {
        law_decimal_has_no_leading_zero(n / 10);
        assert(digits(n)[0] == digits(n / 10)[0]);
    }
}

} // verus!
