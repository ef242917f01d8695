//! Searching and cutting text, by characters.

use vstd::prelude::*;
use vstd::string::*;

verus! {

/// True if `key` stands in `text` at position `i`.
pub open spec fn matches_at(text: Seq<char>, key: Seq<char>, i: int) -> bool {
    0 <= i && i + key.len() <= text.len() && text.subrange(i, i + key.len()) == key
}

/// True if `key` stands in `text` at some position from `from` on.
pub open spec fn occurs_from(text: Seq<char>, key: Seq<char>, from: int) -> bool {
    exists|i: int| from <= i && matches_at(text, key, i)
}

/// True if `i` is the first position from `from` on at which `key` stands in
/// `text`.
pub open spec fn is_first_match(text: Seq<char>, key: Seq<char>, from: int, i: int) -> bool {
    &&& from <= i
    &&& matches_at(text, key, i)
    &&& forall|j: int| from <= j < i ==> !matches_at(text, key, j)
}

/// The first position from `from` on at which `key` stands in `text`.
pub open spec fn first_match(text: Seq<char>, key: Seq<char>, from: int) -> int {
    choose|i: int| is_first_match(text, key, from, i)
}

/// True if `key` is a part of `text`.
pub open spec fn contains_text(text: Seq<char>, key: Seq<char>) -> bool {
    occurs_from(text, key, 0)
}

/// The characters of a string, one by one.
pub fn to_chars(s: &str) -> (r: Vec<char>)
    ensures
        r@ == s@,
{
    let n: usize = s.unicode_len();
    let mut r: Vec<char> = Vec::new();
    let mut i: usize = 0;
    while i < n
        invariant
            i <= n,
            n == s@.len(),
            r@ == s@.take(i as int),
        decreases n - i,
    {
        r.push(s.get_char(i));
        assert(s@.take(i + 1) =~= s@.take(i as int).push(s@[i as int]));
        i = i + 1;
    }
    assert(s@.take(n as int) =~= s@);
    r
}

fn matches_here(text: &Vec<char>, key: &Vec<char>, i: usize) -> (r: bool)
    requires
        i + key@.len() <= text@.len(),
    ensures
        r == matches_at(text@, key@, i as int),
{
    let n: usize = text.len();
    let mut k: usize = 0;
    while k < key.len()
        invariant
            k <= key@.len(),
            i + key@.len() <= text@.len(),
            n == text@.len(),
            forall|j: int| 0 <= j < k ==> text@[i + j] == key@[j],
        decreases key@.len() - k,
    {
        if text[i + k] != key[k] {
            assert(text@.subrange(i as int, i + key@.len())[k as int] != key@[k as int]);
            return false;
        }
        k = k + 1;
    }
    assert(text@.subrange(i as int, i + key@.len()) =~= key@);
    true
}

/// The first position from `from` on at which `key` stands in `text`.
pub fn find_from(text: &Vec<char>, key: &Vec<char>, from: usize) -> (r: Option<usize>)
    ensures
        match r {
            Some(i) => is_first_match(text@, key@, from as int, i as int) && i as int
                == first_match(text@, key@, from as int),
            None => !occurs_from(text@, key@, from as int),
        },
        r is Some <==> occurs_from(text@, key@, from as int),
{
    if key.len() > text.len() || from > text.len() - key.len() {
        return None;
    }
    let last: usize = text.len() - key.len();
    let mut i: usize = from;
    while i <= last
        invariant
            from <= i <= last + 1,
            last + key@.len() == text@.len(),
            forall|j: int| from <= j < i ==> !matches_at(text@, key@, j),
        decreases last + 1 - i,
    {
        if matches_here(text, key, i) {
            proof {
                lemma_first_match_unique(text@, key@, from as int, i as int);
            }
            return Some(i);
        }
        if i == last {
            return None;
        }
        i = i + 1;
    }
    None
}

/// A first match is the first match.
pub proof fn lemma_first_match_unique(text: Seq<char>, key: Seq<char>, from: int, i: int)
    requires
        is_first_match(text, key, from, i),
    ensures
        first_match(text, key, from) == i,
        occurs_from(text, key, from),
{
    let j = first_match(text, key, from);
    assert(is_first_match(text, key, from, j));
    if j < i {
        assert(!matches_at(text, key, j));
    }
    if i < j {
        assert(!matches_at(text, key, i));
    }
}

/// True if `key` is a part of `text`.
pub fn contains(text: &str, key: &str) -> (r: bool)
    ensures
        r == contains_text(text@, key@),
{
    let t = to_chars(text);
    let k = to_chars(key);
    find_from(&t, &k, 0).is_some()
}

/// True for the characters that are cut from both ends of a value: the
/// double quote and the space.
pub open spec fn is_padding(c: char) -> bool {
    c == '"' || c == ' '
}

/// `s` without the padding at its front.
pub open spec fn strip_front(s: Seq<char>) -> Seq<char>
    decreases s.len(),
{
    if s.len() > 0 && is_padding(s[0]) {
        strip_front(s.drop_first())
    } else {
        s
    }
}

/// `s` without the padding at its end.
pub open spec fn strip_back(s: Seq<char>) -> Seq<char>
    decreases s.len(),
{
    if s.len() > 0 && is_padding(s.last()) {
        strip_back(s.drop_last())
    } else {
        s
    }
}

/// `s` without the padding at both ends.
pub open spec fn trimmed(s: Seq<char>) -> Seq<char> {
    strip_back(strip_front(s))
}

/// True if `i` is where the first line of `s` ends: at the first line feed,
/// or at the end of `s` if it has none.
pub open spec fn is_line_end(s: Seq<char>, i: int) -> bool {
    &&& 0 <= i <= s.len()
    &&& forall|j: int| 0 <= j < i ==> s[j] != '\n'
    &&& i < s.len() ==> s[i] == '\n'
}

/// Where the first line of `s` ends.
pub open spec fn line_end(s: Seq<char>) -> int {
    choose|i: int| is_line_end(s, i)
}

/// The first line of `s`, without its line feed.
pub open spec fn first_line(s: Seq<char>) -> Seq<char> {
    s.subrange(0, line_end(s))
}

/// The part of `text` between the first `key` and the next one, or the end
/// of `text` where no other `key` follows. It is the second of the pieces
/// into which `key` splits `text`.
pub open spec fn piece_after(text: Seq<char>, key: Seq<char>) -> Seq<char> {
    let start = first_match(text, key, 0) + key.len();
    let next = if key.len() == 0 {
        start + 1
    } else {
        start
    };
    let end = if occurs_from(text, key, next) {
        first_match(text, key, next)
    } else {
        text.len() as int
    };
    text.subrange(start, end)
}

/// What stands after the first `key` in `text`, up to the next `key` and the
/// end of the line, without the padding at both ends.
pub open spec fn looked_after(text: Seq<char>, key: Seq<char>) -> Seq<char> {
    trimmed(first_line(piece_after(text, key)))
}

proof fn lemma_line_end_unique(s: Seq<char>, i: int)
    requires
        is_line_end(s, i),
    ensures
        line_end(s) == i,
{
    let j = line_end(s);
    assert(is_line_end(s, j));
    if j < i {
        assert(s[j] != '\n');
    }
    if i < j {
        assert(s[i] != '\n');
    }
}

proof fn lemma_strip_front_step(s: Seq<char>, a: int, e: int)
    requires
        0 <= a < e <= s.len(),
        is_padding(s[a]),
    ensures
        strip_front(s.subrange(a, e)) == strip_front(s.subrange(a + 1, e)),
{
    assert(s.subrange(a, e).drop_first() =~= s.subrange(a + 1, e));
}

proof fn lemma_strip_back_step(s: Seq<char>, a: int, b: int)
    requires
        0 <= a < b <= s.len(),
        is_padding(s[b - 1]),
    ensures
        strip_back(s.subrange(a, b)) == strip_back(s.subrange(a, b - 1)),
{
    assert(s.subrange(a, b).drop_last() =~= s.subrange(a, b - 1));
}

/// The value that stands after `key` in `text`: the text between the first
/// `key` and the next one, cut at the end of its first line, without quotes
/// and spaces at both ends. `key` must be a part of `text`.
pub fn look_after_in_line(text: &str, key: &str) -> (r: String)
    requires
        contains_text(text@, key@),
    ensures
        r@ == looked_after(text@, key@),
{
    let t = to_chars(text);
    let k = to_chars(key);
    let len: usize = t.len();
    let first: usize = match find_from(&t, &k, 0) {
        Some(i) => i,
        None => 0,
    };
    assert(matches_at(t@, k@, first as int));
    let start: usize = first + k.len();
    let end: usize = if k.len() == 0 && start == t.len() {
        t.len()
    } else {
        let next: usize = if k.len() == 0 {
            start + 1
        } else {
            start
        };
        match find_from(&t, &k, next) {
            Some(j) => j,
            None => t.len(),
        }
    };
    proof {
        if k@.len() == 0 && start == t@.len() {
            assert(!occurs_from(t@, k@, start + 1));
        }
    }
    let ghost piece = t@.subrange(start as int, end as int);
    assert(piece == piece_after(text@, key@));
    let mut e: usize = start;
    while e < end && t[e] != '\n'
        invariant
            start <= e <= end <= t@.len(),
            forall|j: int| start <= j < e ==> t@[j] != '\n',
        decreases end - e,
    {
        e = e + 1;
    }
    proof {
        lemma_line_end_unique(piece, e - start);
        assert(first_line(piece) =~= t@.subrange(start as int, e as int));
    }
    let ghost line = t@.subrange(start as int, e as int);
    let mut a: usize = start;
    while a < e && (t[a] == '"' || t[a] == ' ')
        invariant
            start <= a <= e <= t@.len(),
            strip_front(line) == strip_front(t@.subrange(a as int, e as int)),
        decreases e - a,
    {
        proof {
            lemma_strip_front_step(t@, a as int, e as int);
        }
        a = a + 1;
    }
    let ghost front = t@.subrange(a as int, e as int);
    assert(strip_front(line) == front);
    let mut b: usize = e;
    while b > a && (t[b - 1] == '"' || t[b - 1] == ' ')
        invariant
            a <= b <= e <= t@.len(),
            strip_back(front) == strip_back(t@.subrange(a as int, b as int)),
        decreases b - a,
    {
        proof {
            lemma_strip_back_step(t@, a as int, b as int);
        }
        b = b - 1;
    }
    assert(strip_back(front) == t@.subrange(a as int, b as int));
    String::from_str(text.substring_char(a, b))
}

/// The decimal digit for a number below ten.
pub open spec fn digit_char(d: int) -> char {
    if d == 0 {
        '0'
    } else if d == 1 {
        '1'
    } else if d == 2 {
        '2'
    } else if d == 3 {
        '3'
    } else if d == 4 {
        '4'
    } else if d == 5 {
        '5'
    } else if d == 6 {
        '6'
    } else if d == 7 {
        '7'
    } else if d == 8 {
        '8'
    } else {
        '9'
    }
}

/// A number in decimal, without leading zeros.
pub open spec fn decimal(n: nat) -> Seq<char>
    decreases n,
{
    if n < 10 {
        seq![digit_char(n as int)]
    } else {
        decimal(n / 10).push(digit_char((n % 10) as int))
    }
}

fn digit_str(d: u64) -> (r: &'static str)
    requires
        d < 10,
    ensures
        r@ == seq![digit_char(d as int)],
{
    proof {
        reveal_strlit("0");
        reveal_strlit("1");
        reveal_strlit("2");
        reveal_strlit("3");
        reveal_strlit("4");
        reveal_strlit("5");
        reveal_strlit("6");
        reveal_strlit("7");
        reveal_strlit("8");
        reveal_strlit("9");
    }
    let r = if d == 0 {
        "0"
    } else if d == 1 {
        "1"
    } else if d == 2 {
        "2"
    } else if d == 3 {
        "3"
    } else if d == 4 {
        "4"
    } else if d == 5 {
        "5"
    } else if d == 6 {
        "6"
    } else if d == 7 {
        "7"
    } else if d == 8 {
        "8"
    } else {
        "9"
    };
    assert(r@ =~= seq![digit_char(d as int)]);
    r
}

/// A number written in decimal.
pub fn decimal_string(n: u64) -> (r: String)
    ensures
        r@ == decimal(n as nat),
    decreases n,
{
    if n < 10 {
        String::from_str(digit_str(n))
    } else {
        let mut r = decimal_string(n / 10);
        r.append(digit_str(n % 10));
        assert(r@ =~= decimal((n / 10) as nat).push(digit_char((n % 10) as int)));
        r
    }
}

/// The lower-case hex digit of a number below sixteen.
pub open spec fn hex_digit(n: int) -> char {
    if n == 0 {
        '0'
    } else if n == 1 {
        '1'
    } else if n == 2 {
        '2'
    } else if n == 3 {
        '3'
    } else if n == 4 {
        '4'
    } else if n == 5 {
        '5'
    } else if n == 6 {
        '6'
    } else if n == 7 {
        '7'
    } else if n == 8 {
        '8'
    } else if n == 9 {
        '9'
    } else if n == 10 {
        'a'
    } else if n == 11 {
        'b'
    } else if n == 12 {
        'c'
    } else if n == 13 {
        'd'
    } else if n == 14 {
        'e'
    } else {
        'f'
    }
}

/// Bytes in lower-case hex: two digits for each byte, the high half first.
pub open spec fn hex_lower(data: Seq<u8>) -> Seq<char>
    decreases data.len(),
{
    if data.len() == 0 {
        Seq::empty()
    } else {
        hex_lower(data.drop_last()).push(hex_digit(data.last() as int / 16)).push(
            hex_digit(data.last() as int % 16),
        )
    }
}

/// `hex::encode`: the bytes in lower-case hex, two digits for each byte,
/// the high half first. The crate's source maps each byte through the table
/// `0123456789abcdef`, first by its upper four bits, then by its lower four.
#[verifier::external_body]
pub(crate) fn hex_encode(data: &[u8]) -> (r: String)
    ensures
        r@ == hex_lower(data@),
{
    hex::encode(data)
}

/// `0x` and the bytes in lower-case hex.
pub fn hex_string(data: &[u8]) -> (r: String)
    ensures
        r@ == "0x"@ + hex_lower(data@),
{
    let mut r = String::from_str("0x");
    let digits = hex_encode(data);
    r.append(digits.as_str());
    r
}

} // verus!
