//! Text helpers: characters, hexadecimal and decimal digits.
use vstd::prelude::*;
use vstd::string::StringExecFns;
use vstd::utf8::{decode_utf8, encode_utf8, valid_utf8};

verus! {

/// `String::push`: one character more at the end.
pub assume_specification[ String::push ](s: &mut String, c: char)
    ensures
        final(s)@ == old(s)@.push(c),
;

/// The lower-case hexadecimal digit of `n`.
pub open spec fn hex_char(n: int) -> char {
    if n < 10 {
        (n + 48) as char
    } else {
        (n + 87) as char
    }
}

/// The upper-case hexadecimal digit of `n`.
pub open spec fn hex_char_upper(n: int) -> char {
    if n < 10 {
        (n + 48) as char
    } else {
        (n + 55) as char
    }
}

/// The lower-case hexadecimal digit of `n`.
pub fn hex_digit(n: u8) -> (c: char)
    requires
        n < 16,
    ensures
        c == hex_char(n as int),
{
    let d: u8 = if n < 10 {
        n + 48
    } else {
        n + 87
    };
    d as char
}

/// The upper-case hexadecimal digit of `n`.
pub fn hex_digit_upper(n: u8) -> (c: char)
    requires
        n < 16,
    ensures
        c == hex_char_upper(n as int),
{
    let d: u8 = if n < 10 {
        n + 48
    } else {
        n + 55
    };
    d as char
}

/// The lower-case hexadecimal text of `b`, two digits for each byte.
pub open spec fn hex_text(b: Seq<u8>) -> Seq<char> {
    Seq::new(
        2 * b.len(),
        |k: int|
            if k % 2 == 0 {
                hex_char(b[k / 2] as int / 16)
            } else {
                hex_char(b[k / 2] as int % 16)
            },
    )
}

/// Writes `b` in lower-case hexadecimal.
pub fn hex_lower(b: &[u8]) -> (r: String)
    ensures
        r@ == hex_text(b@),
{
    let mut out = String::new();
    let mut i: usize = 0;
    while i < b.len()
        invariant
            i <= b@.len(),
            out@ == hex_text(b@.take(i as int)),
        decreases b@.len() - i,
    {
        let x: u8 = b[i];
        out.push(hex_digit(x / 16));
        out.push(hex_digit(x % 16));
        proof {
            let t = b@.take(i + 1);
            assert(hex_text(t).len() == 2 * i + 2);
            assert forall|k: int| 0 <= k < 2 * i + 2 implies out@[k] == hex_text(t)[k] by {
                if k < 2 * i {
                    assert(out@[k] == hex_text(b@.take(i as int))[k]);
                    assert(b@.take(i as int)[k / 2] == t[k / 2]);
                } else {
                    assert(k / 2 == i);
                }
            }
            assert(out@ =~= hex_text(t));
        }
        i = i + 1;
    }
    assert(b@.take(i as int) =~= b@);
    out
}

/// What a hexadecimal digit stands for.
pub open spec fn hex_value(c: char) -> int {
    if '0' <= c <= '9' {
        c as int - '0' as int
    } else if 'a' <= c <= 'f' {
        c as int - 'a' as int + 10
    } else if 'A' <= c <= 'F' {
        c as int - 'A' as int + 10
    } else {
        -1
    }
}

/// Hexadecimal keeps every byte: each is read back from its two digits, the
/// higher one first. No letter is upper case.
pub proof fn hex_is_read_back(b: Seq<u8>)
    ensures
        hex_text(b).len() == 2 * b.len(),
        forall|i: int|
            0 <= i < b.len() ==> hex_value(hex_text(b)[2 * i]) * 16 + hex_value(
                hex_text(b)[2 * i + 1],
            ) == #[trigger] b[i],
        forall|k: int|
            0 <= k < hex_text(b).len() ==> (is_digit(#[trigger] hex_text(b)[k]) || 'a'
                <= hex_text(b)[k] <= 'f'),
{
    assert forall|i: int| 0 <= i < b.len() implies hex_value(hex_text(b)[2 * i]) * 16 + hex_value(
        hex_text(b)[2 * i + 1],
    ) == #[trigger] b[i] by {
        assert((2 * i) / 2 == i && (2 * i + 1) / 2 == i);
        assert((2 * i) % 2 == 0 && (2 * i + 1) % 2 == 1);
    }
    assert forall|k: int| 0 <= k < hex_text(b).len() implies (is_digit(#[trigger] hex_text(b)[k])
        || 'a' <= hex_text(b)[k] <= 'f') by {
        assert(0 <= k / 2 < b.len());
    }
}

/// The decimal digits of `n`.
pub open spec fn decimal(n: nat) -> Seq<char>
    decreases n,
{
    if n < 10 {
        seq![(n + 48) as char]
    } else {
        decimal(n / 10).push((n % 10 + 48) as char)
    }
}

/// Writes `n` in decimal.
pub fn decimal_text(n: u64) -> (r: String)
    ensures
        r@ == decimal(n as nat),
    decreases n,
{
    let d: u8 = (n % 10) as u8 + 48;
    let mut s = if n < 10 {
        String::new()
    } else {
        decimal_text(n / 10)
    };
    s.push(d as char);
    assert(s@ =~= decimal(n as nat));
    s
}

/// The characters of `s`.
pub fn chars_of(s: &str) -> (r: Vec<char>)
    ensures
        r@ == s@,
{
    let mut v: Vec<char> = Vec::new();
    for c in it: s.chars()
        invariant
            v@ == it.seq().take(it.index() as int),
            it.seq() == s@,
    {
        v.push(c);
        assert(v@ =~= it.seq().take(it.index() + 1));
    }
    assert(v@ =~= s@);
    v
}

/// The text of the characters `from` up to `to`.
pub fn text_of(v: &Vec<char>, from: usize, to: usize) -> (r: String)
    requires
        from <= to <= v@.len(),
    ensures
        r@ == v@.subrange(from as int, to as int),
{
    let mut out = String::new();
    let mut i: usize = from;
    while i < to
        invariant
            from <= i <= to <= v@.len(),
            out@ == v@.subrange(from as int, i as int),
        decreases to - i,
    {
        out.push(v[i]);
        i = i + 1;
        assert(out@ =~= v@.subrange(from as int, i as int));
    }
    out
}

/// White space, as Unicode has it.
pub open spec fn is_space(c: char) -> bool {
    let n = c as u32;
    9 <= n <= 13 || n == 32 || n == 0x85 || n == 0xa0 || n == 0x1680 || 0x2000 <= n <= 0x200a || n
        == 0x2028 || n == 0x2029 || n == 0x202f || n == 0x205f || n == 0x3000
}

/// Whether a character is white space.
pub fn is_white_space(c: char) -> (r: bool)
    ensures
        r == is_space(c),
{
    let n = c as u32;
    (9 <= n && n <= 13) || n == 32 || n == 0x85 || n == 0xa0 || n == 0x1680 || (0x2000 <= n && n
        <= 0x200a) || n == 0x2028 || n == 0x2029 || n == 0x202f || n == 0x205f || n == 0x3000
}

/// `s` without white space at its front.
pub open spec fn trim_start_spec(s: Seq<char>) -> Seq<char>
    decreases s.len(),
{
    if s.len() > 0 && is_space(s[0]) {
        trim_start_spec(s.skip(1))
    } else {
        s
    }
}

/// `s` without white space at its end.
pub open spec fn trim_end_spec(s: Seq<char>) -> Seq<char>
    decreases s.len(),
{
    if s.len() > 0 && is_space(s.last()) {
        trim_end_spec(s.drop_last())
    } else {
        s
    }
}

/// `s` without white space at either end.
pub open spec fn trim_spec(s: Seq<char>) -> Seq<char> {
    trim_end_spec(trim_start_spec(s))
}

/// Where `v` starts once white space at its front is dropped.
fn front(v: &Vec<char>) -> (r: usize)
    ensures
        r <= v@.len(),
        trim_start_spec(v@) == v@.skip(r as int),
{
    let mut i: usize = 0;
    assert(v@.skip(0) =~= v@);
    while i < v.len() && is_white_space(v[i])
        invariant
            i <= v@.len(),
            trim_start_spec(v@) == trim_start_spec(v@.skip(i as int)),
        decreases v@.len() - i,
    {
        assert(v@.skip(i as int).skip(1) =~= v@.skip(i + 1));
        i = i + 1;
    }
    i
}

/// Trimming takes white space from both ends and nothing else: what is left is a
/// stretch of the text that neither starts nor ends with white space, all that
/// was taken is white space, and a text without any at its ends stays whole.
pub proof fn trim_is_exact(s: Seq<char>)
    ensures
        exists|i: int, j: int|
            {
                &&& 0 <= i <= j <= s.len()
                &&& trim_spec(s) == #[trigger] s.subrange(i, j)
                &&& forall|k: int| 0 <= k < i ==> is_space(#[trigger] s[k])
                &&& forall|k: int| j <= k < s.len() ==> is_space(#[trigger] s[k])
            },
        trim_spec(s).len() > 0 ==> !is_space(trim_spec(s)[0]) && !is_space(trim_spec(s).last()),
        s.len() > 0 && !is_space(s[0]) && !is_space(s.last()) ==> trim_spec(s) == s,
{
    let t = trim_start_spec(s);
    let i = lemma_trim_start(s);
    let n = lemma_trim_end(t);
    assert(trim_spec(s) =~= s.subrange(i, i + n));
    assert forall|k: int| i + n <= k < s.len() implies is_space(#[trigger] s[k]) by {
        assert(t[k - i] == s[k]);
    }
    if trim_spec(s).len() > 0 {
        assert(trim_spec(s)[0] == t[0]);
    }
}

proof fn lemma_trim_start(s: Seq<char>) -> (i: int)
    ensures
        0 <= i <= s.len(),
        trim_start_spec(s) == s.skip(i),
        forall|k: int| 0 <= k < i ==> is_space(#[trigger] s[k]),
        i < s.len() ==> !is_space(s[i]),
    decreases s.len(),
{
    if s.len() > 0 && is_space(s[0]) {
        let i = lemma_trim_start(s.skip(1));
        assert(s.skip(1).skip(i) =~= s.skip(i + 1));
        assert forall|k: int| 0 <= k < i + 1 implies is_space(#[trigger] s[k]) by {
            if k > 0 {
                assert(s.skip(1)[k - 1] == s[k]);
            }
        }
        i + 1
    } else {
        assert(s.skip(0) =~= s);
        0
    }
}

proof fn lemma_trim_end(s: Seq<char>) -> (n: int)
    ensures
        0 <= n <= s.len(),
        trim_end_spec(s) == s.take(n),
        forall|k: int| n <= k < s.len() ==> is_space(#[trigger] s[k]),
        n > 0 ==> !is_space(s[n - 1]),
    decreases s.len(),
{
    if s.len() > 0 && is_space(s.last()) {
        let n = lemma_trim_end(s.drop_last());
        assert(s.drop_last().take(n) =~= s.take(n));
        assert forall|k: int| n <= k < s.len() implies is_space(#[trigger] s[k]) by {
            if k < s.len() - 1 {
                assert(s.drop_last()[k] == s[k]);
            }
        }
        n
    } else {
        assert(s.take(s.len() as int) =~= s);
        s.len() as int
    }
}

/// Drops white space at the front.
pub fn trim_start(s: &str) -> (r: String)
    ensures
        r@ == trim_start_spec(s@),
{
    let v = chars_of(s);
    let i = front(&v);
    let r = text_of(&v, i, v.len());
    assert(r@ =~= v@.skip(i as int));
    r
}

/// Drops white space at both ends.
pub fn trim(s: &str) -> (r: String)
    ensures
        r@ == trim_spec(s@),
{
    let v = chars_of(s);
    let i = front(&v);
    let mut j: usize = v.len();
    assert(v@.subrange(i as int, j as int) =~= v@.skip(i as int));
    while i < j && is_white_space(v[j - 1])
        invariant
            i <= j <= v@.len(),
            trim_spec(v@) == trim_end_spec(v@.subrange(i as int, j as int)),
        decreases j,
    {
        assert(v@.subrange(i as int, j as int).drop_last() =~= v@.subrange(i as int, j - 1));
        j = j - 1;
    }
    text_of(&v, i, j)
}

/// Whether `s` starts with `p`.
pub fn starts_with(s: &str, p: &str) -> (r: bool)
    ensures
        r == p@.is_prefix_of(s@),
{
    let v = chars_of(s);
    let q = chars_of(p);
    if q.len() > v.len() {
        return false;
    }
    let mut i: usize = 0;
    while i < q.len()
        invariant
            i <= q@.len() <= v@.len(),
            q@ == p@,
            v@ == s@,
            forall|j: int| 0 <= j < i ==> q@[j] == v@[j],
        decreases q@.len() - i,
    {
        if v[i] != q[i] {
            assert(p@[i as int] != s@.subrange(0, p@.len() as int)[i as int]);
            return false;
        }
        i = i + 1;
    }
    assert(p@ =~= s@.subrange(0, p@.len() as int));
    true
}

/// What follows the prefix `p` of `s`, if it has that prefix.
pub open spec fn strip_spec(s: Seq<char>, p: Seq<char>) -> Option<Seq<char>> {
    if p.is_prefix_of(s) {
        Some(s.skip(p.len() as int))
    } else {
        None
    }
}

/// What follows the prefix `p` of `s`, if it has that prefix.
pub fn strip_prefix(s: &str, p: &str) -> (r: Option<String>)
    ensures
        match r {
            Some(t) => strip_spec(s@, p@) == Some(t@),
            None => strip_spec(s@, p@) is None,
        },
{
    if !starts_with(s, p) {
        return None;
    }
    let v = chars_of(s);
    let n: usize = chars_of(p).len();
    let r = text_of(&v, n, v.len());
    assert(r@ =~= s@.skip(p@.len() as int));
    Some(r)
}

/// The length of the UTF-8 form of `s`.
pub fn byte_len(s: &str) -> (r: usize)
    ensures
        r == vstd::utf8::encode_utf8(s@).len(),
{
    s.as_bytes().len()
}

/// The text of bytes that may not be UTF-8.
pub uninterp spec fn lossy_text(b: Seq<u8>) -> Seq<char>;

/// `String::from_utf8_lossy`: the text of `b`. Bytes that are UTF-8 give
/// exactly the text they encode; what stands for other bytes is named, not
/// spelled out.
#[verifier::external_body]
pub(crate) fn from_utf8_lossy(b: &[u8]) -> (r: String)
    ensures
        r@ == lossy_text(b@),
        valid_utf8(b@) ==> r@ == decode_utf8(b@),
{
    String::from_utf8_lossy(b).into_owned()
}

/// The text of `b`: exactly what it encodes where it is UTF-8.
pub open spec fn text_in(b: Seq<u8>) -> Seq<char> {
    if valid_utf8(b) {
        decode_utf8(b)
    } else {
        lossy_text(b)
    }
}

/// Text survives the way through bytes: what was encoded is what is read, to
/// the letter.
pub proof fn encoded_text_is_read(t: Seq<char>)
    ensures
        text_in(encode_utf8(t)) == t,
{
    vstd::utf8::encode_utf8_valid_utf8(t);
    vstd::utf8::encode_utf8_decode_utf8(t);
}

/// `s` in lower case, as Unicode has it.
pub uninterp spec fn lower(s: Seq<char>) -> Seq<char>;

/// `str::to_lowercase`: `s` in lower case.
#[verifier::external_body]
pub(crate) fn lower_case(s: &str) -> (r: String)
    ensures
        r@ == lower(s@),
{
    s.to_lowercase()
}

/// `a` and `b` joined.
pub fn joined(a: &str, b: &str) -> (r: String)
    ensures
        r@ == a@ + b@,
{
    a.to_owned().concat(b)
}

/// `a`, `b` and `c` joined.
pub fn joined3(a: &str, b: &str, c: &str) -> (r: String)
    ensures
        r@ == a@ + b@ + c@,
{
    a.to_owned().concat(b).concat(c)
}

/// A control character: what Unicode has in its category Cc.
pub open spec fn is_control(c: char) -> bool {
    (c as u32) < 32 || 127 <= (c as u32) < 160
}

/// Whether a character is a control character.
pub fn is_control_char(c: char) -> (r: bool)
    ensures
        r == is_control(c),
{
    let n = c as u32;
    n < 32 || (127 <= n && n < 160)
}

/// Whether `p` stands in `s` at `i`.
pub open spec fn part_at(s: Seq<char>, p: Seq<char>, i: int) -> bool {
    0 <= i && i + p.len() <= s.len() && s.subrange(i, i + p.len()) == p
}

/// Whether `p` stands somewhere in `s`.
pub open spec fn has_part(s: Seq<char>, p: Seq<char>) -> bool {
    exists|i: int| part_at(s, p, i)
}

/// Where `p` first stands in `s`, from `from` on.
pub open spec fn first_part(s: Seq<char>, p: Seq<char>, from: int) -> Option<int>
    decreases s.len() + 1 - from,
{
    if from + p.len() > s.len() {
        None
    } else if part_at(s, p, from) {
        Some(from)
    } else {
        first_part(s, p, from + 1)
    }
}

/// The first place is a place, and there is one wherever there is any.
pub proof fn first_part_is_found(s: Seq<char>, p: Seq<char>, from: int)
    requires
        from >= 0,
    ensures
        match first_part(s, p, from) {
            Some(i) => {
                &&& from <= i
                &&& part_at(s, p, i)
                &&& forall|j: int| from <= j < i ==> !#[trigger] part_at(s, p, j)
            },
            None => forall|j: int| from <= j ==> !#[trigger] part_at(s, p, j),
        },
    decreases s.len() + 1 - from,
{
    if from + p.len() <= s.len() && !part_at(s, p, from) {
        first_part_is_found(s, p, from + 1);
    }
}

/// Whether `p` stands in `v` at `i`.
fn stands_at(v: &Vec<char>, p: &Vec<char>, i: usize) -> (r: bool)
    requires
        i + p@.len() <= v@.len(),
    ensures
        r == part_at(v@, p@, i as int),
{
    assert(v@.len() == v.len());
    let mut j: usize = 0;
    while j < p.len()
        invariant
            j <= p@.len(),
            i + p@.len() <= v@.len() <= usize::MAX,
            forall|k: int| 0 <= k < j ==> v@[i + k] == p@[k],
        decreases p@.len() - j,
    {
        if v[i + j] != p[j] {
            assert(v@.subrange(i as int, i + p@.len())[j as int] != p@[j as int]);
            return false;
        }
        j = j + 1;
    }
    assert(v@.subrange(i as int, i + p@.len()) =~= p@);
    true
}

/// Where `p` first stands in `v`, from `from` on.
pub fn find_from(v: &Vec<char>, p: &Vec<char>, from: usize) -> (r: Option<usize>)
    requires
        from <= v@.len(),
    ensures
        match r {
            Some(i) => first_part(v@, p@, from as int) == Some(i as int) && i + p@.len()
                <= v@.len(),
            None => first_part(v@, p@, from as int) is None,
        },
{
    if p.len() > v.len() {
        return None;
    }
    let last: usize = v.len() - p.len();
    let mut i: usize = from;
    while i <= last
        invariant
            from <= i <= v@.len(),
            last == v@.len() - p@.len(),
            first_part(v@, p@, from as int) == first_part(v@, p@, i as int),
        decreases v@.len() - i,
    {
        if stands_at(v, p, i) {
            return Some(i);
        }
        if i == v.len() {
            assert(first_part(v@, p@, i + 1) is None);
            return None;
        }
        i = i + 1;
    }
    None
}

/// Whether `p` stands somewhere in `s`.
pub fn contains(s: &str, p: &str) -> (r: bool)
    ensures
        r == has_part(s@, p@),
{
    let v = chars_of(s);
    let q = chars_of(p);
    proof {
        first_part_is_found(s@, p@, 0);
    }
    find_from(&v, &q, 0).is_some()
}

/// Where the first line feed stands, from `from` on.
pub open spec fn line_end(s: Seq<char>, from: int) -> int
    decreases s.len() - from,
{
    if from >= s.len() {
        s.len() as int
    } else if s[from] == '\n' {
        from
    } else {
        line_end(s, from + 1)
    }
}

/// A line without the carriage return in front of its line feed.
pub open spec fn without_return(l: Seq<char>) -> Seq<char> {
    if l.len() > 0 && l.last() == '\r' {
        l.drop_last()
    } else {
        l
    }
}

/// The lines of `s` from `from` on. A line ends with a line feed, before which
/// a carriage return may stand; the last may end with the text.
pub open spec fn lines_from(s: Seq<char>, from: int) -> Seq<Seq<char>>
    decreases s.len() - from,
{
    if from < 0 || from >= s.len() {
        seq![]
    } else {
        let end = line_end(s, from);
        if end <= from - 1 || end >= s.len() {
            seq![s.skip(from)]
        } else {
            seq![without_return(s.subrange(from, end))] + lines_from(s, end + 1)
        }
    }
}

/// The views of a list of texts.
pub open spec fn texts(v: Seq<String>) -> Seq<Seq<char>> {
    Seq::new(v.len(), |i: int| v[i]@)
}

/// The lines of `s`.
pub fn lines(s: &str) -> (r: Vec<String>)
    ensures
        texts(r@) == lines_from(s@, 0),
{
    let v = chars_of(s);
    let mut out: Vec<String> = Vec::new();
    let mut from: usize = 0;
    assert(texts(out@) =~= seq![]);
    assert(texts(out@) + lines_from(s@, 0) =~= lines_from(s@, 0));
    while from < v.len()
        invariant
            from <= v@.len(),
            v@ == s@,
            texts(out@) + lines_from(s@, from as int) == lines_from(s@, 0),
        decreases v@.len() - from,
    {
        let mut end: usize = from;
        while end < v.len() && v[end] != '\n'
            invariant
                from <= end <= v@.len(),
                v@ == s@,
                line_end(s@, from as int) == line_end(s@, end as int),
            decreases v@.len() - end,
        {
            end = end + 1;
        }
        let ghost before = out@;
        if end == v.len() {
            out.push(text_of(&v, from, end));
            proof {
                assert(s@.subrange(from as int, end as int) =~= s@.skip(from as int));
                assert(texts(out@) =~= texts(before) + lines_from(s@, from as int));
            }
            return out;
        }
        let stop: usize = if end > from && v[end - 1] == '\r' {
            end - 1
        } else {
            end
        };
        out.push(text_of(&v, from, stop));
        proof {
            let l = s@.subrange(from as int, end as int);
            assert(without_return(l) =~= s@.subrange(from as int, stop as int));
            assert(texts(out@) =~= texts(before).push(without_return(l)));
            assert(texts(out@) + lines_from(s@, end + 1) =~= texts(before) + lines_from(
                s@,
                from as int,
            ));
        }
        from = end + 1;
    }
    assert(texts(out@) + lines_from(s@, from as int) =~= texts(out@));
    out
}

/// A line ends with its line feed: what stands in front is the first line,
/// without a carriage return at its end, and the lines of what follows are the
/// others.
pub proof fn lines_end_with_line_feeds(line: Seq<char>, rest: Seq<char>)
    requires
        forall|i: int| 0 <= i < line.len() ==> line[i] != '\n',
    ensures
        lines_from(line + seq!['\n'] + rest, 0) == seq![without_return(line)] + lines_from(
            rest,
            0,
        ),
        without_return(line + seq!['\r']) == line,
        line.len() > 0 ==> lines_from(line, 0) == seq![line],
        lines_from(seq![], 0).len() == 0,
{
    let front = line + seq!['\n'];
    let s = front + rest;
    assert forall|j: int| 0 <= j < line.len() implies s[j] != '\n' by {
        assert(s[j] == line[j]);
    }
    lemma_line_end(s, 0, line.len() as int);
    assert(s.subrange(0, line.len() as int) =~= line);
    lemma_lines_shift(front, rest, 0);
    assert((line + seq!['\r']).drop_last() =~= line);
    lemma_line_end(line, 0, line.len() as int);
    assert(line.skip(0) =~= line);
}

proof fn lemma_line_end(s: Seq<char>, from: int, end: int)
    requires
        0 <= from <= end <= s.len(),
        end == s.len() || s[end] == '\n',
        forall|j: int| from <= j < end ==> s[j] != '\n',
    ensures
        line_end(s, from) == end,
    decreases end - from,
{
    if from < end {
        lemma_line_end(s, from + 1, end);
    }
}

proof fn lemma_line_end_shift(front: Seq<char>, rest: Seq<char>, from: int)
    requires
        0 <= from,
    ensures
        line_end(front + rest, front.len() + from) == front.len() + line_end(rest, from),
        from <= rest.len() ==> from <= line_end(rest, from) <= rest.len(),
    decreases rest.len() - from,
{
    if from < rest.len() {
        assert((front + rest)[front.len() + from] == rest[from]);
        lemma_line_end_shift(front, rest, from + 1);
    }
}

proof fn lemma_lines_shift(front: Seq<char>, rest: Seq<char>, from: int)
    requires
        0 <= from,
    ensures
        lines_from(front + rest, front.len() + from) == lines_from(rest, from),
    decreases rest.len() - from,
{
    if from < rest.len() {
        lemma_line_end_shift(front, rest, from);
        let s = front + rest;
        let end = line_end(rest, from);
        assert(s.skip(front.len() + from) =~= rest.skip(from));
        if end < rest.len() {
            assert(s.subrange(front.len() + from, front.len() + end) =~= rest.subrange(from, end));
            lemma_lines_shift(front, rest, end + 1);
        }
    }
}

/// Whether a character is a decimal digit.
pub open spec fn is_digit(c: char) -> bool {
    '0' <= c <= '9'
}

/// The number that decimal digits stand for.
pub open spec fn digits_value(s: Seq<char>) -> nat
    decreases s.len(),
{
    if s.len() == 0 {
        0
    } else {
        digits_value(s.drop_last()) * 10 + (s.last() as nat - 48) as nat
    }
}

/// A number that was written in decimal is read back as it was, and every
/// character of it is a digit.
pub proof fn decimal_is_read_back(n: nat)
    ensures
        digits_value(decimal(n)) == n,
        decimal(n).len() > 0,
        forall|i: int| 0 <= i < decimal(n).len() ==> is_digit(#[trigger] decimal(n)[i]),
        n > 0 ==> decimal(n)[0] != '0',
    decreases n,
{
    let d = decimal(n);
    if n < 10 {
        assert(d.drop_last() =~= seq![]);
        assert(digits_value(d.drop_last()) == 0);
    } else {
        decimal_is_read_back(n / 10);
        assert(d.drop_last() =~= decimal(n / 10));
        assert forall|i: int| 0 <= i < d.len() implies is_digit(#[trigger] d[i]) by {
            if i < d.len() - 1 {
                assert(d[i] == decimal(n / 10)[i]);
            }
        }
        assert(d[0] == decimal(n / 10)[0]);
    }
}

/// The number that a text stands for, if it is one of at most `max`: digits
/// behind an optional plus sign.
pub open spec fn number_in(s: Seq<char>, max: nat) -> Option<nat> {
    if s.len() > 0 && s[0] == '+' {
        digits_in(s.skip(1), max)
    } else {
        digits_in(s, max)
    }
}

/// The number that digits stand for, if there are any and it is at most `max`.
pub open spec fn digits_in(d: Seq<char>, max: nat) -> Option<nat> {
    if d.len() > 0 && (forall|i: int| 0 <= i < d.len() ==> is_digit(#[trigger] d[i]))
        && digits_value(d) <= max {
        Some(digits_value(d))
    } else {
        None
    }
}

/// A front of a number is no greater.
proof fn lemma_digits_grow(s: Seq<char>, n: int)
    requires
        0 <= n <= s.len(),
    ensures
        digits_value(s.take(n)) <= digits_value(s),
    decreases s.len() - n,
{
    if n == s.len() {
        assert(s.take(n) =~= s);
    } else {
        lemma_digits_grow(s, n + 1);
        assert(s.take(n + 1).drop_last() =~= s.take(n));
    }
}

/// Reads a decimal number of at most `max`.
pub fn number(s: &str, max: u32) -> (r: Option<u32>)
    ensures
        match r {
            Some(n) => number_in(s@, max as nat) == Some(n as nat),
            None => number_in(s@, max as nat) is None,
        },
{
    let v = chars_of(s);
    let start: usize = if v.len() > 0 && v[0] == '+' {
        1
    } else {
        0
    };
    let ghost d = v@.skip(start as int);
    assert(start == 0 ==> d =~= v@);
    if start == v.len() {
        return None;
    }
    let mut value: u64 = 0;
    let mut i: usize = start;
    while i < v.len()
        invariant
            start <= i <= v@.len(),
            d == v@.skip(start as int),
            value == digits_value(d.take(i - start)),
            value <= max,
            forall|j: int| 0 <= j < i - start ==> is_digit(#[trigger] d[j]),
            d.len() > 0,
            number_in(s@, max as nat) == digits_in(d, max as nat),
        decreases v@.len() - i,
    {
        let c: char = v[i];
        assert(d[i - start] == c);
        if c < '0' || c > '9' {
            assert(!is_digit(d[i - start]));
            return None;
        }
        value = value * 10 + (c as u64 - 48);
        proof {
            let t = d.take(i + 1 - start);
            assert(t.drop_last() =~= d.take(i - start));
            assert(t.last() == c);
            lemma_digits_grow(d, i + 1 - start);
        }
        if value > max as u64 {
            return None;
        }
        i = i + 1;
    }
    assert(d.take(i - start) =~= d);
    Some(value as u32)
}

/// The decimal digits of `n` with zeros in front, six digits at least.
pub open spec fn six_digits(n: nat) -> Seq<char> {
    let d = decimal(n);
    if d.len() >= 6 {
        d
    } else {
        Seq::new((6 - d.len()) as nat, |i: int| '0') + d
    }
}

/// Zeros in front change no number.
pub proof fn six_digits_are_read_back(n: nat)
    ensures
        six_digits(n).len() >= 6,
        digits_value(six_digits(n)) == n,
{
    decimal_is_read_back(n);
    let d = decimal(n);
    if d.len() < 6 {
        lemma_zeros_in_front((6 - d.len()) as nat, d);
    }
}

proof fn lemma_zeros_in_front(k: nat, d: Seq<char>)
    ensures
        digits_value(Seq::new(k, |i: int| '0') + d) == digits_value(d),
    decreases d.len(), k,
{
    let z = Seq::new(k, |i: int| '0');
    let s = z + d;
    if d.len() > 0 {
        assert(s.drop_last() =~= z + d.drop_last());
        lemma_zeros_in_front(k, d.drop_last());
    } else if k > 0 {
        let y = Seq::new((k - 1) as nat, |i: int| '0');
        assert(s.drop_last() =~= y + d);
        lemma_zeros_in_front((k - 1) as nat, d);
        assert(s.last() == '0');
    } else {
        assert(s =~= d);
    }
}

/// Writes `n` in decimal with zeros in front, six digits at least.
pub fn six_digit_text(n: u64) -> (r: String)
    ensures
        r@ == six_digits(n as nat),
{
    let d = decimal_text(n);
    let count: usize = chars_of(d.as_str()).len();
    let mut out = String::new();
    let mut i: usize = count;
    while i < 6
        invariant
            count == d@.len(),
            count >= 6 ==> i == count,
            count < 6 ==> count <= i <= 6,
            out@ == Seq::new((i - count) as nat, |j: int| '0'),
        decreases 6 - i,
    {
        out.push('0');
        i = i + 1;
        assert(out@ =~= Seq::new((i - count) as nat, |j: int| '0'));
    }
    let r = out.concat(d.as_str());
    assert(r@ =~= six_digits(n as nat));
    r
}

/// A text without its last character.
pub fn without_last(s: &str) -> (r: String)
    ensures
        r@ == (if s@.len() > 0 {
            s@.drop_last()
        } else {
            s@
        }),
{
    let v = chars_of(s);
    if v.len() == 0 {
        return s.to_owned();
    }
    let r = text_of(&v, 0, v.len() - 1);
    assert(r@ =~= s@.drop_last());
    r
}

} // verus!
