//! Text rules: what counts as blank, trimming, and a session's title.

use vstd::prelude::*;

verus! {

broadcast use vstd::string::axiom_spec_iter;

/// Unicode `White_Space`, the set that `char::is_whitespace` documents.
pub open spec fn is_white_space(c: char) -> bool {
    let n = c as u32;
    ||| 0x09 <= n <= 0x0d
    ||| n == 0x20
    ||| n == 0x85
    ||| n == 0xa0
    ||| n == 0x1680
    ||| 0x2000 <= n <= 0x200a
    ||| n == 0x2028
    ||| n == 0x2029
    ||| n == 0x202f
    ||| n == 0x205f
    ||| n == 0x3000
}

/// `s` without its leading white space.
pub open spec fn trim_start(s: Seq<char>) -> Seq<char>
    decreases s.len(),
{
    if s.len() > 0 && is_white_space(s[0]) {
        trim_start(s.drop_first())
    } else {
        s
    }
}

/// `s` without its trailing white space.
pub open spec fn trim_end(s: Seq<char>) -> Seq<char>
    decreases s.len(),
{
    if s.len() > 0 && is_white_space(s.last()) {
        trim_end(s.drop_last())
    } else {
        s
    }
}

/// `s` without leading and trailing white space.
pub open spec fn trim(s: Seq<char>) -> Seq<char> {
    trim_end(trim_start(s))
}

/// The number of characters before the first line feed, or the length of
/// `s` where it has none.
pub open spec fn line_end(s: Seq<char>) -> nat
    decreases s.len(),
{
    if s.len() == 0 || s[0] == '\n' {
        0
    } else {
        1 + line_end(s.drop_first())
    }
}

/// The first line of `s`: what comes before its first line feed.
pub open spec fn first_line(s: Seq<char>) -> Seq<char> {
    s.take(line_end(s) as int)
}

/// A new session's title: the first line of its first message, trimmed.
/// A carriage return that ends the line is white space, so it goes too.
pub open spec fn title_of(content: Seq<char>) -> Seq<char> {
    trim(first_line(content))
}

pub(crate) fn white_space(c: char) -> (b: bool)
    ensures
        b == is_white_space(c),
{
    let n = c as u32;
    (0x09 <= n && n <= 0x0d) || n == 0x20 || n == 0x85 || n == 0xa0 || n == 0x1680 || (0x2000
        <= n && n <= 0x200a) || n == 0x2028 || n == 0x2029 || n == 0x202f || n == 0x205f || n
        == 0x3000
}

/// Appends `c`, as `String::push` documents.
#[verifier::external_body]
fn push_char(s: &mut String, c: char)
    ensures
        final(s)@ == old(s)@.push(c),
{
    s.push(c);
}

/// The characters of `s`, in order.
fn chars_of(s: &str) -> (v: Vec<char>)
    ensures
        v@ == s@,
{
    let mut v: Vec<char> = Vec::new();
    for c in it: s.chars()
        invariant
            v@ == it.seq().take(it.index()),
            it.seq() == s@,
    {
        v.push(c);
    }
    v
}

proof fn lemma_trim_start_skip(s: Seq<char>, i: int)
    requires
        0 <= i <= s.len(),
        forall|j: int| 0 <= j < i ==> is_white_space(#[trigger] s[j]),
    ensures
        trim_start(s) == trim_start(s.skip(i)),
    decreases i,
{
    if i > 0 {
        assert(s.skip(1) == s.drop_first());
        lemma_trim_start_skip(s.drop_first(), i - 1);
        assert(s.drop_first().skip(i - 1) == s.skip(i));
    } else {
        assert(s.skip(0) == s);
    }
}

proof fn lemma_trim_end_take(s: Seq<char>, i: int)
    requires
        0 <= i <= s.len(),
        forall|j: int| i <= j < s.len() ==> is_white_space(#[trigger] s[j]),
    ensures
        trim_end(s) == trim_end(s.take(i)),
    decreases s.len() - i,
{
    if i < s.len() {
        assert(s.take(s.len() - 1) == s.drop_last());
        lemma_trim_end_take(s.drop_last(), i);
        assert(s.drop_last().take(i) == s.take(i));
    } else {
        assert(s.take(s.len() as int) == s);
    }
}

proof fn lemma_line_end_skip(s: Seq<char>, i: int)
    requires
        0 <= i <= s.len(),
        forall|j: int| 0 <= j < i ==> #[trigger] s[j] != '\n',
    ensures
        line_end(s) == i + line_end(s.skip(i)),
    decreases i,
{
    if i > 0 {
        lemma_line_end_skip(s.drop_first(), i - 1);
        assert(s.drop_first().skip(i - 1) == s.skip(i));
    } else {
        assert(s.skip(0) == s);
    }
}

/// The characters `v[from..to]` as a string.
fn string_of(v: &Vec<char>, from: usize, to: usize) -> (s: String)
    requires
        from <= to <= v.len(),
    ensures
        s@ == v@.subrange(from as int, to as int),
{
    let mut s = String::new();
    let mut i = from;
    while i < to
        invariant
            from <= i <= to <= v.len(),
            s@ == v@.subrange(from as int, i as int),
        decreases to - i,
    {
        push_char(&mut s, v[i]);
        assert(v@.subrange(from as int, i + 1) == v@.subrange(from as int, i as int).push(v@[i as int]));
        i += 1;
    }
    s
}

/// The bounds of `v[from..to]` once its leading and trailing white space
/// are gone.
fn trimmed_bounds(v: &Vec<char>, from: usize, to: usize) -> (r: (usize, usize))
    requires
        from <= to <= v.len(),
    ensures
        from <= r.0 <= r.1 <= to,
        v@.subrange(r.0 as int, r.1 as int) == trim(v@.subrange(from as int, to as int)),
{
    let ghost s = v@.subrange(from as int, to as int);
    let mut start = from;
    while start < to && white_space(v[start])
        invariant
            from <= start <= to <= v.len(),
            forall|j: int| from <= j < start ==> is_white_space(#[trigger] v@[j]),
        decreases to - start,
    {
        start += 1;
    }
    proof {
        assert forall|j: int| 0 <= j < start - from implies is_white_space(#[trigger] s[j]) by {
            assert(s[j] == v@[from + j]);
        }
        lemma_trim_start_skip(s, start - from);
        assert(s.skip(start - from) == v@.subrange(start as int, to as int));
        let t = v@.subrange(start as int, to as int);
        if start < to {
            assert(!is_white_space(t[0]));
        }
        assert(trim_start(t) == t);
    }
    let mut end = to;
    while end > start && white_space(v[end - 1])
        invariant
            from <= start <= end <= to <= v.len(),
            forall|j: int| end <= j < to ==> is_white_space(#[trigger] v@[j]),
        decreases end - start,
    {
        end -= 1;
    }
    proof {
        let t = v@.subrange(start as int, to as int);
        assert forall|j: int| end - start <= j < t.len() implies is_white_space(#[trigger] t[j]) by {
            assert(t[j] == v@[start + j]);
        }
        lemma_trim_end_take(t, end - start);
        let u = t.take(end - start);
        assert(u == v@.subrange(start as int, end as int));
        if end > start {
            assert(!is_white_space(u.last()));
        }
        assert(trim_end(u) == u);
    }
    (start, end)
}

/// `s` without leading and trailing white space, as `str::trim` does it.
pub fn trimmed(s: &str) -> (t: String)
    ensures
        t@ == trim(s@),
{
    let v = chars_of(s);
    let (start, end) = trimmed_bounds(&v, 0, v.len());
    assert(v@.subrange(0, v@.len() as int) == v@);
    string_of(&v, start, end)
}

/// A new session's title: the first line of its first message, trimmed.
pub fn title_from(content: &str) -> (title: String)
    ensures
        title@ == title_of(content@),
{
    let v = chars_of(content);
    let mut end: usize = 0;
    while end < v.len() && v[end] != '\n'
        invariant
            end <= v.len(),
            forall|j: int| 0 <= j < end ==> #[trigger] v@[j] != '\n',
        decreases v.len() - end,
    {
        end += 1;
    }
    proof {
        lemma_line_end_skip(v@, end as int);
        let rest = v@.skip(end as int);
        if end < v.len() {
            assert(rest[0] == '\n');
        }
        assert(line_end(rest) == 0);
        assert(v@.subrange(0, end as int) == v@.take(end as int));
    }
    let (start, stop) = trimmed_bounds(&v, 0, end);
    string_of(&v, start, stop)
}

/// The decimal digit for `d`, which is 0 to 9.
pub open spec fn digit_char(d: int) -> char {
    (('0' as int) + d) as char
}

/// The decimal digits of `n`, which is not negative, most significant
/// first and without leading zeros.
pub open spec fn digits(n: nat) -> Seq<char>
    decreases n,
{
    if n < 10 {
        seq![digit_char(n as int)]
    } else {
        digits(n / 10) + seq![digit_char((n % 10) as int)]
    }
}

/// `n` in decimal, with a minus sign where it is negative, as Rust's
/// `Display` writes integers.
pub open spec fn decimal(n: int) -> Seq<char> {
    if n < 0 {
        seq!['-'] + digits((-n) as nat)
    } else {
        digits(n as nat)
    }
}

/// `n` in decimal, as `n.to_string()` writes it.
pub fn decimal_string(n: i16) -> (s: String)
    ensures
        s@ == decimal(n as int),
{
    let negative = n < 0;
    let mut rest: u32 = if negative {
        (-(n as i32)) as u32
    } else {
        n as u32
    };
    let ghost whole = rest as nat;
    // Digits, least significant first.
    let mut reversed: Vec<char> = Vec::new();
    assert(digits(whole) =~= digits(rest as nat) + reversed@.reverse());
    loop
        invariant_except_break
            digits(whole) == digits(rest as nat) + reversed@.reverse(),
        invariant
            rest <= whole,
            whole < 100000,
            whole == (if negative { -(n as int) } else { n as int }),
        ensures
            digits(whole) == reversed@.reverse(),
        decreases rest,
    {
        let d = rest % 10;
        let c = char_of_digit(d);
        proof {
            let r = rest as nat;
            if r >= 10 {
                assert(digits(r) == digits(r / 10) + seq![digit_char((r % 10) as int)]);
            }
        }
        let ghost before = reversed@;
        reversed.push(c);
        assert(reversed@.reverse() =~= seq![c] + before.reverse());
        if rest < 10 {
            assert(digits(rest as nat) == seq![c]);
            assert(digits(whole) =~= reversed@.reverse());
            break;
        }
        rest = rest / 10;
        assert(digits(whole) =~= digits(rest as nat) + reversed@.reverse());
    }
    let mut s = String::new();
    if negative {
        push_char(&mut s, '-');
    }
    let ghost prefix = s@;
    let mut i = reversed.len();
    while i > 0
        invariant
            i <= reversed@.len(),
            s@ == prefix + reversed@.reverse().take(reversed@.len() - i),
        decreases i,
    {
        i -= 1;
        let ghost before = s@;
        push_char(&mut s, reversed[i]);
        assert(reversed@.reverse().take(reversed@.len() - i) =~= reversed@.reverse().take(
            reversed@.len() - i - 1,
        ).push(reversed@[i as int]));
    }
    assert(reversed@.reverse().take(reversed@.len() as int) =~= reversed@.reverse());
    proof {
        if negative {
            assert(prefix =~= seq!['-']);
        } else {
            assert(prefix =~= Seq::<char>::empty());
            assert(s@ =~= reversed@.reverse());
        }
    }
    s
}

/// The character of decimal digit `d`.
fn char_of_digit(d: u32) -> (c: char)
    requires
        d < 10,
    ensures
        c == digit_char(d as int),
{
    let c = match d {
        0 => '0',
        1 => '1',
        2 => '2',
        3 => '3',
        4 => '4',
        5 => '5',
        6 => '6',
        7 => '7',
        8 => '8',
        _ => '9',
    };
    c
}

} // verus!
