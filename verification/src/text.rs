//! Plain text: trimming, lines, decimal numbers, and endpoint addresses.
use vstd::prelude::*;
use vstd::string::*;

verus! {

/// The Unicode property `White_Space`.
pub open spec fn is_white_space(c: char) -> bool {
    ||| 0x9 <= c as int <= 0xd
    ||| c as int == 0x20
    ||| c as int == 0x85
    ||| c as int == 0xa0
    ||| c as int == 0x1680
    ||| 0x2000 <= c as int <= 0x200a
    ||| 0x2028 <= c as int <= 0x2029
    ||| c as int == 0x202f
    ||| c as int == 0x205f
    ||| c as int == 0x3000
}

pub open spec fn trim_start(s: Seq<char>) -> Seq<char>
    decreases s.len(),
{
    if s.len() > 0 && is_white_space(s.first()) {
        trim_start(s.drop_first())
    } else {
        s
    }
}

pub open spec fn trim_end(s: Seq<char>) -> Seq<char>
    decreases s.len(),
{
    if s.len() > 0 && is_white_space(s.last()) {
        trim_end(s.drop_last())
    } else {
        s
    }
}

/// Without white space at either end.
pub open spec fn trim(s: Seq<char>) -> Seq<char> {
    trim_end(trim_start(s))
}

/// The pieces between line feeds.
pub open spec fn lines(s: Seq<char>) -> Seq<Seq<char>>
    decreases s.len(),
{
    if s.len() == 0 {
        seq![Seq::empty()]
    } else {
        let earlier = lines(s.drop_last());
        if s.last() == '\n' {
            earlier.push(Seq::empty())
        } else {
            earlier.drop_last().push(earlier.last().push(s.last()))
        }
    }
}

/// `i` is where `c` occurs first.
pub open spec fn first_at(s: Seq<char>, c: char, i: int) -> bool {
    &&& 0 <= i < s.len()
    &&& s[i] == c
    &&& forall|j: int| 0 <= j < i ==> s[j] != c
}

pub open spec fn is_digit(c: char) -> bool {
    '0' as int <= c as int <= '9' as int
}

/// What a string of decimal digits is worth.
pub open spec fn decimal_value(digits: Seq<char>) -> nat
    decreases digits.len(),
{
    if digits.len() == 0 {
        0
    } else {
        decimal_value(digits.drop_last()) * 10 + (digits.last() as int - '0' as int) as nat
    }
}

pub open spec fn all_digits(s: Seq<char>) -> bool {
    forall|i: int| 0 <= i < s.len() ==> is_digit(#[trigger] s[i])
}

/// Without the `+` that may stand in front of a number.
pub open spec fn unsigned_part(s: Seq<char>) -> Seq<char> {
    if s.len() > 0 && s[0] == '+' {
        s.drop_first()
    } else {
        s
    }
}

/// The number that a decimal text stands for: at least one digit, an optional
/// `+` in front, and nothing else.
pub open spec fn decimal(s: Seq<char>) -> Option<nat> {
    let digits = unsigned_part(s);
    if digits.len() > 0 && all_digits(digits) {
        Some(decimal_value(digits))
    } else {
        None
    }
}

/// The number that a decimal text stands for, if a `u64` can hold it.
pub open spec fn decimal_u64(s: Seq<char>) -> Option<u64> {
    match decimal(s) {
        Some(n) => if n <= u64::MAX {
            Some(n as u64)
        } else {
            None
        },
        None => None,
    }
}

/// Without the slashes at its end.
pub open spec fn trim_slashes(s: Seq<char>) -> Seq<char>
    decreases s.len(),
{
    if s.len() > 0 && s.last() == '/' {
        trim_slashes(s.drop_last())
    } else {
        s
    }
}

/// The address of `path` on the server at `base`.
pub open spec fn endpoint_of(base: Seq<char>, path: Seq<char>) -> Seq<char> {
    trim_slashes(base) + path
}

/// The views of a list of character lists.
pub open spec fn pieces(list: Seq<Vec<char>>) -> Seq<Seq<char>> {
    list.map_values(|piece: Vec<char>| piece@)
}

proof fn lemma_trim_start_keeps(s: Seq<char>, i: int)
    requires
        0 <= i < s.len(),
        !is_white_space(s[i]),
    ensures
        trim_start(s).contains(s[i]),
    decreases s.len(),
{
    if is_white_space(s.first()) {
        lemma_trim_start_keeps(s.drop_first(), i - 1);
    }
}

proof fn lemma_trim_end_keeps(s: Seq<char>, i: int)
    requires
        0 <= i < s.len(),
        !is_white_space(s[i]),
    ensures
        trim_end(s).contains(s[i]),
    decreases s.len(),
{
    if is_white_space(s.last()) {
        lemma_trim_end_keeps(s.drop_last(), i);
    }
}

/// Trimming keeps every character that is not white space.
pub proof fn lemma_trim_keeps(s: Seq<char>, i: int)
    requires
        0 <= i < s.len(),
        !is_white_space(s[i]),
    ensures
        trim(s).contains(s[i]),
{
    lemma_trim_start_keeps(s, i);
    let j = choose|j: int| 0 <= j < trim_start(s).len() && trim_start(s)[j] == s[i];
    lemma_trim_end_keeps(trim_start(s), j);
}

/// The characters of a text.
pub(crate) fn chars_of(text: &str) -> (r: Vec<char>)
    ensures
        r@ == text@,
{
    broadcast use axiom_spec_iter;

    let mut chars: Vec<char> = Vec::new();
    for c in it: text.chars()
        invariant
            it.seq() == text@,
            chars@ == text@.take(it.index() as int),
    {
        chars.push(c);
        assert(chars@ =~= text@.take(it.index() + 1));
    }
    assert(text@.take(text@.len() as int) =~= text@);
    chars
}

fn white_space(c: char) -> (r: bool)
    ensures
        r == is_white_space(c),
{
    let n: u32 = c as u32;
    (0x9 <= n && n <= 0xd) || n == 0x20 || n == 0x85 || n == 0xa0 || n == 0x1680 || (0x2000 <= n
        && n <= 0x200a) || (0x2028 <= n && n <= 0x2029) || n == 0x202f || n == 0x205f || n
        == 0x3000
}

/// A copy without white space at either end.
pub(crate) fn trimmed(chars: &Vec<char>) -> (r: Vec<char>)
    ensures
        r@ == trim(chars@),
{
    let mut from: usize = 0;
    assert(chars@.skip(0) =~= chars@);
    while from < chars.len() && white_space(chars[from])
        invariant
            from <= chars@.len(),
            trim_start(chars@) == trim_start(chars@.skip(from as int)),
        decreases chars@.len() - from,
    {
        assert(chars@.skip(from as int).drop_first() =~= chars@.skip(from + 1));
        from = from + 1;
    }
    assert(trim_start(chars@) == chars@.skip(from as int));
    let mut to: usize = chars.len();
    assert(chars@.subrange(from as int, to as int) =~= chars@.skip(from as int));
    while to > from && white_space(chars[to - 1])
        invariant
            from <= to <= chars@.len(),
            trim(chars@) == trim_end(chars@.subrange(from as int, to as int)),
        decreases to,
    {
        assert(chars@.subrange(from as int, to as int).drop_last() =~= chars@.subrange(
            from as int,
            to - 1,
        ));
        to = to - 1;
    }
    copy_range(chars, from, to)
}

/// The characters from `from` up to `to`.
fn copy_range(chars: &Vec<char>, from: usize, to: usize) -> (r: Vec<char>)
    requires
        from <= to <= chars@.len(),
    ensures
        r@ == chars@.subrange(from as int, to as int),
{
    let mut out: Vec<char> = Vec::new();
    let mut i: usize = from;
    while i < to
        invariant
            from <= i <= to <= chars@.len(),
            out@ == chars@.subrange(from as int, i as int),
        decreases to - i,
    {
        out.push(chars[i]);
        i = i + 1;
        assert(out@ =~= chars@.subrange(from as int, i as int));
    }
    out
}

/// Cuts a text at its line feeds.
pub(crate) fn split_lines(chars: &Vec<char>) -> (r: Vec<Vec<char>>)
    ensures
        pieces(r@) == lines(chars@),
{
    let mut done: Vec<Vec<char>> = Vec::new();
    let mut current: Vec<char> = Vec::new();
    let mut i: usize = 0;
    assert(pieces(done@).push(current@) =~= lines(chars@.take(0)));
    while i < chars.len()
        invariant
            i <= chars@.len(),
            pieces(done@).push(current@) == lines(chars@.take(i as int)),
        decreases chars@.len() - i,
    {
        let ghost before = pieces(done@).push(current@);
        let c = chars[i];
        assert(chars@.take(i + 1).drop_last() =~= chars@.take(i as int));
        assert(before.drop_last() =~= pieces(done@));
        if c == '\n' {
            let ghost old_done = done@;
            let ghost line = current@;
            done.push(current);
            assert(pieces(done@) =~= pieces(old_done).push(line));
            current = Vec::new();
        } else {
            current.push(c);
        }
        i = i + 1;
        assert(pieces(done@).push(current@) =~= lines(chars@.take(i as int)));
    }
    assert(chars@.take(chars@.len() as int) =~= chars@);
    let ghost old_done = done@;
    let ghost line = current@;
    done.push(current);
    assert(pieces(done@) =~= pieces(old_done).push(line));
    done
}

/// The parts of a text before and after the first `separator`.
pub(crate) fn split_at_first(chars: &Vec<char>, separator: char) -> (r: Option<
    (Vec<char>, Vec<char>),
>)
    ensures
        match r {
            Some((before, after)) => {
                &&& first_at(chars@, separator, before@.len() as int)
                &&& before@ == chars@.take(before@.len() as int)
                &&& after@ == chars@.skip(before@.len() as int + 1)
            },
            None => !chars@.contains(separator),
        },
{
    let mut i: usize = 0;
    while i < chars.len()
        invariant
            i <= chars@.len(),
            forall|j: int| 0 <= j < i ==> chars@[j] != separator,
        decreases chars@.len() - i,
    {
        if chars[i] == separator {
            let before = copy_range(chars, 0, i);
            let after = copy_range(chars, i + 1, chars.len());
            assert(before@ =~= chars@.take(i as int));
            assert(after@ =~= chars@.skip(i + 1));
            return Some((before, after));
        }
        i = i + 1;
    }
    None
}

proof fn lemma_decimal_value_grows(digits: Seq<char>, n: int)
    requires
        0 <= n <= digits.len(),
    ensures
        decimal_value(digits.take(n)) <= decimal_value(digits),
    decreases digits.len() - n,
{
    if n == digits.len() {
        assert(digits.take(n) =~= digits);
    } else {
        lemma_decimal_value_grows(digits.drop_last(), n);
        assert(digits.drop_last().take(n) =~= digits.take(n));
    }
}

/// Reads a decimal number.
pub(crate) fn parse_u64(chars: &Vec<char>) -> (r: Option<u64>)
    ensures
        r == decimal_u64(chars@),
{
    let from: usize = if chars.len() > 0 && chars[0] == '+' {
        1
    } else {
        0
    };
    let ghost digits = unsigned_part(chars@);
    assert(digits =~= chars@.skip(from as int));
    if from == chars.len() {
        return None;
    }
    let mut value: u64 = 0;
    let mut i: usize = from;
    while i < chars.len()
        invariant
            from <= i <= chars@.len(),
            digits == unsigned_part(chars@),
            digits == chars@.skip(from as int),
            from < chars@.len(),
            forall|j: int| 0 <= j < i - from ==> is_digit(#[trigger] digits[j]),
            value == decimal_value(digits.take(i - from)),
        decreases chars@.len() - i,
    {
        let c = chars[i];
        assert(digits[i - from] == c);
        if !('0' <= c && c <= '9') {
            assert(!is_digit(digits[i - from]) && !all_digits(digits));
            return None;
        }
        let digit: u64 = (c as u32 - '0' as u32) as u64;
        proof {
            assert(digits.take(i - from + 1).drop_last() =~= digits.take(i - from));
            lemma_decimal_value_grows(digits, i - from + 1);
        }
        match value.checked_mul(10) {
            Some(tens) => match tens.checked_add(digit) {
                Some(sum) => {
                    value = sum;
                },
                None => {
                    return None;
                },
            },
            None => {
                return None;
            },
        }
        i = i + 1;
    }
    assert(digits.take(digits.len() as int) =~= digits);
    Some(value)
}

/// The address of `path` on the server at `base`: however many slashes `base`
/// ends in, one separates it from the path.
pub fn endpoint(base: &str, path: &str) -> (r: String)
    ensures
        r@ == endpoint_of(base@, path@),
{
    let mut n: usize = base.unicode_len();
    assert(base@.take(n as int) =~= base@);
    while n > 0 && base.get_char(n - 1) == '/'
        invariant
            n <= base@.len(),
            trim_slashes(base@) == trim_slashes(base@.take(n as int)),
        decreases n,
    {
        assert(base@.take(n as int).drop_last() =~= base@.take(n - 1));
        n = n - 1;
    }
    let kept = base.substring_char(0, n);
    assert(kept@ =~= base@.take(n as int));
    String::from_str(kept).concat(path)
}

// ---------------------------------------------------------------------------
// Laws
// ---------------------------------------------------------------------------

/// The white space of ASCII is white space, what is printed is not, and of the
/// rest the separators that Unicode lists are.
pub proof fn law_what_is_white_space(c: char)
    ensures
        c == ' ' || c == '\t' || c == '\n' || c == '\r' || c as int == 11 || c as int == 12
            ==> is_white_space(c),
        33 <= c as int <= 132 ==> !is_white_space(c),
        c as int <= 8 || 14 <= c as int <= 31 ==> !is_white_space(c),
        c as int == 133 || c as int == 160 || c as int == 5760 || c as int == 12288
            ==> is_white_space(c),
        8192 <= c as int <= 8202 || c as int == 8232 || c as int == 8233 || c as int == 8239
            || c as int == 8287 ==> is_white_space(c),
        134 <= c as int <= 159 || 161 <= c as int <= 5759 || 5761 <= c as int <= 8191 || 8203
            <= c as int <= 8231 || 8234 <= c as int <= 8238 || 8240 <= c as int <= 8286 || 8288
            <= c as int <= 12287 || c as int > 12288 ==> !is_white_space(c),
{
}

proof fn lemma_trim_start(s: Seq<char>) -> (from: int)
    ensures
        0 <= from <= s.len(),
        trim_start(s) == s.skip(from),
        forall|i: int| 0 <= i < from ==> is_white_space(#[trigger] s[i]),
        from < s.len() ==> !is_white_space(s[from]),
    decreases s.len(),
{
    if s.len() > 0 && is_white_space(s.first()) {
        let from = lemma_trim_start(s.drop_first());
        assert(s.drop_first().skip(from) =~= s.skip(from + 1));
        assert forall|i: int| 0 <= i < from + 1 implies is_white_space(#[trigger] s[i]) by {
            if i > 0 {
                assert(s.drop_first()[i - 1] == s[i]);
            }
        }
        if from < s.drop_first().len() {
            assert(s.drop_first()[from] == s[from + 1]);
        }
        from + 1
    } else {
        assert(s.skip(0) =~= s);
        0
    }
}

proof fn lemma_trim_end(s: Seq<char>) -> (to: int)
    ensures
        0 <= to <= s.len(),
        trim_end(s) == s.take(to),
        forall|i: int| to <= i < s.len() ==> is_white_space(#[trigger] s[i]),
        to > 0 ==> !is_white_space(s[to - 1]),
    decreases s.len(),
{
    if s.len() > 0 && is_white_space(s.last()) {
        let to = lemma_trim_end(s.drop_last());
        assert(s.drop_last().take(to) =~= s.take(to));
        assert forall|i: int| to <= i < s.len() implies is_white_space(#[trigger] s[i]) by {
            if i < s.len() - 1 {
                assert(s.drop_last()[i] == s[i]);
            }
        }
        if to > 0 {
            assert(s.drop_last()[to - 1] == s[to - 1]);
        }
        to
    } else {
        assert(s.take(s.len() as int) =~= s);
        s.len() as int
    }
}

/// Trimming takes white space away at both ends, all of it and nothing else:
/// what is left neither starts nor ends with white space.
pub proof fn law_trimming_takes_only_white_space(s: Seq<char>)
    ensures
        exists|from: int, to: int|
            {
                &&& 0 <= from <= to <= s.len()
                &&& trim(s) == #[trigger] s.subrange(from, to)
                &&& forall|i: int|
                    0 <= i < s.len() && (i < from || i >= to) ==> is_white_space(#[trigger] s[i])
            },
        trim(s).len() > 0 ==> !is_white_space(trim(s).first()) && !is_white_space(trim(s).last()),
{
    let from = lemma_trim_start(s);
    let rest = trim_start(s);
    let kept = lemma_trim_end(rest);
    let to = from + kept;
    assert(rest.take(kept) =~= s.subrange(from, to));
    assert forall|i: int| 0 <= i < s.len() && (i < from || i >= to) implies is_white_space(
        #[trigger] s[i],
    ) by {
        if i >= to {
            assert(rest[i - from] == s[i]);
        }
    }
    if kept > 0 {
        assert(trim(s).first() == s[from]);
        assert(trim(s).last() == rest[kept - 1]);
    }
}

/// The pieces with line feeds between them.
pub open spec fn joined(lines: Seq<Seq<char>>) -> Seq<char>
    decreases lines.len(),
{
    if lines.len() == 0 {
        Seq::empty()
    } else if lines.len() == 1 {
        lines[0]
    } else {
        joined(lines.drop_last()) + seq!['\n'] + lines.last()
    }
}

/// A text is its lines with line feeds between them, and no line holds one.
pub proof fn law_lines_make_up_their_text(s: Seq<char>)
    ensures
        lines(s).len() > 0,
        joined(lines(s)) == s,
        forall|i: int| 0 <= i < lines(s).len() ==> !(#[trigger] lines(s)[i]).contains('\n'),
    decreases s.len(),
{
    if s.len() == 0 {
        assert(lines(s) =~= seq![Seq::<char>::empty()]);
        assert(joined(lines(s)) =~= s);
    } else {
        let shorter = s.drop_last();
        let earlier = lines(shorter);
        law_lines_make_up_their_text(shorter);
        assert(shorter.push(s.last()) =~= s);
        if s.last() == '\n' {
            assert(lines(s).drop_last() =~= earlier);
            assert(joined(lines(s)) =~= s);
        } else {
            let grown = earlier.last().push(s.last());
            assert(lines(s).drop_last() =~= earlier.drop_last());
            assert(joined(lines(s)) =~= s) by {
                if earlier.len() == 1 {
                    assert(lines(s)[0] == grown);
                } else {
                    assert(joined(earlier.drop_last()) + seq!['\n'] + earlier.last().push(s.last())
                        =~= (joined(earlier.drop_last()) + seq!['\n'] + earlier.last()).push(
                        s.last(),
                    ));
                }
            }
            assert forall|i: int| 0 <= i < lines(s).len() implies !(
            #[trigger] lines(s)[i]).contains('\n') by {
                if i == lines(s).len() - 1 {
                    if grown.contains('\n') {
                        let j = choose|j: int| 0 <= j < grown.len() && grown[j] == '\n';
                        assert(j < earlier.last().len());
                        assert(earlier.last()[j] == '\n');
                        assert(earlier[earlier.len() - 1].contains('\n'));
                    }
                } else {
                    assert(lines(s)[i] == earlier[i]);
                }
            }
        }
    }
}

/// Digits count by their places: the digits in front count ten times as much
/// for each digit behind them.
pub proof fn law_digits_count_by_their_places(front: Seq<char>, behind: Seq<char>, digit: char)
    requires
        is_digit(digit),
    ensures
        decimal_value(Seq::empty()) == 0,
        decimal_value(seq![digit]) == digit as int - '0' as int,
        decimal_value(front + behind) == decimal_value(front) * vstd::arithmetic::power::pow(
            10,
            behind.len(),
        ) + decimal_value(behind),
    decreases behind.len(),
{
    let single = seq![digit];
    assert(single.drop_last() =~= Seq::empty());
    assert(single.last() == digit);
    assert(decimal_value(single) == decimal_value(single.drop_last()) * 10 + (digit as int
        - '0' as int) as nat);
    reveal(vstd::arithmetic::power::pow);
    if behind.len() == 0 {
        assert(front + behind =~= front);
    } else {
        let shorter = behind.drop_last();
        law_digits_count_by_their_places(front, shorter, digit);
        assert((front + behind).drop_last() =~= front + shorter);
        let p = vstd::arithmetic::power::pow(10, shorter.len());
        let f = decimal_value(front) as int;
        let b = decimal_value(shorter) as int;
        assert((f * p + b) * 10 == f * (10 * p) + b * 10) by (nonlinear_arith);
    }
}

/// A text is a number exactly if it has at least one digit and nothing but
/// digits, behind a `+` or without.
pub proof fn law_what_is_a_number(digits: Seq<char>)
    requires
        digits.len() > 0,
    ensures
        (forall|i: int| 0 <= i < digits.len() ==> '0' as int <= (#[trigger] digits[i]) as int
            <= '9' as int) ==> {
            &&& decimal(digits) == Some(decimal_value(digits))
            &&& decimal(seq!['+'] + digits) == Some(decimal_value(digits))
            &&& decimal_value(digits) <= u64::MAX ==> decimal_u64(digits) == Some(
                decimal_value(digits) as u64,
            )
            &&& decimal_value(digits) > u64::MAX ==> decimal_u64(digits) is None
        },
        forall|i: int|
            0 < i < digits.len() && !('0' as int <= (#[trigger] digits[i]) as int <= '9' as int)
                ==> decimal(digits) is None && decimal_u64(digits) is None,
        !('0' as int <= digits[0] as int <= '9' as int) && digits[0] != '+' ==> decimal(digits)
            is None,
        decimal(Seq::empty()) is None,
        decimal(seq!['+']) is None,
{
    let signed = seq!['+'] + digits;
    assert(signed.drop_first() =~= digits);
    assert(unsigned_part(signed) == digits);
    assert(seq!['+'].drop_first() =~= Seq::<char>::empty());
    assert(!is_digit('+'));
    if forall|i: int| 0 <= i < digits.len() ==> '0' as int <= (#[trigger] digits[i]) as int
        <= '9' as int {
        assert(is_digit(digits[0]));
        assert(unsigned_part(digits) == digits);
        assert(all_digits(digits));
    }
    assert forall|i: int|
        0 < i < digits.len() && !('0' as int <= (#[trigger] digits[i]) as int
            <= '9' as int) implies decimal(digits) is None && decimal_u64(digits) is None by {
        let part = unsigned_part(digits);
        if digits[0] == '+' {
            assert(part[i - 1] == digits[i]);
        } else {
            assert(part[i] == digits[i]);
        }
    }
    if !('0' as int <= digits[0] as int <= '9' as int) && digits[0] != '+' {
        assert(!is_digit(unsigned_part(digits)[0]));
    }
}

/// An address is the base without the slashes at its end, whatever their
/// number, and then the path.
pub proof fn law_an_address_has_no_doubled_slash(base: Seq<char>, path: Seq<char>, slashes: nat)
    requires
        base.len() > 0 ==> base.last() != '/',
    ensures
        endpoint_of(base + Seq::new(slashes, |i: int| '/'), path) == base + path,
    decreases slashes,
{
    let all = base + Seq::new(slashes, |i: int| '/');
    if slashes == 0 {
        assert(all =~= base);
    } else {
        law_an_address_has_no_doubled_slash(base, path, (slashes - 1) as nat);
        let fewer = base + Seq::new((slashes - 1) as nat, |i: int| '/');
        assert(all.drop_last() =~= fewer);
        assert(all.last() == '/');
        assert(trim_slashes(all) == trim_slashes(fewer));
    }
}

/// A character occurs first where it stands and does not stand before, and a
/// text that holds it has exactly one such place.
pub proof fn law_where_a_character_occurs_first(s: Seq<char>, c: char, i: int, k: int)
    ensures
        first_at(s, c, i) <==> 0 <= i < s.len() && s[i] == c && !s.take(i).contains(c),
        first_at(s, c, i) && first_at(s, c, k) ==> i == k,
{
    if 0 <= i < s.len() && s[i] == c && !s.take(i).contains(c) {
        assert forall|j: int| 0 <= j < i implies s[j] != c by {
            assert(s.take(i)[j] == s[j]);
        }
    }
}

/// A number that a `u64` can hold is a number, and the other way round.
pub proof fn law_what_a_machine_number_is(s: Seq<char>)
    ensures
        decimal(s) is None ==> decimal_u64(s) is None,
        decimal(s) is Some ==> (decimal_u64(s) is Some <==> decimal(s)->0
            <= 18446744073709551615),
        decimal_u64(s) is Some ==> decimal_u64(s)->0 as int == decimal(s)->0,
{
}

} // verus!
