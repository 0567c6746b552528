//! Text utilities shared by the preprocessor: character classes, trimming,
//! tokens, lines and the numeric literal parser.
use vstd::prelude::*;
use vstd::std_specs::iter::IteratorSpec;
use crate::pp::WGSLError;

verus! {

broadcast use vstd::string::group_string_axioms;

/// `String::push` of the standard library: appends one character to the end of
/// the string and leaves the characters before it as they were.
pub assume_specification[ String::push ](s: &mut String, c: char)
    ensures
        final(s)@ == old(s)@.push(c),
;

/// Copies the characters of a string slice into a vector.
pub fn chars_of(s: &str) -> (v: Vec<char>)
    ensures
        v@ == s@,
{
    let mut v: Vec<char> = Vec::new();
    let mut it = s.chars();
    loop
        invariant
            v@ + it.remaining() == s@,
            it.obeys_prophetic_iter_laws(),
            it.decrease() is Some,
        decreases it.decrease()->0,
    {
        let ghost before = it.remaining();
        match it.next() {
            Some(c) => {
                v.push(c);
                assert(v@ + it.remaining() =~= s@) by {
                    assert(before.drop_first() == it.remaining());
                    assert(before[0] == c);
                }
            },
            None => {
                assert(before.len() == 0);
                assert(v@ =~= s@);
                return v;
            },
        }
    }
}

/// Appends the characters `v[from..to]` to `out`.
pub fn push_chars(out: &mut String, v: &Vec<char>, from: usize, to: usize)
    requires
        from <= to <= v.len(),
    ensures
        final(out)@ == old(out)@ + v@.subrange(from as int, to as int),
{
    let mut i: usize = from;
    while i < to
        invariant
            from <= i <= to <= v.len(),
            out@ == old(out)@ + v@.subrange(from as int, i as int),
        decreases to - i,
    {
        out.push(v[i]);
        i += 1;
        assert(out@ =~= old(out)@ + v@.subrange(from as int, i as int));
    }
}

/// Builds a string from the characters of a vector.
pub fn string_of(v: &Vec<char>) -> (s: String)
    ensures
        s@ == v@,
{
    let mut s = String::new();
    push_chars(&mut s, v, 0, v.len());
    assert(s@ =~= v@);
    s
}

/// Whether `c` has the Unicode property White_Space.
pub open spec fn is_space(c: char) -> bool {
    let n = c as u32;
    ||| 0x09 <= n <= 0x0d
    ||| n == 0x20
    ||| n == 0x85
    ||| n == 0xa0
    ||| n == 0x1680
    ||| 0x2000 <= n <= 0x200a
    ||| n == 0x2028
    ||| n == 0x2029
    ||| n == 0x202f
    ||| n == 0x205f
    ||| n == 0x3000
}

/// Tests the Unicode property White_Space.
pub fn is_whitespace(c: char) -> (b: bool)
    ensures
        b == is_space(c),
{
    let n: u32 = c as u32;
    (0x09 <= n && n <= 0x0d) || n == 0x20 || n == 0x85 || n == 0xa0 || n == 0x1680 || (0x2000 <= n
        && n <= 0x200a) || n == 0x2028 || n == 0x2029 || n == 0x202f || n == 0x205f || n == 0x3000
}

/// `s` without its leading white space.
pub open spec fn trim_start(s: Seq<char>) -> Seq<char>
    decreases s.len(),
{
    if s.len() > 0 && is_space(s[0]) {
        trim_start(s.drop_first())
    } else {
        s
    }
}

/// `s` without its trailing white space.
pub open spec fn trim_end(s: Seq<char>) -> Seq<char>
    decreases s.len(),
{
    if s.len() > 0 && is_space(s.last()) {
        trim_end(s.drop_last())
    } else {
        s
    }
}

/// `s` without leading and trailing white space.
pub open spec fn trim(s: Seq<char>) -> Seq<char> {
    trim_end(trim_start(s))
}

/// `s` without any trailing `u`, the marker of an unsigned literal.
pub open spec fn strip_unsigned_suffix(s: Seq<char>) -> Seq<char>
    decreases s.len(),
{
    if s.len() > 0 && s.last() == 'u' {
        strip_unsigned_suffix(s.drop_last())
    } else {
        s
    }
}

/// The part of a literal that is parsed: trimmed, then stripped of its suffix.
pub open spec fn numeral(s: Seq<char>) -> Seq<char> {
    strip_unsigned_suffix(trim(s))
}

/// Computes [`numeral`].
pub fn numeral_of(v: &Vec<char>) -> (r: Vec<char>)
    ensures
        r@ == numeral(v@),
{
    let n = v.len();
    let mut start: usize = 0;
    assert(v@.skip(0) =~= v@);
    while start < n && is_whitespace(v[start])
        invariant
            start <= n == v.len(),
            trim_start(v@) == trim_start(v@.skip(start as int)),
        decreases n - start,
    {
        assert(v@.skip(start as int).drop_first() =~= v@.skip(start as int + 1));
        start += 1;
    }
    let ghost head = v@.skip(start as int);
    assert(trim_start(v@) == head);
    let mut end: usize = n;
    assert(head =~= v@.subrange(start as int, end as int));
    while end > start && is_whitespace(v[end - 1])
        invariant
            start <= end <= n == v.len(),
            trim_end(head) == trim_end(v@.subrange(start as int, end as int)),
        decreases end,
    {
        assert(v@.subrange(start as int, end as int).drop_last() =~= v@.subrange(
            start as int,
            end as int - 1,
        ));
        end -= 1;
    }
    let ghost body = v@.subrange(start as int, end as int);
    assert(trim(v@) == body);
    while end > start && v[end - 1] == 'u'
        invariant
            start <= end <= n == v.len(),
            strip_unsigned_suffix(body) == strip_unsigned_suffix(
                v@.subrange(start as int, end as int),
            ),
        decreases end,
    {
        assert(v@.subrange(start as int, end as int).drop_last() =~= v@.subrange(
            start as int,
            end as int - 1,
        ));
        end -= 1;
    }
    let mut r: Vec<char> = Vec::new();
    let mut i: usize = start;
    while i < end
        invariant
            start <= i <= end <= v.len(),
            r@ == v@.subrange(start as int, i as int),
        decreases end - i,
    {
        r.push(v[i]);
        i += 1;
        assert(r@ =~= v@.subrange(start as int, i as int));
    }
    r
}

/// The value of `c` as a digit in the given radix, if it is one.
pub open spec fn digit_of(c: char, radix: nat) -> Option<nat> {
    let n = c as u32 as nat;
    let d: Option<nat> = if 0x30 <= n <= 0x39 {
        Some((n - 0x30) as nat)
    } else if 0x61 <= n <= 0x7a {
        Some((n - 0x61 + 10) as nat)
    } else if 0x41 <= n <= 0x5a {
        Some((n - 0x41 + 10) as nat)
    } else {
        None
    };
    if d is Some && d->0 < radix {
        d
    } else {
        None
    }
}

/// The number that a string of digits denotes in the given radix, most
/// significant digit first; `None` if some character is not a digit.
pub open spec fn digits_value(s: Seq<char>, radix: nat) -> Option<nat>
    decreases s.len(),
{
    if s.len() == 0 {
        Some(0)
    } else {
        match (digits_value(s.drop_last(), radix), digit_of(s.last(), radix)) {
            (Some(v), Some(d)) => Some(v * radix + d),
            _ => None,
        }
    }
}

/// The number that an unsigned literal denotes: an optional `+`, then at least
/// one digit, with a value that fits 32 bits.
pub open spec fn unsigned_value(s: Seq<char>, radix: nat) -> Option<u32> {
    let digits = if s.len() > 0 && s[0] == '+' {
        s.drop_first()
    } else {
        s
    };
    if digits.len() > 0 && digits_value(digits, radix) is Some && digits_value(digits, radix)->0
        <= u32::MAX {
        Some(digits_value(digits, radix)->0 as u32)
    } else {
        None
    }
}

/// Whether `s` begins with the hexadecimal prefix `0x`.
pub open spec fn has_hex_prefix(s: Seq<char>) -> bool {
    s.len() >= 2 && s[0] == '0' && s[1] == 'x'
}

/// The number that a literal denotes: after trimming and removing the unsigned
/// suffix, hexadecimal digits behind `0x`, decimal digits otherwise.
pub open spec fn literal_value(s: Seq<char>) -> Option<u32> {
    let v = numeral(s);
    if has_hex_prefix(v) {
        unsigned_value(v.skip(2), 16)
    } else {
        unsigned_value(v, 10)
    }
}

/// The message of the error that an unparseable literal gives.
pub open spec fn literal_error_message(s: Seq<char>) -> Seq<char> {
    "Cannot parse '"@ + numeral(s) + "' as u32"@
}

/// Once a prefix of a digit string is malformed or exceeds `bound`, so is the
/// whole string.
pub proof fn lemma_digits_prefix(s: Seq<char>, radix: nat, k: int, bound: nat)
    requires
        0 <= k <= s.len(),
        radix >= 1,
        digits_value(s.take(k), radix) is None || digits_value(s.take(k), radix)->0 > bound,
    ensures
        digits_value(s, radix) is None || digits_value(s, radix)->0 > bound,
    decreases s.len() - k,
{
    if k == s.len() {
        assert(s.take(k) =~= s);
    } else {
        let t = s.take(k + 1);
        assert(t.drop_last() =~= s.take(k));
        if digits_value(t, radix) is Some {
            let v = digits_value(s.take(k), radix)->0;
            assert(v * radix >= v) by (nonlinear_arith)
                requires
                    radix >= 1,
            ;
        }
        lemma_digits_prefix(s, radix, k + 1, bound);
    }
}

/// Computes [`digit_of`] for the radices 10 and 16.
fn digit(c: char, radix: u32) -> (d: Option<u32>)
    requires
        radix == 10 || radix == 16,
    ensures
        d is Some <==> digit_of(c, radix as nat) is Some,
        d is Some ==> d->0 == digit_of(c, radix as nat)->0 && d->0 < radix,
{
    let n: u32 = c as u32;
    let d: u32 = if 0x30 <= n && n <= 0x39 {
        n - 0x30
    } else if 0x61 <= n && n <= 0x7a {
        n - 0x61 + 10
    } else if 0x41 <= n && n <= 0x5a {
        n - 0x41 + 10
    } else {
        return None;
    };
    if d < radix {
        Some(d)
    } else {
        None
    }
}

/// Computes [`unsigned_value`] of `v[from..]` for the radices 10 and 16.
fn parse_unsigned(v: &Vec<char>, from: usize, radix: u32) -> (r: Option<u32>)
    requires
        from <= v.len(),
        radix == 10 || radix == 16,
    ensures
        r == unsigned_value(v@.skip(from as int), radix as nat),
{
    let ghost s = v@.skip(from as int);
    let n = v.len();
    let start: usize = if from < n && v[from] == '+' {
        from + 1
    } else {
        from
    };
    let ghost digits = v@.skip(start as int);
    assert(digits == if s.len() > 0 && s[0] == '+' {
        s.drop_first()
    } else {
        s
    }) by {
        if start > from {
            assert(s.drop_first() =~= digits);
        }
    }
    if start == n {
        return None;
    }
    let mut acc: u64 = 0;
    let mut i: usize = start;
    assert(digits.take(0) =~= Seq::<char>::empty());
    while i < n
        invariant
            start <= i <= n == v.len(),
            radix == 10 || radix == 16,
            digits == v@.skip(start as int),
            digits.len() > 0,
            s == v@.skip(from as int),
            digits == if s.len() > 0 && s[0] == '+' {
                s.drop_first()
            } else {
                s
            },
            digits_value(digits.take(i - start), radix as nat) == Some(acc as nat),
            acc <= u32::MAX,
        decreases n - i,
    {
        let ghost k = i - start;
        assert(digits.take(k + 1).drop_last() =~= digits.take(k));
        assert(digits.take(k + 1).last() == v@[i as int]);
        match digit(v[i], radix) {
            None => {
                proof {
                    lemma_digits_prefix(digits, radix as nat, k + 1, u32::MAX as nat);
                }
                return None;
            },
            Some(d) => {
                let next: u64 = acc * (radix as u64) + (d as u64);
                if next > 0xffff_ffff {
                    proof {
                        lemma_digits_prefix(digits, radix as nat, k + 1, u32::MAX as nat);
                    }
                    return None;
                }
                acc = next;
            },
        }
        i += 1;
    }
    assert(digits.take(n - start) =~= digits);
    Some(acc as u32)
}

/// Parses a numeric literal given as characters; see [`parse_u32`].
pub fn parse_numeral(value: &Vec<char>, line: usize) -> (r: Result<u32, WGSLError>)
    ensures
        match r {
            Ok(n) => literal_value(value@) == Some(n),
            Err(e) => {
                &&& literal_value(value@) is None
                &&& e.kind == crate::pp::ErrorKind::Syntax
                &&& e.line == line
                &&& e.summary@ == literal_error_message(value@)
            },
        },
{
    let v = numeral_of(value);
    let hex = v.len() >= 2 && v[0] == '0' && v[1] == 'x';
    let parsed = if hex {
        parse_unsigned(&v, 2, 16)
    } else {
        assert(v@.skip(0) =~= v@);
        parse_unsigned(&v, 0, 10)
    };
    match parsed {
        Some(n) => Ok(n),
        None => {
            let mut summary = String::from_str("Cannot parse '");
            push_chars(&mut summary, &v, 0, v.len());
            assert(v@.subrange(0, v.len() as int) =~= v@);
            summary.append("' as u32");
            Err(WGSLError::new(summary, line))
        },
    }
}

/// Parses an unsigned 32-bit literal: decimal digits, or hexadecimal digits
/// behind `0x`, with an optional leading `+`, surrounding white space and any
/// number of trailing `u` markers. A literal that does not parse gives a syntax
/// error at `line` that quotes the trimmed literal.
pub fn parse_u32(value: &str, line: usize) -> (r: Result<u32, WGSLError>)
    ensures
        match r {
            Ok(n) => literal_value(value@) == Some(n),
            Err(e) => {
                &&& literal_value(value@) is None
                &&& e.kind == crate::pp::ErrorKind::Syntax
                &&& e.line == line
                &&& e.summary@ == literal_error_message(value@)
            },
        },
{
    let chars = chars_of(value);
    parse_numeral(&chars, line)
}

/// The character sequences that a sequence of vectors holds.
pub open spec fn views(v: Seq<Vec<char>>) -> Seq<Seq<char>> {
    Seq::new(v.len(), |i: int| v[i]@)
}

/// The lines of `s` behind a line `cur` that has been read in part.
pub open spec fn lines_from(s: Seq<char>, cur: Seq<char>) -> Seq<Seq<char>>
    decreases s.len(),
{
    if s.len() == 0 {
        if cur.len() > 0 {
            seq![cur]
        } else {
            Seq::empty()
        }
    } else if s[0] == '\n' {
        seq![cur] + lines_from(s.drop_first(), Seq::empty())
    } else {
        lines_from(s.drop_first(), cur.push(s[0]))
    }
}

/// The lines of a text. A line ends at a line feed or at the end of the text;
/// the line feed is not part of the line, and a text that ends with a line
/// feed has no empty line behind it.
pub open spec fn lines(s: Seq<char>) -> Seq<Seq<char>> {
    lines_from(s, Seq::empty())
}

/// Splits a text into its lines.
pub fn split_lines(text: &Vec<char>) -> (r: Vec<Vec<char>>)
    ensures
        views(r@) == lines(text@),
{
    let mut done: Vec<Vec<char>> = Vec::new();
    let mut cur: Vec<char> = Vec::new();
    let mut i: usize = 0;
    assert(text@.skip(0) =~= text@);
    assert(views(done@) + lines_from(text@, cur@) =~= lines(text@));
    while i < text.len()
        invariant
            i <= text.len(),
            views(done@) + lines_from(text@.skip(i as int), cur@) == lines(text@),
        decreases text.len() - i,
    {
        let ghost rest = text@.skip(i as int);
        assert(rest.drop_first() =~= text@.skip(i as int + 1));
        let c = text[i];
        if c == '\n' {
            let ghost before = views(done@);
            let ghost line = cur@;
            done.push(cur);
            cur = Vec::new();
            assert(views(done@) =~= before + seq![line]);
            assert(views(done@) + lines_from(rest.drop_first(), cur@) =~= before + (seq![line]
                + lines_from(rest.drop_first(), Seq::empty())));
        } else {
            cur.push(c);
        }
        i += 1;
    }
    if cur.len() > 0 {
        let ghost before = views(done@);
        let ghost line = cur@;
        done.push(cur);
        assert(views(done@) =~= before + seq![line]);
    } else {
        assert(views(done@) + Seq::<Seq<char>>::empty() =~= views(done@));
    }
    done
}

/// The tokens of `s` behind a token `cur` that has been read in part.
pub open spec fn tokens_from(s: Seq<char>, cur: Seq<char>) -> Seq<Seq<char>>
    decreases s.len(),
{
    let ended: Seq<Seq<char>> = if cur.len() > 0 {
        seq![cur]
    } else {
        Seq::empty()
    };
    if s.len() == 0 {
        ended
    } else if is_space(s[0]) {
        ended + tokens_from(s.drop_first(), Seq::empty())
    } else {
        tokens_from(s.drop_first(), cur.push(s[0]))
    }
}

/// The tokens of a line: its maximal runs of characters that are not white
/// space, from left to right.
pub open spec fn tokens(s: Seq<char>) -> Seq<Seq<char>> {
    tokens_from(s, Seq::empty())
}

/// Splits a line into its tokens.
pub fn split_tokens(line: &Vec<char>) -> (r: Vec<Vec<char>>)
    ensures
        views(r@) == tokens(line@),
{
    let mut done: Vec<Vec<char>> = Vec::new();
    let mut cur: Vec<char> = Vec::new();
    let mut i: usize = 0;
    assert(line@.skip(0) =~= line@);
    assert(views(done@) + tokens_from(line@, cur@) =~= tokens(line@));
    while i < line.len()
        invariant
            i <= line.len(),
            views(done@) + tokens_from(line@.skip(i as int), cur@) == tokens(line@),
        decreases line.len() - i,
    {
        let ghost rest = line@.skip(i as int);
        assert(rest.drop_first() =~= line@.skip(i as int + 1));
        let c = line[i];
        if is_whitespace(c) {
            if cur.len() > 0 {
                let ghost before = views(done@);
                let ghost token = cur@;
                done.push(cur);
                cur = Vec::new();
                assert(views(done@) =~= before + seq![token]);
                assert(views(done@) + tokens_from(rest.drop_first(), cur@) =~= before + (
                seq![token] + tokens_from(rest.drop_first(), Seq::empty())));
            } else {
                assert(cur@ =~= Seq::<char>::empty());
                assert(views(done@) + tokens_from(rest.drop_first(), cur@) =~= views(done@) + (
                Seq::<Seq<char>>::empty() + tokens_from(rest.drop_first(), Seq::empty())));
            }
        } else {
            cur.push(c);
        }
        i += 1;
    }
    if cur.len() > 0 {
        let ghost before = views(done@);
        let ghost token = cur@;
        done.push(cur);
        assert(views(done@) =~= before + seq![token]);
    } else {
        assert(views(done@) + Seq::<Seq<char>>::empty() =~= views(done@));
    }
    done
}

/// The index of the last entry of `names` that equals `name`.
pub open spec fn position(names: Seq<Seq<char>>, name: Seq<char>) -> Option<nat>
    decreases names.len(),
{
    if names.len() == 0 {
        None
    } else if names.last() == name {
        Some((names.len() - 1) as nat)
    } else {
        position(names.drop_last(), name)
    }
}

/// What [`position`] finds is an index of an entry with that name, and no
/// later entry has it.
pub proof fn lemma_position(names: Seq<Seq<char>>, name: Seq<char>)
    ensures
        match position(names, name) {
            Some(k) => k < names.len() && names[k as int] == name && forall|j: int|
                k < j < names.len() ==> names[j] != name,
            None => forall|j: int| 0 <= j < names.len() ==> names[j] != name,
        },
    decreases names.len(),
{
    if names.len() > 0 && names.last() != name {
        let shorter = names.drop_last();
        lemma_position(shorter, name);
        assert forall|j: int| 0 <= j < names.len() && names[j] == name implies j < shorter.len()
            && shorter[j] == name by {}
    }
}

/// Whether two vectors hold the same characters.
pub fn same_chars(a: &Vec<char>, b: &Vec<char>) -> (r: bool)
    ensures
        r == (a@ == b@),
{
    if a.len() != b.len() {
        return false;
    }
    let mut i: usize = 0;
    while i < a.len()
        invariant
            i <= a.len() == b.len(),
            forall|j: int| 0 <= j < i ==> a@[j] == b@[j],
        decreases a.len() - i,
    {
        if a[i] != b[i] {
            return false;
        }
        i += 1;
    }
    assert(a@ =~= b@);
    true
}

/// Whether a vector holds the characters of a string slice.
pub fn is_word(a: &Vec<char>, word: &str) -> (r: bool)
    ensures
        r == (a@ == word@),
{
    let w = chars_of(word);
    same_chars(a, &w)
}

/// The decimal digit with value `d`.
pub open spec fn digit_char(d: nat) -> char
    recommends
        d < 10,
{
    (0x30 + d) as u8 as char
}

/// The decimal numeral of `n`, without leading zeros.
pub open spec fn decimal(n: nat) -> Seq<char>
    decreases n,
{
    if n < 10 {
        seq![digit_char(n)]
    } else {
        decimal(n / 10).push(digit_char(n % 10))
    }
}

/// Appends the decimal numeral of `n` to `out`.
pub fn push_decimal(out: &mut Vec<char>, n: usize)
    ensures
        final(out)@ == old(out)@ + decimal(n as nat),
    decreases n,
{
    if n >= 10 {
        push_decimal(out, n / 10);
    }
    let d: u8 = (n % 10) as u8;
    out.push((0x30 + d) as char);
    proof {
        if n >= 10 {
            assert(out@ =~= old(out)@ + decimal(n as nat / 10).push(digit_char(n as nat % 10)));
        } else {
            assert(out@ =~= old(out)@ + seq![digit_char(n as nat)]);
        }
    }
}

/// Appends the characters of a string slice to `out`.
pub fn push_str(out: &mut Vec<char>, s: &str)
    ensures
        final(out)@ == old(out)@ + s@,
{
    let w = chars_of(s);
    push_all(out, &w);
}

/// Appends the characters of `w` to `out`.
pub fn push_all(out: &mut Vec<char>, w: &Vec<char>)
    ensures
        final(out)@ == old(out)@ + w@,
{
    let mut i: usize = 0;
    assert(out@ =~= old(out)@ + w@.take(0));
    while i < w.len()
        invariant
            i <= w.len(),
            out@ == old(out)@ + w@.take(i as int),
        decreases w.len() - i,
    {
        out.push(w[i]);
        i += 1;
        assert(out@ =~= old(out)@ + w@.take(i as int));
    }
    assert(w@.take(w.len() as int) =~= w@);
}

/// Something that is found by its name.
pub trait Named {
    /// The name, as characters.
    spec fn name_view(&self) -> Seq<char>;

    /// The name.
    fn name_ref(&self) -> (s: &String)
        ensures
            s@ == self.name_view(),
    ;
}

impl Named for String {
    open spec fn name_view(&self) -> Seq<char> {
        self@
    }

    fn name_ref(&self) -> (s: &String) {
        self
    }
}

/// The names of a sequence of named things, in order.
pub open spec fn names_of<T: Named>(items: Seq<T>) -> Seq<Seq<char>> {
    Seq::new(items.len(), |i: int| items[i].name_view())
}

/// Finds the last of `items` that has the given name.
pub fn find_named<T: Named>(items: &Vec<T>, name: &String) -> (r: Option<usize>)
    ensures
        match r {
            Some(k) => k < items.len() && position(names_of(items@), name@) == Some(k as nat),
            None => position(names_of(items@), name@) is None,
        },
{
    let ghost all = names_of(items@);
    let mut i: usize = items.len();
    assert(all.take(i as int) =~= all);
    while i > 0
        invariant
            i <= items.len(),
            all == names_of(items@),
            position(all, name@) == position(all.take(i as int), name@),
        decreases i,
    {
        i -= 1;
        assert(all.take(i as int + 1).drop_last() =~= all.take(i as int));
        assert(all.take(i as int + 1).last() == items@[i as int].name_view());
        if *items[i].name_ref() == *name {
            return Some(i);
        }
    }
    None
}

} // verus!
