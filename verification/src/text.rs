//! Text helpers: joining, decimal numbers, trimming and splitting into lines.
//!
//! A string is modelled by its sequence of characters.

use vstd::prelude::*;
use vstd::string::*;

verus! {

/// `String::push` appends the character to the end of the string.
pub assume_specification[ std::string::String::push ](s: &mut String, c: char)
    ensures
        final(s)@ == old(s)@.push(c),
;

/// The texts held by a list of strings.
pub open spec fn texts(v: Seq<String>) -> Seq<Seq<char>> {
    Seq::new(v.len(), |i: int| v[i]@)
}

/// The texts of `v` once `s` has been appended to it.
pub proof fn lemma_texts_push(v: Seq<String>, s: String)
    ensures
        texts(v.push(s)) == texts(v).push(s@),
{
    assert(texts(v.push(s)) =~= texts(v).push(s@));
}

/// The text held by an optional string.
pub open spec fn opt_text(s: Option<String>) -> Option<Seq<char>> {
    match s {
        Some(t) => Some(t@),
        None => None,
    }
}

/// The characters of a string, in order.
pub fn chars_of(s: &str) -> (r: Vec<char>)
    ensures
        r@ == s@,
{
    let mut r: Vec<char> = Vec::new();
    for c in it: s.chars()
        invariant
            it.seq() == s@,
            r@ == s@.take(it.index() as int),
    {
        r.push(c);
    }
    r
}

/// The string made of the characters at positions `from` (included) to `to` (excluded).
pub fn text_of(chars: &Vec<char>, from: usize, to: usize) -> (r: String)
    requires
        from <= to <= chars@.len(),
    ensures
        r@ == chars@.subrange(from as int, to as int),
{
    let mut r = String::new();
    let mut i: usize = from;
    while i < to
        invariant
            from <= i <= to <= chars@.len(),
            r@ == chars@.subrange(from as int, i as int),
        decreases to - i,
    {
        r.push(chars[i]);
        i += 1;
        assert(r@ =~= chars@.subrange(from as int, i as int));
    }
    r
}

/// Whether two strings hold the same text.
pub fn same_text(a: &str, b: &str) -> (r: bool)
    ensures
        r == (a@ == b@),
{
    a.to_owned() == b.to_owned()
}

/// Whether `s` begins with `prefix`.
pub fn has_prefix(s: &str, prefix: &str) -> (r: bool)
    ensures
        r == prefix@.is_prefix_of(s@),
{
    let n: usize = prefix.unicode_len();
    if n > s.unicode_len() {
        return false;
    }
    let r = same_text(s.substring_char(0, n), prefix);
    proof {
        assert(s@.subrange(0, n as int) == prefix@ <==> prefix@.is_prefix_of(s@));
    }
    r
}

/// The concatenation of three texts.
pub fn concat3(a: &str, b: &str, c: &str) -> (r: String)
    ensures
        r@ == a@ + b@ + c@,
{
    let mut r = a.to_owned();
    r.append(b);
    r.append(c);
    r
}

/// The concatenation of two texts.
pub fn concat2(a: &str, b: &str) -> (r: String)
    ensures
        r@ == a@ + b@,
{
    let mut r = a.to_owned();
    r.append(b);
    r
}

// ---------------------------------------------------------------- joining

/// The texts of `parts`, in order, with `sep` between each two of them.
pub open spec fn joined(parts: Seq<Seq<char>>, sep: Seq<char>) -> Seq<char>
    decreases parts.len(),
{
    if parts.len() == 0 {
        Seq::empty()
    } else if parts.len() == 1 {
        parts[0]
    } else {
        joined(parts.drop_last(), sep) + sep + parts.last()
    }
}

/// Joins the strings of `parts`, with `sep` between each two of them.
pub fn join(parts: &Vec<String>, sep: &str) -> (r: String)
    ensures
        r@ == joined(texts(parts@), sep@),
{
    let mut r = String::new();
    let mut i: usize = 0;
    assert(texts(parts@).take(0) =~= Seq::<Seq<char>>::empty());
    while i < parts.len()
        invariant
            i <= parts@.len(),
            r@ == joined(texts(parts@).take(i as int), sep@),
        decreases parts@.len() - i,
    {
        if i > 0 {
            r.append(sep);
        }
        r.append(parts[i].as_str());
        proof {
            let t = texts(parts@);
            assert(t.take(i + 1).drop_last() =~= t.take(i as int));
            assert(t.take(i + 1).last() == parts@[i as int]@);
            if i == 0 {
                assert(t.take(0) =~= Seq::<Seq<char>>::empty());
                assert(Seq::<char>::empty() + parts@[0]@ =~= parts@[0]@);
            }
        }
        i += 1;
    }
    assert(texts(parts@).take(parts@.len() as int) =~= texts(parts@));
    r
}

// ---------------------------------------------------------------- decimal numbers

/// The decimal digit of a number below ten.
pub open spec fn digit(d: int) -> char {
    ('0' as int + d) as char
}

/// A natural number in decimal, without leading zeros.
pub open spec fn decimal(n: nat) -> Seq<char>
    decreases n,
{
    if n < 10 {
        seq![digit(n as int)]
    } else {
        decimal(n / 10).push(digit((n % 10) as int))
    }
}

/// The number in decimal.
pub fn decimal_text(n: u64) -> (r: String)
    ensures
        r@ == decimal(n as nat),
    decreases n,
{
    let mut r = if n < 10 {
        String::new()
    } else {
        decimal_text(n / 10)
    };
    let d: u8 = (n % 10) as u8;
    r.push((48u8 + d) as char);
    assert(r@ =~= decimal(n as nat));
    r
}

/// A decimal number is not empty and holds digits only.
pub proof fn lemma_decimal_digits(n: nat)
    ensures
        decimal(n).len() > 0,
        forall|i: int| 0 <= i < decimal(n).len() ==> '0' <= #[trigger] decimal(n)[i] <= '9',
    decreases n,
{
    if n >= 10 {
        lemma_decimal_digits(n / 10);
    }
}

/// Two numbers with the same decimal text are the same number.
pub proof fn decimal_is_injective(a: nat, b: nat)
    requires
        decimal(a) == decimal(b),
    ensures
        a == b,
    decreases a,
{
    lemma_decimal_digits(a / 10);
    lemma_decimal_digits(b / 10);
    assert(decimal(a).last() == digit((a % 10) as int));
    assert(decimal(b).last() == digit((b % 10) as int));
    assert(a % 10 == b % 10);
    if a < 10 {
        assert(decimal(a).len() == 1);
        if b >= 10 {
            assert(decimal(b).len() == decimal(b / 10).len() + 1);
        }
    } else {
        assert(decimal(a).len() == decimal(a / 10).len() + 1);
        assert(b >= 10);
        assert(decimal(a).drop_last() =~= decimal(a / 10));
        assert(decimal(b).drop_last() =~= decimal(b / 10));
        decimal_is_injective(a / 10, b / 10);
    }
}

// ---------------------------------------------------------------- white space

/// The characters with the Unicode property White_Space.
pub open spec fn white_space(c: char) -> bool {
    let n = c as int;
    ||| 0x9 <= n <= 0xD
    ||| n == 0x20
    ||| n == 0x85
    ||| n == 0xA0
    ||| n == 0x1680
    ||| 0x2000 <= n <= 0x200A
    ||| n == 0x2028
    ||| n == 0x2029
    ||| n == 0x202F
    ||| n == 0x205F
    ||| n == 0x3000
}

/// Whether the character is white space.
pub fn is_white_space(c: char) -> (r: bool)
    ensures
        r == white_space(c),
{
    let n: u32 = c as u32;
    (0x9 <= n && n <= 0xD) || n == 0x20 || n == 0x85 || n == 0xA0 || n == 0x1680 || (0x2000 <= n
        && n <= 0x200A) || n == 0x2028 || n == 0x2029 || n == 0x202F || n == 0x205F || n == 0x3000
}

/// The text without the white space at its start.
pub open spec fn trimmed_start(s: Seq<char>) -> Seq<char>
    decreases s.len(),
{
    if s.len() > 0 && white_space(s[0]) {
        trimmed_start(s.drop_first())
    } else {
        s
    }
}

/// The text without the white space at its end.
pub open spec fn trimmed_end(s: Seq<char>) -> Seq<char>
    decreases s.len(),
{
    if s.len() > 0 && white_space(s.last()) {
        trimmed_end(s.drop_last())
    } else {
        s
    }
}

/// The text without the white space at either end.
pub open spec fn trimmed(s: Seq<char>) -> Seq<char> {
    trimmed_end(trimmed_start(s))
}

/// Removes the white space at both ends of a text.
pub fn trim(s: &str) -> (r: String)
    ensures
        r@ == trimmed(s@),
{
    let chars = chars_of(s);
    let n: usize = chars.len();
    let mut from: usize = 0;
    assert(chars@.skip(0) =~= chars@);
    while from < n && is_white_space(chars[from])
        invariant
            n == chars@.len(),
            from <= n,
            trimmed_start(chars@) == trimmed_start(chars@.skip(from as int)),
        decreases n - from,
    {
        assert(chars@.skip(from as int).drop_first() =~= chars@.skip(from + 1));
        from += 1;
    }
    let ghost front = chars@.skip(from as int);
    assert(trimmed_start(chars@) == front);
    let mut to: usize = n;
    assert(chars@.subrange(from as int, n as int) =~= front);
    while to > from && is_white_space(chars[to - 1])
        invariant
            n == chars@.len(),
            from <= to <= n,
            trimmed_end(front) == trimmed_end(chars@.subrange(from as int, to as int)),
        decreases to,
    {
        assert(chars@.subrange(from as int, to as int).drop_last() =~= chars@.subrange(
            from as int,
            to - 1,
        ));
        to -= 1;
    }
    text_of(&chars, from, to)
}

// ---------------------------------------------------------------- lines

/// The first position at or after `from` that holds `c`, or the length of the text.
pub open spec fn index_from(s: Seq<char>, c: char, from: int) -> int
    decreases s.len() - from,
{
    if from >= s.len() || s[from] == c {
        from
    } else {
        index_from(s, c, from + 1)
    }
}

/// What `index_from` finds.
pub proof fn lemma_index_from(s: Seq<char>, c: char, from: int)
    requires
        0 <= from <= s.len(),
    ensures
        from <= index_from(s, c, from) <= s.len(),
        index_from(s, c, from) < s.len() ==> s[index_from(s, c, from)] == c,
        forall|i: int| from <= i < index_from(s, c, from) ==> s[i] != c,
    decreases s.len() - from,
{
    if from < s.len() && s[from] != c {
        lemma_index_from(s, c, from + 1);
    }
}

/// A position that holds `c`, with none before it from `from` on, is what `index_from` finds.
pub proof fn lemma_index_from_is(s: Seq<char>, c: char, from: int, k: int)
    requires
        0 <= from <= k <= s.len(),
        k < s.len() ==> s[k] == c,
        forall|i: int| from <= i < k ==> s[i] != c,
    ensures
        index_from(s, c, from) == k,
{
    lemma_index_from(s, c, from);
    let j = index_from(s, c, from);
    if j < k {
        assert(s[j] == c);
    }
}

/// Finds the first position at or after `from` that holds `c`.
pub fn find_from(s: &Vec<char>, c: char, from: usize) -> (r: usize)
    requires
        from <= s@.len(),
    ensures
        r == index_from(s@, c, from as int),
        from <= r <= s@.len(),
{
    let mut i: usize = from;
    while i < s.len() && s[i] != c
        invariant
            from <= i <= s@.len(),
            index_from(s@, c, from as int) == index_from(s@, c, i as int),
        decreases s@.len() - i,
    {
        i += 1;
    }
    i
}

/// A line without the carriage return that may stand before its line feed.
pub open spec fn without_cr(s: Seq<char>) -> Seq<char> {
    if s.len() > 0 && s.last() == '\r' {
        s.drop_last()
    } else {
        s
    }
}

/// The lines of a text. A line ends at a line feed, which a carriage return may precede; the last
/// line may lack it.
pub open spec fn lines(s: Seq<char>) -> Seq<Seq<char>>
    decreases s.len(),
{
    let k = index_from(s, '\n', 0);
    if s.len() == 0 {
        Seq::empty()
    } else if k < 0 || k >= s.len() {
        seq![s]
    } else {
        seq![without_cr(s.take(k))] + lines(s.skip(k + 1))
    }
}

/// Splits a text into its lines.
pub fn lines_of(s: &str) -> (r: Vec<String>)
    ensures
        texts(r@) == lines(s@),
{
    let chars = chars_of(s);
    let n: usize = chars.len();
    let mut r: Vec<String> = Vec::new();
    let mut from: usize = 0;
    assert(chars@.skip(0) =~= chars@);
    assert(texts(r@) + lines(chars@) =~= lines(chars@));
    while from < n
        invariant
            n == chars@.len(),
            from <= n,
            texts(r@) + lines(chars@.skip(from as int)) == lines(chars@),
        decreases n - from,
    {
        let k: usize = find_from(&chars, '\n', from);
        let ghost rest = chars@.skip(from as int);
        let ghost before = texts(r@);
        proof {
            lemma_index_from(chars@, '\n', from as int);
            assert forall|i: int| 0 <= i < k - from implies rest[i] != '\n' by {
                assert(rest[i] == chars@[from + i]);
            }
            lemma_index_from_is(rest, '\n', 0, k - from);
        }
        if k == n {
            let line = text_of(&chars, from, n);
            proof {
                assert(line@ =~= rest);
                lemma_texts_push(r@, line);
                assert(lines(rest) =~= seq![line@]);
                assert(lines(chars@.skip(n as int)) =~= Seq::<Seq<char>>::empty());
            }
            r.push(line);
            assert(texts(r@) + lines(chars@.skip(n as int)) =~= before + lines(rest));
            from = n;
        } else {
            let end: usize = if k > from && chars[k - 1] == '\r' {
                k - 1
            } else {
                k
            };
            let line = text_of(&chars, from, end);
            proof {
                assert(rest.take(k - from) =~= chars@.subrange(from as int, k as int));
                assert(line@ =~= without_cr(rest.take(k - from)));
                assert(rest.skip(k - from + 1) =~= chars@.skip(k + 1));
                lemma_texts_push(r@, line);
            }
            r.push(line);
            from = k + 1;
            assert(texts(r@) + lines(chars@.skip(from as int)) =~= before + lines(rest));
        }
    }
    assert(lines(chars@.skip(n as int)) =~= Seq::<Seq<char>>::empty());
    assert(texts(r@) + lines(chars@.skip(from as int)) =~= texts(r@));
    r
}

// ---------------------------------------------------------------- laws

/// The number that decimal digits spell, the most significant first.
pub open spec fn number_in(digits: Seq<char>) -> int
    decreases digits.len(),
{
    if digits.len() == 0 {
        0
    } else {
        10 * number_in(digits.drop_last()) + (digits.last() as int - '0' as int)
    }
}

/// A number in decimal is read back as that number, and is spelled without leading zeros.
pub proof fn decimal_is_read_back(n: nat)
    ensures
        number_in(decimal(n)) == n,
        decimal(n).len() > 1 ==> decimal(n)[0] != '0',
        forall|i: int| 0 <= i < decimal(n).len() ==> '0' <= #[trigger] decimal(n)[i] <= '9',
    decreases n,
{
    lemma_decimal_digits(n);
    assert(number_in(Seq::<char>::empty()) == 0);
    if n >= 10 {
        decimal_is_read_back(n / 10);
        lemma_decimal_digits(n / 10);
        assert(decimal(n).drop_last() =~= decimal(n / 10));
        assert(decimal(n)[0] == decimal(n / 10)[0]);
        assert(decimal(n).last() == digit((n % 10) as int));
        if decimal(n / 10).len() == 1 {
            assert(decimal(n / 10).drop_last() =~= Seq::<char>::empty());
            assert(decimal(n / 10).last() == decimal(n / 10)[0]);
        }
    } else {
        assert(decimal(n).drop_last() =~= Seq::<char>::empty());
        assert(decimal(n).last() == digit(n as int));
    }
}

/// What is written for a number is read back as that number.
pub proof fn written_number_is_read_back(n: u64, r: String)
    requires
        call_ensures(decimal_text, (n,), r),
    ensures
        number_in(r@) == n,
        r@.len() > 1 ==> r@[0] != '0',
        forall|i: int| 0 <= i < r@.len() ==> '0' <= #[trigger] r@[i] <= '9',
{
    decimal_is_read_back(n as nat);
}

/// Joining grows with its parts: nothing of nothing, a part of itself, and each further part behind
/// the others with the separator before it.
pub proof fn joined_grows_by_parts(parts: Seq<Seq<char>>, p: Seq<char>, sep: Seq<char>)
    ensures
        joined(Seq::empty(), sep).len() == 0,
        joined(seq![p], sep) == p,
        parts.len() > 0 ==> joined(parts.push(p), sep) == joined(parts, sep) + sep + p,
{
    if parts.len() > 0 {
        assert(parts.push(p).drop_last() =~= parts);
    }
}

/// Every part stands in what the parts are joined to, and behind the part before it.
pub proof fn joined_holds_every_part(parts: Seq<Seq<char>>, sep: Seq<char>, i: int)
    requires
        0 <= i < parts.len(),
    ensures
        exists|a: Seq<char>, b: Seq<char>| joined(parts, sep) == #[trigger] (a + parts[i] + b),
        i + 1 < parts.len() ==> exists|a: Seq<char>, b: Seq<char>|
            joined(parts, sep) == #[trigger] (a + (parts[i] + sep + parts[i + 1]) + b),
        i == 0 ==> parts[0].is_prefix_of(joined(parts, sep)),
        i == parts.len() - 1 ==> exists|a: Seq<char>|
            joined(parts, sep) == #[trigger] (a + parts[i]),
    decreases parts.len(),
{
    let n = parts.len() as int;
    let none = Seq::<char>::empty();
    let all = joined(parts, sep);
    if n == 1 {
        assert(all =~= none + parts[0] + none);
        assert(all =~= none + parts[0]);
        assert(parts[0] =~= all.subrange(0, parts[0].len() as int));
    } else {
        let front = parts.drop_last();
        let last = parts.last();
        let f = joined(front, sep);
        assert(all == f + sep + last);
        if i == n - 1 {
            assert(all =~= (f + sep) + parts[i] + none);
            assert(all =~= (f + sep) + parts[i]);
        } else {
            joined_holds_every_part(front, sep, i);
            let (a, b) = choose|a: Seq<char>, b: Seq<char>| f == #[trigger] (a + front[i] + b);
            assert(front[i] == parts[i]);
            assert(all =~= a + parts[i] + (b + sep + last));
            if i + 1 < n - 1 {
                let (c, d) = choose|c: Seq<char>, d: Seq<char>|
                    f == #[trigger] (c + (front[i] + sep + front[i + 1]) + d);
                assert(front[i + 1] == parts[i + 1]);
                assert(all =~= c + (parts[i] + sep + parts[i + 1]) + (d + sep + last));
            } else {
                let e = choose|e: Seq<char>| f == #[trigger] (e + front[i]);
                assert(parts[i + 1] == last);
                assert(all =~= e + (parts[i] + sep + parts[i + 1]) + none);
            }
            if i == 0 {
                assert(parts[0] == front[0]);
                assert(front[0] =~= f.subrange(0, front[0].len() as int));
                assert forall|k: int| 0 <= k < parts[0].len() implies parts[0][k] == all[k] by {
                    assert(f.subrange(0, front[0].len() as int)[k] == f[k]);
                }
                assert(parts[0] =~= all.subrange(0, parts[0].len() as int));
            }
        }
    }
}

/// Of the characters of ASCII, those from tab to carriage return and the blank are white space; no
/// letter, digit or mark of any kind is.
pub proof fn white_space_of_ascii(c: char)
    requires
        (c as int) < 0x80,
    ensures
        white_space(c) <==> (9 <= c as int <= 13 || c == ' '),
{
}

/// What is left at the end of a text is a beginning of it, and only white space was cut off.
proof fn lemma_trimmed_end(s: Seq<char>)
    ensures
        trimmed_end(s).len() <= s.len(),
        trimmed_end(s) == s.take(trimmed_end(s).len() as int),
        forall|i: int| trimmed_end(s).len() <= i < s.len() ==> white_space(#[trigger] s[i]),
        trimmed_end(s).len() > 0 ==> !white_space(trimmed_end(s).last()),
    decreases s.len(),
{
    if s.len() > 0 && white_space(s.last()) {
        lemma_trimmed_end(s.drop_last());
        let t = trimmed_end(s);
        assert(s.drop_last().take(t.len() as int) =~= s.take(t.len() as int));
        assert forall|i: int| t.len() <= i < s.len() implies white_space(#[trigger] s[i]) by {
            if i < s.len() - 1 {
                assert(s.drop_last()[i] == s[i]);
            }
        }
    } else {
        assert(s.take(s.len() as int) =~= s);
    }
}

/// What is left at the start of a text is an end of it, and only white space was cut off.
proof fn lemma_trimmed_start(s: Seq<char>)
    ensures
        trimmed_start(s).len() <= s.len(),
        trimmed_start(s) == s.skip(s.len() - trimmed_start(s).len()),
        forall|i: int| 0 <= i < s.len() - trimmed_start(s).len() ==> white_space(#[trigger] s[i]),
        trimmed_start(s).len() > 0 ==> !white_space(trimmed_start(s)[0]),
    decreases s.len(),
{
    if s.len() > 0 && white_space(s[0]) {
        let rest = s.drop_first();
        lemma_trimmed_start(rest);
        let t = trimmed_start(s);
        assert(rest.skip(rest.len() - t.len()) =~= s.skip(s.len() - t.len()));
        assert forall|i: int| 0 <= i < s.len() - t.len() implies white_space(#[trigger] s[i]) by {
            if i > 0 {
                assert(rest[i - 1] == s[i]);
            }
        }
    } else {
        assert(s.skip(0) =~= s);
    }
}

/// Trimming cuts white space off both ends and nothing else: what is left neither begins nor ends
/// with any.
pub proof fn trimming_cuts_white_space_only(s: &str, r: String)
    requires
        call_ensures(trim, (s,), r),
    ensures
        exists|a: Seq<char>, b: Seq<char>|
            {
                &&& s@ == #[trigger] (a + r@ + b)
                &&& forall|i: int| 0 <= i < a.len() ==> white_space(#[trigger] a[i])
                &&& forall|i: int| 0 <= i < b.len() ==> white_space(#[trigger] b[i])
            },
        r@.len() > 0 ==> !white_space(r@[0]) && !white_space(r@.last()),
{
    let t = trimmed_start(s@);
    lemma_trimmed_start(s@);
    lemma_trimmed_end(t);
    let n = s@.len() - t.len();
    let a = s@.take(n);
    let b = t.skip(r@.len() as int);
    assert(s@ =~= a + r@ + b);
    assert forall|i: int| 0 <= i < b.len() implies white_space(#[trigger] b[i]) by {
        assert(b[i] == t[r@.len() + i]);
    }
    if r@.len() > 0 {
        assert(r@[0] == t[0]);
    }
}

/// A text without white space at its ends is found again between any white space.
pub proof fn trimming_finds_the_text(a: Seq<char>, s: Seq<char>, b: Seq<char>)
    requires
        forall|i: int| 0 <= i < a.len() ==> white_space(#[trigger] a[i]),
        forall|i: int| 0 <= i < b.len() ==> white_space(#[trigger] b[i]),
        s.len() > 0,
        !white_space(s[0]),
        !white_space(s.last()),
    ensures
        trimmed(a + s + b) == s,
    decreases a.len() + b.len(),
{
    let all = a + s + b;
    if a.len() > 0 {
        let rest = a.drop_first();
        assert(all[0] == a[0]);
        assert(all.drop_first() =~= rest + s + b);
        assert forall|i: int| 0 <= i < rest.len() implies white_space(#[trigger] rest[i]) by {
            assert(rest[i] == a[i + 1]);
        }
        trimming_finds_the_text(rest, s, b);
    } else {
        assert(all =~= s + b);
        assert(all[0] == s[0]);
        assert(trimmed_start(all) == all);
        lemma_trimmed_end(all);
        let t = trimmed_end(all);
        if t.len() > s.len() {
            assert(t.last() == all[t.len() - 1]);
            assert(all[t.len() - 1] == b[t.len() - 1 - s.len()]);
        } else if t.len() < s.len() {
            assert(all[s.len() - 1] == s.last());
        }
        assert(t =~= s);
    }
}

/// A line ends at a line feed, with or without a carriage return before it, and the next begins
/// behind it. What follows the last line feed is a line too, unless it is empty.
pub proof fn lines_end_at_line_feeds(line: Seq<char>, rest: Seq<char>)
    requires
        forall|i: int| 0 <= i < line.len() ==> #[trigger] line[i] != '\n',
    ensures
        lines(Seq::empty()).len() == 0,
        line.len() > 0 ==> lines(line) == seq![line],
        line.len() == 0 || line.last() != '\r' ==> lines(line + seq!['\n'] + rest) == seq![line]
            + lines(rest),
        lines(line + seq!['\r', '\n'] + rest) == seq![line] + lines(rest),
{
    if line.len() > 0 {
        lemma_index_from_is(line, '\n', 0, line.len() as int);
    }
    let a = line + seq!['\n'] + rest;
    let n = line.len() as int;
    assert(a[n] == '\n');
    assert forall|i: int| 0 <= i < n implies a[i] != '\n' by {
        assert(a[i] == line[i]);
    }
    lemma_index_from_is(a, '\n', 0, n);
    assert(a.take(n) =~= line);
    assert(a.skip(n + 1) =~= rest);
    let b = line + seq!['\r', '\n'] + rest;
    assert(b[n] == '\r');
    assert(b[n + 1] == '\n');
    assert forall|i: int| 0 <= i < n + 1 implies b[i] != '\n' by {
        if i < n {
            assert(b[i] == line[i]);
        }
    }
    lemma_index_from_is(b, '\n', 0, n + 1);
    assert(b.take(n + 1) =~= line.push('\r'));
    assert(without_cr(line.push('\r')) =~= line);
    assert(b.skip(n + 2) =~= rest);
}

/// A text begins with another exactly where something follows the other in it.
pub proof fn prefix_is_followed_by_the_rest(s: &str, prefix: &str, r: bool)
    requires
        call_ensures(has_prefix, (s, prefix), r),
    ensures
        r <==> exists|rest: Seq<char>| s@ == #[trigger] (prefix@ + rest),
{
    if prefix@.is_prefix_of(s@) {
        assert(s@ =~= prefix@ + s@.skip(prefix@.len() as int));
    }
    if exists|rest: Seq<char>| s@ == #[trigger] (prefix@ + rest) {
        let rest = choose|rest: Seq<char>| s@ == #[trigger] (prefix@ + rest);
        assert(prefix@ =~= s@.subrange(0, prefix@.len() as int));
    }
}

/// Texts that are put together stand one behind the other, and a part of a text is cut out where it
/// stands.
pub proof fn texts_are_put_together_and_cut(
    a: &str,
    b: &str,
    c: &str,
    ab: String,
    abc: String,
    chars: &Vec<char>,
    from: usize,
    to: usize,
    cut: String,
)
    requires
        from <= to <= chars@.len(),
        call_ensures(concat2, (a, b), ab),
        call_ensures(concat3, (a, b, c), abc),
        call_ensures(text_of, (chars, from, to), cut),
    ensures
        ab@.take(a@.len() as int) == a@,
        ab@.skip(a@.len() as int) == b@,
        abc@.take(ab@.len() as int) == ab@,
        abc@.skip(ab@.len() as int) == c@,
        cut@.len() == to - from,
        forall|i: int| 0 <= i < cut@.len() ==> #[trigger] cut@[i] == chars@[from + i],
{
    assert(ab@.take(a@.len() as int) =~= a@);
    assert(ab@.skip(a@.len() as int) =~= b@);
    assert(abc@.take(ab@.len() as int) =~= ab@);
    assert(abc@.skip(ab@.len() as int) =~= c@);
}

/// Parts are joined one behind the other, with the separator between each two of them.
pub proof fn parts_are_joined_in_order(
    parts: &Vec<String>,
    more: &Vec<String>,
    sep: &str,
    p: String,
    r: String,
    s: String,
)
    requires
        call_ensures(join, (parts, sep), r),
        more@ == parts@.push(p),
        call_ensures(join, (more, sep), s),
    ensures
        parts@.len() == 0 ==> r@.len() == 0 && s@ == p@,
        parts@.len() > 0 ==> s@ == r@ + sep@ + p@,
{
    assert(texts(more@) =~= texts(parts@).push(p@));
    joined_grows_by_parts(texts(parts@), p@, sep@);
    if parts@.len() == 0 {
        assert(texts(parts@) =~= Seq::<Seq<char>>::empty());
        assert(texts(more@) =~= seq![p@]);
    }
}

/// A text is split at its line feeds: the first line comes first and without its end, and then come
/// the lines of what is behind it.
pub proof fn texts_are_split_at_line_feeds(
    s: &str,
    r: Vec<String>,
    line: Seq<char>,
    behind: &str,
    others: Vec<String>,
    i: int,
)
    requires
        call_ensures(lines_of, (s,), r),
        call_ensures(lines_of, (behind,), others),
        forall|k: int| 0 <= k < line.len() ==> #[trigger] line[k] != '\n',
    ensures
        s@.len() == 0 ==> r@.len() == 0,
        s@ == line && line.len() > 0 ==> r@.len() == 1 && r@[0]@ == line,
        s@ == line + seq!['\r', '\n'] + behind@ || (s@ == line + seq!['\n'] + behind@ && (line.len()
            == 0 || line.last() != '\r')) ==> {
            &&& r@.len() == 1 + others@.len()
            &&& r@[0]@ == line
            &&& 0 <= i < others@.len() ==> r@[i + 1]@ == others@[i]@
        },
{
    lines_end_at_line_feeds(line, behind@);
    let a = texts(r@);
    let b = texts(others@);
    assert(a.len() == r@.len() && b.len() == others@.len());
    if r@.len() > 0 {
        assert(a[0] == r@[0]@);
    }
    if 0 <= i < others@.len() {
        assert(b[i] == others@[i]@);
        if i + 1 < r@.len() {
            assert(a[i + 1] == r@[i + 1]@);
        }
    }
}

/// What is found is the first such character from there on; where there is none, it is the end.
pub proof fn the_first_one_is_found(s: &Vec<char>, c: char, from: usize, r: usize, i: int)
    requires
        from <= s@.len(),
        call_ensures(find_from, (s, c, from), r),
    ensures
        from <= r <= s@.len(),
        r < s@.len() ==> s@[r as int] == c,
        from <= i < r ==> s@[i] != c,
{
    lemma_first_index(s@, c, from as int, i);
}

/// Where the first such character stands.
proof fn lemma_first_index(s: Seq<char>, c: char, from: int, i: int)
    requires
        0 <= from <= s.len(),
    ensures
        from <= index_from(s, c, from) <= s.len(),
        index_from(s, c, from) < s.len() ==> s[index_from(s, c, from)] == c,
        from <= i < index_from(s, c, from) ==> s[i] != c,
    decreases s.len() - from,
{
    if from < s.len() && s[from] != c {
        lemma_first_index(s, c, from + 1, i);
    }
}

/// White space are the characters of ASCII that move the place where is written next, the next line and
/// the no-break space behind ASCII, and the spaces and separators of the other planes of writing.
pub proof fn white_space_is_known(c: char, r: bool)
    requires
        call_ensures(is_white_space, (c,), r),
    ensures
        (c as int) < 0x80 ==> (r <==> (c == ' ' || c == '\t' || c == '\n' || c == '\r' || c as int == 11
            || c as int == 12)),
        0x80 <= c as int && (c as int) < 0x2000 ==> (r <==> (c == '\u{85}' || c == '\u{A0}' || c
            == '\u{1680}')),
        0x2000 <= c as int && (c as int) < 0x2030 ==> (r <==> (c as int <= 0x200A || c == '\u{2028}'
            || c == '\u{2029}' || c == '\u{202F}')),
        0x2030 <= c as int ==> (r <==> (c == '\u{205F}' || c == '\u{3000}')),
{
}

} // verus!
