use vstd::prelude::*;

verus! {

/// Characters that a file name may not hold.
pub open spec fn is_file_name_unsafe(c: char) -> bool {
    c == ':' || c == '\\' || c == '*' || c == '>' || c == '<' || c == '/' || c == '?' || c == '"'
        || c == '|'
}

/// Characters stripped from general user input: the file-name set and more punctuation.
pub open spec fn is_input_unsafe(c: char) -> bool {
    is_file_name_unsafe(c) || c == '.' || c == ',' || c == '(' || c == ')' || c == '[' || c == ']'
        || c == '{' || c == '}' || c == '!' || c == '@' || c == '#' || c == '$' || c == '%'
        || c == '^' || c == '&' || c == '-' || c == '_' || c == '=' || c == '+' || c == '~'
        || c == '`'
}

pub open spec fn keep_in_file_name(c: char) -> bool {
    !is_file_name_unsafe(c)
}

pub open spec fn keep_in_input(c: char) -> bool {
    !is_input_unsafe(c)
}

/// `s` with every character in the file-name set removed.
pub open spec fn file_name_safe(s: Seq<char>) -> Seq<char> {
    s.filter(|c: char| keep_in_file_name(c))
}

/// `s` with every character in the general set removed.
pub open spec fn input_safe(s: Seq<char>) -> Seq<char> {
    s.filter(|c: char| keep_in_input(c))
}

fn is_file_name_unsafe_char(c: char) -> (r: bool)
    ensures
        r == is_file_name_unsafe(c),
{
    c == ':' || c == '\\' || c == '*' || c == '>' || c == '<' || c == '/' || c == '?' || c == '"'
        || c == '|'
}

fn is_input_unsafe_char(c: char) -> (r: bool)
    ensures
        r == is_input_unsafe(c),
{
    is_file_name_unsafe_char(c) || c == '.' || c == ',' || c == '(' || c == ')' || c == '['
        || c == ']' || c == '{' || c == '}' || c == '!' || c == '@' || c == '#' || c == '$'
        || c == '%' || c == '^' || c == '&' || c == '-' || c == '_' || c == '=' || c == '+'
        || c == '~' || c == '`'
}

pub proof fn lemma_filter_step<A>(s: Seq<A>, i: int, p: spec_fn(A) -> bool)
    requires
        0 <= i < s.len(),
    ensures
        s.take(i + 1).filter(p) == if p(s[i]) {
            s.take(i).filter(p).push(s[i])
        } else {
            s.take(i).filter(p)
        },
{
    reveal(Seq::filter);
    assert(s.take(i + 1).drop_last() =~= s.take(i));
}

proof fn lemma_filter_all_kept(s: Seq<char>, p: spec_fn(char) -> bool)
    requires
        forall|i: int| 0 <= i < s.len() ==> p(s[i]),
    ensures
        s.filter(p) == s,
    decreases s.len(),
{
    reveal(Seq::filter);
    if s.len() > 0 {
        lemma_filter_all_kept(s.drop_last(), p);
        assert(s.drop_last().push(s.last()) =~= s);
    }
}

/// Sanitising a file name leaves none of `:\*></?"|` and keeps every other
/// character in order; sanitising again changes nothing.
pub proof fn lemma_safe_file_name_law(s: Seq<char>)
    ensures
        forall|i: int|
            0 <= i < file_name_safe(s).len() ==> !is_file_name_unsafe(#[trigger] file_name_safe(s)[i]),
        forall|c: char| keep_in_file_name(c) ==> (s.contains(c) <==> file_name_safe(s).contains(c)),
        file_name_safe(file_name_safe(s)) == file_name_safe(s),
{
    let p = |c: char| keep_in_file_name(c);
    let t = s.filter(p);
    assert forall|i: int| 0 <= i < t.len() implies !is_file_name_unsafe(#[trigger] t[i]) by {
        s.lemma_filter_pred(p, i);
    }
    assert forall|c: char| keep_in_file_name(c) implies (s.contains(c) <==> t.contains(c)) by {
        if s.contains(c) {
            let k = choose|k: int| 0 <= k < s.len() && s[k] == c;
            s.lemma_filter_contains(p, k);
        }
        if t.contains(c) {
            s.lemma_filter_contains_rev(p, c);
        }
    }
    lemma_filter_all_kept(t, p);
}

/// Removes the characters `:\*></?"|` from a file name.
pub fn safe_file_name(s: String) -> (r: String)
    ensures
        r@ == file_name_safe(s@),
{
    let n = s.as_str().unicode_len();
    let mut out = String::new();
    let mut i: usize = 0;
    while i < n
        invariant
            n == s@.len(),
            i <= n,
            out@ == s@.take(i as int).filter(|c: char| keep_in_file_name(c)),
        decreases n - i,
    {
        let c = s.as_str().get_char(i);
        proof {
            lemma_filter_step(s@, i as int, |c: char| keep_in_file_name(c));
        }
        if !is_file_name_unsafe_char(c) {
            out.append(s.as_str().substring_char(i, i + 1));
            assert(s@.subrange(i as int, i + 1) =~= seq![c]);
        }
        i = i + 1;
    }
    assert(s@.take(n as int) =~= s@);
    out
}

/// Removes the characters `:\*></?"|.,()[]{}!@#$%^&-_=+~` and the backquote from input.
pub fn safe_string(s: String) -> (r: String)
    ensures
        r@ == input_safe(s@),
{
    let n = s.as_str().unicode_len();
    let mut out = String::new();
    let mut i: usize = 0;
    while i < n
        invariant
            n == s@.len(),
            i <= n,
            out@ == s@.take(i as int).filter(|c: char| keep_in_input(c)),
        decreases n - i,
    {
        let c = s.as_str().get_char(i);
        proof {
            lemma_filter_step(s@, i as int, |c: char| keep_in_input(c));
        }
        if !is_input_unsafe_char(c) {
            out.append(s.as_str().substring_char(i, i + 1));
            assert(s@.subrange(i as int, i + 1) =~= seq![c]);
        }
        i = i + 1;
    }
    assert(s@.take(n as int) =~= s@);
    out
}

/// The character of a decimal digit.
pub open spec fn digit_char(d: int) -> char {
    ((d + 48) as u8) as char
}

/// Decimal digits of a natural number, most significant first, no leading zero.
pub open spec fn decimal_digits(n: nat) -> Seq<char>
    decreases n,
{
    if n < 10 {
        seq![digit_char(n as int)]
    } else {
        decimal_digits(n / 10).push(digit_char((n % 10) as int))
    }
}

/// Decimal text of an integer, with a leading `-` when negative.
pub open spec fn decimal_text(n: int) -> Seq<char> {
    if n < 0 {
        seq!['-'] + decimal_digits((-n) as nat)
    } else {
        decimal_digits(n as nat)
    }
}

const DIGITS: &'static str = "0123456789";

fn append_digit(out: &mut String, d: u64)
    requires
        d < 10,
    ensures
        final(out)@ == old(out)@.push(digit_char(d as int)),
{
    proof {
        reveal_strlit("0123456789");
    }
    let ds = DIGITS.substring_char(d as usize, (d + 1) as usize);
    assert(ds@ =~= seq![digit_char(d as int)]);
    out.append(ds);
}

/// Appends the decimal digits of `n`.
pub fn append_decimal(out: &mut String, n: u64)
    ensures
        final(out)@ == old(out)@ + decimal_digits(n as nat),
    decreases n,
{
    if n >= 10 {
        append_decimal(out, n / 10);
        append_digit(out, n % 10);
        assert(final(out)@ =~= old(out)@ + decimal_digits(n as nat));
    } else {
        append_digit(out, n);
        assert(final(out)@ =~= old(out)@ + decimal_digits(n as nat));
    }
}

/// Appends the decimal text of a signed integer.
pub fn append_signed(out: &mut String, n: i64)
    ensures
        final(out)@ == old(out)@ + decimal_text(n as int),
{
    if n < 0 {
        proof {
            reveal_strlit("-");
        }
        out.append("-");
        let m: u64 = (-(n as i128)) as u64;
        append_decimal(out, m);
        assert(final(out)@ =~= old(out)@ + decimal_text(n as int));
    } else {
        append_decimal(out, n as u64);
    }
}

/// Decimal text of a signed integer.
pub fn signed_to_text(n: i64) -> (r: String)
    ensures
        r@ == decimal_text(n as int),
{
    let mut out = String::new();
    append_signed(&mut out, n);
    assert(out@ =~= decimal_text(n as int));
    out
}

pub open spec fn is_digit(c: char) -> bool {
    '0' <= c <= '9'
}

pub open spec fn all_digits(s: Seq<char>) -> bool {
    forall|i: int| 0 <= i < s.len() ==> is_digit(#[trigger] s[i])
}

/// Value of a run of decimal digits.
pub open spec fn digits_value(s: Seq<char>) -> int
    decreases s.len(),
{
    if s.len() == 0 {
        0
    } else {
        digits_value(s.drop_last()) * 10 + (s.last() as int - 48)
    }
}

/// The integer that a decimal text denotes: an optional `+` or `-`, then one or
/// more ASCII digits. `None` for any other text.
pub open spec fn decimal_value(s: Seq<char>) -> Option<int> {
    if s.len() > 1 && s[0] == '-' && all_digits(s.skip(1)) {
        Some(-digits_value(s.skip(1)))
    } else if s.len() > 1 && s[0] == '+' && all_digits(s.skip(1)) {
        Some(digits_value(s.skip(1)))
    } else if s.len() > 0 && all_digits(s) {
        Some(digits_value(s))
    } else {
        None
    }
}

/// The value of a decimal text when it lies in `[lo, hi]`.
pub open spec fn decimal_in_range(s: Seq<char>, lo: int, hi: int) -> Option<int> {
    match decimal_value(s) {
        Some(v) => if lo <= v <= hi {
            Some(v)
        } else {
            None
        },
        None => None,
    }
}

proof fn lemma_digits_value_grows(s: Seq<char>, k: int)
    requires
        all_digits(s),
        0 <= k <= s.len(),
    ensures
        0 <= digits_value(s.take(k)) <= digits_value(s),
    decreases s.len(),
{
    if s.len() > 0 {
        assert(all_digits(s.drop_last()));
        if k == s.len() {
            assert(s.take(k) =~= s);
            lemma_digits_value_grows(s.drop_last(), k - 1);
            assert(s.drop_last().take(k - 1) =~= s.drop_last());
        } else {
            lemma_digits_value_grows(s.drop_last(), k);
            assert(s.drop_last().take(k) =~= s.take(k));
            lemma_digits_value_grows(s.drop_last(), s.len() - 1);
            assert(s.drop_last().take(s.len() - 1) =~= s.drop_last());
        }
    } else {
        assert(s.take(k) =~= s);
    }
}

/// Reads the digits of `s` from position `start`; `None` when a character is not a
/// digit, when there is none, or when the value exceeds 2^63.
fn read_digits(s: &str, start: usize) -> (r: Option<u64>)
    requires
        start <= s@.len(),
    ensures
        r matches Some(v) ==> s@.len() > start && all_digits(s@.skip(start as int)) && v
            == digits_value(s@.skip(start as int)) && v <= 0x8000_0000_0000_0000,
        r is None ==> s@.len() == start || !all_digits(s@.skip(start as int)) || digits_value(
            s@.skip(start as int),
        ) > 0x8000_0000_0000_0000,
{
    let n = s.unicode_len();
    if n == start {
        return None;
    }
    let ghost t = s@.skip(start as int);
    let mut acc: u64 = 0;
    let mut i: usize = start;
    while i < n
        invariant
            n == s@.len(),
            start <= i <= n,
            t == s@.skip(start as int),
            all_digits(t.take(i - start)),
            acc == digits_value(t.take(i - start)),
            acc <= 0x8000_0000_0000_0000,
        decreases n - i,
    {
        let c = s.get_char(i);
        assert(t[i - start] == c);
        if c < '0' || c > '9' {
            return None;
        }
        let d: u64 = (c as u32 - 48) as u64;
        assert(t.take(i - start + 1).drop_last() =~= t.take(i - start));
        if acc > 0x0CCC_CCCC_CCCC_CCCC || acc * 10 + d > 0x8000_0000_0000_0000 {
            proof {
                assert(digits_value(t.take(i - start + 1)) == acc * 10 + d);
                if all_digits(t) {
                    lemma_digits_value_grows(t, i - start + 1);
                }
            }
            return None;
        }
        acc = acc * 10 + d;
        i = i + 1;
    }
    assert(t.take(n - start) =~= t);
    Some(acc)
}

/// Parses a signed integer as Rust's `i64::from_str` does.
pub fn parse_i64(s: &str) -> (r: Option<i64>)
    ensures
        r matches Some(v) ==> decimal_in_range(s@, i64::MIN as int, i64::MAX as int) == Some(
            v as int,
        ),
        r is None ==> decimal_in_range(s@, i64::MIN as int, i64::MAX as int) is None,
{
    let n = s.unicode_len();
    if n == 0 {
        return None;
    }
    let c0 = s.get_char(0);
    if c0 == '-' || c0 == '+' {
        if n == 1 {
            return None;
        }
        match read_digits(s, 1) {
            Some(m) => {
                if c0 == '-' {
                    Some((-(m as i128)) as i64)
                } else if m <= 0x7FFF_FFFF_FFFF_FFFF {
                    Some(m as i64)
                } else {
                    None
                }
            },
            None => None,
        }
    } else {
        match read_digits(s, 0) {
            Some(m) => {
                assert(s@.skip(0) =~= s@);
                if m <= 0x7FFF_FFFF_FFFF_FFFF {
                    Some(m as i64)
                } else {
                    None
                }
            },
            None => {
                assert(s@.skip(0) =~= s@);
                None
            },
        }
    }
}

/// Parses a signed 32-bit integer as Rust's `i32::from_str` does.
pub fn parse_i32(s: &str) -> (r: Option<i32>)
    ensures
        r matches Some(v) ==> decimal_in_range(s@, i32::MIN as int, i32::MAX as int) == Some(
            v as int,
        ),
        r is None ==> decimal_in_range(s@, i32::MIN as int, i32::MAX as int) is None,
{
    match parse_i64(s) {
        Some(v) => if i32::MIN as i64 <= v && v <= i32::MAX as i64 {
            Some(v as i32)
        } else {
            None
        },
        None => None,
    }
}

/// Splits a text at every `:`; an empty text gives one empty field.
pub open spec fn split_colon(s: Seq<char>) -> Seq<Seq<char>>
    decreases s.len(),
{
    if s.len() == 0 {
        seq![Seq::empty()]
    } else {
        let rest = split_colon(s.drop_last());
        if s.last() == ':' {
            rest.push(Seq::empty())
        } else {
            rest.update(rest.len() - 1, rest.last().push(s.last()))
        }
    }
}

proof fn lemma_split_colon_nonempty(s: Seq<char>)
    ensures
        split_colon(s).len() >= 1,
    decreases s.len(),
{
    if s.len() > 0 {
        lemma_split_colon_nonempty(s.drop_last());
    }
}

/// The `:`-separated fields of a text.
pub fn split_fields(s: &str) -> (r: Vec<String>)
    ensures
        r@.len() == split_colon(s@).len(),
        forall|i: int| 0 <= i < r@.len() ==> #[trigger] r@[i]@ == split_colon(s@)[i],
{
    let n = s.unicode_len();
    let mut fields: Vec<String> = Vec::new();
    let mut cur = String::new();
    let mut i: usize = 0;
    while i < n
        invariant
            n == s@.len(),
            i <= n,
            fields@.len() + 1 == split_colon(s@.take(i as int)).len(),
            forall|j: int|
                0 <= j < fields@.len() ==> #[trigger] fields@[j]@ == split_colon(s@.take(i as int))[j],
            cur@ == split_colon(s@.take(i as int)).last(),
        decreases n - i,
    {
        let c = s.get_char(i);
        proof {
            assert(s@.take(i + 1).drop_last() =~= s@.take(i as int));
            lemma_split_colon_nonempty(s@.take(i as int));
        }
        if c == ':' {
            fields.push(cur);
            cur = String::new();
        } else {
            cur.append(s.substring_char(i, i + 1));
            assert(s@.subrange(i as int, i + 1) =~= seq![c]);
        }
        i = i + 1;
    }
    assert(s@.take(n as int) =~= s@);
    fields.push(cur);
    fields
}

/// SQL placeholders `$1,$2,...,$n`.
pub open spec fn placeholders(n: nat) -> Seq<char>
    decreases n,
{
    if n == 0 {
        Seq::empty()
    } else if n == 1 {
        seq!['$'] + decimal_digits(1)
    } else {
        placeholders((n - 1) as nat) + seq![',', '$'] + decimal_digits(n)
    }
}

/// Builds the placeholder list `$1,$2,...,$len` of a query with `len` parameters.
pub fn build_s(len: usize) -> (r: String)
    ensures
        r@ == placeholders(len as nat),
{
    let mut s = String::new();
    let mut i: usize = 0;
    while i < len
        invariant
            i <= len,
            s@ == placeholders(i as nat),
        decreases len - i,
    {
        proof {
            reveal_strlit(",");
            reveal_strlit("$");
        }
        i = i + 1;
        if i > 1 {
            s.append(",");
        }
        s.append("$");
        append_decimal(&mut s, i as u64);
        assert(s@ =~= placeholders(i as nat));
    }
    s
}

proof fn lemma_digit_char(d: int)
    requires
        0 <= d <= 9,
    ensures
        is_digit(digit_char(d)),
        digit_char(d) as int - 48 == d,
{
}

proof fn lemma_decimal_digits(n: nat)
    ensures
        decimal_digits(n).len() > 0,
        all_digits(decimal_digits(n)),
        digits_value(decimal_digits(n)) == n,
    decreases n,
{
    if n < 10 {
        lemma_digit_char(n as int);
        assert(decimal_digits(n).drop_last() =~= Seq::<char>::empty());
        assert(digits_value(Seq::<char>::empty()) == 0);
        assert(digits_value(decimal_digits(n)) == 0 * 10 + (digit_char(n as int) as int - 48));
    } else {
        lemma_decimal_digits(n / 10);
        lemma_digit_char((n % 10) as int);
        let d = decimal_digits(n);
        assert(d.drop_last() =~= decimal_digits(n / 10));
        assert(all_digits(d)) by {
            assert forall|i: int| 0 <= i < d.len() implies is_digit(#[trigger] d[i]) by {
                if i < d.len() - 1 {
                    assert(d[i] == decimal_digits(n / 10)[i]);
                }
            }
        }
        assert(d.last() == digit_char((n % 10) as int));
        assert(digits_value(d) == digits_value(decimal_digits(n / 10)) * 10 + (n % 10));
        assert(n == (n / 10) * 10 + n % 10) by (nonlinear_arith);
    }
}

/// Reading the decimal text of an integer gives the integer back.
pub proof fn lemma_decimal_round_trip(n: int)
    ensures
        decimal_value(decimal_text(n)) == Some(n),
        !decimal_text(n).contains(':'),
{
    let m: nat = if n < 0 { (-n) as nat } else { n as nat };
    lemma_decimal_digits(m);
    let d = decimal_digits(m);
    let t = decimal_text(n);
    if n < 0 {
        assert(t.skip(1) =~= d);
        assert(t[0] == '-');
    } else {
        assert(t == d);
        assert(is_digit(t[0]));
    }
    if t.contains(':') {
        let i = choose|i: int| 0 <= i < t.len() && t[i] == ':';
        if n < 0 && i > 0 {
            assert(t[i] == d[i - 1]);
        }
    }
}

proof fn lemma_split_colon_plain(s: Seq<char>)
    requires
        !s.contains(':'),
    ensures
        split_colon(s) == seq![s],
    decreases s.len(),
{
    if s.len() > 0 {
        let d = s.drop_last();
        assert(!d.contains(':')) by {
            if d.contains(':') {
                let i = choose|i: int| 0 <= i < d.len() && d[i] == ':';
                assert(s[i] == ':');
            }
        }
        lemma_split_colon_plain(d);
        assert(s[s.len() - 1] != ':');
        assert(d.push(s.last()) =~= s);
        assert(split_colon(s) =~= seq![s]);
    } else {
        assert(s =~= Seq::<char>::empty());
    }
}

proof fn lemma_split_colon_join(x: Seq<char>, y: Seq<char>)
    ensures
        split_colon(x + seq![':'] + y) == split_colon(x) + split_colon(y),
    decreases y.len(),
{
    let s = x + seq![':'] + y;
    lemma_split_colon_nonempty(x);
    lemma_split_colon_nonempty(y);
    if y.len() == 0 {
        assert(s.drop_last() =~= x);
        assert(split_colon(y) =~= seq![Seq::<char>::empty()]);
        assert(split_colon(s) =~= split_colon(x) + split_colon(y));
    } else {
        let y2 = y.drop_last();
        assert(s.drop_last() =~= x + seq![':'] + y2);
        lemma_split_colon_join(x, y2);
        lemma_split_colon_nonempty(y2);
        assert(s.last() == y.last());
        assert(split_colon(s) =~= split_colon(x) + split_colon(y));
    }
}

/// Splitting `a:b`, where neither part holds a `:`, gives the two parts.
pub proof fn lemma_split_two(a: Seq<char>, b: Seq<char>)
    requires
        !a.contains(':'),
        !b.contains(':'),
    ensures
        split_colon(a + seq![':'] + b) == seq![a, b],
{
    lemma_split_colon_join(a, b);
    lemma_split_colon_plain(a);
    lemma_split_colon_plain(b);
    assert(seq![a] + seq![b] =~= seq![a, b]);
}

/// The text of an optional string.
pub open spec fn opt_text(o: Option<String>) -> Option<Seq<char>> {
    match o {
        Some(s) => Some(s@),
        None => None,
    }
}

/// The text of an optional borrowed string.
pub open spec fn opt_text_ref(o: Option<&String>) -> Option<Seq<char>> {
    match o {
        Some(s) => Some(s@),
        None => None,
    }
}

/// A flag given as text is set exactly when the text is `1`.
pub fn from_str_bool(s: &str) -> (r: bool)
    ensures
        r == (s@ == seq!['1']),
{
    let one = String::from_str("1");
    proof {
        reveal_strlit("1");
        assert(one@ =~= seq!['1']);
    }
    let t = String::from_str(s);
    t == one
}

/// The part of an address before its first `:`, or all of it.
pub open spec fn host_part(s: Seq<char>) -> Seq<char> {
    split_colon(s)[0]
}

/// The host of a `host:port` address (the whole text when it has no `:`).
pub fn strip_port(addr: &str) -> (r: String)
    ensures
        r@ == host_part(addr@),
{
    let mut f = split_fields(addr);
    proof {
        lemma_split_colon_nonempty(addr@);
    }
    f.swap_remove(0)
}

} // verus!
