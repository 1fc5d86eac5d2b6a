//! Small string helpers with exact contracts over `Seq<char>`.

use vstd::prelude::*;
use vstd::string::*;

verus! {

/// The lowercase form of a string (std `str::to_lowercase`)
pub uninterp spec fn lowercase(s: Seq<char>) -> Seq<char>;

/// Lowercase a string (std `str::to_lowercase`, full Unicode case mapping)
#[verifier::external_body]
pub(crate) fn to_lower(s: &str) -> (r: String)
    ensures
        r@ == lowercase(s@),
{
    s.to_lowercase()
}

/// The uppercase form of a string (std `str::to_uppercase`)
pub uninterp spec fn uppercase(s: Seq<char>) -> Seq<char>;

/// Uppercase a string (std `str::to_uppercase`, full Unicode case mapping)
#[verifier::external_body]
pub(crate) fn to_upper(s: &str) -> (r: String)
    ensures
        r@ == uppercase(s@),
{
    s.to_uppercase()
}

/// Character-wise equality of two string slices.
pub fn str_eq(a: &str, b: &str) -> (r: bool)
    ensures
        r == (a@ == b@),
{
    let la = a.unicode_len();
    let lb = b.unicode_len();
    if la != lb {
        return false;
    }
    let mut i: usize = 0;
    while i < la
        invariant
            la == a@.len(),
            lb == b@.len(),
            la == lb,
            i <= la,
            forall|j: int| 0 <= j < i ==> a@[j] == b@[j],
        decreases la - i,
    {
        if a.get_char(i) != b.get_char(i) {
            return false;
        }
        i = i + 1;
    }
    assert(a@ =~= b@);
    true
}

/// Some element of the list has the characters `s`.
pub open spec fn holds_str(list: Seq<String>, s: Seq<char>) -> bool {
    exists|j: int| 0 <= j < list.len() && #[trigger] list[j]@ == s
}

/// Does the list hold a string equal to `s`?
pub fn contains_str(list: &[String], s: &str) -> (r: bool)
    ensures
        r == holds_str(list@, s@),
{
    let mut i: usize = 0;
    while i < list.len()
        invariant
            i <= list.len(),
            forall|j: int| 0 <= j < i ==> #[trigger] list@[j]@ != s@,
        decreases list.len() - i,
    {
        if str_eq(list[i].as_str(), s) {
            assert(list@[i as int]@ == s@);
            return true;
        }
        i = i + 1;
    }
    false
}

/// The characters of an optional string.
pub open spec fn opt_view(o: Option<String>) -> Option<Seq<char>> {
    match o {
        Some(s) => Some(s@),
        None => None,
    }
}

/// Copy of a string slice as an owned string.
pub fn owned(s: &str) -> (r: String)
    ensures
        r@ == s@,
{
    s.to_owned()
}

/// Does the slice hold `x`?
pub fn contains_u32(list: &[u32], x: u32) -> (r: bool)
    ensures
        r == list@.contains(x),
{
    let mut i: usize = 0;
    while i < list.len()
        invariant
            i <= list.len(),
            forall|j: int| 0 <= j < i ==> list@[j] != x,
        decreases list.len() - i,
    {
        if list[i] == x {
            assert(list@[i as int] == x);
            return true;
        }
        i = i + 1;
    }
    false
}

/// The characters of each string of a list
pub open spec fn strings_view(l: Seq<String>) -> Seq<Seq<char>> {
    l.map_values(|s: String| s@)
}

/// Append a character (std `String::push`, which appends the character to the end)
#[verifier::external_body]
pub fn push_char(s: &mut String, c: char)
    ensures
        final(s)@ == old(s)@.push(c),
{
    s.push(c)
}

/// Copy of a list of strings
pub fn clone_strings(l: &[String]) -> (r: Vec<String>)
    ensures
        r@ == l@,
{
    let mut out: Vec<String> = Vec::new();
    let mut i: usize = 0;
    while i < l.len()
        invariant
            i <= l@.len(),
            out@ == l@.take(i as int),
        decreases l@.len() - i,
    {
        out.push(l[i].clone());
        proof {
            assert(l@.take(i + 1) =~= l@.take(i as int).push(l@[i as int]));
        }
        i = i + 1;
    }
    proof {
        assert(l@.take(l@.len() as int) =~= l@);
    }
    out
}

/// No flag occurs twice in the list
pub open spec fn distinct_flags(l: Seq<String>) -> bool {
    forall|i: int, j: int| 0 <= i < l.len() && 0 <= j < l.len() && i != j ==> #[trigger] l[i]@ != #[trigger] l[j]@
}

/// The list without the entries equal to `f`, order kept
pub open spec fn drop_flag(l: Seq<Seq<char>>, f: Seq<char>) -> Seq<Seq<char>>
    decreases l.len(),
{
    if l.len() == 0 {
        l
    } else if l.last() == f {
        drop_flag(l.drop_last(), f)
    } else {
        drop_flag(l.drop_last(), f).push(l.last())
    }
}

/// `drop_flag` leaves no entry equal to `f`
pub proof fn lemma_drop_flag_absent(l: Seq<Seq<char>>, f: Seq<char>)
    ensures
        !drop_flag(l, f).contains(f),
    decreases l.len(),
{
    if l.len() > 0 {
        lemma_drop_flag_absent(l.drop_last(), f);
    }
}

/// `holds_str` is membership in the character view
pub proof fn lemma_holds_str_view(l: Seq<String>, s: Seq<char>)
    ensures
        holds_str(l, s) == strings_view(l).contains(s),
{
    if holds_str(l, s) {
        let j = choose|j: int| 0 <= j < l.len() && #[trigger] l[j]@ == s;
        assert(strings_view(l)[j] == s);
    }
    if strings_view(l).contains(s) {
        let j = choose|j: int| 0 <= j < strings_view(l).len() && strings_view(l)[j] == s;
        assert(l[j]@ == s);
    }
}

/// Append `flag` unless present
pub fn add_flag(list: &mut Vec<String>, flag: &str)
    ensures
        holds_str(old(list)@, flag@) ==> final(list)@ == old(list)@,
        !holds_str(old(list)@, flag@) ==> strings_view(final(list)@) == strings_view(old(list)@).push(flag@),
        holds_str(final(list)@, flag@),
        distinct_flags(old(list)@) ==> distinct_flags(final(list)@),
{
    if !contains_str(list.as_slice(), flag) {
        let f = owned(flag);
        let ghost o = list@;
        list.push(f);
        proof {
            assert(strings_view(list@) =~= strings_view(o).push(flag@));
            assert(list@[o.len() as int]@ == flag@);
        }
    }
}

/// Remove every entry equal to `flag`
pub fn remove_flag(list: &mut Vec<String>, flag: &str)
    ensures
        strings_view(final(list)@) == drop_flag(strings_view(old(list)@), flag@),
        !holds_str(final(list)@, flag@),
{
    let mut kept: Vec<String> = Vec::new();
    let mut i: usize = 0;
    let ghost o = list@;
    while i < list.len()
        invariant
            list@ == o,
            i <= o.len(),
            strings_view(kept@) == drop_flag(strings_view(o.take(i as int)), flag@),
        decreases o.len() - i,
    {
        let ghost before = kept@;
        proof {
            assert(strings_view(o.take(i + 1)).drop_last() =~= strings_view(o.take(i as int)));
            assert(strings_view(o.take(i + 1)).last() == o[i as int]@);
        }
        if !str_eq(list[i].as_str(), flag) {
            kept.push(list[i].clone());
            proof {
                assert(strings_view(kept@) =~= strings_view(before).push(o[i as int]@));
            }
        }
        i = i + 1;
    }
    proof {
        assert(o.take(o.len() as int) =~= o);
        lemma_drop_flag_absent(strings_view(o), flag@);
        lemma_holds_str_view(kept@, flag@);
    }
    *list = kept;
}

// ---------------------------------------------------------------------------
// Decimal numbers
// ---------------------------------------------------------------------------

/// The character of a decimal digit
pub open spec fn digit_char(d: int) -> char {
    if d == 0 { '0' } else if d == 1 { '1' } else if d == 2 { '2' } else if d == 3 { '3' }
    else if d == 4 { '4' } else if d == 5 { '5' } else if d == 6 { '6' } else if d == 7 { '7' }
    else if d == 8 { '8' } else { '9' }
}

/// The value of a decimal digit character
pub open spec fn digit_value(c: char) -> int {
    (c as int) - ('0' as int)
}

/// Is `c` one of '0'..='9'?
pub open spec fn is_digit(c: char) -> bool {
    '0' <= c && c <= '9'
}

/// Decimal representation of `n`, without sign or leading zeros
pub open spec fn decimal(n: nat) -> Seq<char>
    decreases n,
{
    if n < 10 {
        seq![digit_char(n as int)]
    } else {
        decimal(n / 10).push(digit_char((n % 10) as int))
    }
}

/// The value of a string of decimal digits
pub open spec fn digits_value(s: Seq<char>) -> nat
    decreases s.len(),
{
    if s.len() == 0 {
        0
    } else {
        (digits_value(s.drop_last()) * 10 + digit_value(s.last())) as nat
    }
}

/// Every character is a decimal digit
pub open spec fn all_digits(s: Seq<char>) -> bool {
    forall|i: int| 0 <= i < s.len() ==> is_digit(#[trigger] s[i])
}

/// The digits after an optional leading '+'
pub open spec fn unsigned_digits(s: Seq<char>) -> Seq<char> {
    if s.len() > 0 && s[0] == '+' { s.drop_first() } else { s }
}

/// What `str::parse::<u32>` gives: an optional '+', then at least one
/// decimal digit, with a value that fits in 32 bits
pub open spec fn parse_u32_spec(s: Seq<char>) -> Option<u32> {
    let d = unsigned_digits(s);
    if d.len() > 0 && all_digits(d) && digits_value(d) <= u32::MAX {
        Some(digits_value(d) as u32)
    } else {
        None
    }
}

/// The character of one decimal digit
pub fn digit_of(d: u32) -> (c: char)
    requires
        d < 10,
    ensures
        c == digit_char(d as int),
{
    match d {
        0 => '0',
        1 => '1',
        2 => '2',
        3 => '3',
        4 => '4',
        5 => '5',
        6 => '6',
        7 => '7',
        8 => '8',
        _ => '9',
    }
}

/// Append the decimal representation of `n`
pub fn push_decimal(s: &mut String, n: u32)
    ensures
        final(s)@ == old(s)@ + decimal(n as nat),
    decreases n,
{
    let ghost start = s@;
    if n >= 10 {
        push_decimal(s, n / 10);
        let c = digit_of(n % 10);
        push_char(s, c);
        assert(s@ =~= start + decimal(n as nat));
    } else {
        let c = digit_of(n);
        push_char(s, c);
        assert(s@ =~= start + decimal(n as nat));
    }
}

/// Decimal representation of `n`, as `u32::to_string` writes it
pub fn u32_to_string(n: u32) -> (r: String)
    ensures
        r@ == decimal(n as nat),
{
    let mut s = String::new();
    push_decimal(&mut s, n);
    assert(s@ =~= decimal(n as nat));
    s
}


proof fn lemma_digits_prefix(d: Seq<char>, k: int)
    requires
        all_digits(d),
        0 <= k <= d.len(),
    ensures
        digits_value(d.subrange(0, k)) <= digits_value(d),
    decreases d.len(),
{
    if k == d.len() {
        assert(d.subrange(0, k) =~= d);
    } else {
        let p = d.drop_last();
        assert(p.subrange(0, k) =~= d.subrange(0, k));
        assert(is_digit(d[d.len() - 1]));
        lemma_digits_prefix(p, k);
    }
}

/// Read an unsigned 32-bit decimal number, as `str::parse::<u32>` does
pub fn parse_u32(s: &str) -> (r: Option<u32>)
    ensures
        r == parse_u32_spec(s@),
{
    let len = s.unicode_len();
    let mut start: usize = 0;
    if len > 0 && s.get_char(0) == '+' {
        start = 1;
    }
    let ghost d = unsigned_digits(s@);
    assert(d =~= s@.subrange(start as int, len as int));
    if start >= len {
        return None;
    }
    let mut i: usize = start;
    let mut acc: u64 = 0;
    while i < len
        invariant
            start <= i <= len,
            start < len,
            len == s@.len(),
            d == s@.subrange(start as int, len as int),
            d == unsigned_digits(s@),
            all_digits(s@.subrange(start as int, i as int)),
            acc == digits_value(s@.subrange(start as int, i as int)),
            acc <= u32::MAX,
        decreases len - i,
    {
        let c = s.get_char(i);
        let ghost prefix = s@.subrange(start as int, i as int);
        let ghost next_prefix = s@.subrange(start as int, i + 1);
        assert(next_prefix.drop_last() =~= prefix);
        assert(next_prefix.last() == c);
        if !('0' <= c && c <= '9') {
            assert(d[i - start] == c);
            return None;
        }
        let dv: u64 = (c as u64) - ('0' as u64);
        let next: u64 = acc * 10 + dv;
        if next > 0xffff_ffffu64 {
            proof {
                if all_digits(d) {
                    lemma_digits_prefix(d, i + 1 - start);
                    assert(d.subrange(0, i + 1 - start) =~= next_prefix);
                }
            }
            return None;
        }
        acc = next;
        i = i + 1;
        assert(all_digits(s@.subrange(start as int, i as int)));
    }
    assert(s@.subrange(start as int, len as int) =~= d);
    Some(acc as u32)
}

proof fn lemma_digit_char(d: int)
    requires
        0 <= d < 10,
    ensures
        is_digit(digit_char(d)),
        digit_value(digit_char(d)) == d,
        digit_char(d) != '+',
{
}

proof fn lemma_decimal_digits(n: nat)
    ensures
        decimal(n).len() > 0,
        all_digits(decimal(n)),
        digits_value(decimal(n)) == n,
        decimal(n)[0] != '+',
    decreases n,
{
    if n < 10 {
        lemma_digit_char(n as int);
        assert(decimal(n).drop_last() =~= Seq::<char>::empty());
        assert(digits_value(Seq::<char>::empty()) == 0);
        assert(digits_value(decimal(n)) == digits_value(decimal(n).drop_last()) * 10 + digit_value(decimal(n).last()));
    } else {
        lemma_decimal_digits(n / 10);
        lemma_digit_char((n % 10) as int);
        let s = decimal(n);
        assert(s.drop_last() =~= decimal(n / 10));
        assert((n / 10) * 10 + n % 10 == n) by (nonlinear_arith);
        assert(digits_value(s) == digits_value(s.drop_last()) * 10 + digit_value(s.last()));
        assert(all_digits(s)) by {
            assert forall|i: int| 0 <= i < s.len() implies is_digit(#[trigger] s[i]) by {
                if i < s.len() - 1 {
                    assert(s[i] == decimal(n / 10)[i]);
                }
            }
        }
    }
}

/// Reading back the decimal representation of a number gives the number.
pub proof fn lemma_parse_decimal_roundtrip(n: u32)
    ensures
        parse_u32_spec(decimal(n as nat)) == Some(n),
{
    lemma_decimal_digits(n as nat);
    assert(unsigned_digits(decimal(n as nat)) == decimal(n as nat));
}

// ---------------------------------------------------------------------------
// Case-insensitive comparison and substring replacement
// ---------------------------------------------------------------------------

/// The code of a character with ASCII capitals taken to small letters
pub open spec fn ascii_fold(c: char) -> u32 {
    if 'A' <= c && c <= 'Z' { (c as u32 + 32) as u32 } else { c as u32 }
}

/// Equal up to the case of ASCII letters (as std `str::eq_ignore_ascii_case`)
pub open spec fn eq_ignore_ascii_case_spec(a: Seq<char>, b: Seq<char>) -> bool {
    a.len() == b.len() && forall|i: int| 0 <= i < a.len() ==> #[trigger] ascii_fold(a[i]) == ascii_fold(b[i])
}

fn fold_char(c: char) -> (r: u32)
    ensures
        r == ascii_fold(c),
{
    let x = c as u32;
    if 65 <= x && x <= 90 { x + 32 } else { x }
}

/// Are the strings equal up to the case of ASCII letters?
pub fn eq_ignore_ascii_case(a: &str, b: &str) -> (r: bool)
    ensures
        r == eq_ignore_ascii_case_spec(a@, b@),
{
    let n = a.unicode_len();
    if n != b.unicode_len() {
        return false;
    }
    let mut i: usize = 0;
    while i < n
        invariant
            n == a@.len(),
            n == b@.len(),
            i <= n,
            forall|k: int| 0 <= k < i ==> #[trigger] ascii_fold(a@[k]) == ascii_fold(b@[k]),
        decreases n - i,
    {
        if fold_char(a.get_char(i)) != fold_char(b.get_char(i)) {
            return false;
        }
        i = i + 1;
    }
    true
}

/// `s` with each occurrence of `from` (found left to right, not
/// overlapping) replaced by `to` (as std `str::replace`)
pub open spec fn replace_all(s: Seq<char>, from: Seq<char>, to: Seq<char>) -> Seq<char>
    decreases s.len(),
{
    if from.len() == 0 || s.len() < from.len() {
        s
    } else if s.take(from.len() as int) == from {
        to + replace_all(s.skip(from.len() as int), from, to)
    } else {
        seq![s[0]] + replace_all(s.skip(1), from, to)
    }
}

/// Does `pat` occur in `s` at character position `i`?
fn occurs_at(s: &str, i: usize, pat: &str) -> (r: bool)
    requires
        i <= s@.len(),
    ensures
        r == (i + pat@.len() <= s@.len() && s@.subrange(i as int, i + pat@.len()) == pat@),
{
    let n = s.unicode_len();
    let m = pat.unicode_len();
    if m > n - i {
        return false;
    }
    let mut k: usize = 0;
    while k < m
        invariant
            n == s@.len(),
            m == pat@.len(),
            i + m <= n,
            k <= m,
            forall|j: int| 0 <= j < k ==> s@[i + j] == pat@[j],
        decreases m - k,
    {
        if s.get_char(i + k) != pat.get_char(k) {
            assert(s@.subrange(i as int, i + m)[k as int] != pat@[k as int]);
            return false;
        }
        k = k + 1;
    }
    assert(s@.subrange(i as int, i + m) =~= pat@);
    true
}

/// Replace each occurrence of a nonempty pattern
pub fn replace_str(s: &str, from: &str, to: &str) -> (r: String)
    requires
        from@.len() > 0,
    ensures
        r@ == replace_all(s@, from@, to@),
{
    let n = s.unicode_len();
    let m = from.unicode_len();
    let mut out = String::new();
    let mut i: usize = 0;
    assert(s@.skip(0) =~= s@);
    assert(out@ + replace_all(s@, from@, to@) =~= replace_all(s@, from@, to@));
    while i < n
        invariant
            n == s@.len(),
            m == from@.len(),
            m > 0,
            i <= n,
            out@ + replace_all(s@.skip(i as int), from@, to@) == replace_all(s@, from@, to@),
        decreases n - i,
    {
        let ghost t = s@.skip(i as int);
        let ghost before = out@;
        if occurs_at(s, i, from) {
            assert(t.take(m as int) =~= s@.subrange(i as int, i + m));
            assert(t.skip(m as int) =~= s@.skip(i + m));
            out.append(to);
            assert(before + (to@ + replace_all(t.skip(m as int), from@, to@))
                =~= (before + to@) + replace_all(s@.skip(i + m), from@, to@));
            i = i + m;
        } else {
            assert(t.len() < m || t.take(m as int) != from@) by {
                if t.len() >= m {
                    assert(t.take(m as int) =~= s@.subrange(i as int, i + m));
                }
            }
            assert(t.skip(1) =~= s@.skip(i + 1));
            assert(t[0] == s@[i as int]);
            let c = s.get_char(i);
            push_char(&mut out, c);
            assert(before + (seq![c] + replace_all(t.skip(1), from@, to@))
                =~= before.push(c) + replace_all(s@.skip(i + 1), from@, to@));
            i = i + 1;
        }
    }
    assert(s@.skip(n as int) =~= Seq::<char>::empty());
    assert(out@ + Seq::<char>::empty() =~= out@);
    out
}


/// Removing a flag removes every copy of it and keeps every other flag: a
/// flag other than the removed one is listed after the removal exactly when
/// it was before, and the list never grows.
pub proof fn law_drop_flag_keeps_others(l: Seq<Seq<char>>, f: Seq<char>, g: Seq<char>)
    ensures
        !drop_flag(l, f).contains(f),
        g != f ==> (drop_flag(l, f).contains(g) <==> l.contains(g)),
        drop_flag(l, f).len() <= l.len(),
    decreases l.len(),
{
    if l.len() > 0 {
        law_drop_flag_keeps_others(l.drop_last(), f, g);
        let r = drop_flag(l.drop_last(), f);
        if l.last() != f {
            assert(r.push(l.last()).last() == l.last());
            assert forall|x: Seq<char>| r.push(l.last()).contains(x) <==> (r.contains(x) || x == l.last()) by {
                if r.push(l.last()).contains(x) {
                    let i = choose|i: int| 0 <= i < r.push(l.last()).len() && r.push(l.last())[i] == x;
                    if i < r.len() {
                        assert(r[i] == x);
                    }
                }
                if r.contains(x) {
                    let i = choose|i: int| 0 <= i < r.len() && r[i] == x;
                    assert(r.push(l.last())[i] == x);
                }
                if x == l.last() {
                    assert(r.push(l.last())[r.len() as int] == x);
                }
            }
        }
        assert forall|x: Seq<char>| l.contains(x) <==> (l.drop_last().contains(x) || x == l.last()) by {
            if l.contains(x) {
                let i = choose|i: int| 0 <= i < l.len() && l[i] == x;
                if i < l.len() - 1 {
                    assert(l.drop_last()[i] == x);
                }
            }
            if l.drop_last().contains(x) {
                let i = choose|i: int| 0 <= i < l.drop_last().len() && l.drop_last()[i] == x;
                assert(l[i] == x);
            }
            if x == l.last() {
                assert(l[l.len() - 1] == x);
            }
        }
    }
}

} // verus!
