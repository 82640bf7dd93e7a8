//! Text as sequences of characters: the few string operations the guard needs,
//! each with its meaning stated over `Seq<char>`.

use vstd::prelude::*;
use vstd::string::*;

verus! {

/// `String::push` appends one character to the end of the string.
pub assume_specification[ String::push ](s: &mut String, c: char)
    ensures
        final(s)@ == old(s)@.push(c),
;

/// The characters of `s`, in order.
pub fn to_chars(s: &str) -> (out: Vec<char>)
    ensures
        out@ == s@,
{
    let mut out: Vec<char> = Vec::new();
    for c in it: s.chars()
        invariant
            it.seq() == s@,
            out@ == it.seq().take(it.index()),
    {
        out.push(c);
    }
    out
}

/// The string made of the characters `chars`, in order.
pub fn from_chars(chars: &Vec<char>) -> (out: String)
    ensures
        out@ == chars@,
{
    let mut out = String::new();
    let mut i: usize = 0;
    while i < chars.len()
        invariant
            i <= chars.len(),
            out@ == chars@.take(i as int),
        decreases chars.len() - i,
    {
        out.push(chars[i]);
        i += 1;
    }
    out
}

/// `a` followed by `b`.
pub fn concat2(a: &str, b: &str) -> (out: String)
    ensures
        out@ == a@ + b@,
{
    let mut out = String::from_str(a);
    out.append(b);
    out
}

/// `a`, `b` and `c` in a row.
pub fn concat3(a: &str, b: &str, c: &str) -> (out: String)
    ensures
        out@ == a@ + b@ + c@,
{
    let mut out = String::from_str(a);
    out.append(b);
    out.append(c);
    out
}

/// Whether `a` and `b` hold the same characters.
pub fn same_text(a: &str, b: &str) -> (out: bool)
    ensures
        out == (a@ == b@),
{
    let left = String::from_str(a);
    let right = String::from_str(b);
    left == right
}

/// Whether `a` comes before `b` in the order of strings: at the first place
/// where they differ `a` has the lower character, or `a` ends there and `b`
/// does not.
pub open spec fn lex_less(a: Seq<char>, b: Seq<char>) -> bool
    decreases a.len(),
{
    if b.len() == 0 {
        false
    } else if a.len() == 0 {
        true
    } else if a[0] != b[0] {
        (a[0] as u32) < (b[0] as u32)
    } else {
        lex_less(a.drop_first(), b.drop_first())
    }
}

/// Whether `a` comes before `b` in the order of strings.
pub fn precedes(a: &Vec<char>, b: &Vec<char>) -> (out: bool)
    ensures
        out == lex_less(a@, b@),
{
    let mut i: usize = 0;
    proof {
        assert(a@.skip(0) =~= a@);
        assert(b@.skip(0) =~= b@);
    }
    while i < a.len() && i < b.len()
        invariant
            i <= a.len(),
            i <= b.len(),
            lex_less(a@, b@) == lex_less(a@.skip(i as int), b@.skip(i as int)),
        decreases a.len() - i,
    {
        if a[i] != b[i] {
            return (a[i] as u32) < (b[i] as u32);
        }
        proof {
            assert(a@.skip(i as int).drop_first() =~= a@.skip(i + 1));
            assert(b@.skip(i as int).drop_first() =~= b@.skip(i + 1));
        }
        i += 1;
    }
    i < b.len()
}

/// The order of strings is strict: no string comes before itself, and of two
/// strings at most one comes before the other.
pub proof fn lemma_lex_less_strict(a: Seq<char>, b: Seq<char>)
    ensures
        !lex_less(a, a),
        !(lex_less(a, b) && lex_less(b, a)),
        a != b ==> lex_less(a, b) || lex_less(b, a),
    decreases a.len(),
{
    if a.len() > 0 {
        lemma_lex_less_strict(a.drop_first(), a.drop_first());
        if b.len() > 0 && a[0] == b[0] {
            lemma_lex_less_strict(a.drop_first(), b.drop_first());
            if a.drop_first() == b.drop_first() {
                assert(a =~= seq![a[0]] + a.drop_first());
                assert(b =~= seq![b[0]] + b.drop_first());
            }
        } else if b.len() > 0 {
            assert(a[0] as u32 != b[0] as u32) by {
                vstd::utf8::char_u32_cast(a[0], a[0] as u32);
                vstd::utf8::char_u32_cast(b[0], b[0] as u32);
            }
        }
    } else if b.len() == 0 {
        assert(a =~= b);
    }
}

/// The order of strings is transitive.
pub proof fn lemma_lex_less_transitive(a: Seq<char>, b: Seq<char>, c: Seq<char>)
    requires
        lex_less(a, b),
        lex_less(b, c),
    ensures
        lex_less(a, c),
    decreases a.len(),
{
    if a.len() > 0 && a[0] == b[0] && b[0] == c[0] {
        lemma_lex_less_transitive(a.drop_first(), b.drop_first(), c.drop_first());
    }
}

/// Whether `a` may stand before `b` in a list ordered upwards, or downwards
/// where `descending` is set: `b` does not belong strictly before `a`.
pub open spec fn in_order(a: Seq<char>, b: Seq<char>, descending: bool) -> bool {
    if descending {
        !lex_less(a, b)
    } else {
        !lex_less(b, a)
    }
}

/// `sorted` with `name` put in behind every name that may stand before it.
pub open spec fn insert_name(sorted: Seq<Seq<char>>, name: Seq<char>, descending: bool) -> Seq<
    Seq<char>,
>
    decreases sorted.len(),
{
    if sorted.len() == 0 {
        seq![name]
    } else if in_order(sorted.last(), name, descending) {
        sorted.push(name)
    } else {
        insert_name(sorted.drop_last(), name, descending).push(sorted.last())
    }
}

/// The names in the order of strings, upwards, or downwards where
/// `descending` is set; equal names keep the order they came in.
pub open spec fn sorted_names(names: Seq<Seq<char>>, descending: bool) -> Seq<Seq<char>>
    decreases names.len(),
{
    if names.len() == 0 {
        Seq::empty()
    } else {
        insert_name(sorted_names(names.drop_last(), descending), names.last(), descending)
    }
}

/// Whether every name of `names` may stand before those that follow it.
pub open spec fn names_in_order(names: Seq<Seq<char>>, descending: bool) -> bool {
    forall|i: int, j: int| 0 <= i < j < names.len() ==> in_order(names[i], names[j], descending)
}

proof fn lemma_in_order_transitive(a: Seq<char>, b: Seq<char>, c: Seq<char>, descending: bool)
    requires
        in_order(a, b, descending),
        in_order(b, c, descending),
    ensures
        in_order(a, c, descending),
{
    lemma_lex_less_strict(a, b);
    lemma_lex_less_strict(b, c);
    lemma_lex_less_strict(a, c);
    if descending {
        if lex_less(a, c) {
            if b == c {
            } else if a == b {
            } else {
                lemma_lex_less_transitive(c, b, a);
            }
        }
    } else {
        if lex_less(c, a) {
            if b == c {
            } else if a == b {
            } else {
                lemma_lex_less_transitive(a, b, c);
            }
        }
    }
}

proof fn lemma_insert_name_at(sorted: Seq<Seq<char>>, name: Seq<char>, descending: bool, k: int)
    requires
        0 <= k <= sorted.len(),
        forall|j: int| k <= j < sorted.len() ==> !in_order(#[trigger] sorted[j], name, descending),
        k > 0 ==> in_order(sorted[k - 1], name, descending),
    ensures
        insert_name(sorted, name, descending) == sorted.insert(k, name),
    decreases sorted.len(),
{
    if sorted.len() == 0 {
        assert(sorted.insert(k, name) =~= seq![name]);
    } else if k == sorted.len() {
        assert(sorted.insert(k, name) =~= sorted.push(name));
    } else {
        assert(!in_order(sorted[sorted.len() - 1], name, descending));
        lemma_insert_name_at(sorted.drop_last(), name, descending, k);
        assert(sorted.insert(k, name) =~= sorted.drop_last().insert(k, name).push(sorted.last()));
    }
}

proof fn lemma_insert_name(sorted: Seq<Seq<char>>, name: Seq<char>, descending: bool)
    requires
        names_in_order(sorted, descending),
    ensures
        names_in_order(insert_name(sorted, name, descending), descending),
        insert_name(sorted, name, descending).to_multiset() == sorted.to_multiset().insert(name),
    decreases sorted.len(),
{
    broadcast use vstd::seq_lib::group_to_multiset_ensures;

    if sorted.len() == 0 {
    } else if in_order(sorted.last(), name, descending) {
        let out = sorted.push(name);
        assert forall|i: int, j: int| 0 <= i < j < out.len() implies in_order(
            out[i],
            out[j],
            descending,
        ) by {
            if j == out.len() - 1 && i < sorted.len() - 1 {
                lemma_in_order_transitive(sorted[i], sorted.last(), name, descending);
            }
        }
    } else {
        let front = sorted.drop_last();
        lemma_insert_name(front, name, descending);
        let inner = insert_name(front, name, descending);
        let out = inner.push(sorted.last());
        assert(sorted =~= front.push(sorted.last()));
        lemma_lex_less_strict(sorted.last(), name);
        assert forall|i: int, j: int| 0 <= i < j < out.len() implies in_order(
            out[i],
            out[j],
            descending,
        ) by {
            if j == out.len() - 1 {
                assert(inner.to_multiset().count(inner[i]) > 0);
                if inner[i] != name {
                    assert(front.to_multiset().count(inner[i]) > 0);
                    let w = choose|w: int| 0 <= w < front.len() && front[w] == inner[i];
                    assert(in_order(sorted[w], sorted[sorted.len() - 1], descending));
                }
            }
        }
        assert(out.to_multiset() =~= sorted.to_multiset().insert(name));
    }
}

/// `sorted_names` puts the names in order and neither loses nor invents one.
pub proof fn lemma_sorted_names(names: Seq<Seq<char>>, descending: bool)
    ensures
        names_in_order(sorted_names(names, descending), descending),
        sorted_names(names, descending).to_multiset() == names.to_multiset(),
    decreases names.len(),
{
    broadcast use vstd::seq_lib::group_to_multiset_ensures;

    if names.len() > 0 {
        lemma_sorted_names(names.drop_last(), descending);
        lemma_insert_name(sorted_names(names.drop_last(), descending), names.last(), descending);
        assert(names =~= names.drop_last().push(names.last()));
    }
}

fn may_stand_before(a: &Vec<char>, b: &Vec<char>, descending: bool) -> (out: bool)
    ensures
        out == in_order(a@, b@, descending),
{
    if descending {
        !precedes(a, b)
    } else {
        !precedes(b, a)
    }
}

/// Puts the names in the order of strings, upwards, or downwards where
/// `descending` is set.
pub fn sort_names(names: &Vec<String>, descending: bool) -> (out: Vec<String>)
    ensures
        out.deep_view() == sorted_names(names.deep_view(), descending),
{
    let ghost all = names.deep_view();
    let mut out: Vec<String> = Vec::new();
    let mut keys: Vec<Vec<char>> = Vec::new();
    let mut i: usize = 0;
    proof {
        assert(all.take(0) =~= Seq::<Seq<char>>::empty());
        assert(out.deep_view() =~= Seq::<Seq<char>>::empty());
    }
    while i < names.len()
        invariant
            i <= names.len(),
            all == names.deep_view(),
            out.len() == keys.len(),
            forall|j: int| 0 <= j < out.len() ==> (#[trigger] out@[j])@ == keys@[j]@,
            out.deep_view() == sorted_names(all.take(i as int), descending),
        decreases names.len() - i,
    {
        let name = names[i].clone();
        let key = to_chars(name.as_str());
        let mut k: usize = out.len();
        while k > 0 && !may_stand_before(&keys[k - 1], &key, descending)
            invariant
                k <= out.len(),
                out.len() == keys.len(),
                key@ == name@,
                forall|j: int| 0 <= j < out.len() ==> (#[trigger] out@[j])@ == keys@[j]@,
                forall|j: int|
                    k <= j < out.len() ==> !in_order((#[trigger] out@[j])@, name@, descending),
            decreases k,
        {
            k -= 1;
        }
        let ghost before = out;
        out.insert(k, name);
        keys.insert(k, key);
        proof {
            let b = before.deep_view();
            assert(b.len() == before@.len());
            assert forall|j: int| k <= j < b.len() implies !in_order(
                #[trigger] b[j],
                name@,
                descending,
            ) by {
                assert(b[j] == before@[j]@);
            }
            if k > 0 {
                assert(b[k - 1] == before@[k - 1]@);
            }
            lemma_insert_name_at(b, name@, descending, k as int);
            assert(out.deep_view() =~= b.insert(k as int, name@)) by {
                assert forall|j: int| 0 <= j < out@.len() implies out.deep_view()[j] == b.insert(
                    k as int,
                    name@,
                )[j] by {
                    if j < k {
                        assert(out@[j] == before@[j]);
                        assert(b[j] == before@[j]@);
                    } else if j > k {
                        assert(out@[j] == before@[j - 1]);
                        assert(b[j - 1] == before@[j - 1]@);
                    }
                }
            }
            assert(all.take(i + 1).drop_last() =~= all.take(i as int));
            assert(all.take(i + 1).last() == name@);
        }
        i += 1;
    }
    proof {
        assert(all.take(names.len() as int) =~= all);
    }
    out
}

/// The character that writes the digit `d`.
pub open spec fn digit_char(d: int) -> char {
    if d == 0 {
        '0'
    } else if d == 1 {
        '1'
    } else if d == 2 {
        '2'
    } else if d == 3 {
        '3'
    } else if d == 4 {
        '4'
    } else if d == 5 {
        '5'
    } else if d == 6 {
        '6'
    } else if d == 7 {
        '7'
    } else if d == 8 {
        '8'
    } else {
        '9'
    }
}

/// The decimal numeral of `n`: no sign, no leading zero, `"0"` for zero.
pub open spec fn decimal(n: nat) -> Seq<char>
    decreases n,
{
    if n < 10 {
        seq![digit_char(n as int)]
    } else {
        decimal(n / 10).push(digit_char((n % 10) as int))
    }
}

/// Whether `c` is one of the ten digits.
pub open spec fn is_digit(c: char) -> bool {
    c == '0' || c == '1' || c == '2' || c == '3' || c == '4' || c == '5' || c == '6' || c == '7'
        || c == '8' || c == '9'
}

/// A decimal numeral is made of digits, at least one.
pub proof fn lemma_decimal_is_digits(n: nat)
    ensures
        decimal(n).len() >= 1,
        forall|i: int| 0 <= i < decimal(n).len() ==> is_digit(#[trigger] decimal(n)[i]),
    decreases n,
{
    if n >= 10 {
        lemma_decimal_is_digits(n / 10);
    }
}

fn digit(d: u64) -> (c: char)
    requires
        d < 10,
    ensures
        c == digit_char(d as int),
{
    if d == 0 {
        '0'
    } else if d == 1 {
        '1'
    } else if d == 2 {
        '2'
    } else if d == 3 {
        '3'
    } else if d == 4 {
        '4'
    } else if d == 5 {
        '5'
    } else if d == 6 {
        '6'
    } else if d == 7 {
        '7'
    } else if d == 8 {
        '8'
    } else {
        '9'
    }
}

/// Writes `n` in decimal.
pub fn decimal_string(n: u64) -> (out: String)
    ensures
        out@ == decimal(n as nat),
{
    // Digits come out lowest first; they are reversed into `out`.
    let mut rev: Vec<char> = Vec::new();
    let mut rest: u64 = n;
    rev.push(digit(rest % 10));
    rest = rest / 10;
    while rest > 0
        invariant
            rev@.len() >= 1,
            decimal(n as nat) == if rest == 0 {
                rev@.reverse()
            } else {
                decimal(rest as nat) + rev@.reverse()
            },
        decreases rest,
    {
        let ghost before = rev@;
        let ghost r0 = rest;
        rev.push(digit(rest % 10));
        rest = rest / 10;
        proof {
            let d = digit_char((r0 % 10) as int);
            assert(rev@.reverse() =~= seq![d] + before.reverse());
            if r0 < 10 {
                assert(decimal(r0 as nat) =~= seq![d]);
            } else {
                assert(decimal(r0 as nat) =~= decimal((r0 / 10) as nat) + seq![d]);
                assert(decimal(r0 as nat) + before.reverse() =~= decimal((r0 / 10) as nat) + (seq![d]
                    + before.reverse()));
            }
        }
    }
    let mut out = String::new();
    let mut i: usize = rev.len();
    while i > 0
        invariant
            i <= rev.len(),
            out@ == rev@.reverse().take(rev.len() - i),
        decreases i,
    {
        i -= 1;
        out.push(rev[i]);
        proof {
            let r = rev@.reverse();
            assert(r.take(rev.len() - i) =~= r.take(rev.len() - i - 1).push(rev@[i as int]));
        }
    }
    proof {
        assert(rev@.reverse().take(rev.len() as int) =~= rev@.reverse());
    }
    out
}

/// The characters of `s` from `from` up to, not including, `to`.
pub fn slice(s: &Vec<char>, from: usize, to: usize) -> (out: Vec<char>)
    requires
        from <= to <= s.len(),
    ensures
        out@ == s@.subrange(from as int, to as int),
{
    let mut out: Vec<char> = Vec::new();
    let mut i: usize = from;
    while i < to
        invariant
            from <= i <= to,
            to <= s.len(),
            out@ == s@.subrange(from as int, i as int),
        decreases to - i,
    {
        out.push(s[i]);
        i += 1;
        proof {
            assert(out@ =~= s@.subrange(from as int, i as int));
        }
    }
    out
}

/// Whether `c` is white space: one of the characters with the Unicode
/// property White_Space.
pub open spec fn is_space(c: char) -> bool {
    let n = c as u32;
    ||| 0x09 <= n <= 0x0D
    ||| n == 0x20
    ||| n == 0x85
    ||| n == 0xA0
    ||| n == 0x1680
    ||| 0x2000 <= n <= 0x200A
    ||| n == 0x2028
    ||| n == 0x2029
    ||| n == 0x202F
    ||| n == 0x205F
    ||| n == 0x3000
}

/// Whether `c` is white space.
pub fn is_whitespace(c: char) -> (out: bool)
    ensures
        out == is_space(c),
{
    let n: u32 = c as u32;
    (0x09 <= n && n <= 0x0D) || n == 0x20 || n == 0x85 || n == 0xA0 || n == 0x1680 || (0x2000 <= n
        && n <= 0x200A) || n == 0x2028 || n == 0x2029 || n == 0x202F || n == 0x205F || n == 0x3000
}

/// `s` without the white space it begins with.
pub open spec fn trim_start(s: Seq<char>) -> Seq<char>
    decreases s.len(),
{
    if s.len() > 0 && is_space(s[0]) {
        trim_start(s.drop_first())
    } else {
        s
    }
}

/// `s` without the white space it ends with.
pub open spec fn trim_end(s: Seq<char>) -> Seq<char>
    decreases s.len(),
{
    if s.len() > 0 && is_space(s.last()) {
        trim_end(s.drop_last())
    } else {
        s
    }
}

/// `s` without the white space at either end.
pub open spec fn trimmed(s: Seq<char>) -> Seq<char> {
    trim_end(trim_start(s))
}

/// `s` without the white space at either end.
pub fn trim(s: &Vec<char>) -> (out: Vec<char>)
    ensures
        out@ == trimmed(s@),
{
    let n = s.len();
    let mut a: usize = 0;
    proof {
        assert(s@.skip(0) =~= s@);
    }
    while a < n && is_whitespace(s[a])
        invariant
            a <= n,
            n == s.len(),
            trim_start(s@) == trim_start(s@.skip(a as int)),
        decreases n - a,
    {
        proof {
            assert(s@.skip(a as int).drop_first() =~= s@.skip(a + 1));
        }
        a += 1;
    }
    proof {
        assert(trim_start(s@) == s@.skip(a as int));
        assert(s@.skip(a as int) =~= s@.subrange(a as int, n as int));
    }
    let mut b: usize = n;
    while b > a && is_whitespace(s[b - 1])
        invariant
            a <= b <= n,
            n == s.len(),
            trimmed(s@) == trim_end(s@.subrange(a as int, b as int)),
        decreases b,
    {
        proof {
            assert(s@.subrange(a as int, b as int).drop_last() =~= s@.subrange(
                a as int,
                b - 1,
            ));
        }
        b -= 1;
    }
    slice(s, a, b)
}

/// Whether `s` begins with `prefix`.
pub fn starts_with(s: &Vec<char>, prefix: &Vec<char>) -> (out: bool)
    ensures
        out == prefix@.is_prefix_of(s@),
{
    if prefix.len() > s.len() {
        return false;
    }
    let mut i: usize = 0;
    while i < prefix.len()
        invariant
            i <= prefix.len() <= s.len(),
            forall|j: int| 0 <= j < i ==> s[j] == prefix[j],
        decreases prefix.len() - i,
    {
        if s[i] != prefix[i] {
            proof {
                if prefix@.is_prefix_of(s@) {
                    assert(s@.subrange(0, prefix@.len() as int)[i as int] == prefix@[i as int]);
                }
            }
            return false;
        }
        i += 1;
    }
    proof {
        assert(s@.subrange(0, prefix@.len() as int) =~= prefix@);
    }
    true
}

/// Whether `part` stands in `s` from position `i` on.
pub open spec fn occurs_at(s: Seq<char>, part: Seq<char>, i: int) -> bool {
    0 <= i && i + part.len() <= s.len() && s.subrange(i, i + part.len()) == part
}

/// Whether `part` stands somewhere in `s`.
pub open spec fn occurs_in(s: Seq<char>, part: Seq<char>) -> bool {
    exists|i: int| occurs_at(s, part, i)
}

fn matches_at(s: &Vec<char>, part: &Vec<char>, i: usize) -> (out: bool)
    requires
        i + part.len() <= s.len(),
    ensures
        out == occurs_at(s@, part@, i as int),
{
    let mut k: usize = 0;
    while k < part.len()
        invariant
            k <= part.len(),
            i + part.len() <= s.len(),
            forall|j: int| 0 <= j < k ==> s[i + j] == part[j],
        decreases part.len() - k,
    {
        if s[i + k] != part[k] {
            proof {
                if occurs_at(s@, part@, i as int) {
                    assert(s@.subrange(i as int, i + part@.len())[k as int] == part@[k as int]);
                }
            }
            return false;
        }
        k += 1;
    }
    proof {
        assert(s@.subrange(i as int, i + part@.len()) =~= part@);
    }
    true
}

/// Whether `part` stands somewhere in `s`.
pub fn contains(s: &Vec<char>, part: &Vec<char>) -> (out: bool)
    ensures
        out == occurs_in(s@, part@),
{
    if part.len() > s.len() {
        return false;
    }
    let last: usize = s.len() - part.len();
    let mut i: usize = 0;
    while i < last
        invariant
            i <= last,
            last == s.len() - part.len(),
            forall|j: int| 0 <= j < i ==> !occurs_at(s@, part@, j),
        decreases last - i,
    {
        if matches_at(s, part, i) {
            return true;
        }
        i += 1;
    }
    matches_at(s, part, last)
}

/// Where the first line of `s` ends: the position of its first line feed, or
/// the length of `s` where it has none.
pub open spec fn line_end(s: Seq<char>) -> nat
    decreases s.len(),
{
    if s.len() == 0 || s[0] == '\n' {
        0
    } else {
        1 + line_end(s.drop_first())
    }
}

/// `line_end` is the first position that holds a line feed, or the length.
pub proof fn lemma_line_end(s: Seq<char>, k: int)
    requires
        0 <= k <= s.len(),
        forall|j: int| 0 <= j < k ==> s[j] != '\n',
        k < s.len() ==> s[k] == '\n',
    ensures
        line_end(s) == k,
    decreases s.len(),
{
    if s.len() > 0 && k > 0 {
        let rest = s.drop_first();
        assert forall|j: int| 0 <= j < k - 1 implies rest[j] != '\n' by {
            assert(rest[j] == s[j + 1]);
        }
        lemma_line_end(rest, k - 1);
    }
}

/// `line` without the carriage return it ends with, if it ends with one.
pub open spec fn strip_cr(line: Seq<char>) -> Seq<char> {
    if line.len() > 0 && line.last() == '\r' {
        line.drop_last()
    } else {
        line
    }
}

/// The lines of `s`. A line ends at a line feed, which is not part of it, nor
/// is a carriage return right before the line feed. What follows the last line
/// feed is a line too unless it is empty.
pub open spec fn lines_of(s: Seq<char>) -> Seq<Seq<char>>
    decreases s.len(),
{
    if s.len() == 0 {
        Seq::empty()
    } else {
        let k = line_end(s) as int;
        if k >= s.len() {
            seq![s]
        } else {
            seq![strip_cr(s.take(k))] + lines_of(s.skip(k + 1))
        }
    }
}

/// The lines of `s`.
pub fn lines(s: &Vec<char>) -> (out: Vec<Vec<char>>)
    ensures
        out.deep_view() == lines_of(s@),
{
    let n = s.len();
    let mut out: Vec<Vec<char>> = Vec::new();
    let mut start: usize = 0;
    let mut i: usize = 0;
    proof {
        assert(s@.skip(0) =~= s@);
        assert(out.deep_view() =~= Seq::<Seq<char>>::empty());
        assert(Seq::<Seq<char>>::empty() + lines_of(s@) =~= lines_of(s@));
    }
    while i < n
        invariant
            start <= i <= n,
            n == s.len(),
            lines_of(s@) == out.deep_view() + lines_of(s@.skip(start as int)),
            forall|j: int| start <= j < i ==> s[j] != '\n',
        decreases n - i,
    {
        if s[i] == '\n' {
            let end: usize = if i > start && s[i - 1] == '\r' {
                i - 1
            } else {
                i
            };
            let line = slice(s, start, end);
            let ghost before = out;
            out.push(line);
            proof {
                let rest = s@.skip(start as int);
                assert forall|j: int| 0 <= j < i - start implies rest[j] != '\n' by {
                    assert(rest[j] == s[start + j]);
                }
                lemma_line_end(rest, i - start);
                assert(rest.take(i - start) =~= s@.subrange(start as int, i as int));
                assert(strip_cr(rest.take(i - start)) =~= line@);
                assert(rest.skip(i - start + 1) =~= s@.skip(i + 1));
                lemma_deep_view_push_chars(before, out, line);
                assert(lines_of(s@) =~= out.deep_view() + lines_of(s@.skip(i + 1)));
            }
            start = i + 1;
        }
        i += 1;
    }
    if start < n {
        let line = slice(s, start, n);
        let ghost before = out;
        out.push(line);
        proof {
            let rest = s@.skip(start as int);
            assert forall|j: int| 0 <= j < n - start implies rest[j] != '\n' by {
                assert(rest[j] == s[start + j]);
            }
            lemma_line_end(rest, n - start);
            assert(rest =~= line@);
            lemma_deep_view_push_chars(before, out, line);
            assert(lines_of(s@) =~= out.deep_view());
        }
    } else {
        proof {
            assert(lines_of(s@) =~= out.deep_view());
        }
    }
    out
}

/// Where the first field of `s` ends: the position of its first separator, or
/// the length of `s` where it has none.
pub open spec fn field_end(s: Seq<char>, sep: char) -> nat
    decreases s.len(),
{
    if s.len() == 0 || s[0] == sep {
        0
    } else {
        1 + field_end(s.drop_first(), sep)
    }
}

/// `field_end` is the first position that holds the separator, or the length.
pub proof fn lemma_field_end(s: Seq<char>, sep: char, k: int)
    requires
        0 <= k <= s.len(),
        forall|j: int| 0 <= j < k ==> s[j] != sep,
        k < s.len() ==> s[k] == sep,
    ensures
        field_end(s, sep) == k,
    decreases s.len(),
{
    if s.len() > 0 && k > 0 {
        let rest = s.drop_first();
        assert forall|j: int| 0 <= j < k - 1 implies rest[j] != sep by {
            assert(rest[j] == s[j + 1]);
        }
        lemma_field_end(rest, sep, k - 1);
    }
}

/// The fields of `s`: what stands between its separators, before the first
/// and after the last. There is always at least one field.
pub open spec fn fields_of(s: Seq<char>, sep: char) -> Seq<Seq<char>>
    decreases s.len(),
{
    let k = field_end(s, sep) as int;
    if k >= s.len() {
        seq![s]
    } else {
        seq![s.take(k)] + fields_of(s.skip(k + 1), sep)
    }
}

/// The fields of `s`.
pub fn split(s: &Vec<char>, sep: char) -> (out: Vec<Vec<char>>)
    ensures
        out.deep_view() == fields_of(s@, sep),
{
    let n = s.len();
    let mut out: Vec<Vec<char>> = Vec::new();
    let mut start: usize = 0;
    let mut i: usize = 0;
    proof {
        assert(s@.skip(0) =~= s@);
        assert(out.deep_view() =~= Seq::<Seq<char>>::empty());
        assert(Seq::<Seq<char>>::empty() + fields_of(s@, sep) =~= fields_of(s@, sep));
    }
    while i < n
        invariant
            start <= i <= n,
            n == s.len(),
            fields_of(s@, sep) == out.deep_view() + fields_of(s@.skip(start as int), sep),
            forall|j: int| start <= j < i ==> s[j] != sep,
        decreases n - i,
    {
        if s[i] == sep {
            let field = slice(s, start, i);
            let ghost before = out;
            out.push(field);
            proof {
                let rest = s@.skip(start as int);
                assert forall|j: int| 0 <= j < i - start implies rest[j] != sep by {
                    assert(rest[j] == s[start + j]);
                }
                lemma_field_end(rest, sep, i - start);
                assert(rest.take(i - start) =~= field@);
                assert(rest.skip(i - start + 1) =~= s@.skip(i + 1));
                lemma_deep_view_push_chars(before, out, field);
                assert(fields_of(s@, sep) =~= out.deep_view() + fields_of(s@.skip(i + 1), sep));
            }
            start = i + 1;
        }
        i += 1;
    }
    let field = slice(s, start, n);
    let ghost before = out;
    out.push(field);
    proof {
        let rest = s@.skip(start as int);
        assert forall|j: int| 0 <= j < n - start implies rest[j] != sep by {
            assert(rest[j] == s[start + j]);
        }
        lemma_field_end(rest, sep, n - start);
        assert(rest =~= field@);
        lemma_deep_view_push_chars(before, out, field);
        assert(fields_of(s@, sep) =~= out.deep_view());
    }
    out
}

/// Pushing a line onto a vector of lines pushes it onto the vector's view.
pub proof fn lemma_deep_view_push_chars(before: Vec<Vec<char>>, after: Vec<Vec<char>>, line: Vec<char>)
    requires
        after@ == before@.push(line),
    ensures
        after.deep_view() == before.deep_view().push(line@),
{
    assert(after.deep_view() =~= before.deep_view().push(line@)) by {
        assert forall|j: int| 0 <= j < after@.len() implies after.deep_view()[j]
            == before.deep_view().push(line@)[j] by {
            if j < before@.len() {
                assert(after@[j] == before@[j]);
                assert(before.deep_view()[j] =~= before@[j].deep_view());
            } else {
                assert(after@[j].deep_view() =~= line@);
            }
        }
    }
}

/// The lines in a row, with a line feed between each two.
pub open spec fn joined(lines: Seq<Seq<char>>) -> Seq<char>
    decreases lines.len(),
{
    if lines.len() == 0 {
        Seq::empty()
    } else if lines.len() == 1 {
        lines[0]
    } else {
        joined(lines.drop_last()) + seq!['\n'] + lines.last()
    }
}

/// The lines in a row, with a line feed between each two.
pub fn join_lines(lines: &Vec<Vec<char>>) -> (out: Vec<char>)
    ensures
        out@ == joined(lines.deep_view()),
{
    let ghost all = lines.deep_view();
    let mut out: Vec<char> = Vec::new();
    let mut i: usize = 0;
    proof {
        assert(all.take(0) =~= Seq::<Seq<char>>::empty());
    }
    while i < lines.len()
        invariant
            i <= lines.len(),
            all == lines.deep_view(),
            out@ == joined(all.take(i as int)),
        decreases lines.len() - i,
    {
        let ghost before = out@;
        if i > 0 {
            out.push('\n');
        }
        let line = &lines[i];
        let mut k: usize = 0;
        let ghost head = out@;
        while k < line.len()
            invariant
                k <= line.len(),
                out@ == head + line@.take(k as int),
            decreases line.len() - k,
        {
            out.push(line[k]);
            k += 1;
            proof {
                assert(out@ =~= head + line@.take(k as int));
            }
        }
        proof {
            assert(line@.take(line.len() as int) =~= line@);
            assert(all[i as int] =~= line@);
            assert(all.take(i + 1).drop_last() =~= all.take(i as int));
            assert(all.take(i + 1).last() == all[i as int]);
            if i == 0 {
                assert(before =~= Seq::<char>::empty());
                assert(out@ =~= line@);
                assert(all.take(1)[0] == all[0]);
            } else {
                assert(head =~= before + seq!['\n']);
            }
        }
        i += 1;
    }
    proof {
        assert(all.take(lines.len() as int) =~= all);
    }
    out
}

} // verus!
