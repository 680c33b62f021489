//! Text as sequences of characters: comparing, trimming, rendering and
//! splitting, each against a direct statement of its result.

use vstd::prelude::*;
use vstd::string::*;
use vstd::utf8::*;

verus! {

/// The characters that carry the Unicode property `White_Space`.
pub open spec fn white_space(c: char) -> bool {
    ||| 0x9 <= c as int <= 0xd
    ||| c as int == 0x20
    ||| c as int == 0x85
    ||| c as int == 0xa0
    ||| c as int == 0x1680
    ||| 0x2000 <= c as int <= 0x200a
    ||| c as int == 0x2028
    ||| c as int == 0x2029
    ||| c as int == 0x202f
    ||| c as int == 0x205f
    ||| c as int == 0x3000
}

/// Whether `c` is white space.
pub fn is_white_space(c: char) -> (r: bool)
    ensures
        r == white_space(c),
{
    let code: u32 = c as u32;
    (0x9 <= code && code <= 0xd) || code == 0x20 || code == 0x85 || code == 0xa0 || code == 0x1680
        || (0x2000 <= code && code <= 0x200a) || code == 0x2028 || code == 0x2029 || code == 0x202f
        || code == 0x205f || code == 0x3000
}

/// The code point of `c`.
pub fn code_of(c: char) -> (r: u32)
    ensures
        r as int == c as int,
{
    c as u32
}

/// Whether two texts hold the same characters.
pub fn same(a: &str, b: &str) -> (r: bool)
    ensures
        r == (a@ == b@),
{
    let left = a.as_bytes();
    let right = b.as_bytes();
    proof {
        encode_utf8_decode_utf8(a@);
        encode_utf8_decode_utf8(b@);
    }
    if left.len() != right.len() {
        return false;
    }
    let mut i: usize = 0;
    while i < left.len()
        invariant
            i <= left.len(),
            left.len() == right.len(),
            left@ == a.spec_bytes(),
            right@ == b.spec_bytes(),
            forall|j: int| 0 <= j < i ==> left@[j] == right@[j],
        decreases left.len() - i,
    {
        if left[i] != right[i] {
            assert(left@[i as int] != right@[i as int]);
            return false;
        }
        i += 1;
    }
    assert(left@ =~= right@);
    true
}

/// The characters of a text, one by one.
pub fn chars_of(s: &str) -> (r: Vec<char>)
    ensures
        r@ == s@,
{
    let mut out: Vec<char> = Vec::new();
    for c in iter: s.chars()
        invariant
            iter.seq() == s@,
            out@ == s@.take(iter.index() as int),
    {
        out.push(c);
    }
    assert(s@.take(s@.len() as int) =~= s@);
    out
}

/// `s` without the white space it starts with.
pub open spec fn trim_start(s: Seq<char>) -> Seq<char>
    decreases s.len(),
{
    if s.len() > 0 && white_space(s[0]) {
        trim_start(s.subrange(1, s.len() as int))
    } else {
        s
    }
}

/// `s` without the white space it ends with.
pub open spec fn trim_end(s: Seq<char>) -> Seq<char>
    decreases s.len(),
{
    if s.len() > 0 && white_space(s.last()) {
        trim_end(s.drop_last())
    } else {
        s
    }
}

/// `s` without the white space it starts and ends with.
pub open spec fn trimmed(s: Seq<char>) -> Seq<char> {
    trim_end(trim_start(s))
}

/// Every character of `s` is white space.
pub open spec fn blank(s: Seq<char>) -> bool {
    forall|i: int| 0 <= i < s.len() ==> white_space(#[trigger] s[i])
}

/// `s` without the white space it starts and ends with.
pub fn trim(s: &str) -> (r: &str)
    ensures
        r@ == trimmed(s@),
{
    let chars = chars_of(s);
    let n: usize = chars.len();
    let mut from: usize = 0;
    assert(s@.subrange(0, n as int) =~= s@);
    while from < n && is_white_space(chars[from])
        invariant
            from <= n,
            n == s@.len(),
            chars@ == s@,
            trim_start(s@) == trim_start(s@.subrange(from as int, n as int)),
        decreases n - from,
    {
        assert(s@.subrange(from as int, n as int).subrange(1, n - from) =~= s@.subrange(
            from + 1,
            n as int,
        ));
        from += 1;
    }
    assert(trim_start(s@) == s@.subrange(from as int, n as int));
    let mut to: usize = n;
    while to > from && is_white_space(chars[to - 1])
        invariant
            from <= to <= n,
            n == s@.len(),
            chars@ == s@,
            trimmed(s@) == trim_end(s@.subrange(from as int, to as int)),
        decreases to,
    {
        assert(s@.subrange(from as int, to as int).drop_last() =~= s@.subrange(
            from as int,
            to - 1,
        ));
        to -= 1;
    }
    s.substring_char(from, to)
}

/// `s` without the white space it ends with.
pub fn without_trailing_space(s: &str) -> (r: &str)
    ensures
        r@ == trim_end(s@),
{
    let chars = chars_of(s);
    let n: usize = chars.len();
    let mut to: usize = n;
    assert(s@.subrange(0, n as int) =~= s@);
    while to > 0 && is_white_space(chars[to - 1])
        invariant
            to <= n,
            n == s@.len(),
            chars@ == s@,
            trim_end(s@) == trim_end(s@.subrange(0, to as int)),
        decreases to,
    {
        assert(s@.subrange(0, to as int).drop_last() =~= s@.subrange(0, to - 1));
        to -= 1;
    }
    s.substring_char(0, to)
}

/// Whether `s` holds nothing but white space.
pub fn is_blank(s: &str) -> (r: bool)
    ensures
        r == blank(s@),
{
    for c in iter: s.chars()
        invariant
            iter.seq() == s@,
            forall|j: int| 0 <= j < iter.index() ==> white_space(#[trigger] s@[j]),
    {
        if !is_white_space(c) {
            assert(s@[iter.index() as int] == c);
            return false;
        }
    }
    true
}

/// Trimming leaves nothing exactly when there was nothing but white space.
pub proof fn lemma_trimmed_empty_iff_blank(s: Seq<char>)
    ensures
        trimmed(s).len() == 0 <==> blank(s),
{
    lemma_trim_start_blank(s);
    lemma_trim_end_blank(trim_start(s));
}

proof fn lemma_trim_start_blank(s: Seq<char>)
    ensures
        blank(trim_start(s)) == blank(s),
    decreases s.len(),
{
    if s.len() > 0 && white_space(s[0]) {
        let rest = s.subrange(1, s.len() as int);
        lemma_trim_start_blank(rest);
        if blank(rest) {
            assert forall|i: int| 0 <= i < s.len() implies white_space(#[trigger] s[i]) by {
                if i > 0 {
                    assert(rest[i - 1] == s[i]);
                }
            }
        }
        if blank(s) {
            assert forall|i: int| 0 <= i < rest.len() implies white_space(#[trigger] rest[i]) by {
                assert(rest[i] == s[i + 1]);
            }
        }
    }
}

proof fn lemma_trim_end_blank(s: Seq<char>)
    ensures
        trim_end(s).len() == 0 <==> blank(s),
    decreases s.len(),
{
    if s.len() > 0 && white_space(s.last()) {
        let rest = s.drop_last();
        lemma_trim_end_blank(rest);
        if blank(rest) {
            assert forall|i: int| 0 <= i < s.len() implies white_space(#[trigger] s[i]) by {
                if i < s.len() - 1 {
                    assert(rest[i] == s[i]);
                }
            }
        }
    }
}

/// The decimal digit `d` as text.
pub open spec fn digit(d: int) -> char {
    (d + 48) as char
}

/// `n` in decimal, without leading zeros.
pub open spec fn decimal(n: nat) -> Seq<char>
    decreases n,
{
    if n < 10 {
        seq![digit(n as int)]
    } else {
        decimal(n / 10).push(digit((n % 10) as int))
    }
}

fn digit_text(d: u64) -> (r: &'static str)
    requires
        d < 10,
    ensures
        r@ == seq![digit(d as int)],
{
    proof {
        reveal_strlit("0");
        reveal_strlit("1");
        reveal_strlit("2");
        reveal_strlit("3");
        reveal_strlit("4");
        reveal_strlit("5");
        reveal_strlit("6");
        reveal_strlit("7");
        reveal_strlit("8");
        reveal_strlit("9");
    }
    let r = match d {
        0 => "0",
        1 => "1",
        2 => "2",
        3 => "3",
        4 => "4",
        5 => "5",
        6 => "6",
        7 => "7",
        8 => "8",
        _ => "9",
    };
    assert(r@ =~= seq![digit(d as int)]);
    r
}

/// `n` in decimal.
pub fn decimal_text(n: u64) -> (r: String)
    ensures
        r@ == decimal(n as nat),
    decreases n,
{
    if n < 10 {
        digit_text(n).to_owned()
    } else {
        let mut r = decimal_text(n / 10);
        r.append(digit_text(n % 10));
        assert(r@ =~= decimal((n / 10) as nat).push(digit((n % 10) as int)));
        r
    }
}

/// Whether `c` is one of `0` to `9`.
pub open spec fn is_digit(c: char) -> bool {
    48 <= c as int <= 57
}

/// The number that a run of decimal digits writes.
pub open spec fn digits_value(s: Seq<char>) -> nat
    decreases s.len(),
{
    if s.len() == 0 {
        0
    } else {
        (10 * digits_value(s.drop_last()) + (s.last() as int - 48)) as nat
    }
}

/// What follows the `+` that `s` may start with.
pub open spec fn unsigned_body(s: Seq<char>) -> Seq<char> {
    if s.len() > 0 && s[0] == '+' {
        s.subrange(1, s.len() as int)
    } else {
        s
    }
}

/// `s` holds digits and nothing else.
pub open spec fn all_digits(s: Seq<char>) -> bool {
    forall|i: int| 0 <= i < s.len() ==> is_digit(#[trigger] s[i])
}

/// The number that `s` writes as an unsigned decimal: an optional `+`, then at
/// least one digit, and nothing else.
pub open spec fn unsigned_value(s: Seq<char>) -> Option<nat> {
    if unsigned_body(s).len() > 0 && all_digits(unsigned_body(s)) {
        Some(digits_value(unsigned_body(s)))
    } else {
        None
    }
}

proof fn lemma_digits_value_grows(s: Seq<char>, k: int)
    requires
        0 <= k <= s.len(),
        all_digits(s),
    ensures
        digits_value(s.take(k)) <= digits_value(s),
    decreases s.len() - k,
{
    if k < s.len() {
        lemma_digits_value_grows(s, k + 1);
        assert(s.take(k + 1).drop_last() =~= s.take(k));
        assert(is_digit(s[k]));
        assert(s.take(k + 1).last() == s[k]);
    } else {
        assert(s.take(k) =~= s);
    }
}

/// Reads `s` as an unsigned decimal number that fits a `usize`.
pub fn parse_usize(s: &str) -> (r: Option<usize>)
    ensures
        r == (match unsigned_value(s@) {
            Some(v) => if v <= usize::MAX {
                Some(v as usize)
            } else {
                None
            },
            None => None,
        }),
{
    let chars = chars_of(s);
    let n: usize = chars.len();
    let start: usize = if n > 0 && chars[0] == '+' {
        1
    } else {
        0
    };
    let ghost body = unsigned_body(s@);
    assert(body =~= s@.subrange(start as int, n as int));
    if start == n {
        return None;
    }
    let mut k: usize = start;
    while k < n
        invariant
            start <= k <= n,
            n == chars.len(),
            chars@ == s@,
            start < n,
            body == s@.subrange(start as int, n as int),
            body == unsigned_body(s@),
            forall|i: int| 0 <= i < k - start ==> is_digit(#[trigger] body[i]),
        decreases n - k,
    {
        let code: u32 = code_of(chars[k]);
        if code < 48 || code > 57 {
            assert(body[k - start] == chars@[k as int]);
            assert(!all_digits(body));
            return None;
        }
        assert(body[k - start] == chars@[k as int]);
        k += 1;
    }
    let mut value: usize = 0;
    let mut j: usize = start;
    assert(body.take(0).len() == 0);
    while j < n
        invariant
            start <= j <= n,
            n == chars.len(),
            chars@ == s@,
            start < n,
            body == s@.subrange(start as int, n as int),
            unsigned_value(s@) == Some(digits_value(body)),
            all_digits(body),
            value == digits_value(body.take(j - start)),
        decreases n - j,
    {
        assert(body[j - start] == chars@[j as int]);
        assert(is_digit(body[j - start]));
        let d: usize = (code_of(chars[j]) - 48) as usize;
        proof {
            assert(body.take(j - start + 1).drop_last() =~= body.take(j - start));
            assert(body.take(j - start + 1).last() == body[j - start]);
            lemma_digits_value_grows(body, j - start + 1);
        }
        if value > (usize::MAX - d) / 10 {
            return None;
        }
        value = value * 10 + d;
        j += 1;
    }
    assert(body.take(n - start) =~= body);
    Some(value)
}

/// The decimal text of a number means that number.
pub proof fn lemma_decimal_reads_back(n: nat)
    ensures
        unsigned_value(decimal(n)) == Some(n),
        decimal(n).len() > 0,
        all_digits(decimal(n)),
        digits_value(decimal(n)) == n,
    decreases n,
{
    let d = decimal(n);
    if n < 10 {
        assert(digits_value(d.drop_last()) == 0);
        assert(is_digit(d[0]));
    } else {
        lemma_decimal_reads_back(n / 10);
        let head = decimal(n / 10);
        assert(d.drop_last() =~= head);
        assert(d.last() as int - 48 == n % 10);
        assert(10 * (n / 10) + n % 10 == n);
        assert forall|i: int| 0 <= i < d.len() implies is_digit(#[trigger] d[i]) by {
            if i < head.len() {
                assert(is_digit(head[i]));
            }
        }
    }
    assert(d[0] != '+') by {
        assert(is_digit(d[0]));
    }
}

/// `a` comes strictly before `b` in the order of their characters.
pub open spec fn before(a: Seq<char>, b: Seq<char>) -> bool
    decreases a.len(),
{
    if b.len() == 0 {
        false
    } else if a.len() == 0 {
        true
    } else if a[0] != b[0] {
        (a[0] as int) < (b[0] as int)
    } else {
        before(a.subrange(1, a.len() as int), b.subrange(1, b.len() as int))
    }
}

/// Of two different texts one comes before the other, and never both.
pub proof fn lemma_before_total(a: Seq<char>, b: Seq<char>)
    ensures
        a == b <==> !before(a, b) && !before(b, a),
        !(before(a, b) && before(b, a)),
    decreases a.len(),
{
    if a.len() > 0 && b.len() > 0 && a[0] == b[0] {
        let ra = a.subrange(1, a.len() as int);
        let rb = b.subrange(1, b.len() as int);
        lemma_before_total(ra, rb);
        if ra == rb {
            assert(a =~= seq![a[0]] + ra);
            assert(b =~= seq![b[0]] + rb);
        }
    } else if a.len() == 0 && b.len() == 0 {
        assert(a =~= b);
    }
}

/// The order is transitive.
pub proof fn lemma_before_transitive(a: Seq<char>, b: Seq<char>, c: Seq<char>)
    requires
        before(a, b),
        before(b, c),
    ensures
        before(a, c),
    decreases a.len(),
{
    if a.len() > 0 && b.len() > 0 && c.len() > 0 && a[0] == b[0] && b[0] == c[0] {
        lemma_before_transitive(
            a.subrange(1, a.len() as int),
            b.subrange(1, b.len() as int),
            c.subrange(1, c.len() as int),
        );
    }
}

/// Whether `a` comes strictly before `b` in the order of their characters.
pub fn is_before(a: &str, b: &str) -> (r: bool)
    ensures
        r == before(a@, b@),
{
    let left = chars_of(a);
    let right = chars_of(b);
    let mut i: usize = 0;
    assert(a@.subrange(0, a@.len() as int) =~= a@);
    assert(b@.subrange(0, b@.len() as int) =~= b@);
    while i < left.len() && i < right.len()
        invariant
            left@ == a@,
            right@ == b@,
            i <= left.len(),
            i <= right.len(),
            before(a@, b@) == before(
                a@.subrange(i as int, a@.len() as int),
                b@.subrange(i as int, b@.len() as int),
            ),
        decreases left.len() - i,
    {
        let x: u32 = code_of(left[i]);
        let y: u32 = code_of(right[i]);
        assert(a@.subrange(i as int, a@.len() as int)[0] == a@[i as int]);
        assert(b@.subrange(i as int, b@.len() as int)[0] == b@[i as int]);
        if x != y {
            return x < y;
        }
        assert(a@.subrange(i as int, a@.len() as int).subrange(1, a@.len() - i) =~= a@.subrange(
            i + 1,
            a@.len() as int,
        ));
        assert(b@.subrange(i as int, b@.len() as int).subrange(1, b@.len() - i) =~= b@.subrange(
            i + 1,
            b@.len() as int,
        ));
        i += 1;
    }
    i < right.len()
}

/// No text of `s` comes before one that stands earlier.
pub open spec fn in_order(s: Seq<String>) -> bool {
    forall|i: int, j: int| 0 <= i < j < s.len() ==> !before((#[trigger] s[j])@, (#[trigger] s[i])@)
}

/// The texts of `v`, in order.
pub fn sort(v: Vec<String>) -> (r: Vec<String>)
    ensures
        in_order(r@),
        r@.to_multiset() == v@.to_multiset(),
{
    broadcast use vstd::seq_lib::group_to_multiset_ensures;
    let mut out: Vec<String> = Vec::new();
    let n: usize = v.len();
    let mut k: usize = 0;
    assert(v@.take(0) =~= out@);
    while k < n
        invariant
            k <= n,
            n == v.len(),
            in_order(out@),
            out@.to_multiset() == v@.take(k as int).to_multiset(),
        decreases n - k,
    {
        broadcast use vstd::seq_lib::group_to_multiset_ensures;
        let item = v[k].clone();
        let mut at: usize = out.len();
        while at > 0 && is_before(item.as_str(), out[at - 1].as_str())
            invariant
                at <= out.len(),
                forall|j: int| at <= j < out.len() ==> before(item@, (#[trigger] out@[j])@),
            decreases at,
        {
            at -= 1;
        }
        let ghost earlier = out@;
        out.insert(at, item);
        proof {
            assert forall|i: int, j: int| 0 <= i < j < out@.len() implies !before(
                (#[trigger] out@[j])@,
                (#[trigger] out@[i])@,
            ) by {
                if i == at {
                    lemma_before_total(out@[i]@, out@[j]@);
                } else if j == at {
                    if before(out@[j]@, out@[i]@) {
                        // the scan stopped at an item that the new one does not precede
                        if i < at - 1 {
                            assert(!before(earlier[at - 1]@, earlier[i]@));
                            lemma_before_total(earlier[at - 1]@, earlier[i]@);
                            lemma_before_total(item@, earlier[at - 1]@);
                            if earlier[at - 1]@ != earlier[i]@ {
                                lemma_before_transitive(item@, earlier[i]@, earlier[at - 1]@);
                            }
                        }
                        assert(false);
                    }
                } else {
                    let a = if i < at { i } else { i - 1 };
                    let b = if j < at { j } else { j - 1 };
                    assert(out@[i] == earlier[a]);
                    assert(out@[j] == earlier[b]);
                }
            }
            assert(v@.take(k + 1) =~= v@.take(k as int).push(v@[k as int]));
            assert(out@ =~= earlier.insert(at as int, item));
        }
        k += 1;
    }
    assert(v@.take(n as int) =~= v@);
    out
}

/// The views of `v`.
pub open spec fn views(v: Seq<String>) -> Seq<Seq<char>> {
    v.map_values(|s: String| s@)
}

/// That the one text stands no later than the other.
pub open spec fn no_later() -> spec_fn(Seq<char>, Seq<char>) -> bool {
    |a: Seq<char>, b: Seq<char>| !before(b, a)
}

/// `parts`, in order.
pub open spec fn sorted(parts: Seq<Seq<char>>) -> Seq<Seq<char>> {
    parts.sort_by(no_later())
}

proof fn lemma_no_later_orders()
    ensures
        vstd::relations::total_ordering(no_later()),
{
    let leq = no_later();
    assert forall|x: Seq<char>| #[trigger] leq(x, x) by {
        lemma_before_total(x, x);
    }
    assert forall|x: Seq<char>, y: Seq<char>| #[trigger] leq(x, y) && #[trigger] leq(y, x) implies x
        == y by {
        lemma_before_total(x, y);
    }
    assert forall|x: Seq<char>, y: Seq<char>| #[trigger] leq(x, y) || #[trigger] leq(y, x) by {
        lemma_before_total(x, y);
    }
    assert forall|x: Seq<char>, y: Seq<char>, z: Seq<char>| #[trigger]
        leq(x, y) && #[trigger] leq(y, z) implies leq(x, z) by {
        lemma_before_total(x, y);
        lemma_before_total(y, z);
        lemma_before_total(x, z);
        if x != y && y != z {
            lemma_before_transitive(x, y, z);
        }
    }
}

/// Texts that are in order are the only list in order of what they hold.
pub proof fn lemma_in_order_is_sorted(list: Seq<String>, parts: Seq<Seq<char>>)
    requires
        in_order(list),
        views(list).to_multiset() == parts.to_multiset(),
    ensures
        views(list) == sorted(parts),
{
    let leq = no_later();
    lemma_no_later_orders();
    parts.lemma_sort_by_ensures(leq);
    assert forall|i: int, j: int| 0 <= i < j < views(list).len() implies #[trigger] leq(
        views(list)[i],
        views(list)[j],
    ) by {
        assert(views(list)[i] == list[i]@ && views(list)[j] == list[j]@);
    }
    vstd::seq_lib::lemma_sorted_unique(views(list), sorted(parts), leq);
}

/// `parts` with `separator` between each two.
pub open spec fn joined(parts: Seq<Seq<char>>, separator: Seq<char>) -> Seq<char>
    decreases parts.len(),
{
    if parts.len() == 0 {
        seq![]
    } else if parts.len() == 1 {
        parts[0]
    } else {
        joined(parts.drop_last(), separator) + separator + parts.last()
    }
}

/// `parts` with `separator` between each two.
pub fn join(parts: &Vec<String>, separator: &str) -> (r: String)
    ensures
        r@ == joined(views(parts@), separator@),
{
    let mut out = String::new();
    let n: usize = parts.len();
    let mut k: usize = 0;
    let ghost all = views(parts@);
    assert(all.take(0).len() == 0);
    while k < n
        invariant
            k <= n,
            n == parts.len(),
            all == views(parts@),
            out@ == joined(all.take(k as int), separator@),
        decreases n - k,
    {
        assert(all.take(k + 1).drop_last() =~= all.take(k as int));
        assert(all.take(k + 1).last() == parts@[k as int]@);
        if k > 0 {
            out.append(separator);
        }
        out.append(parts[k].as_str());
        proof {
            if k == 0 {
                assert(out@ =~= parts@[0]@);
            }
        }
        k += 1;
    }
    assert(all.take(n as int) =~= all);
    out
}

/// `pattern` stands in `s` from position `i` on.
pub open spec fn occurs_at(s: Seq<char>, pattern: Seq<char>, i: int) -> bool {
    0 <= i <= s.len() - pattern.len() && s.subrange(i, i + pattern.len()) == pattern
}

/// `i` is where `pattern` first stands in `s`.
pub open spec fn first_at(s: Seq<char>, pattern: Seq<char>, i: int) -> bool {
    occurs_at(s, pattern, i) && forall|j: int| 0 <= j < i ==> !occurs_at(s, pattern, j)
}

fn matches_at(s: &Vec<char>, pattern: &Vec<char>, i: usize) -> (r: bool)
    requires
        i <= s.len(),
    ensures
        r == occurs_at(s@, pattern@, i as int),
{
    if pattern.len() > s.len() - i {
        return false;
    }
    let mut k: usize = 0;
    while k < pattern.len()
        invariant
            k <= pattern.len(),
            i <= s.len(),
            pattern.len() <= s.len() - i,
            forall|j: int| 0 <= j < k ==> s@[i + j] == pattern@[j],
        decreases pattern.len() - k,
    {
        if s[i + k] != pattern[k] {
            assert(s@.subrange(i as int, i + pattern.len())[k as int] == s@[i + k]);
            return false;
        }
        k += 1;
    }
    assert(s@.subrange(i as int, i + pattern.len()) =~= pattern@);
    true
}

/// Where `pattern` first stands in `s`, in characters.
pub fn find(s: &str, pattern: &str) -> (r: Option<usize>)
    ensures
        match r {
            Some(i) => first_at(s@, pattern@, i as int),
            None => forall|i: int| !occurs_at(s@, pattern@, i),
        },
{
    let chars = chars_of(s);
    let wanted = chars_of(pattern);
    let n: usize = chars.len();
    let mut i: usize = 0;
    while i <= n
        invariant
            i <= n + 1,
            n == chars.len(),
            chars@ == s@,
            wanted@ == pattern@,
            forall|j: int| 0 <= j < i ==> !occurs_at(s@, pattern@, j),
        decreases n + 1 - i,
    {
        if matches_at(&chars, &wanted, i) {
            return Some(i);
        }
        if i == n {
            assert forall|j: int| !occurs_at(s@, pattern@, j) by {}
            return None;
        }
        i += 1;
    }
    None
}

/// What follows `prefix` in `s`, if `s` starts with it.
pub fn strip_prefix<'a>(s: &'a str, prefix: &str) -> (r: Option<&'a str>)
    ensures
        match r {
            Some(rest) => occurs_at(s@, prefix@, 0) && rest@ == s@.subrange(
                prefix@.len() as int,
                s@.len() as int,
            ),
            None => !occurs_at(s@, prefix@, 0),
        },
{
    let chars = chars_of(s);
    let wanted = chars_of(prefix);
    if matches_at(&chars, &wanted, 0) {
        Some(s.substring_char(wanted.len(), chars.len()))
    } else {
        None
    }
}

/// `line` without the carriage return it may end with.
pub open spec fn without_return(line: Seq<char>) -> Seq<char> {
    if line.len() > 0 && line.last() == '\r' {
        line.drop_last()
    } else {
        line
    }
}

/// Where the first line feed of `s` stands, or its length.
pub open spec fn line_end(s: Seq<char>) -> nat
    decreases s.len(),
{
    if s.len() == 0 || s[0] == '\n' {
        0
    } else {
        1 + line_end(s.subrange(1, s.len() as int))
    }
}

/// The lines of `s`: each ends with a line feed, which the last one may lack,
/// and a carriage return right before the line feed belongs to the ending.
pub open spec fn lines_spec(s: Seq<char>) -> Seq<Seq<char>>
    decreases s.len(),
{
    if s.len() == 0 {
        seq![]
    } else {
        let n = line_end(s) as int;
        if n >= s.len() {
            seq![s]
        } else {
            seq![without_return(s.take(n))] + lines_spec(s.subrange(n + 1, s.len() as int))
        }
    }
}

/// The first line ends inside the text.
pub proof fn lemma_line_end(s: Seq<char>)
    ensures
        line_end(s) <= s.len(),
        forall|i: int| 0 <= i < line_end(s) ==> s[i] != '\n',
        line_end(s) < s.len() ==> s[line_end(s) as int] == '\n',
    decreases s.len(),
{
    if s.len() > 0 && s[0] != '\n' {
        let rest = s.subrange(1, s.len() as int);
        lemma_line_end(rest);
        assert forall|i: int| 0 <= i < line_end(s) implies s[i] != '\n' by {
            if i > 0 {
                assert(s[i] == rest[i - 1]);
            }
        }
    }
}

proof fn lemma_line_end_unique(s: Seq<char>, n: int)
    requires
        0 <= n <= s.len(),
        forall|i: int| 0 <= i < n ==> s[i] != '\n',
        n < s.len() ==> s[n] == '\n',
    ensures
        line_end(s) == n,
{
    lemma_line_end(s);
    let m = line_end(s) as int;
    if m < n {
        assert(s[m] != '\n');
    }
    if n < m {
        assert(s[n] != '\n');
    }
}

/// The lines of `s`.
pub fn lines(s: &str) -> (r: Vec<String>)
    ensures
        views(r@) == lines_spec(s@),
{
    let chars = chars_of(s);
    let n: usize = chars.len();
    let mut out: Vec<String> = Vec::new();
    let mut from: usize = 0;
    proof {
        lemma_line_end(s@);
        assert(s@.subrange(0, n as int) =~= s@);
        assert(views(out@) + lines_spec(s@) =~= lines_spec(s@));
    }
    while from < n
        invariant
            from <= n,
            n == s@.len(),
            chars@ == s@,
            views(out@) + lines_spec(s@.subrange(from as int, n as int)) == lines_spec(s@),
        decreases n - from,
    {
        let ghost rest = s@.subrange(from as int, n as int);
        let ghost earlier = views(out@);
        let mut to: usize = from;
        while to < n && chars[to] != '\n'
            invariant
                from <= to <= n,
                n == s@.len(),
                chars@ == s@,
                forall|i: int| from <= i < to ==> s@[i] != '\n',
            decreases n - to,
        {
            to += 1;
        }
        proof {
            assert forall|i: int| 0 <= i < to - from implies rest[i] != '\n' by {
                assert(rest[i] == s@[from + i]);
            }
            if to < n {
                assert(rest[to - from] == s@[to as int]);
            }
            lemma_line_end_unique(rest, to - from);
            assert(rest.take(to - from) =~= s@.subrange(from as int, to as int));
        }
        if to == n {
            out.push(s.substring_char(from, to).to_owned());
            proof {
                assert(s@.subrange(from as int, n as int) == rest);
                assert(views(out@) =~= earlier.push(rest));
                assert(lines_spec(rest) =~= seq![rest]);
                assert(earlier + seq![rest] =~= earlier.push(rest));
                assert(s@.subrange(n as int, n as int).len() == 0);
                assert(views(out@) + lines_spec(s@.subrange(n as int, n as int)) =~= views(out@));
            }
            from = n;
        } else {
            let end: usize = if to > from && chars[to - 1] == '\r' {
                to - 1
            } else {
                to
            };
            out.push(s.substring_char(from, end).to_owned());
            proof {
                let line = s@.subrange(from as int, to as int);
                assert(without_return(line) =~= s@.subrange(from as int, end as int));
                let after = s@.subrange(to + 1, n as int);
                assert(rest.subrange(to - from + 1, rest.len() as int) =~= after);
                lemma_line_end(rest);
                assert(lines_spec(rest) == seq![without_return(line)] + lines_spec(after));
                assert(views(out@) =~= earlier.push(without_return(line)));
                assert(views(out@) + lines_spec(after) =~= earlier + (seq![without_return(line)]
                    + lines_spec(after)));
            }
            from = to + 1;
        }
    }
    assert(s@.subrange(from as int, n as int).len() == 0);
    assert(views(out@) =~= views(out@) + lines_spec(s@.subrange(from as int, n as int)));
    out
}

proof fn lemma_trim_start(s: Seq<char>) -> (a: int)
    ensures
        0 <= a <= s.len(),
        trim_start(s) == s.skip(a),
        forall|j: int| 0 <= j < a ==> white_space(#[trigger] s[j]),
        a < s.len() ==> !white_space(s[a]),
    decreases s.len(),
{
    if s.len() > 0 && white_space(s[0]) {
        let rest = s.subrange(1, s.len() as int);
        let b = lemma_trim_start(rest);
        assert(rest.skip(b) =~= s.skip(b + 1));
        assert forall|j: int| 0 <= j < b + 1 implies white_space(#[trigger] s[j]) by {
            if j > 0 {
                assert(rest[j - 1] == s[j]);
            }
        }
        b + 1
    } else {
        assert(s.skip(0) =~= s);
        0
    }
}

proof fn lemma_trim_end(s: Seq<char>)
    ensures
        trim_end(s).len() <= s.len(),
        trim_end(s) == s.take(trim_end(s).len() as int),
        forall|j: int| trim_end(s).len() <= j < s.len() ==> white_space(#[trigger] s[j]),
        trim_end(s).len() > 0 ==> !white_space(trim_end(s).last()),
    decreases s.len(),
{
    if s.len() > 0 && white_space(s.last()) {
        let fewer = s.drop_last();
        lemma_trim_end(fewer);
        assert(fewer.take(trim_end(s).len() as int) =~= s.take(trim_end(s).len() as int));
        assert forall|j: int| trim_end(s).len() <= j < s.len() implies white_space(
            #[trigger] s[j],
        ) by {
            if j < fewer.len() {
                assert(fewer[j] == s[j]);
            }
        }
    } else {
        assert(s.take(s.len() as int) =~= s);
    }
}

/// Trimming takes the white space at both ends away and nothing else: what is
/// left stands in the text with only white space around it, and neither begins
/// nor ends with any.
pub proof fn law_trimming_takes_only_the_space_around(s: &str, r: &str)
    requires
        call_ensures(trim, (s,), r),
    ensures
        exists|a: int|
            0 <= a <= s@.len() - r@.len() && #[trigger] s@.subrange(a, a + r@.len()) == r@ && (
            forall|j: int| 0 <= j < a ==> white_space(#[trigger] s@[j])) && (forall|j: int|
                a + r@.len() <= j < s@.len() ==> white_space(#[trigger] s@[j])),
        r@.len() > 0 ==> !white_space(r@[0]) && !white_space(r@.last()),
{
    let a = lemma_trim_start(s@);
    let rest = s@.skip(a);
    lemma_trim_end(rest);
    assert(s@.subrange(a, a + r@.len()) =~= r@);
    assert forall|j: int| a + r@.len() <= j < s@.len() implies white_space(#[trigger] s@[j]) by {
        assert(rest[j - a] == s@[j]);
    }
    if r@.len() > 0 {
        assert(r@[0] == rest[0]);
        assert(rest[0] == s@[a]);
    }
}

/// A text is blank exactly where every character of it is white space, and so
/// exactly where trimming leaves nothing of it.
pub proof fn law_a_blank_text_trims_to_nothing(s: &str, r: bool, left: &str)
    requires
        call_ensures(is_blank, (s,), r),
        call_ensures(trim, (s,), left),
    ensures
        r <==> left@.len() == 0,
        r <==> forall|i: int| 0 <= i < s@.len() ==> white_space(#[trigger] s@[i]),
{
    lemma_trimmed_empty_iff_blank(s@);
}

/// The characters that are white space, one by one.
pub proof fn law_what_is_white_space(c: char, r: bool)
    requires
        call_ensures(is_white_space, (c,), r),
    ensures
        r <==> seq![
            9int,
            10,
            11,
            12,
            13,
            32,
            133,
            160,
            5760,
            8192,
            8193,
            8194,
            8195,
            8196,
            8197,
            8198,
            8199,
            8200,
            8201,
            8202,
            8232,
            8233,
            8239,
            8287,
            12288,
        ].contains(c as int),
{
    let spaces = seq![
        9int,
        10,
        11,
        12,
        13,
        32,
        133,
        160,
        5760,
        8192,
        8193,
        8194,
        8195,
        8196,
        8197,
        8198,
        8199,
        8200,
        8201,
        8202,
        8232,
        8233,
        8239,
        8287,
        12288,
    ];
    if r {
        let code = c as int;
        if code <= 13 {
            assert(spaces[code - 9] == code);
        } else if code == 32 {
            assert(spaces[5] == code);
        } else if code == 133 {
            assert(spaces[6] == code);
        } else if code == 160 {
            assert(spaces[7] == code);
        } else if code == 5760 {
            assert(spaces[8] == code);
        } else if code <= 8202 {
            assert(spaces[9 + (code - 8192)] == code);
        } else if code == 8232 {
            assert(spaces[20] == code);
        } else if code == 8233 {
            assert(spaces[21] == code);
        } else if code == 8239 {
            assert(spaces[22] == code);
        } else if code == 8287 {
            assert(spaces[23] == code);
        } else {
            assert(spaces[24] == code);
        }
    }
}

/// A number is written in decimal digits that mean it, and with no more of them
/// than it takes.
pub proof fn law_a_number_is_written_in_decimal(n: u64, r: String)
    requires
        call_ensures(decimal_text, (n,), r),
    ensures
        r@.len() > 0,
        forall|i: int| 0 <= i < r@.len() ==> 48 <= (#[trigger] r@[i]) as int <= 57,
        digits_value(r@) == n,
        r@.len() > 1 ==> r@[0] as int != 48,
{
    lemma_decimal_reads_back(n as nat);
    lemma_no_leading_zero(n as nat);
    assert forall|i: int| 0 <= i < r@.len() implies 48 <= (#[trigger] r@[i]) as int <= 57 by {
        assert(is_digit(r@[i]));
    }
}

proof fn lemma_no_leading_zero(n: nat)
    ensures
        decimal(n).len() > 0,
        n > 0 ==> decimal(n)[0] as int != 48,
        decimal(n).len() > 1 ==> n > 0,
    decreases n,
{
    if n >= 10 {
        lemma_no_leading_zero(n / 10);
        assert(decimal(n)[0] == decimal(n / 10)[0]);
    }
}

/// Digits mean a number place by place: one more digit at the end makes ten of
/// each before it.
pub proof fn law_each_digit_counts_for_its_place(s: Seq<char>, c: char)
    requires
        48 <= c as int <= 57,
    ensures
        digits_value(s.push(c)) == 10 * digits_value(s) + (c as int - 48),
        digits_value(seq![]) == 0,
{
    assert(s.push(c).drop_last() =~= s);
}

/// A text reads as a number exactly where it is digits, with at most a plus sign
/// before them, and the number fits; it then reads as the number they mean.
pub proof fn law_what_reads_as_a_number(s: &str, r: Option<usize>, body: Seq<char>)
    requires
        call_ensures(parse_usize, (s,), r),
        s@.len() > 0 && s@[0] == '+' ==> body == s@.skip(1),
        !(s@.len() > 0 && s@[0] == '+') ==> body == s@,
    ensures
        r is Some <==> {
            &&& body.len() > 0
            &&& forall|i: int| 0 <= i < body.len() ==> 48 <= (#[trigger] body[i]) as int <= 57
            &&& digits_value(body) <= usize::MAX
        },
        r matches Some(n) ==> n == digits_value(body),
{
    assert(body =~= unsigned_body(s@));
    assert(all_digits(body) <==> forall|i: int|
        0 <= i < body.len() ==> 48 <= (#[trigger] body[i]) as int <= 57) by {
        if all_digits(body) {
            assert forall|i: int| 0 <= i < body.len() implies 48 <= (#[trigger] body[i]) as int
                <= 57 by {
                assert(is_digit(body[i]));
            }
        }
    }
}

/// Texts stand as in a dictionary: the first character in which two differ
/// decides, and a text stands before every longer one that begins with it.
pub proof fn law_texts_stand_as_in_a_dictionary(a: &str, b: &str, r: bool, k: int)
    requires
        call_ensures(is_before, (a, b), r),
        0 <= k <= a@.len(),
        k <= b@.len(),
        forall|i: int| 0 <= i < k ==> #[trigger] a@[i] == b@[i],
        k < a@.len() && k < b@.len() ==> a@[k] != b@[k],
    ensures
        k < a@.len() && k < b@.len() ==> (r <==> (a@[k] as int) < (b@[k] as int)),
        k == a@.len() ==> (r <==> k < b@.len()),
        k < a@.len() && k == b@.len() ==> !r,
{
    lemma_before_at(a@, b@, k);
}

proof fn lemma_before_at(a: Seq<char>, b: Seq<char>, k: int)
    requires
        0 <= k <= a.len(),
        k <= b.len(),
        forall|i: int| 0 <= i < k ==> #[trigger] a[i] == b[i],
        k < a.len() && k < b.len() ==> a[k] != b[k],
    ensures
        k < a.len() && k < b.len() ==> (before(a, b) <==> (a[k] as int) < (b[k] as int)),
        k == a.len() ==> (before(a, b) <==> k < b.len()),
        k < a.len() && k == b.len() ==> !before(a, b),
    decreases k,
{
    if k > 0 {
        let c = a.subrange(1, a.len() as int);
        let d = b.subrange(1, b.len() as int);
        assert(a[0] == b[0]);
        assert forall|i: int| 0 <= i < k - 1 implies #[trigger] c[i] == d[i] by {
            assert(a[i + 1] == b[i + 1]);
        }
        lemma_before_at(c, d, k - 1);
    }
}

/// Joining puts the separator between each two parts and nowhere else: one more
/// part follows the rest after a separator, and the first stands on its own.
pub proof fn law_joining_separates_each_two(parts: Seq<Seq<char>>, last: Seq<char>, by: Seq<char>)
    ensures
        joined(seq![], by).len() == 0,
        joined(seq![last], by) == last,
        parts.len() > 0 ==> joined(parts.push(last), by) == joined(parts, by) + by + last,
{
    assert(parts.push(last).drop_last() =~= parts);
}

/// A text is its lines: what stands before the first line feed is the first of
/// them, without a carriage return at its end, and the rest of the text has the
/// rest; a text without a line feed is one line, and an empty one has none.
pub proof fn law_a_text_is_its_lines(line: Seq<char>, rest: Seq<char>)
    requires
        forall|i: int| 0 <= i < line.len() ==> #[trigger] line[i] != '\n',
    ensures
        lines_spec(line.push('\n') + rest) == seq![
            if line.len() > 0 && line.last() == '\r' {
                line.drop_last()
            } else {
                line
            },
        ] + lines_spec(rest),
        line.len() > 0 ==> lines_spec(line) == seq![line],
        lines_spec(seq![]).len() == 0,
{
    let whole = line.push('\n') + rest;
    let n = line.len() as int;
    assert forall|i: int| 0 <= i < n implies whole[i] != '\n' by {
        assert(whole[i] == line[i]);
    }
    assert(whole[n] == '\n');
    lemma_line_end_unique(whole, n);
    assert(whole.take(n) =~= line);
    assert(whole.subrange(n + 1, whole.len() as int) =~= rest);
    if n > 0 {
        lemma_line_end_unique(line, n);
    }
}

/// What is found is a place where the pattern stands.
pub proof fn law_what_is_found_stands_there(s: &str, pattern: &str, at: usize)
    requires
        call_ensures(find, (s, pattern), Some(at)),
    ensures
        at + pattern@.len() <= s@.len(),
        s@.subrange(at as int, at + pattern@.len()) == pattern@,
{
}

/// A pattern stands where its characters do, one after the other, and the first
/// place is one that none is before.
pub proof fn law_a_pattern_stands_where_its_characters_do(
    s: Seq<char>,
    pattern: Seq<char>,
    i: int,
    first: int,
)
    requires
        0 <= i <= s.len() - pattern.len(),
        first_at(s, pattern, first),
    ensures
        occurs_at(s, pattern, i) <==> forall|k: int|
            0 <= k < pattern.len() ==> s[i + k] == #[trigger] pattern[k],
        occurs_at(s, pattern, i) ==> first <= i,
{
    let part = s.subrange(i, i + pattern.len());
    if forall|k: int| 0 <= k < pattern.len() ==> s[i + k] == #[trigger] pattern[k] {
        assert(part =~= pattern);
    }
    if part == pattern {
        assert forall|k: int| 0 <= k < pattern.len() implies s[i + k] == #[trigger] pattern[k] by {
            assert(part[k] == s[i + k]);
        }
    }
}

/// What stands between two texts stands there.
pub proof fn lemma_stands_between(left: Seq<char>, part: Seq<char>, right: Seq<char>)
    ensures
        occurs_at(left + part + right, part, left.len() as int),
{
    assert((left + part + right).subrange(left.len() as int, (left.len() + part.len()) as int) =~= part);
}

} // verus!
