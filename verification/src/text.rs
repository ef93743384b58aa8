//! Small text primitives shared by the log, manifest and screen writers.

use vstd::prelude::*;

verus! {

/// The numeral of a single decimal digit, as a text of one character.
pub open spec fn digit_text(d: int) -> Seq<char> {
    "0123456789"@.subrange(d, d + 1)
}

/// The decimal numeral of a natural number, without leading zeros.
pub open spec fn numeral(n: nat) -> Seq<char>
    decreases n,
{
    if n < 10 {
        digit_text(n as int)
    } else {
        numeral(n / 10) + digit_text((n % 10) as int)
    }
}

/// The decimal form of an integer: a minus sign for negative numbers, then
/// the numeral of its magnitude.
pub open spec fn decimal_text(n: int) -> Seq<char> {
    if n < 0 {
        "-"@ + numeral((-n) as nat)
    } else {
        numeral(n as nat)
    }
}

/// Whether two texts hold the same characters.
pub fn same(a: &str, b: &str) -> (r: bool)
    ensures
        r == (a@ == b@),
{
    a.to_owned() == b.to_owned()
}

/// Whether a text comes before another in the order of their characters.
pub open spec fn comes_before(a: Seq<char>, b: Seq<char>) -> bool
    decreases a.len(),
{
    if b.len() == 0 {
        false
    } else if a.len() == 0 {
        true
    } else if a[0] == b[0] {
        comes_before(a.drop_first(), b.drop_first())
    } else {
        a[0] < b[0]
    }
}

/// Whether a text comes before another in the order of their characters.
pub fn precedes(a: &str, b: &str) -> (r: bool)
    ensures
        r == comes_before(a@, b@),
{
    let n: usize = a.unicode_len();
    let m: usize = b.unicode_len();
    let mut i: usize = 0;
    assert(a@.skip(0) =~= a@);
    assert(b@.skip(0) =~= b@);
    while i < n && i < m
        invariant
            i <= n,
            i <= m,
            n == a@.len(),
            m == b@.len(),
            comes_before(a@, b@) == comes_before(a@.skip(i as int), b@.skip(i as int)),
        decreases n - i,
    {
        let x = a.get_char(i);
        let y = b.get_char(i);
        assert(a@.skip(i as int).drop_first() =~= a@.skip(i + 1));
        assert(b@.skip(i as int).drop_first() =~= b@.skip(i + 1));
        if x != y {
            return x < y;
        }
        i = i + 1;
    }
    i < m
}

/// The order of texts is strict and total.
pub proof fn lemma_texts_are_ordered(a: Seq<char>, b: Seq<char>)
    ensures
        comes_before(a, b) ==> a != b && !comes_before(b, a),
        comes_before(a, b) || comes_before(b, a) || a == b,
    decreases a.len(),
{
    if a.len() > 0 && b.len() > 0 {
        lemma_texts_are_ordered(a.drop_first(), b.drop_first());
        if a.drop_first() == b.drop_first() && a[0] == b[0] {
            assert(a =~= seq![a[0]] + a.drop_first());
            assert(b =~= seq![b[0]] + b.drop_first());
        }
    } else if a.len() == 0 && b.len() == 0 {
        assert(a =~= b);
    }
}

/// The order of texts is transitive.
pub proof fn lemma_order_is_transitive(a: Seq<char>, b: Seq<char>, c: Seq<char>)
    requires
        comes_before(a, b),
        comes_before(b, c),
    ensures
        comes_before(a, c),
    decreases a.len(),
{
    if a.len() > 0 && a[0] == b[0] && b[0] == c[0] {
        lemma_order_is_transitive(a.drop_first(), b.drop_first(), c.drop_first());
    }
}

fn append_numeral(out: &mut String, n: u64)
    ensures
        final(out)@ == old(out)@ + numeral(n as nat),
    decreases n,
{
    proof {
        reveal_strlit("0123456789");
    }
    let d: usize = (n % 10) as usize;
    if n >= 10 {
        append_numeral(out, n / 10);
    }
    out.append("0123456789".substring_char(d, d + 1));
    proof {
        if n >= 10 {
            assert(out@ =~= old(out)@ + (numeral((n / 10) as nat) + digit_text(d as int)));
        }
    }
}

/// Writes an integer in decimal.
pub fn decimal(n: i64) -> (r: String)
    ensures
        r@ == decimal_text(n as int),
{
    let mut out = String::new();
    if n < 0 {
        out.append("-");
        assert(out@ =~= "-"@);
        append_numeral(&mut out, (-(n + 1)) as u64 + 1);
    } else {
        append_numeral(&mut out, n as u64);
        assert(out@ =~= numeral(n as nat));
    }
    out
}

/// Writes a count in decimal.
pub fn decimal_count(n: usize) -> (r: String)
    ensures
        r@ == decimal_text(n as int),
{
    let mut out = String::new();
    append_numeral(&mut out, n as u64);
    assert(out@ =~= numeral(n as nat));
    out
}

/// `n` spaces.
pub open spec fn spaces(n: int) -> Seq<char> {
    Seq::new(if n < 0 { 0 } else { n as nat }, |i: int| ' ')
}

/// `s` filled up on the right with spaces to at least `width` characters.
pub open spec fn left_justified(s: Seq<char>, width: int) -> Seq<char> {
    s + spaces(width - s.len())
}

/// Left-justifies `s` in a column of `width` characters; longer texts are
/// kept whole.
pub fn left_justify(s: &str, width: usize) -> (r: String)
    ensures
        r@ == left_justified(s@, width as int),
{
    let len: usize = s.unicode_len();
    let mut out = s.to_owned();
    let mut i: usize = len;
    assert(out@ =~= s@ + spaces(i - len));
    while i < width
        invariant
            len == s@.len(),
            len <= i,
            i <= width || i == len,
            out@ == s@ + spaces(i - len),
        decreases width - i,
    {
        proof {
            reveal_strlit(" ");
        }
        out.append(" ");
        i = i + 1;
        assert(out@ =~= s@ + spaces(i - len));
    }
    assert(out@ =~= left_justified(s@, width as int));
    out
}

/// Whether a character occurs in a text.
pub fn has_char(s: &str, c: char) -> (r: bool)
    ensures
        r == s@.contains(c),
{
    for x in it: s.chars()
        invariant
            it.seq() == s@,
            forall|i: int| 0 <= i < it.index() ==> s@[i] != c,
    {
        if x == c {
            assert(s@[it.index() as int] == c);
            return true;
        }
    }
    false
}

/// Whether `part` stands in `whole` as a run of consecutive characters.
pub open spec fn occurs_in(part: Seq<char>, whole: Seq<char>) -> bool {
    exists|k: int| 0 <= k <= whole.len() - part.len() && #[trigger] whole.subrange(k, k + part.len()) == part
}

/// Whether `part` occurs in `whole`.
pub fn has_text(whole: &str, part: &str) -> (r: bool)
    ensures
        r == occurs_in(part@, whole@),
{
    let n: usize = whole.unicode_len();
    let m: usize = part.unicode_len();
    if m > n {
        return false;
    }
    let mut k: usize = 0;
    while k <= n - m
        invariant
            n == whole@.len(),
            m == part@.len(),
            m <= n,
            k <= n - m + 1,
            forall|j: int| 0 <= j < k ==> #[trigger] whole@.subrange(j, j + m) != part@,
        decreases n - m + 1 - k,
    {
        if same(whole.substring_char(k, k + m), part) {
            assert(whole@.subrange(k as int, k + m) == part@);
            return true;
        }
        if k == n - m {
            return false;
        }
        k = k + 1;
    }
    false
}

/// Whether `whole` begins with `prefix`.
pub open spec fn begins_with(whole: Seq<char>, prefix: Seq<char>) -> bool {
    prefix.len() <= whole.len() && whole.subrange(0, prefix.len() as int) == prefix
}

/// What follows the first `n` characters.
pub open spec fn after(whole: Seq<char>, n: int) -> Seq<char> {
    whole.subrange(n, whole.len() as int)
}

/// The rest of `whole` behind `prefix`, when it begins with it.
pub fn strip_prefix(whole: &str, prefix: &str) -> (r: Option<String>)
    ensures
        match r {
            Some(rest) => begins_with(whole@, prefix@) && rest@ == after(whole@, prefix@.len() as int),
            None => !begins_with(whole@, prefix@),
        },
{
    let n: usize = whole.unicode_len();
    let m: usize = prefix.unicode_len();
    if m <= n && same(whole.substring_char(0, m), prefix) {
        Some(whole.substring_char(m, n).to_owned())
    } else {
        None
    }
}

/// What `{:?}` prints for a text: the text between double quotes, with the
/// escapes of Rust's string literals.
pub uninterp spec fn quoted_text(s: Seq<char>) -> Seq<char>;

/// Calls `<str as core::fmt::Debug>::fmt` through `format!`. Trusted: the
/// result is determined by the characters of `s` alone.
#[verifier::external_body]
pub(crate) fn quoted(s: &str) -> (r: String)
    ensures
        r@ == quoted_text(s@),
{
    format!("{:?}", s)
}

/// The views of a list of texts.
pub open spec fn texts(v: Seq<String>) -> Seq<Seq<char>> {
    v.map_values(|s: String| s@)
}

/// Copies a list of texts.
pub fn copy_texts(v: &Vec<String>) -> (r: Vec<String>)
    ensures
        texts(r@) == texts(v@),
{
    let r = v.clone();
    assert(texts(r@) =~= texts(v@));
    r
}

/// Whether a text stands in a list of texts.
pub fn list_has(v: &Vec<String>, s: &str) -> (r: bool)
    ensures
        r == texts(v@).contains(s@),
{
    let mut i: usize = 0;
    while i < v.len()
        invariant
            i <= v@.len(),
            forall|j: int| 0 <= j < i ==> v@[j]@ != s@,
        decreases v@.len() - i,
    {
        if same(v[i].as_str(), s) {
            assert(texts(v@)[i as int] == s@);
            return true;
        }
        i = i + 1;
    }
    assert(forall|j: int| 0 <= j < texts(v@).len() ==> texts(v@)[j] == v@[j]@);
    false
}

/// The view of an optional text.
pub open spec fn opt_text(o: Option<String>) -> Option<Seq<char>> {
    match o {
        Some(s) => Some(s@),
        None => None,
    }
}

// ─── Laws ─────────────────────────────────────────────────────────────────────

/// A text is made of decimal digits only.
pub open spec fn all_digits(s: Seq<char>) -> bool {
    forall|i: int| 0 <= i < s.len() ==> '0' <= #[trigger] s[i] <= '9'
}

/// The number that a text of decimal digits says.
pub open spec fn digits_value(s: Seq<char>) -> int
    decreases s.len(),
{
    if s.len() == 0 {
        0
    } else {
        digits_value(s.drop_last()) * 10 + (s.last() as int - '0' as int)
    }
}

/// The number that a text says, with a minus sign before a negative one.
pub open spec fn decimal_value(s: Seq<char>) -> int {
    if s.len() > 0 && s[0] == '-' {
        -digits_value(s.drop_first())
    } else {
        digits_value(s)
    }
}

/// A numeral is made of digits, at least one, has no leading zero unless it is
/// that of zero, and says the number it was made of.
pub proof fn law_numeral_reads_back(n: nat)
    ensures
        numeral(n).len() > 0,
        all_digits(numeral(n)),
        n > 0 ==> numeral(n)[0] != '0',
        digits_value(numeral(n)) == n,
    decreases n,
{
    reveal_strlit("0123456789");
    let d = (n % 10) as int;
    let last = digit_text(d);
    assert(last.len() == 1 && last[0] as int == '0' as int + d);
    assert(last =~= seq![last[0]]);
    if n < 10 {
        assert(numeral(n).drop_last() =~= Seq::<char>::empty());
        assert(digits_value(numeral(n).drop_last()) == 0);
    } else {
        law_numeral_reads_back(n / 10);
        let front = numeral(n / 10);
        assert(numeral(n).drop_last() =~= front);
        assert(numeral(n).last() == last[0]);
        assert(numeral(n)[0] == front[0]);
    }
}

/// What is written in decimal reads back as the same number; so different
/// numbers are written differently.
pub proof fn law_decimal_reads_back(n: int, m: int)
    ensures
        decimal_value(decimal_text(n)) == n,
        decimal_text(n) == decimal_text(m) ==> n == m,
        n >= 0 ==> all_digits(decimal_text(n)),
{
    lemma_decimal_reads_back(n);
    lemma_decimal_reads_back(m);
}

proof fn lemma_decimal_reads_back(n: int)
    ensures
        decimal_value(decimal_text(n)) == n,
        n >= 0 ==> all_digits(decimal_text(n)),
{
    reveal_strlit("-");
    if n < 0 {
        law_numeral_reads_back((-n) as nat);
        assert(decimal_text(n).drop_first() =~= numeral((-n) as nat));
    } else {
        law_numeral_reads_back(n as nat);
        assert('0' <= decimal_text(n)[0]);
    }
}

/// A left-justified text begins with the text itself, goes on with spaces
/// only, and is as wide as the column, or as the text where that is wider.
pub proof fn law_left_justified_fills_its_column(s: Seq<char>, width: int)
    ensures
        ({
            let r = left_justified(s, width);
            &&& r.len() == if s.len() >= width {
                s.len() as int
            } else {
                width
            }
            &&& r.take(s.len() as int) == s
            &&& forall|i: int| s.len() <= i < r.len() ==> #[trigger] r[i] == ' '
        }),
{
    assert(left_justified(s, width).take(s.len() as int) =~= s);
}

/// A text begins with a prefix just if it is the prefix and some rest, and what
/// is left without the prefix is that rest.
pub proof fn law_prefix_and_rest(whole: Seq<char>, prefix: Seq<char>, rest: Seq<char>)
    ensures
        begins_with(prefix + rest, prefix),
        after(prefix + rest, prefix.len() as int) == rest,
        begins_with(whole, prefix) ==> whole == prefix + after(whole, prefix.len() as int),
{
    assert((prefix + rest).subrange(0, prefix.len() as int) =~= prefix);
    assert(after(prefix + rest, prefix.len() as int) =~= rest);
    if begins_with(whole, prefix) {
        assert(whole =~= whole.subrange(0, prefix.len() as int) + after(whole, prefix.len() as int));
    }
}

/// A text occurs in another just if the other is some front, the text, and
/// some end.
pub proof fn law_occurrence_splits_a_text(part: Seq<char>, whole: Seq<char>, front: Seq<char>, end: Seq<char>)
    ensures
        occurs_in(part, front + part + end),
        occurs_in(part, whole) ==> exists|a: Seq<char>, b: Seq<char>| whole == #[trigger] (a + part + b),
{
    let all = front + part + end;
    let k = front.len() as int;
    assert(all.subrange(k, k + part.len()) =~= part);
    if occurs_in(part, whole) {
        let k = choose|k: int|
            0 <= k <= whole.len() - part.len() && #[trigger] whole.subrange(k, k + part.len()) == part;
        let a = whole.subrange(0, k);
        let b = whole.subrange(k + part.len(), whole.len() as int);
        assert(whole =~= a + part + b);
    }
}

/// A list of texts is read text by text, in order.
pub proof fn law_texts_are_read_in_order(v: Seq<String>, i: int)
    ensures
        texts(v).len() == v.len(),
        0 <= i < v.len() ==> texts(v)[i] == v[i]@,
{
}

/// Texts are ordered by the first character in which they differ, and a text
/// comes before every longer one that begins with it.
pub proof fn law_first_difference_orders_texts(
    front: Seq<char>,
    x: char,
    y: char,
    rest: Seq<char>,
    other: Seq<char>,
)
    ensures
        x != y ==> comes_before(front + seq![x] + rest, front + seq![y] + other) == (x < y),
        comes_before(front, front + seq![x] + rest),
        !comes_before(front + seq![x] + rest, front),
    decreases front.len(),
{
    let a = front + seq![x] + rest;
    let b = front + seq![y] + other;
    if front.len() == 0 {
        assert(a[0] == x && b[0] == y);
    } else {
        let shorter = front.drop_first();
        law_first_difference_orders_texts(shorter, x, y, rest, other);
        assert(a[0] == front[0] && b[0] == front[0]);
        assert(a.drop_first() =~= shorter + seq![x] + rest);
        assert(b.drop_first() =~= shorter + seq![y] + other);
    }
}

} // verus!
