//! Character-level text helpers shared by the request validators, the
//! authorization check and the ordering of records by identifier.
use vstd::prelude::*;
use vstd::string::*;

verus! {

/// Lexicographic "strictly less" on character sequences, comparing code points,
/// starting at position `i` (both sequences agree before `i`).
pub open spec fn lex_lt_from(a: Seq<char>, b: Seq<char>, i: int) -> bool
    decreases a.len() - i,
{
    if i < 0 || i >= a.len() {
        0 <= i < b.len()
    } else if i >= b.len() {
        false
    } else if a[i] != b[i] {
        (a[i] as u32) < (b[i] as u32)
    } else {
        lex_lt_from(a, b, i + 1)
    }
}

/// Lexicographic order of strings by code point. For UTF-8 text this is the
/// same order as byte-wise comparison, which is how `str` orders itself.
pub open spec fn lex_lt(a: Seq<char>, b: Seq<char>) -> bool {
    lex_lt_from(a, b, 0)
}

/// `a` is a prefix of `b`.
pub open spec fn is_prefix(a: Seq<char>, b: Seq<char>) -> bool {
    a.len() <= b.len() && b.subrange(0, a.len() as int) =~= a
}

/// The characters of `s`, in order.
pub fn chars_of(s: &str) -> (v: Vec<char>)
    ensures
        v@ == s@,
{
    let n = s.unicode_len();
    let mut v: Vec<char> = Vec::new();
    let mut i: usize = 0;
    while i < n
        invariant
            n as nat == s@.len(),
            i <= n,
            v@ =~= s@.subrange(0, i as int),
        decreases n - i,
    {
        let c = s.get_char(i);
        v.push(c);
        i = i + 1;
    }
    v
}

proof fn lemma_lex_lt_from_irrefl(a: Seq<char>, i: int)
    requires
        0 <= i,
    ensures
        !lex_lt_from(a, a, i),
    decreases a.len() - i,
{
    if i < a.len() {
        lemma_lex_lt_from_irrefl(a, i + 1);
    }
}

proof fn lemma_lex_lt_from_trans(a: Seq<char>, b: Seq<char>, c: Seq<char>, i: int)
    requires
        0 <= i,
        lex_lt_from(a, b, i),
        lex_lt_from(b, c, i),
    ensures
        lex_lt_from(a, c, i),
    decreases a.len() - i,
{
    if i < a.len() && i < b.len() && i < c.len() && a[i] == b[i] && b[i] == c[i] {
        lemma_lex_lt_from_trans(a, b, c, i + 1);
    }
}

proof fn lemma_lex_lt_from_total(a: Seq<char>, b: Seq<char>, i: int)
    requires
        0 <= i <= a.len(),
        i <= b.len(),
        a.subrange(i, a.len() as int) != b.subrange(i, b.len() as int),
    ensures
        lex_lt_from(a, b, i) || lex_lt_from(b, a, i),
    decreases a.len() - i,
{
    if i < a.len() && i < b.len() && a[i] == b[i] {
        if a.subrange(i + 1, a.len() as int) == b.subrange(i + 1, b.len() as int) {
            assert(a.subrange(i, a.len() as int) =~= seq![a[i]] + a.subrange(i + 1, a.len() as int));
            assert(b.subrange(i, b.len() as int) =~= seq![b[i]] + b.subrange(i + 1, b.len() as int));
        }
        lemma_lex_lt_from_total(a, b, i + 1);
    } else if i < a.len() && i < b.len() {
        vstd::utf8::char_u32_cast(a[i], a[i] as u32);
        vstd::utf8::char_u32_cast(b[i], b[i] as u32);
    } else if i >= a.len() && i >= b.len() {
        assert(a.subrange(i, a.len() as int) =~= Seq::<char>::empty());
        assert(b.subrange(i, b.len() as int) =~= Seq::<char>::empty());
    }
}

/// The code-point order on strings is a strict total order.
pub proof fn lemma_lex_lt_strict_total(a: Seq<char>, b: Seq<char>, c: Seq<char>)
    ensures
        !lex_lt(a, a),
        lex_lt(a, b) && lex_lt(b, c) ==> lex_lt(a, c),
        a != b ==> lex_lt(a, b) || lex_lt(b, a),
        lex_lt(a, b) ==> !lex_lt(b, a),
{
    lemma_lex_lt_from_irrefl(a, 0);
    if lex_lt(a, b) && lex_lt(b, c) {
        lemma_lex_lt_from_trans(a, b, c, 0);
    }
    if lex_lt(a, b) && lex_lt(b, a) {
        lemma_lex_lt_from_trans(a, b, a, 0);
    }
    if a != b {
        assert(a.subrange(0, a.len() as int) =~= a);
        assert(b.subrange(0, b.len() as int) =~= b);
        lemma_lex_lt_from_total(a, b, 0);
    }
}

/// Whether `a` sorts strictly before `b` in code-point order.
pub fn chars_lt(a: &Vec<char>, b: &Vec<char>) -> (r: bool)
    ensures
        r == lex_lt(a@, b@),
{
    let mut i: usize = 0;
    while i < a.len() && i < b.len() && a[i] == b[i]
        invariant
            i <= a.len(),
            i <= b.len(),
            lex_lt(a@, b@) == lex_lt_from(a@, b@, i as int),
        decreases a.len() - i,
    {
        i = i + 1;
    }
    if i >= a.len() {
        i < b.len()
    } else if i >= b.len() {
        false
    } else {
        (a[i] as u32) < (b[i] as u32)
    }
}

/// Whether the characters `a` equal the characters `b`.
pub fn chars_eq(a: &Vec<char>, b: &Vec<char>) -> (r: bool)
    ensures
        r == (a@ == b@),
{
    if a.len() != b.len() {
        return false;
    }
    let mut i: usize = 0;
    while i < a.len()
        invariant
            a.len() == b.len(),
            i <= a.len(),
            forall|j: int| 0 <= j < i ==> a@[j] == b@[j],
        decreases a.len() - i,
    {
        if a[i] != b[i] {
            return false;
        }
        i = i + 1;
    }
    assert(a@ =~= b@);
    true
}

/// Whether the string `s` equals the string `t`.
pub fn str_eq(s: &str, t: &str) -> (r: bool)
    ensures
        r == (s@ == t@),
{
    let a = chars_of(s);
    let b = chars_of(t);
    chars_eq(&a, &b)
}

/// Whether `s` begins with `prefix`.
pub fn starts_with(s: &str, prefix: &str) -> (r: bool)
    ensures
        r == is_prefix(prefix@, s@),
{
    let a = chars_of(s);
    let p = chars_of(prefix);
    if p.len() > a.len() {
        return false;
    }
    let mut i: usize = 0;
    while i < p.len()
        invariant
            a@ == s@,
            p@ == prefix@,
            p.len() <= a.len(),
            i <= p.len(),
            forall|j: int| 0 <= j < i ==> a@[j] == p@[j],
        decreases p.len() - i,
    {
        if a[i] != p[i] {
            assert(a@.subrange(0, p@.len() as int)[i as int] != p@[i as int]);
            return false;
        }
        i = i + 1;
    }
    assert(a@.subrange(0, p@.len() as int) =~= p@);
    true
}

/// Whether the character `c` occurs in `s`.
pub fn contains_char(s: &str, c: char) -> (r: bool)
    ensures
        r == s@.contains(c),
{
    let a = chars_of(s);
    let mut i: usize = 0;
    while i < a.len()
        invariant
            a@ == s@,
            i <= a.len(),
            forall|j: int| 0 <= j < i ==> a@[j] != c,
        decreases a.len() - i,
    {
        if a[i] == c {
            assert(s@[i as int] == c);
            return true;
        }
        i = i + 1;
    }
    false
}

/// `s` with `prefix` removed from its front, when it begins with it.
pub fn strip_prefix<'a>(s: &'a str, prefix: &str) -> (r: Option<&'a str>)
    ensures
        match r {
            Some(t) => is_prefix(prefix@, s@) && t@ == s@.subrange(prefix@.len() as int, s@.len() as int),
            None => !is_prefix(prefix@, s@),
        },
{
    if starts_with(s, prefix) {
        let p = prefix.unicode_len();
        let n = s.unicode_len();
        Some(s.substring_char(p, n))
    } else {
        None
    }
}

/// The lower-case form of a text under Unicode's case mapping, as
/// `str::to_lowercase` computes it.
pub uninterp spec fn lowercase_text(s: Seq<char>) -> Seq<char>;

/// `str::to_lowercase`: the result is named, not spelled out (Unicode's case
/// tables decide it); it depends on the text alone.
#[verifier::external_body]
pub(crate) fn to_lowercase(s: &str) -> (r: String)
    ensures
        r@ == lowercase_text(s@),
{
    s.to_lowercase()
}

/// The upper-case form of a text under Unicode's case mapping, as
/// `str::to_uppercase` computes it.
pub uninterp spec fn uppercase_text(s: Seq<char>) -> Seq<char>;

/// `str::to_uppercase`: the result is named, not spelled out (Unicode's case
/// tables decide it); it depends on the text alone.
#[verifier::external_body]
pub(crate) fn to_uppercase(s: &str) -> (r: String)
    ensures
        r@ == uppercase_text(s@),
{
    s.to_uppercase()
}

/// White space as Unicode's `White_Space` property lists it, which is what
/// `char::is_whitespace` and `str::trim` go by.
pub open spec fn is_white_space(c: char) -> bool {
    let u = c as u32;
    (0x9 <= u && u <= 0xD) || u == 0x20 || u == 0x85 || u == 0xA0 || u == 0x1680 || (0x2000 <= u && u
        <= 0x200A) || u == 0x2028 || u == 0x2029 || u == 0x202F || u == 0x205F || u == 0x3000
}

/// Whether `c` is white space (see [`is_white_space`]).
pub fn white_space(c: char) -> (r: bool)
    ensures
        r == is_white_space(c),
{
    let u = c as u32;
    (0x9 <= u && u <= 0xD) || u == 0x20 || u == 0x85 || u == 0xA0 || u == 0x1680 || (0x2000 <= u && u
        <= 0x200A) || u == 0x2028 || u == 0x2029 || u == 0x202F || u == 0x205F || u == 0x3000
}

/// `i` is the position of the first character of `s` that is not white space.
pub open spec fn first_non_white(s: Seq<char>, i: int) -> bool {
    0 <= i < s.len() && !is_white_space(s[i]) && forall|k: int| 0 <= k < i ==> is_white_space(#[trigger] s[k])
}

/// `j` is the position of the last character of `s` that is not white space.
pub open spec fn last_non_white(s: Seq<char>, j: int) -> bool {
    0 <= j < s.len() && !is_white_space(s[j]) && forall|k: int| j < k < s.len() ==> is_white_space(#[trigger] s[k])
}

/// A text with leading and trailing white space removed: empty when it is all
/// white space, else from its first to its last character that is not.
pub open spec fn trimmed_text(s: Seq<char>) -> Seq<char> {
    if forall|k: int| 0 <= k < s.len() ==> is_white_space(#[trigger] s[k]) {
        Seq::empty()
    } else {
        s.subrange(choose|i: int| first_non_white(s, i), (choose|j: int| last_non_white(s, j)) + 1)
    }
}

/// `s` with leading and trailing white space removed, as `str::trim` does.
pub fn trim(s: &str) -> (r: &str)
    ensures
        r@ == trimmed_text(s@),
{
    let n = s.unicode_len();
    let mut i: usize = 0;
    let mut found = false;
    while i < n && !found
        invariant
            n as nat == s@.len(),
            i <= n,
            forall|k: int| 0 <= k < i ==> is_white_space(#[trigger] s@[k]),
            found ==> i < n && !is_white_space(s@[i as int]),
        decreases (n - i) * 2 + (if found { 0int } else { 1int }),
    {
        if white_space(s.get_char(i)) {
            i = i + 1;
        } else {
            found = true;
        }
    }
    if !found {
        assert(forall|k: int| 0 <= k < s@.len() ==> is_white_space(#[trigger] s@[k]));
        let r = s.substring_char(n, n);
        assert(r@ =~= Seq::<char>::empty());
        return r;
    }
    let mut j: usize = n;
    let mut found_end = false;
    while j > i && !found_end
        invariant
            n as nat == s@.len(),
            i < j <= n,
            !is_white_space(s@[i as int]),
            forall|k: int| j <= k < n ==> is_white_space(#[trigger] s@[k]),
            found_end ==> !is_white_space(s@[j - 1]),
        decreases (j - i) * 2 + (if found_end { 0int } else { 1int }),
    {
        if white_space(s.get_char(j - 1)) {
            j = j - 1;
        } else {
            found_end = true;
        }
    }
    proof {
        let ss = s@;
        assert(first_non_white(ss, i as int));
        assert(last_non_white(ss, j - 1));
        assert(!(forall|k: int| 0 <= k < ss.len() ==> is_white_space(#[trigger] ss[k])));
        let a = choose|x: int| first_non_white(ss, x);
        let b = choose|x: int| last_non_white(ss, x);
        if a < i {
            assert(is_white_space(ss[a]));
        }
        if a > i {
            assert(is_white_space(ss[i as int]));
        }
        if b < j - 1 {
            assert(is_white_space(ss[j - 1]));
        }
        if b > j - 1 {
            assert(is_white_space(ss[b]));
        }
        assert(a == i && b == j - 1);
    }
    s.substring_char(i, j)
}

/// `needle` occurs in `s` as a contiguous part.
pub open spec fn has_part(s: Seq<char>, needle: Seq<char>) -> bool {
    exists|i: int| 0 <= i && i + needle.len() <= s.len() && #[trigger] s.subrange(i, i + needle.len()) == needle
}

/// Whether `needle` occurs in `s`.
pub fn contains_text(s: &str, needle: &str) -> (r: bool)
    ensures
        r == has_part(s@, needle@),
{
    let a = chars_of(s);
    let p = chars_of(needle);
    if p.len() > a.len() {
        assert forall|i: int| 0 <= i && i + p@.len() <= a@.len() implies #[trigger] a@.subrange(i, i + p@.len()) != p@ by {}
        return false;
    }
    let mut i: usize = 0;
    while i <= a.len() - p.len()
        invariant
            a@ == s@,
            p@ == needle@,
            p.len() <= a.len(),
            i <= a.len() - p.len() + 1,
            forall|k: int| 0 <= k < i ==> #[trigger] a@.subrange(k, k + p@.len()) != p@,
        decreases a.len() - i,
    {
        let mut j: usize = 0;
        let mut same = true;
        while j < p.len()
            invariant
                a@ == s@,
                p@ == needle@,
                i + p.len() <= a.len(),
                j <= p.len(),
                same == (forall|q: int| 0 <= q < j ==> a@[i + q] == p@[q]),
            decreases p.len() - j,
        {
            if a[i + j] != p[j] {
                same = false;
            }
            j = j + 1;
        }
        if same {
            assert(a@.subrange(i as int, i + p@.len()) =~= p@);
            return true;
        }
        assert(a@.subrange(i as int, i + p@.len()) != p@) by {
            let q = choose|q: int| 0 <= q < p.len() && a@[i + q] != p@[q];
            assert(a@.subrange(i as int, i + p@.len())[q] == a@[i + q]);
        }
        i = i + 1;
    }
    false
}

/// The texts of a list of strings.
pub open spec fn texts(list: Seq<String>) -> Seq<Seq<char>> {
    list.map_values(|x: String| x@)
}

/// Whether `s` is one of the strings in `list`.
pub fn contains_string(list: &Vec<String>, s: &str) -> (r: bool)
    ensures
        r == texts(list@).contains(s@),
{
    let mut i: usize = 0;
    while i < list.len()
        invariant
            i <= list.len(),
            forall|j: int| 0 <= j < i ==> list@[j]@ != s@,
        decreases list.len() - i,
    {
        if str_eq(list[i].as_str(), s) {
            assert(texts(list@)[i as int] == s@);
            return true;
        }
        i = i + 1;
    }
    assert forall|j: int| 0 <= j < texts(list@).len() implies texts(list@)[j] != s@ by {
        assert(texts(list@)[j] == list@[j]@);
    }
    false
}

/// The decimal digits of a natural number, most significant first.
pub open spec fn digits_of(n: nat) -> Seq<char>
    decreases n,
{
    if n < 10 {
        seq![((n + 48) as u32) as char]
    } else {
        digits_of(n / 10).push((((n % 10) + 48) as u32) as char)
    }
}

/// The decimal text of an integer: digits, with a leading `-` when negative.
pub open spec fn decimal(i: int) -> Seq<char> {
    if i < 0 {
        seq!['-'] + digits_of((-i) as nat)
    } else {
        digits_of(i as nat)
    }
}

/// The text of one decimal digit.
fn digit_text(d: u64) -> (r: &'static str)
    requires
        d < 10,
    ensures
        r@ == seq![((d + 48) as u32) as char],
{
    if d == 0 {
        proof { reveal_strlit("0"); }
        "0"
    } else if d == 1 {
        proof { reveal_strlit("1"); }
        "1"
    } else if d == 2 {
        proof { reveal_strlit("2"); }
        "2"
    } else if d == 3 {
        proof { reveal_strlit("3"); }
        "3"
    } else if d == 4 {
        proof { reveal_strlit("4"); }
        "4"
    } else if d == 5 {
        proof { reveal_strlit("5"); }
        "5"
    } else if d == 6 {
        proof { reveal_strlit("6"); }
        "6"
    } else if d == 7 {
        proof { reveal_strlit("7"); }
        "7"
    } else if d == 8 {
        proof { reveal_strlit("8"); }
        "8"
    } else {
        proof { reveal_strlit("9"); }
        "9"
    }
}

/// The decimal digits of `n`, most significant first.
fn u64_digits(n: u64) -> (r: String)
    ensures
        r@ == digits_of(n as nat),
{
    let mut m: u64 = n;
    let mut acc = String::new();
    while m >= 10
        invariant
            digits_of(n as nat) == digits_of(m as nat) + acc@,
        decreases m,
    {
        let d = m % 10;
        let piece = String::from_str(digit_text(d));
        let ghost old_acc = acc@;
        acc = piece.concat(acc.as_str());
        proof {
            assert(digits_of(m as nat) == digits_of((m / 10) as nat).push((((m % 10) + 48) as u32) as char));
            assert(digits_of((m / 10) as nat).push((((m % 10) + 48) as u32) as char) + old_acc
                =~= digits_of((m / 10) as nat) + acc@);
        }
        m = m / 10;
    }
    let last = String::from_str(digit_text(m));
    assert(digits_of(m as nat) == seq![((m + 48) as u32) as char]);
    last.concat(acc.as_str())
}

/// The decimal text of `i`, as `i64`'s `Display` writes it.
pub(crate) fn i64_to_decimal(i: i64) -> (r: String)
    ensures
        r@ == decimal(i as int),
{
    if i < 0 {
        let magnitude: u64 = (-(i + 1)) as u64 + 1;
        proof {
            reveal_strlit("-");
            assert(magnitude as int == -(i as int));
        }
        let r = String::from_str("-").concat(u64_digits(magnitude).as_str());
        assert(r@ =~= seq!['-'] + digits_of((-(i as int)) as nat));
        r
    } else {
        u64_digits(i as u64)
    }
}

/// The decimal text of `n`, as `usize`'s `Display` writes it.
pub(crate) fn usize_to_decimal(n: usize) -> (r: String)
    ensures
        r@ == decimal(n as int),
{
    u64_digits(n as u64)
}

} // verus!
