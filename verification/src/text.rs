//! Character-level helpers on strings.

use vstd::prelude::*;
use vstd::string::*;
use vstd::utf8::*;

verus! {

/// The decimal digit `d` as a character.
pub open spec fn digit_char(d: nat) -> char {
    if d == 0 {
        '0'
    } else if d == 1 {
        '1'
    } else if d == 2 {
        '2'
    } else if d == 3 {
        '3'
    } else if d == 4 {
        '4'
    } else if d == 5 {
        '5'
    } else if d == 6 {
        '6'
    } else if d == 7 {
        '7'
    } else if d == 8 {
        '8'
    } else {
        '9'
    }
}

/// Whether `a` comes before `b` in the order of their characters.
pub open spec fn lex_less(a: Seq<char>, b: Seq<char>) -> bool
    decreases b.len(),
{
    if b.len() == 0 {
        false
    } else if a.len() == 0 {
        true
    } else if a[0] == b[0] {
        lex_less(a.skip(1), b.skip(1))
    } else {
        a[0] < b[0]
    }
}

pub(crate) proof fn lemma_lex_less_transitive(a: Seq<char>, b: Seq<char>, c: Seq<char>)
    requires
        lex_less(a, b),
        lex_less(b, c),
    ensures
        lex_less(a, c),
    decreases c.len(),
{
    if a.len() > 0 && a[0] == b[0] && b[0] == c[0] {
        lemma_lex_less_transitive(a.skip(1), b.skip(1), c.skip(1));
    }
}

pub(crate) proof fn lemma_lex_less_total(a: Seq<char>, b: Seq<char>)
    requires
        a != b,
    ensures
        lex_less(a, b) || lex_less(b, a),
    decreases a.len(),
{
    if a.len() > 0 && b.len() > 0 && a[0] == b[0] {
        if a.skip(1) == b.skip(1) {
            assert(a =~= seq![a[0]] + a.skip(1));
            assert(b =~= seq![b[0]] + b.skip(1));
        }
        lemma_lex_less_total(a.skip(1), b.skip(1));
    } else if a.len() == 0 && b.len() == 0 {
        assert(a =~= b);
    }
}

/// The characters of a string.
pub fn characters(s: &str) -> (r: Vec<char>)
    ensures
        r@ == s@,
{
    let mut out: Vec<char> = Vec::new();
    for c in iter: s.chars()
        invariant
            out@ == s@.take(iter.index() as int),
            iter.seq() == s@,
    {
        out.push(c);
        proof {
            assert(out@ =~= s@.take(iter.index() + 1));
        }
    }
    proof {
        assert(s@.take(s@.len() as int) =~= s@);
    }
    out
}

fn char_less(a: char, b: char) -> (r: bool)
    ensures
        r == (a < b),
{
    (a as u32) < (b as u32)
}

/// Whether `a` comes before `b` in the order of their characters.
pub fn str_less(a: &str, b: &str) -> (r: bool)
    ensures
        r == lex_less(a@, b@),
{
    let x: Vec<char> = characters(a);
    let y: Vec<char> = characters(b);
    let mut i: usize = 0;
    proof {
        assert(x@.skip(0) =~= x@);
        assert(y@.skip(0) =~= y@);
    }
    while i < x.len() && i < y.len()
        invariant
            i <= x@.len(),
            i <= y@.len(),
            x@ == a@,
            y@ == b@,
            lex_less(x@, y@) == lex_less(x@.skip(i as int), y@.skip(i as int)),
        decreases x@.len() - i,
    {
        proof {
            assert(x@.skip(i as int)[0] == x@[i as int]);
            assert(y@.skip(i as int)[0] == y@[i as int]);
        }
        if x[i] != y[i] {
            return char_less(x[i], y[i]);
        }
        proof {
            assert(x@.skip(i as int).skip(1) =~= x@.skip(i + 1));
            assert(y@.skip(i as int).skip(1) =~= y@.skip(i + 1));
        }
        i = i + 1;
    }
    i < y.len()
}

/// The decimal representation of `n`, most significant digit first.
pub open spec fn decimal(n: nat) -> Seq<char>
    decreases n,
{
    if n < 10 {
        seq![digit_char(n)]
    } else {
        decimal(n / 10).push(digit_char(n % 10))
    }
}

/// Whether `s` starts with `prefix`.
pub open spec fn has_prefix(s: Seq<char>, prefix: Seq<char>) -> bool {
    s.len() >= prefix.len() && s.subrange(0, prefix.len() as int) == prefix
}

/// What follows `prefix` in a string that starts with it.
pub open spec fn after_prefix(s: Seq<char>, prefix: Seq<char>) -> Seq<char> {
    s.subrange(prefix.len() as int, s.len() as int)
}

/// `String::push` appends one character to the end of the string.
pub assume_specification[ String::push ](s: &mut String, c: char)
    ensures
        final(s)@ == old(s)@.push(c),
;

/// Whether two strings hold the same characters.
pub fn str_eq(a: &str, b: &str) -> (r: bool)
    ensures
        r == (a@ == b@),
{
    let x = a.as_bytes();
    let y = b.as_bytes();
    proof {
        encode_utf8_decode_utf8(a@);
        encode_utf8_decode_utf8(b@);
    }
    if x.len() != y.len() {
        return false;
    }
    let mut i: usize = 0;
    while i < x.len()
        invariant
            i <= x.len(),
            x.len() == y.len(),
            x@ == encode_utf8(a@),
            y@ == encode_utf8(b@),
            forall|j: int| 0 <= j < i ==> x@[j] == y@[j],
        decreases x.len() - i,
    {
        if x[i] != y[i] {
            return false;
        }
        i = i + 1;
    }
    proof {
        assert(x@ =~= y@);
    }
    true
}

/// Whether `s` starts with `prefix`.
pub fn starts_with(s: &str, prefix: &str) -> (r: bool)
    ensures
        r == has_prefix(s@, prefix@),
{
    let n: usize = prefix.unicode_len();
    if s.unicode_len() < n {
        return false;
    }
    str_eq(s.substring_char(0, n), prefix)
}

/// The part of `s` after `prefix`, when `s` starts with it.
pub fn strip_prefix<'a>(s: &'a str, prefix: &str) -> (r: Option<&'a str>)
    ensures
        r is Some <==> has_prefix(s@, prefix@),
        r matches Some(rest) ==> rest@ == after_prefix(s@, prefix@),
{
    if starts_with(s, prefix) {
        let n: usize = prefix.unicode_len();
        let total: usize = s.unicode_len();
        Some(s.substring_char(n, total))
    } else {
        None
    }
}

/// `a` followed by `b`.
pub fn join(a: &str, b: &str) -> (r: String)
    ensures
        r@ == a@ + b@,
{
    a.to_owned().concat(b)
}

/// The character of a decimal digit.
fn digit(d: u64) -> (c: char)
    requires
        d < 10,
    ensures
        c == digit_char(d as nat),
{
    match d {
        0 => '0',
        1 => '1',
        2 => '2',
        3 => '3',
        4 => '4',
        5 => '5',
        6 => '6',
        7 => '7',
        8 => '8',
        _ => '9',
    }
}

/// The decimal representation of `n`.
pub fn decimal_string(n: u64) -> (r: String)
    ensures
        r@ == decimal(n as nat),
    decreases n,
{
    let mut r: String = String::new();
    if n >= 10 {
        r = decimal_string(n / 10);
    }
    r.push(digit(n % 10));
    proof {
        assert(r@ =~= decimal(n as nat));
    }
    r
}

/// The value that a decimal representation stands for.
pub open spec fn decimal_value(s: Seq<char>) -> nat
    decreases s.len(),
{
    if s.len() == 0 {
        0
    } else {
        decimal_value(s.drop_last()) * 10 + digit_value(s.last())
    }
}

/// The value of a decimal digit's character.
pub open spec fn digit_value(c: char) -> nat {
    if '0' <= c <= '9' {
        (c as int - '0' as int) as nat
    } else {
        0
    }
}

/// Reading a decimal representation back gives the number it was made from.
pub proof fn law_decimal_reads_back(n: nat)
    ensures
        decimal_value(decimal(n)) == n,
    decreases n,
{
    if n < 10 {
        assert(decimal(n).drop_last() =~= Seq::<char>::empty());
        assert(decimal_value(decimal(n).drop_last()) == 0);
    } else {
        law_decimal_reads_back(n / 10);
        assert(decimal(n).drop_last() =~= decimal(n / 10));
    }
}

/// A string made of a prefix and a rest starts with the prefix, and the rest
/// is what follows it.
pub proof fn law_prefix_splits(prefix: Seq<char>, rest: Seq<char>)
    ensures
        has_prefix(prefix + rest, prefix),
        after_prefix(prefix + rest, prefix) == rest,
{
    assert((prefix + rest).subrange(0, prefix.len() as int) =~= prefix);
    assert(after_prefix(prefix + rest, prefix) =~= rest);
}

// ── Blank space ─────────────────────────────────────────────────────────────

/// Whether a character is blank space, as Unicode has it.
pub open spec fn white_space(c: char) -> bool {
    let n = c as u32;
    ||| 0x9 <= n <= 0xd
    ||| n == 0x20
    ||| n == 0x85
    ||| n == 0xa0
    ||| n == 0x1680
    ||| 0x2000 <= n <= 0x200a
    ||| n == 0x2028
    ||| n == 0x2029
    ||| n == 0x202f
    ||| n == 0x205f
    ||| n == 0x3000
}

/// Whether a text holds nothing but blank space.
pub open spec fn blank(s: Seq<char>) -> bool {
    forall|i: int| 0 <= i < s.len() ==> white_space(#[trigger] s[i])
}

/// A text without the blank space before it.
pub open spec fn without_leading_blanks(s: Seq<char>) -> Seq<char>
    decreases s.len(),
{
    if s.len() > 0 && white_space(s[0]) {
        without_leading_blanks(s.skip(1))
    } else {
        s
    }
}

/// A text without the blank space behind it.
pub open spec fn without_trailing_blanks(s: Seq<char>) -> Seq<char>
    decreases s.len(),
{
    if s.len() > 0 && white_space(s.last()) {
        without_trailing_blanks(s.drop_last())
    } else {
        s
    }
}

/// A text without the blank space around it.
pub open spec fn trimmed(s: Seq<char>) -> Seq<char> {
    without_trailing_blanks(without_leading_blanks(s))
}

fn is_white_space(c: char) -> (r: bool)
    ensures
        r == white_space(c),
{
    let n: u32 = c as u32;
    (0x9 <= n && n <= 0xd) || n == 0x20 || n == 0x85 || n == 0xa0 || n == 0x1680 || (0x2000 <= n
        && n <= 0x200a) || n == 0x2028 || n == 0x2029 || n == 0x202f || n == 0x205f || n == 0x3000
}

/// Whether a text holds nothing but blank space.
pub fn is_blank(s: &str) -> (r: bool)
    ensures
        r == blank(s@),
{
    let chars: Vec<char> = characters(s);
    let mut i: usize = 0;
    while i < chars.len()
        invariant
            i <= chars@.len(),
            chars@ == s@,
            forall|j: int| 0 <= j < i ==> white_space(#[trigger] s@[j]),
        decreases chars@.len() - i,
    {
        if !is_white_space(chars[i]) {
            return false;
        }
        i = i + 1;
    }
    true
}

/// A text without the blank space around it.
pub fn trim(s: &str) -> (r: &str)
    ensures
        r@ == trimmed(s@),
{
    let chars: Vec<char> = characters(s);
    let mut from: usize = 0;
    proof {
        assert(s@.skip(0) =~= s@);
    }
    while from < chars.len() && is_white_space(chars[from])
        invariant
            from <= chars@.len(),
            chars@ == s@,
            without_leading_blanks(s@) == without_leading_blanks(s@.skip(from as int)),
        decreases chars@.len() - from,
    {
        proof {
            assert(s@.skip(from as int).skip(1) =~= s@.skip(from + 1));
        }
        from = from + 1;
    }
    let ghost lead = s@.skip(from as int);
    proof {
        assert(without_leading_blanks(s@) == lead);
        assert(lead =~= s@.subrange(from as int, s@.len() as int));
    }
    let mut to: usize = chars.len();
    while to > from && is_white_space(chars[to - 1])
        invariant
            from <= to <= chars@.len(),
            chars@ == s@,
            without_trailing_blanks(lead) == without_trailing_blanks(
                s@.subrange(from as int, to as int),
            ),
        decreases to,
    {
        proof {
            let here = s@.subrange(from as int, to as int);
            assert(here.last() == s@[to - 1]);
            assert(here.drop_last() =~= s@.subrange(from as int, to - 1));
        }
        to = to - 1;
    }
    proof {
        let here = s@.subrange(from as int, to as int);
        if to > from {
            assert(here.last() == s@[to - 1]);
        }
        assert(without_trailing_blanks(here) == here);
    }
    s.substring_char(from, to)
}

/// Trimming leaves no blank space at either end, and leaves nothing exactly of
/// a blank text.
pub proof fn law_trimmed_has_no_blank_ends(s: Seq<char>)
    ensures
        trimmed(s).len() > 0 ==> !white_space(trimmed(s)[0]) && !white_space(trimmed(s).last()),
        trimmed(s).len() == 0 <==> blank(s),
{
    lemma_leading(s);
    lemma_trailing(without_leading_blanks(s));
}

proof fn lemma_leading(s: Seq<char>)
    ensures
        ({
            let t = without_leading_blanks(s);
            &&& t.len() > 0 ==> !white_space(t[0])
            &&& blank(s) <==> t.len() == 0
            &&& blank(s) <==> blank(t)
        }),
    decreases s.len(),
{
    if s.len() > 0 && white_space(s[0]) {
        lemma_leading(s.skip(1));
        let rest = s.skip(1);
        if blank(rest) {
            assert forall|i: int| 0 <= i < s.len() implies white_space(#[trigger] s[i]) by {
                if i > 0 {
                    assert(rest[i - 1] == s[i]);
                }
            }
        }
        if blank(s) {
            assert forall|i: int| 0 <= i < rest.len() implies white_space(#[trigger] rest[i]) by {
                assert(rest[i] == s[i + 1]);
            }
        }
    } else if s.len() > 0 {
        assert(!white_space(s[0]));
    }
}

proof fn lemma_trailing(s: Seq<char>)
    ensures
        ({
            let t = without_trailing_blanks(s);
            &&& t.len() > 0 ==> !white_space(t.last()) && t[0] == s[0]
            &&& t.len() == 0 <==> blank(s)
        }),
    decreases s.len(),
{
    if s.len() > 0 && white_space(s.last()) {
        lemma_trailing(s.drop_last());
        let rest = s.drop_last();
        if blank(rest) {
            assert forall|i: int| 0 <= i < s.len() implies white_space(#[trigger] s[i]) by {
                if i < s.len() - 1 {
                    assert(rest[i] == s[i]);
                }
            }
        }
        if blank(s) {
            assert forall|i: int| 0 <= i < rest.len() implies white_space(#[trigger] rest[i]) by {
                assert(rest[i] == s[i]);
            }
        }
    } else if s.len() > 0 {
        assert(!white_space(s[s.len() - 1]));
    }
}

// ── Optional texts ──────────────────────────────────────────────────────────

/// The characters of an optional text.
pub open spec fn optional(s: Option<String>) -> Option<Seq<char>> {
    match s {
        Some(t) => Some(t@),
        None => None,
    }
}

/// A copy of an optional text.
pub fn copy_optional(s: &Option<String>) -> (r: Option<String>)
    ensures
        r == *s,
{
    match s {
        Some(t) => Some(t.clone()),
        None => None,
    }
}

/// Whether two optional texts are the same.
pub fn optional_eq(a: &Option<String>, b: &Option<String>) -> (r: bool)
    ensures
        r == (optional(*a) == optional(*b)),
{
    match (a, b) {
        (Some(x), Some(y)) => str_eq(x, y),
        (None, None) => true,
        _ => false,
    }
}

// ── ASCII case ──────────────────────────────────────────────────────────────

/// A character with an ASCII capital made small.
pub open spec fn lower(c: char) -> char {
    if 'A' <= c <= 'Z' {
        (c as u32 + 32) as char
    } else {
        c
    }
}

/// Whether two texts are the same but for the case of ASCII letters.
pub open spec fn same_ignoring_case(a: Seq<char>, b: Seq<char>) -> bool {
    a.len() == b.len() && forall|i: int| 0 <= i < a.len() ==> lower(#[trigger] a[i]) == lower(b[i])
}

fn same_lower(a: char, b: char) -> (r: bool)
    ensures
        r == (lower(a) == lower(b)),
{
    let x: u32 = a as u32;
    let y: u32 = b as u32;
    let p: u32 = if 65 <= x && x <= 90 {
        x + 32
    } else {
        x
    };
    let q: u32 = if 65 <= y && y <= 90 {
        y + 32
    } else {
        y
    };
    p == q
}

/// Whether two texts are the same but for the case of ASCII letters.
pub fn eq_ignore_ascii_case(a: &str, b: &str) -> (r: bool)
    ensures
        r == same_ignoring_case(a@, b@),
{
    let x: Vec<char> = characters(a);
    let y: Vec<char> = characters(b);
    if x.len() != y.len() {
        return false;
    }
    let mut i: usize = 0;
    while i < x.len()
        invariant
            i <= x@.len(),
            x@ == a@,
            y@ == b@,
            x@.len() == y@.len(),
            forall|j: int| 0 <= j < i ==> lower(#[trigger] a@[j]) == lower(b@[j]),
        decreases x@.len() - i,
    {
        if !same_lower(x[i], y[i]) {
            return false;
        }
        i = i + 1;
    }
    true
}

// ── Lists of texts ──────────────────────────────────────────────────────────

/// The texts of a list.
pub open spec fn texts(list: Seq<String>) -> Seq<Seq<char>> {
    list.map_values(|s: String| s@)
}

/// Whether a list holds a text.
pub fn list_contains(list: &Vec<String>, s: &str) -> (r: bool)
    ensures
        r == texts(list@).contains(s@),
{
    let mut i: usize = 0;
    while i < list.len()
        invariant
            i <= list@.len(),
            forall|j: int| 0 <= j < i ==> (#[trigger] texts(list@)[j]) != s@,
        decreases list@.len() - i,
    {
        if str_eq(&list[i], s) {
            proof {
                assert(texts(list@)[i as int] == s@);
            }
            return true;
        }
        i = i + 1;
    }
    false
}

/// A trimmed text is the text without blanks at either end: what was cut off is
/// blank, and the rest stands as it stood.
pub proof fn law_trimming_cuts_blanks_alone(s: Seq<char>) -> (ends: (Seq<char>, Seq<char>))
    ensures
        s == ends.0 + trimmed(s) + ends.1,
        blank(ends.0),
        blank(ends.1),
{
    let lead = lemma_cut_leading(s);
    let trail = lemma_cut_trailing(without_leading_blanks(s));
    assert(s =~= lead + trimmed(s) + trail);
    (lead, trail)
}

proof fn lemma_cut_leading(s: Seq<char>) -> (lead: Seq<char>)
    ensures
        s == lead + without_leading_blanks(s),
        blank(lead),
    decreases s.len(),
{
    if s.len() > 0 && white_space(s[0]) {
        let rest = lemma_cut_leading(s.skip(1));
        let lead = seq![s[0]] + rest;
        assert(s =~= seq![s[0]] + s.skip(1));
        assert(s =~= lead + without_leading_blanks(s)) by {
            assert(seq![s[0]] + (rest + without_leading_blanks(s.skip(1))) =~= lead
                + without_leading_blanks(s.skip(1)));
        }
        assert forall|i: int| 0 <= i < lead.len() implies white_space(#[trigger] lead[i]) by {
            if i > 0 {
                assert(lead[i] == rest[i - 1]);
            }
        }
        lead
    } else {
        assert(s =~= Seq::<char>::empty() + s);
        Seq::empty()
    }
}

proof fn lemma_cut_trailing(s: Seq<char>) -> (trail: Seq<char>)
    ensures
        s == without_trailing_blanks(s) + trail,
        blank(trail),
    decreases s.len(),
{
    if s.len() > 0 && white_space(s.last()) {
        let rest = lemma_cut_trailing(s.drop_last());
        let trail = rest.push(s.last());
        assert(s =~= s.drop_last().push(s.last()));
        assert(s =~= without_trailing_blanks(s) + trail) by {
            assert((without_trailing_blanks(s.drop_last()) + rest).push(s.last())
                =~= without_trailing_blanks(s.drop_last()) + trail);
        }
        trail
    } else {
        assert(s =~= s + Seq::<char>::empty());
        Seq::empty()
    }
}

/// Spaces, tabs and line ends are blanks; letters, digits and signs are not.
pub proof fn law_spaces_are_blanks(c: char)
    ensures
        c == ' ' || c == '\t' || c == '\n' || c == '\r' ==> white_space(c),
        '!' <= c <= '~' ==> !white_space(c),
{
}

/// Two texts are compared by their letters whatever their case: a text is like
/// itself, two are like each other both ways, and what is like one text is like
/// every text that is like it. An upper-case letter is like its lower-case one.
pub proof fn law_case_does_not_count(a: Seq<char>, b: Seq<char>, c: Seq<char>)
    ensures
        same_ignoring_case(a, a),
        same_ignoring_case(a, b) == same_ignoring_case(b, a),
        same_ignoring_case(a, b) && same_ignoring_case(b, c) ==> same_ignoring_case(a, c),
        same_ignoring_case(a, b) ==> a.len() == b.len(),
        lower('A') == 'a',
        lower('Z') == 'z',
        forall|x: char| 'a' <= x <= 'z' ==> #[trigger] lower(x) == x,
        forall|x: char| 'A' <= x <= 'Z' ==> (#[trigger] lower(x)) as int == x as int + 32,
        forall|x: char| !('A' <= x <= 'Z') ==> #[trigger] lower(x) == x,
{
    if same_ignoring_case(a, b) {
        assert forall|i: int| 0 <= i < b.len() implies lower(#[trigger] b[i]) == lower(a[i]) by {
            assert(lower(a[i]) == lower(b[i]));
        }
    }
    if same_ignoring_case(b, a) {
        assert forall|i: int| 0 <= i < a.len() implies lower(#[trigger] a[i]) == lower(b[i]) by {
            assert(lower(b[i]) == lower(a[i]));
        }
    }
    if same_ignoring_case(a, b) && same_ignoring_case(b, c) {
        assert forall|i: int| 0 <= i < a.len() implies lower(#[trigger] a[i]) == lower(c[i]) by {
            assert(lower(a[i]) == lower(b[i]));
            assert(lower(b[i]) == lower(c[i]));
        }
    }
}

proof fn lemma_not_before_itself(a: Seq<char>)
    ensures
        !lex_less(a, a),
    decreases a.len(),
{
    if a.len() > 0 {
        lemma_not_before_itself(a.skip(1));
    }
}

/// Texts are in one order: of two different ones exactly one comes first, none
/// comes before itself, and the empty one comes before every other.
pub proof fn law_texts_are_in_one_order(a: Seq<char>, b: Seq<char>)
    ensures
        !lex_less(a, a),
        a != b ==> lex_less(a, b) != lex_less(b, a),
        a.len() > 0 && b.len() > 0 && a[0] < b[0] ==> lex_less(a, b),
        a.len() == 0 && b.len() > 0 ==> lex_less(a, b),
        b.len() == 0 ==> !lex_less(a, b),
    decreases a.len() + b.len(),
{
    lemma_not_before_itself(a);
    if a.len() > 0 && b.len() > 0 && a[0] == b[0] {
        law_texts_are_in_one_order(a.skip(1), b.skip(1));
        if a != b && a.skip(1) == b.skip(1) {
            assert(a =~= seq![a[0]] + a.skip(1));
            assert(b =~= seq![b[0]] + b.skip(1));
        }
    }
    if a.len() == 0 && b.len() == 0 {
        assert(a =~= b);
    }
}

} // verus!
