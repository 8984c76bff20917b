//! Text primitives: characters, trimming, searching, numbers and concatenation.
//!
//! Text is modelled as `Seq<char>`; every executable function here is exact with respect to a
//! specification function on such sequences.
use vstd::prelude::*;
use vstd::string::*;

verus! {

/// `String::push` appends the given character to the end of the string.
pub assume_specification[ String::push ](s: &mut String, c: char)
    ensures
        final(s)@ == old(s)@.push(c),
;

/// The text that `{:?}` prints for a string: quoted, with the escapes of `str`'s `Debug`.
pub uninterp spec fn quoted_text(s: Seq<char>) -> Seq<char>;

/// Formats `s` with `str`'s `Debug` implementation. The contract claims only that the outcome is
/// determined by the characters of `s`.
#[verifier::external_body]
pub(crate) fn quoted(s: &str) -> (r: String)
    ensures
        r@ == quoted_text(s@),
{
    format!("{:?}", s)
}

// ---------------------------------------------------------------------------------------------
// Characters
// ---------------------------------------------------------------------------------------------
/// Characters with the Unicode property `White_Space`.
pub open spec fn is_space_spec(c: char) -> bool {
    let n = c as u32;
    ||| 0x09 <= n <= 0x0d
    ||| n == 0x20
    ||| n == 0x85
    ||| n == 0xa0
    ||| n == 0x1680
    ||| 0x2000 <= n <= 0x200a
    ||| n == 0x2028
    ||| n == 0x2029
    ||| n == 0x202f
    ||| n == 0x205f
    ||| n == 0x3000
}

/// Control characters: the Unicode general category `Cc`.
pub open spec fn is_control_spec(c: char) -> bool {
    let n = c as u32;
    n <= 0x1f || 0x7f <= n <= 0x9f
}

pub open spec fn is_digit_spec(c: char) -> bool {
    0x30 <= (c as u32) <= 0x39
}

pub open spec fn is_upper_spec(c: char) -> bool {
    0x41 <= (c as u32) <= 0x5a
}

pub open spec fn is_alnum_spec(c: char) -> bool {
    is_digit_spec(c) || is_upper_spec(c) || 0x61 <= (c as u32) <= 0x7a
}

pub fn is_space(c: char) -> (r: bool)
    ensures
        r == is_space_spec(c),
{
    let n: u32 = c as u32;
    (0x09 <= n && n <= 0x0d) || n == 0x20 || n == 0x85 || n == 0xa0 || n == 0x1680 || (0x2000 <= n
        && n <= 0x200a) || n == 0x2028 || n == 0x2029 || n == 0x202f || n == 0x205f || n == 0x3000
}

pub fn is_control(c: char) -> (r: bool)
    ensures
        r == is_control_spec(c),
{
    let n: u32 = c as u32;
    n <= 0x1f || (0x7f <= n && n <= 0x9f)
}

pub fn is_digit(c: char) -> (r: bool)
    ensures
        r == is_digit_spec(c),
{
    let n: u32 = c as u32;
    0x30 <= n && n <= 0x39
}

pub fn is_alnum(c: char) -> (r: bool)
    ensures
        r == is_alnum_spec(c),
{
    let n: u32 = c as u32;
    (0x30 <= n && n <= 0x39) || (0x41 <= n && n <= 0x5a) || (0x61 <= n && n <= 0x7a)
}

/// A set of characters, for trimming and for cleaning names.
#[derive(Clone, Copy, Debug, PartialEq, Eq, Structural)]
pub enum CharClass {
    Space,
    /// One character.
    Just(char),
    DashDot,
    Alnum,
    AlnumDashUnderscore,
    AlnumDashUnderscoreDot,
}

impl CharClass {
    pub open spec fn has_spec(self, c: char) -> bool {
        match self {
            CharClass::Space => is_space_spec(c),
            CharClass::Just(one) => c == one,
            CharClass::DashDot => c == '-' || c == '.',
            CharClass::Alnum => is_alnum_spec(c),
            CharClass::AlnumDashUnderscore => is_alnum_spec(c) || c == '-' || c == '_',
            CharClass::AlnumDashUnderscoreDot => is_alnum_spec(c) || c == '-' || c == '_' || c
                == '.',
        }
    }

    pub fn has(self, c: char) -> (r: bool)
        ensures
            r == self.has_spec(c),
    {
        match self {
            CharClass::Space => is_space(c),
            CharClass::Just(one) => c == one,
            CharClass::DashDot => c == '-' || c == '.',
            CharClass::Alnum => is_alnum(c),
            CharClass::AlnumDashUnderscore => is_alnum(c) || c == '-' || c == '_',
            CharClass::AlnumDashUnderscoreDot => is_alnum(c) || c == '-' || c == '_' || c == '.',
        }
    }
}

pub open spec fn lower_char_spec(c: char) -> char {
    if is_upper_spec(c) {
        ((c as u32) + 32) as char
    } else {
        c
    }
}

/// ASCII lower case of one character.
pub fn lower_char(c: char) -> (r: char)
    ensures
        r == lower_char_spec(c),
{
    let n: u32 = c as u32;
    if 0x41 <= n && n <= 0x5a {
        let b: u8 = (n + 32) as u8;
        b as char
    } else {
        c
    }
}

// ---------------------------------------------------------------------------------------------
// Strings as sequences
// ---------------------------------------------------------------------------------------------
/// The characters of `s`, in order.
pub fn chars_of(s: &str) -> (r: Vec<char>)
    ensures
        r@ == s@,
{
    let mut out: Vec<char> = Vec::new();
    for c in it: s.chars()
        invariant
            it.seq() == s@,
            out@ == s@.take(it.index() as int),
    {
        out.push(c);
    }
    out
}

/// The string made of `v[from..to]`.
pub fn substring(v: &Vec<char>, from: usize, to: usize) -> (r: String)
    requires
        from <= to <= v@.len(),
    ensures
        r@ == v@.subrange(from as int, to as int),
{
    let mut out = String::new();
    let mut i: usize = from;
    while i < to
        invariant
            from <= i <= to <= v@.len(),
            out@ == v@.subrange(from as int, i as int),
        decreases to - i,
    {
        out.push(v[i]);
        assert(v@.subrange(from as int, i as int).push(v@[i as int]) =~= v@.subrange(
            from as int,
            i + 1,
        ));
        i = i + 1;
    }
    out
}

/// Whether two strings hold the same characters.
pub fn same(a: &str, b: &str) -> (r: bool)
    ensures
        r == (a@ == b@),
{
    let x = chars_of(a);
    let y = chars_of(b);
    if x.len() != y.len() {
        return false;
    }
    let mut i: usize = 0;
    while i < x.len()
        invariant
            i <= x@.len(),
            x@.len() == y@.len(),
            x@ == a@,
            y@ == b@,
            x@.take(i as int) == y@.take(i as int),
        decreases x.len() - i,
    {
        if x[i] != y[i] {
            assert(a@[i as int] != b@[i as int]);
            return false;
        }
        assert(x@.take(i + 1) =~= x@.take(i as int).push(x@[i as int]));
        assert(y@.take(i + 1) =~= y@.take(i as int).push(y@[i as int]));
        i = i + 1;
    }
    assert(x@.take(x@.len() as int) =~= x@);
    assert(y@.take(y@.len() as int) =~= y@);
    true
}

/// Whether an optional string is present and equal to `b`.
pub open spec fn option_is(a: Option<String>, b: Seq<char>) -> bool {
    a matches Some(s) && s@ == b
}

pub fn option_same(a: &Option<String>, b: &str) -> (r: bool)
    ensures
        r == option_is(*a, b@),
{
    match a {
        Some(s) => same(s.as_str(), b),
        None => false,
    }
}

/// The views of a sequence of strings.
pub open spec fn views(v: Seq<String>) -> Seq<Seq<char>> {
    v.map_values(|s: String| s@)
}

/// The views of a sequence of string slices.
pub open spec fn str_views(v: Seq<&str>) -> Seq<Seq<char>> {
    v.map_values(|s: &str| s@)
}

/// An optional string by its view.
pub open spec fn option_view(a: Option<String>) -> Option<Seq<char>> {
    match a {
        Some(s) => Some(s@),
        None => None,
    }
}

pub fn clone_option(a: &Option<String>) -> (r: Option<String>)
    ensures
        r == *a,
{
    match a {
        Some(s) => Some(s.clone()),
        None => None,
    }
}

/// A copy of a list of strings.
pub fn clone_strings(v: &Vec<String>) -> (r: Vec<String>)
    ensures
        r@ == v@,
{
    let mut out: Vec<String> = Vec::new();
    let mut i: usize = 0;
    while i < v.len()
        invariant
            i <= v@.len(),
            out@ == v@.take(i as int),
        decreases v.len() - i,
    {
        out.push(v[i].clone());
        assert(v@.take(i + 1) =~= v@.take(i as int).push(v@[i as int]));
        i = i + 1;
    }
    assert(v@.take(v@.len() as int) =~= v@);
    out
}

// ---------------------------------------------------------------------------------------------
// Concatenation
// ---------------------------------------------------------------------------------------------
pub fn cat2(a: &str, b: &str) -> (r: String)
    ensures
        r@ == a@ + b@,
{
    let mut out = a.to_owned();
    out.append(b);
    out
}

pub fn cat3(a: &str, b: &str, c: &str) -> (r: String)
    ensures
        r@ == a@ + b@ + c@,
{
    let mut out = cat2(a, b);
    out.append(c);
    out
}

pub fn cat4(a: &str, b: &str, c: &str, d: &str) -> (r: String)
    ensures
        r@ == a@ + b@ + c@ + d@,
{
    let mut out = cat3(a, b, c);
    out.append(d);
    out
}

pub fn cat5(a: &str, b: &str, c: &str, d: &str, e: &str) -> (r: String)
    ensures
        r@ == a@ + b@ + c@ + d@ + e@,
{
    let mut out = cat4(a, b, c, d);
    out.append(e);
    out
}

pub fn cat6(a: &str, b: &str, c: &str, d: &str, e: &str, f: &str) -> (r: String)
    ensures
        r@ == a@ + b@ + c@ + d@ + e@ + f@,
{
    let mut out = cat5(a, b, c, d, e);
    out.append(f);
    out
}

pub fn cat7(a: &str, b: &str, c: &str, d: &str, e: &str, f: &str, g: &str) -> (r: String)
    ensures
        r@ == a@ + b@ + c@ + d@ + e@ + f@ + g@,
{
    let mut out = cat6(a, b, c, d, e, f);
    out.append(g);
    out
}

/// `parts` joined with `sep` between neighbours.
pub open spec fn join_spec(parts: Seq<Seq<char>>, sep: Seq<char>) -> Seq<char>
    decreases parts.len(),
{
    if parts.len() == 0 {
        Seq::empty()
    } else if parts.len() == 1 {
        parts[0]
    } else {
        join_spec(parts.drop_last(), sep) + sep + parts.last()
    }
}

/// The strings of `parts` joined with `sep`.
pub fn join(parts: &Vec<String>, sep: &str) -> (r: String)
    ensures
        r@ == join_spec(views(parts@), sep@),
{
    let mut out = String::new();
    let mut i: usize = 0;
    while i < parts.len()
        invariant
            i <= parts@.len(),
            out@ == join_spec(views(parts@).take(i as int), sep@),
        decreases parts.len() - i,
    {
        let ghost next = views(parts@).take(i + 1);
        assert(next.drop_last() =~= views(parts@).take(i as int));
        assert(next.last() == parts@[i as int]@);
        if i > 0 {
            out.append(sep);
        }
        out.append(parts[i].as_str());
        assert(out@ =~= join_spec(next, sep@));
        i = i + 1;
    }
    assert(views(parts@).take(parts@.len() as int) =~= views(parts@));
    out
}

/// The string slices of `parts` joined with `sep`.
pub fn join_strs(parts: &[&str], sep: &str) -> (r: String)
    ensures
        r@ == join_spec(str_views(parts@), sep@),
{
    let mut out = String::new();
    let mut i: usize = 0;
    while i < parts.len()
        invariant
            i <= parts@.len(),
            out@ == join_spec(str_views(parts@).take(i as int), sep@),
        decreases parts.len() - i,
    {
        let ghost next = str_views(parts@).take(i + 1);
        assert(next.drop_last() =~= str_views(parts@).take(i as int));
        assert(next.last() == parts@[i as int]@);
        if i > 0 {
            out.append(sep);
        }
        out.append(parts[i]);
        assert(out@ =~= join_spec(next, sep@));
        i = i + 1;
    }
    assert(str_views(parts@).take(parts@.len() as int) =~= str_views(parts@));
    out
}

// ---------------------------------------------------------------------------------------------
// Trimming, case and cleaning
// ---------------------------------------------------------------------------------------------
/// `s` without its longest prefix of characters of `class`.
pub open spec fn trim_front_spec(s: Seq<char>, class: CharClass) -> Seq<char>
    decreases s.len(),
{
    if s.len() > 0 && class.has_spec(s[0]) {
        trim_front_spec(s.drop_first(), class)
    } else {
        s
    }
}

/// `s` without its longest suffix of characters of `class`.
pub open spec fn trim_back_spec(s: Seq<char>, class: CharClass) -> Seq<char>
    decreases s.len(),
{
    if s.len() > 0 && class.has_spec(s.last()) {
        trim_back_spec(s.drop_last(), class)
    } else {
        s
    }
}

/// `s` without the characters of `class` at its two ends.
pub open spec fn trim_class_spec(s: Seq<char>, class: CharClass) -> Seq<char> {
    trim_back_spec(trim_front_spec(s, class), class)
}

/// `s` without white space at its two ends.
pub open spec fn trim_spec(s: Seq<char>) -> Seq<char> {
    trim_class_spec(s, CharClass::Space)
}

pub fn trim_class(s: &str, class: CharClass) -> (r: String)
    ensures
        r@ == trim_class_spec(s@, class),
{
    let v = chars_of(s);
    let mut from: usize = 0;
    assert(v@.subrange(0, v@.len() as int) =~= v@);
    while from < v.len() && class.has(v[from])
        invariant
            from <= v@.len(),
            trim_front_spec(v@.subrange(from as int, v@.len() as int), class) == trim_front_spec(
                v@,
                class,
            ),
        decreases v.len() - from,
    {
        assert(v@.subrange(from as int, v@.len() as int).drop_first() =~= v@.subrange(
            from + 1,
            v@.len() as int,
        ));
        from = from + 1;
    }
    let mut to: usize = v.len();
    assert(trim_front_spec(v@, class) == v@.subrange(from as int, to as int));
    while from < to && class.has(v[to - 1])
        invariant
            from <= to <= v@.len(),
            trim_back_spec(v@.subrange(from as int, to as int), class) == trim_class_spec(
                v@,
                class,
            ),
        decreases to,
    {
        assert(v@.subrange(from as int, to as int).drop_last() =~= v@.subrange(
            from as int,
            to - 1,
        ));
        to = to - 1;
    }
    substring(&v, from, to)
}

pub fn trim(s: &str) -> (r: String)
    ensures
        r@ == trim_spec(s@),
{
    trim_class(s, CharClass::Space)
}

/// Whether nothing but white space is in `s`.
pub open spec fn is_blank_spec(s: Seq<char>) -> bool {
    trim_spec(s).len() == 0
}

pub fn is_blank(s: &str) -> (r: bool)
    ensures
        r == is_blank_spec(s@),
{
    trim(s).as_str().is_empty()
}

/// ASCII lower case of every character.
pub open spec fn lower_spec(s: Seq<char>) -> Seq<char> {
    s.map_values(|c: char| lower_char_spec(c))
}

pub fn lower(s: &str) -> (r: String)
    ensures
        r@ == lower_spec(s@),
{
    let v = chars_of(s);
    let mut out = String::new();
    let mut i: usize = 0;
    while i < v.len()
        invariant
            i <= v@.len(),
            out@ == lower_spec(v@).take(i as int),
        decreases v.len() - i,
    {
        out.push(lower_char(v[i]));
        assert(out@ =~= lower_spec(v@).take(i + 1));
        i = i + 1;
    }
    assert(lower_spec(v@).take(v@.len() as int) =~= lower_spec(v@));
    out
}

/// Trimmed and in ASCII lower case.
pub open spec fn normal_spec(s: Seq<char>) -> Seq<char> {
    lower_spec(trim_spec(s))
}

pub fn normal(s: &str) -> (r: String)
    ensures
        r@ == normal_spec(s@),
{
    lower(trim(s).as_str())
}

/// `s` with every character outside `allowed` replaced by `fallback`.
pub open spec fn clean_spec(s: Seq<char>, allowed: CharClass, fallback: char) -> Seq<char> {
    s.map_values(
        |c: char|
            if allowed.has_spec(c) {
                c
            } else {
                fallback
            },
    )
}

pub fn clean(s: &str, allowed: CharClass, fallback: char) -> (r: String)
    ensures
        r@ == clean_spec(s@, allowed, fallback),
{
    let v = chars_of(s);
    let mut out = String::new();
    let mut i: usize = 0;
    while i < v.len()
        invariant
            i <= v@.len(),
            out@ == clean_spec(v@, allowed, fallback).take(i as int),
        decreases v.len() - i,
    {
        if allowed.has(v[i]) {
            out.push(v[i]);
        } else {
            out.push(fallback);
        }
        assert(out@ =~= clean_spec(v@, allowed, fallback).take(i + 1));
        i = i + 1;
    }
    assert(clean_spec(v@, allowed, fallback).take(v@.len() as int) =~= clean_spec(
        v@,
        allowed,
        fallback,
    ));
    out
}

pub open spec fn min_int(a: int, b: int) -> int {
    if a <= b {
        a
    } else {
        b
    }
}

/// The first `n` characters of `s`, or all of them.
pub open spec fn head_spec(s: Seq<char>, n: int) -> Seq<char> {
    s.take(min_int(n, s.len() as int))
}

/// The last `n` characters of `s`, or all of them.
pub open spec fn tail_spec(s: Seq<char>, n: int) -> Seq<char> {
    s.skip(s.len() - min_int(n, s.len() as int))
}

/// The first `max_len` characters of `value`.
pub fn truncate_ascii(value: &str, max_len: usize) -> (r: String)
    ensures
        r@ == head_spec(value@, max_len as int),
{
    let v = chars_of(value);
    let n: usize = if max_len < v.len() {
        max_len
    } else {
        v.len()
    };
    assert(v@.subrange(0, n as int) =~= head_spec(value@, max_len as int));
    substring(&v, 0, n)
}

/// The last `max_len` characters of `value`.
pub fn tail_ascii(value: &str, max_len: usize) -> (r: String)
    ensures
        r@ == tail_spec(value@, max_len as int),
{
    let v = chars_of(value);
    let n: usize = if max_len < v.len() {
        max_len
    } else {
        v.len()
    };
    assert(v@.subrange(v@.len() - n, v@.len() as int) =~= tail_spec(value@, max_len as int));
    substring(&v, v.len() - n, v.len())
}

// ---------------------------------------------------------------------------------------------
// Searching
// ---------------------------------------------------------------------------------------------
/// `needle` stands in `hay` at position `i`.
pub open spec fn occurs_at(hay: Seq<char>, needle: Seq<char>, i: int) -> bool {
    0 <= i && i + needle.len() <= hay.len() && hay.subrange(i, i + needle.len()) == needle
}

pub open spec fn contains_spec(hay: Seq<char>, needle: Seq<char>) -> bool {
    exists|i: int| #[trigger] occurs_at(hay, needle, i)
}

pub fn stands_at(hay: &Vec<char>, needle: &Vec<char>, i: usize) -> (r: bool)
    ensures
        r == occurs_at(hay@, needle@, i as int),
{
    if needle.len() > hay.len() || i > hay.len() - needle.len() {
        return false;
    }
    let hay_len: usize = hay.len();
    let mut k: usize = 0;
    while k < needle.len()
        invariant
            k <= needle@.len(),
            hay_len == hay@.len(),
            i + needle@.len() <= hay_len,
            forall|j: int| 0 <= j < k ==> hay@[i + j] == needle@[j],
        decreases needle.len() - k,
    {
        if hay[i + k] != needle[k] {
            assert(hay@.subrange(i as int, i + needle@.len())[k as int] != needle@[k as int]);
            return false;
        }
        k = k + 1;
    }
    assert(hay@.subrange(i as int, i + needle@.len()) =~= needle@);
    true
}

/// The first position of `needle` in `hay`.
pub fn find(hay: &Vec<char>, needle: &Vec<char>) -> (r: Option<usize>)
    ensures
        match r {
            Some(i) => occurs_at(hay@, needle@, i as int) && forall|j: int|
                0 <= j < i ==> !#[trigger] occurs_at(hay@, needle@, j),
            None => !contains_spec(hay@, needle@),
        },
{
    let mut i: usize = 0;
    while i <= hay.len()
        invariant
            i <= hay@.len() + 1,
            forall|j: int| 0 <= j < i ==> !#[trigger] occurs_at(hay@, needle@, j),
        decreases hay.len() + 1 - i,
    {
        if stands_at(hay, needle, i) {
            return Some(i);
        }
        if i == hay.len() {
            return None;
        }
        i = i + 1;
    }
    None
}

pub fn contains(hay: &str, needle: &str) -> (r: bool)
    ensures
        r == contains_spec(hay@, needle@),
{
    find(&chars_of(hay), &chars_of(needle)).is_some()
}

pub open spec fn starts_with_spec(s: Seq<char>, prefix: Seq<char>) -> bool {
    occurs_at(s, prefix, 0)
}

pub open spec fn ends_with_spec(s: Seq<char>, suffix: Seq<char>) -> bool {
    occurs_at(s, suffix, s.len() - suffix.len())
}

pub open spec fn strip_prefix_spec(s: Seq<char>, prefix: Seq<char>) -> Option<Seq<char>> {
    if starts_with_spec(s, prefix) {
        Some(s.skip(prefix.len() as int))
    } else {
        None
    }
}

pub open spec fn strip_suffix_spec(s: Seq<char>, suffix: Seq<char>) -> Option<Seq<char>> {
    if ends_with_spec(s, suffix) {
        Some(s.take(s.len() - suffix.len()))
    } else {
        None
    }
}

pub fn starts_with(s: &str, prefix: &str) -> (r: bool)
    ensures
        r == starts_with_spec(s@, prefix@),
{
    stands_at(&chars_of(s), &chars_of(prefix), 0)
}

pub fn strip_prefix(s: &str, prefix: &str) -> (r: Option<String>)
    ensures
        option_view(r) == strip_prefix_spec(s@, prefix@),
{
    let v = chars_of(s);
    let p = chars_of(prefix);
    if stands_at(&v, &p, 0) {
        assert(v@.subrange(p@.len() as int, v@.len() as int) =~= s@.skip(prefix@.len() as int));
        Some(substring(&v, p.len(), v.len()))
    } else {
        None
    }
}

pub fn strip_suffix(s: &str, suffix: &str) -> (r: Option<String>)
    ensures
        option_view(r) == strip_suffix_spec(s@, suffix@),
{
    let v = chars_of(s);
    let p = chars_of(suffix);
    if p.len() <= v.len() && stands_at(&v, &p, v.len() - p.len()) {
        assert(v@.subrange(0, v@.len() - p@.len()) =~= s@.take(s@.len() - suffix@.len()));
        Some(substring(&v, 0, v.len() - p.len()))
    } else {
        None
    }
}

/// `s` up to the first `stop`, or all of it.
pub open spec fn before_spec(s: Seq<char>, stop: char) -> Seq<char>
    decreases s.len(),
{
    if s.len() == 0 || s[0] == stop {
        Seq::empty()
    } else {
        seq![s[0]] + before_spec(s.drop_first(), stop)
    }
}

/// `s` up to the first `stop`.
pub fn before(s: &str, stop: char) -> (r: String)
    ensures
        r@ == before_spec(s@, stop),
{
    let v = chars_of(s);
    let mut out = String::new();
    let mut i: usize = 0;
    assert(v@.skip(0) =~= v@);
    assert(out@ + before_spec(v@, stop) =~= before_spec(v@, stop));
    while i < v.len()
        invariant
            i <= v@.len(),
            v@ == s@,
            out@ + before_spec(v@.skip(i as int), stop) == before_spec(v@, stop),
        decreases v.len() - i,
    {
        let ghost rest = v@.skip(i as int);
        if v[i] == stop {
            assert(before_spec(rest, stop) =~= Seq::<char>::empty());
            assert(out@ + before_spec(rest, stop) =~= out@);
            return out;
        }
        assert(rest.drop_first() =~= v@.skip(i + 1));
        assert(out@ + (seq![v@[i as int]] + before_spec(v@.skip(i + 1), stop)) =~= out@.push(
            v@[i as int],
        ) + before_spec(v@.skip(i + 1), stop));
        out.push(v[i]);
        i = i + 1;
    }
    assert(v@.skip(i as int) =~= Seq::<char>::empty());
    assert(out@ + before_spec(v@.skip(i as int), stop) =~= out@);
    out
}

/// What follows the first `stop` in `s`.
pub open spec fn after_first_spec(s: Seq<char>, stop: char) -> Option<Seq<char>>
    decreases s.len(),
{
    if s.len() == 0 {
        None
    } else if s[0] == stop {
        Some(s.drop_first())
    } else {
        after_first_spec(s.drop_first(), stop)
    }
}

pub fn after_first(s: &str, stop: char) -> (r: Option<String>)
    ensures
        option_view(r) == after_first_spec(s@, stop),
{
    let v = chars_of(s);
    let mut i: usize = 0;
    assert(v@.skip(0) =~= v@);
    while i < v.len()
        invariant
            i <= v@.len(),
            v@ == s@,
            after_first_spec(v@.skip(i as int), stop) == after_first_spec(s@, stop),
        decreases v.len() - i,
    {
        assert(v@.skip(i as int).drop_first() =~= v@.skip(i + 1));
        if v[i] == stop {
            assert(v@.subrange(i + 1, v@.len() as int) =~= v@.skip(i + 1));
            return Some(substring(&v, i + 1, v.len()));
        }
        i = i + 1;
    }
    None
}

/// What follows the last `needle` that starts at `i` or before.
pub open spec fn after_last_from(s: Seq<char>, needle: Seq<char>, i: int) -> Option<Seq<char>>
    decreases i + 1,
{
    if i < 0 {
        None
    } else if occurs_at(s, needle, i) {
        Some(s.skip(i + needle.len()))
    } else {
        after_last_from(s, needle, i - 1)
    }
}

/// What follows the last `needle` in `s`.
pub open spec fn after_last_spec(s: Seq<char>, needle: Seq<char>) -> Option<Seq<char>> {
    after_last_from(s, needle, s.len() as int)
}

pub fn after_last(s: &str, needle: &str) -> (r: Option<String>)
    ensures
        option_view(r) == after_last_spec(s@, needle@),
{
    let v = chars_of(s);
    let n = chars_of(needle);
    let mut i: usize = v.len();
    loop
        invariant
            i <= v@.len(),
            v@ == s@,
            n@ == needle@,
            after_last_from(s@, needle@, i as int) == after_last_spec(s@, needle@),
        decreases i,
    {
        if stands_at(&v, &n, i) {
            assert(n.len() + i <= v.len());
            assert(v@.subrange(i + n@.len(), v@.len() as int) =~= s@.skip(i + needle@.len()));
            return Some(substring(&v, i + n.len(), v.len()));
        }
        if i == 0 {
            assert(after_last_from(s@, needle@, -1) is None);
            return None;
        }
        i = i - 1;
    }
}

/// The pieces of `s` between occurrences of `sep`.
pub open spec fn split_spec(s: Seq<char>, sep: char) -> Seq<Seq<char>>
    decreases s.len(),
{
    if s.len() == 0 {
        seq![Seq::empty()]
    } else {
        let init = split_spec(s.drop_last(), sep);
        if s.last() == sep {
            init.push(Seq::empty())
        } else {
            init.drop_last().push(init.last().push(s.last()))
        }
    }
}

/// The pieces of `s` between occurrences of `sep`.
pub fn split(s: &str, sep: char) -> (r: Vec<String>)
    ensures
        views(r@) == split_spec(s@, sep),
        r@.len() > 0,
{
    let v = chars_of(s);
    let mut done: Vec<String> = Vec::new();
    let mut cur = String::new();
    let mut i: usize = 0;
    assert(views(done@).push(cur@) =~= seq![Seq::<char>::empty()]);
    assert(v@.take(0) =~= Seq::<char>::empty());
    while i < v.len()
        invariant
            i <= v@.len(),
            v@ == s@,
            views(done@).push(cur@) == split_spec(v@.take(i as int), sep),
        decreases v.len() - i,
    {
        let ghost next = v@.take(i + 1);
        assert(next.drop_last() =~= v@.take(i as int));
        let ghost init = split_spec(v@.take(i as int), sep);
        assert(init.drop_last() =~= views(done@));
        assert(init.last() == cur@);
        if v[i] == sep {
            done.push(cur);
            assert(views(done@) =~= init);
            cur = String::new();
            assert(views(done@).push(cur@) =~= split_spec(next, sep));
        } else {
            cur.push(v[i]);
            assert(views(done@).push(cur@) =~= split_spec(next, sep));
        }
        i = i + 1;
    }
    assert(v@.take(v@.len() as int) =~= v@);
    let ghost before = done@;
    let ghost last = cur@;
    done.push(cur);
    assert(views(done@) =~= views(before).push(last));
    done
}

// ---------------------------------------------------------------------------------------------
// Numbers
// ---------------------------------------------------------------------------------------------
pub open spec fn digit_spec(n: nat) -> char {
    (0x30 + n) as char
}

/// Decimal notation.
pub open spec fn dec(n: nat) -> Seq<char>
    decreases n,
{
    if n < 10 {
        seq![digit_spec(n)]
    } else {
        dec(n / 10).push(digit_spec(n % 10))
    }
}

/// Decimal notation of an integer, with a minus sign where it is negative.
pub open spec fn dec_int(n: int) -> Seq<char> {
    if n < 0 {
        seq!['-'] + dec((-n) as nat)
    } else {
        dec(n as nat)
    }
}

/// Decimal notation, filled up with zeros at the front to at least `width` characters.
pub open spec fn dec_padded(n: nat, width: nat) -> Seq<char> {
    zeros(width - dec(n).len()) + dec(n)
}

/// `n` zeros, none where `n` is negative.
pub open spec fn zeros(n: int) -> Seq<char> {
    if n <= 0 {
        Seq::empty()
    } else {
        Seq::new(n as nat, |i: int| '0')
    }
}

pub open spec fn hex_digit_spec(n: nat) -> char {
    if n < 10 {
        (0x30 + n) as char
    } else {
        (0x57 + n) as char
    }
}

/// Hexadecimal notation in lower case.
pub open spec fn hex(n: nat) -> Seq<char>
    decreases n,
{
    if n < 16 {
        seq![hex_digit_spec(n)]
    } else {
        hex(n / 16).push(hex_digit_spec(n % 16))
    }
}

fn push_decimal(out: &mut String, n: u128)
    ensures
        final(out)@ == old(out)@ + dec(n as nat),
    decreases n,
{
    if n >= 10 {
        push_decimal(out, n / 10);
    }
    let d: u8 = (n % 10) as u8;
    out.push((0x30u8 + d) as char);
    assert(out@ =~= old(out)@ + dec(n as nat));
}

fn push_hex(out: &mut String, n: u128)
    ensures
        final(out)@ == old(out)@ + hex(n as nat),
    decreases n,
{
    if n >= 16 {
        push_hex(out, n / 16);
    }
    let d: u8 = (n % 16) as u8;
    if d < 10 {
        out.push((0x30u8 + d) as char);
    } else {
        out.push((0x57u8 + d) as char);
    }
    assert(out@ =~= old(out)@ + hex(n as nat));
}

pub fn decimal(n: u64) -> (r: String)
    ensures
        r@ == dec(n as nat),
{
    let mut out = String::new();
    push_decimal(&mut out, n as u128);
    assert(Seq::<char>::empty() + dec(n as nat) =~= dec(n as nat));
    out
}

pub fn decimal_u128(n: u128) -> (r: String)
    ensures
        r@ == dec(n as nat),
{
    let mut out = String::new();
    push_decimal(&mut out, n);
    assert(Seq::<char>::empty() + dec(n as nat) =~= dec(n as nat));
    out
}

pub fn decimal_i64(n: i64) -> (r: String)
    ensures
        r@ == dec_int(n as int),
{
    if n < 0 {
        let mut out = String::new();
        out.push('-');
        let m: u128 = (-(n as i128)) as u128;
        push_decimal(&mut out, m);
        assert(Seq::<char>::empty().push('-') =~= seq!['-']);
        out
    } else {
        decimal(n as u64)
    }
}

pub fn decimal_padded(n: u64, width: usize) -> (r: String)
    ensures
        r@ == dec_padded(n as nat, width as nat),
{
    let digits = decimal(n);
    let len: usize = chars_of(digits.as_str()).len();
    let mut out = String::new();
    let mut i: usize = len;
    while i < width
        invariant
            len == dec(n as nat).len(),
            len <= width ==> i <= width,
            len <= i,
            len > width ==> i == len,
            out@ == zeros(i - len),
        decreases width - i,
    {
        out.push('0');
        assert(out@ =~= zeros(i + 1 - len));
        i = i + 1;
    }
    assert(out@ =~= zeros(width - len));
    out.append(digits.as_str());
    out
}

pub fn hexadecimal(n: u128) -> (r: String)
    ensures
        r@ == hex(n as nat),
{
    let mut out = String::new();
    push_hex(&mut out, n);
    assert(Seq::<char>::empty() + hex(n as nat) =~= hex(n as nat));
    out
}

/// Why a text is no number of the wanted type.
#[derive(Clone, Copy, Debug, PartialEq, Eq, Structural)]
pub enum NumberError {
    Empty,
    InvalidDigit,
    TooLarge,
}

impl NumberError {
    pub open spec fn text_spec(self) -> Seq<char> {
        match self {
            NumberError::Empty => "cannot parse integer from empty string"@,
            NumberError::InvalidDigit => "invalid digit found in string"@,
            NumberError::TooLarge => "number too large to fit in target type"@,
        }
    }

    pub fn text(self) -> (r: String)
        ensures
            r@ == self.text_spec(),
    {
        match self {
            NumberError::Empty => "cannot parse integer from empty string".to_owned(),
            NumberError::InvalidDigit => "invalid digit found in string".to_owned(),
            NumberError::TooLarge => "number too large to fit in target type".to_owned(),
        }
    }
}

/// Reads the decimal digits `s[i..]` after `acc`; the first position that cannot be read decides.
pub open spec fn read_digits(s: Seq<char>, i: int, acc: nat, max: nat) -> Result<nat, NumberError>
    decreases s.len() - i,
{
    if i >= s.len() {
        Ok(acc)
    } else if !is_digit_spec(s[i]) {
        Err(NumberError::InvalidDigit)
    } else {
        let next = acc * 10 + ((s[i] as u32) - 0x30) as nat;
        if next > max {
            Err(NumberError::TooLarge)
        } else {
            read_digits(s, i + 1, next, max)
        }
    }
}

/// An unsigned decimal number of at most `max`, with an optional plus sign.
pub open spec fn number_spec(s: Seq<char>, max: nat) -> Result<nat, NumberError> {
    if s.len() == 0 {
        Err(NumberError::Empty)
    } else if s[0] == '+' {
        if s.len() == 1 {
            Err(NumberError::InvalidDigit)
        } else {
            read_digits(s, 1, 0, max)
        }
    } else {
        read_digits(s, 0, 0, max)
    }
}

pub open spec fn number_view(r: Result<u64, NumberError>) -> Result<nat, NumberError> {
    match r {
        Ok(n) => Ok(n as nat),
        Err(e) => Err(e),
    }
}

pub fn number(s: &str, max: u64) -> (r: Result<u64, NumberError>)
    ensures
        number_view(r) == number_spec(s@, max as nat),
        r matches Ok(n) ==> n <= max,
{
    let v = chars_of(s);
    if v.len() == 0 {
        return Err(NumberError::Empty);
    }
    let mut i: usize = 0;
    if v[0] == '+' {
        if v.len() == 1 {
            return Err(NumberError::InvalidDigit);
        }
        i = 1;
    }
    let mut acc: u64 = 0;
    while i < v.len()
        invariant
            i <= v@.len(),
            v@ == s@,
            acc <= max,
            read_digits(v@, i as int, acc as nat, max as nat) == number_spec(s@, max as nat),
        decreases v.len() - i,
    {
        let c = v[i];
        if !is_digit(c) {
            return Err(NumberError::InvalidDigit);
        }
        let d: u128 = (c as u32 - 0x30) as u128;
        let next: u128 = (acc as u128) * 10 + d;
        if next > max as u128 {
            return Err(NumberError::TooLarge);
        }
        acc = next as u64;
        i = i + 1;
    }
    Ok(acc)
}

pub fn number_usize(s: &str) -> (r: Result<usize, NumberError>)
    ensures
        match r {
            Ok(n) => number_spec(s@, usize::MAX as nat) == Ok::<nat, NumberError>(n as nat),
            Err(e) => number_spec(s@, usize::MAX as nat) == Err::<nat, NumberError>(e),
        },
{
    match number(s, usize::MAX as u64) {
        Ok(n) => Ok(n as usize),
        Err(e) => Err(e),
    }
}

// ---------------------------------------------------------------------------------------------
// Order of texts
// ---------------------------------------------------------------------------------------------
/// `a` stands before `b` in the order of strings: at the first difference it has the smaller
/// character, or it is a proper prefix.
pub open spec fn lex_before(a: Seq<char>, b: Seq<char>) -> bool
    decreases a.len(),
{
    if b.len() == 0 {
        false
    } else if a.len() == 0 {
        true
    } else if a[0] != b[0] {
        (a[0] as int) < (b[0] as int)
    } else {
        lex_before(a.drop_first(), b.drop_first())
    }
}

pub proof fn lemma_lex_irreflexive(a: Seq<char>)
    ensures
        !lex_before(a, a),
    decreases a.len(),
{
    if a.len() > 0 {
        lemma_lex_irreflexive(a.drop_first());
    }
}

pub proof fn lemma_lex_total(a: Seq<char>, b: Seq<char>)
    ensures
        a == b || lex_before(a, b) || lex_before(b, a),
    decreases a.len(),
{
    if a.len() == 0 || b.len() == 0 {
        if a.len() == 0 && b.len() == 0 {
            assert(a =~= b);
        }
    } else if a[0] == b[0] {
        lemma_lex_total(a.drop_first(), b.drop_first());
        if a.drop_first() == b.drop_first() {
            assert(a =~= seq![a[0]] + a.drop_first());
            assert(b =~= seq![b[0]] + b.drop_first());
        }
    } else {
        assert((a[0] as int) != (b[0] as int));
    }
}

pub proof fn lemma_lex_transitive(a: Seq<char>, b: Seq<char>, c: Seq<char>)
    requires
        lex_before(a, b),
        lex_before(b, c),
    ensures
        lex_before(a, c),
    decreases a.len(),
{
    if a.len() > 0 && a[0] == b[0] && b[0] == c[0] {
        lemma_lex_transitive(a.drop_first(), b.drop_first(), c.drop_first());
    }
}

fn char_before(c: char, d: char) -> (r: bool)
    ensures
        r == ((c as int) < (d as int)),
{
    (c as u32) < (d as u32)
}

/// Whether `a` stands before `b` in the order of strings.
pub fn text_before(a: &str, b: &str) -> (r: bool)
    ensures
        r == lex_before(a@, b@),
{
    let x = chars_of(a);
    let y = chars_of(b);
    let mut i: usize = 0;
    assert(x@.skip(0) =~= x@);
    assert(y@.skip(0) =~= y@);
    while i < x.len() && i < y.len()
        invariant
            i <= x@.len(),
            i <= y@.len(),
            x@ == a@,
            y@ == b@,
            lex_before(x@.skip(i as int), y@.skip(i as int)) == lex_before(a@, b@),
        decreases x.len() - i,
    {
        if x[i] != y[i] {
            return char_before(x[i], y[i]);
        }
        assert(x@.skip(i as int).drop_first() =~= x@.skip(i + 1));
        assert(y@.skip(i as int).drop_first() =~= y@.skip(i + 1));
        i = i + 1;
    }
    i < y.len()
}

// ---------------------------------------------------------------------------------------------
// Reading decimal notation back
// ---------------------------------------------------------------------------------------------
/// The number that a row of digits denotes.
pub open spec fn digits_value(s: Seq<char>) -> nat
    decreases s.len(),
{
    if s.len() == 0 {
        0
    } else {
        digits_value(s.drop_last()) * 10 + ((s.last() as u32) - 0x30) as nat
    }
}

/// Decimal notation consists of digits and denotes its number.
pub proof fn lemma_dec_reads_back(n: nat)
    ensures
        dec(n).len() > 0,
        digits_value(dec(n)) == n,
        forall|i: int| 0 <= i < dec(n).len() ==> is_digit_spec(#[trigger] dec(n)[i]),
    decreases n,
{
    if n < 10 {
        let s = dec(n);
        assert(s.drop_last() =~= Seq::<char>::empty());
        assert(digits_value(s.drop_last()) == 0);
    } else {
        lemma_dec_reads_back(n / 10);
        let s = dec(n);
        assert(s.drop_last() =~= dec(n / 10));
        assert(s.last() == digit_spec(n % 10));
        assert forall|i: int| 0 <= i < s.len() implies is_digit_spec(#[trigger] s[i]) by {
            if i < s.len() - 1 {
                assert(s[i] == dec(n / 10)[i]);
            }
        }
    }
}

proof fn lemma_zeros_in_front(k: nat, s: Seq<char>)
    ensures
        digits_value(zeros(k as int) + s) == digits_value(s),
    decreases s.len(), k,
{
    let t = zeros(k as int) + s;
    if s.len() > 0 {
        lemma_zeros_in_front(k, s.drop_last());
        assert(t.drop_last() =~= zeros(k as int) + s.drop_last());
        assert(t.last() == s.last());
    } else if k > 0 {
        lemma_zeros_in_front((k - 1) as nat, s);
        assert(t.drop_last() =~= zeros(k - 1) + s);
        assert(t.last() == '0');
    } else {
        assert(t =~= s);
    }
}

/// Padded decimal notation consists of digits and denotes its number.
pub proof fn lemma_padded_reads_back(n: nat, width: nat)
    ensures
        digits_value(dec_padded(n, width)) == n,
        dec_padded(n, width).len() >= 1,
        forall|i: int|
            0 <= i < dec_padded(n, width).len() ==> is_digit_spec(
                #[trigger] dec_padded(n, width)[i],
            ),
{
    lemma_dec_reads_back(n);
    let k = width - dec(n).len();
    if k >= 0 {
        lemma_zeros_in_front(k as nat, dec(n));
    } else {
        assert(dec_padded(n, width) =~= dec(n));
    }
    let s = dec_padded(n, width);
    assert forall|i: int| 0 <= i < s.len() implies is_digit_spec(#[trigger] s[i]) by {
        let z = zeros(k).len() as int;
        if i < z {
            assert(s[i] == '0');
        } else {
            assert(s[i] == dec(n)[i - z]);
        }
    }
}

/// Two names that end in a dash and a padded number are equal only if the numbers are.
pub proof fn lemma_numbered_names_differ(
    a: Seq<char>,
    m: nat,
    b: Seq<char>,
    n: nat,
    width: nat,
)
    requires
        a + "-"@ + dec_padded(m, width) == b + "-"@ + dec_padded(n, width),
    ensures
        m == n,
        a == b,
{
    reveal_strlit("-");
    lemma_padded_reads_back(m, width);
    lemma_padded_reads_back(n, width);
    let p = dec_padded(m, width);
    let q = dec_padded(n, width);
    let s = a + "-"@ + p;
    let t = b + "-"@ + q;
    assert(s == t);
    assert(s.len() == a.len() + 1 + p.len());
    assert(t.len() == b.len() + 1 + q.len());
    assert(s[a.len() as int] == '-');
    assert(t[b.len() as int] == '-');
    if a.len() < b.len() {
        assert(s[b.len() as int] == p[b.len() - a.len() - 1]);
        assert(is_digit_spec(p[b.len() - a.len() - 1]));
        assert(false);
    }
    if b.len() < a.len() {
        assert(t[a.len() as int] == q[a.len() - b.len() - 1]);
        assert(is_digit_spec(q[a.len() - b.len() - 1]));
        assert(false);
    }
    assert(p =~= s.skip((a.len() + 1) as int));
    assert(q =~= t.skip((b.len() + 1) as int));
    assert(a =~= s.take(a.len() as int));
    assert(b =~= t.take(b.len() as int));
}

proof fn lemma_read_digits_in_range(s: Seq<char>, i: int, acc: nat, max: nat)
    requires
        acc <= max,
    ensures
        read_digits(s, i, acc, max) is Ok ==> read_digits(s, i, acc, max)->Ok_0 <= max,
    decreases s.len() - i,
{
    if i < s.len() && is_digit_spec(s[i]) {
        let next = acc * 10 + ((s[i] as u32) - 0x30) as nat;
        if next <= max {
            lemma_read_digits_in_range(s, i + 1, next, max);
        }
    }
}

/// A number that was read is within the range that was asked for.
pub proof fn lemma_number_in_range(s: Seq<char>, max: nat)
    ensures
        number_spec(s, max) is Ok ==> number_spec(s, max)->Ok_0 <= max,
{
    lemma_read_digits_in_range(s, 0, 0, max);
    lemma_read_digits_in_range(s, 1, 0, max);
}

proof fn lemma_read_digits_in_any_range(s: Seq<char>, i: int, acc: nat, max: nat, larger: nat)
    requires
        max <= larger,
        read_digits(s, i, acc, max) is Ok,
    ensures
        read_digits(s, i, acc, larger) == read_digits(s, i, acc, max),
    decreases s.len() - i,
{
    if i < s.len() && is_digit_spec(s[i]) {
        let next = acc * 10 + ((s[i] as u32) - 0x30) as nat;
        if next <= max {
            lemma_read_digits_in_any_range(s, i + 1, next, max, larger);
        }
    }
}

/// A text that reads as a number reads as the same one where more numbers are taken.
pub proof fn lemma_number_in_any_range(s: Seq<char>, max: nat, larger: nat)
    requires
        max <= larger,
    ensures
        number_spec(s, max) is Ok ==> number_spec(s, larger) == number_spec(s, max),
{
    if number_spec(s, max) is Ok {
        if s[0] == '+' {
            lemma_read_digits_in_any_range(s, 1, 0, max, larger);
        } else {
            lemma_read_digits_in_any_range(s, 0, 0, max, larger);
        }
    }
}

// ---------------------------------------------------------------------------------------------
// What the operations on texts are for
// ---------------------------------------------------------------------------------------------
/// The characters of each kind, by themselves.
pub proof fn lemma_kinds_of_characters(c: char)
    ensures
        is_digit_spec(c) <==> '0' as int <= c as int <= '9' as int,
        is_upper_spec(c) <==> 'A' as int <= c as int <= 'Z' as int,
        is_alnum_spec(c) <==> ('0' as int <= c as int <= '9' as int) || ('A' as int <= c as int
            <= 'Z' as int) || ('a' as int <= c as int <= 'z' as int),
        is_control_spec(c) <==> (c as int) < 32 || 127 <= c as int <= 159,
        is_space_spec(c) <==> {
            ||| c == '\t' || c == '\n' || c == '\x0B' || c == '\x0C' || c == '\r' || c == ' '
            ||| c == '\u{85}' || c == '\u{a0}' || c == '\u{1680}'
            ||| '\u{2000}' as int <= c as int <= '\u{200a}' as int
            ||| c == '\u{2028}' || c == '\u{2029}' || c == '\u{202f}' || c == '\u{205f}' || c
                == '\u{3000}'
        },
        CharClass::Space.has_spec(c) <==> is_space_spec(c),
        CharClass::DashDot.has_spec(c) <==> c == '-' || c == '.',
        CharClass::Alnum.has_spec(c) <==> is_alnum_spec(c),
        CharClass::AlnumDashUnderscore.has_spec(c) <==> is_alnum_spec(c) || c == '-' || c == '_',
        CharClass::AlnumDashUnderscoreDot.has_spec(c) <==> is_alnum_spec(c) || c == '-' || c == '_'
            || c == '.',
{
}

proof fn lemma_trim_front_cuts(s: Seq<char>, class: CharClass) -> (n: int)
    ensures
        0 <= n <= s.len(),
        trim_front_spec(s, class) == s.skip(n),
        forall|i: int| 0 <= i < n ==> class.has_spec(#[trigger] s[i]),
        n < s.len() ==> !class.has_spec(s[n]),
    decreases s.len(),
{
    if s.len() > 0 && class.has_spec(s[0]) {
        let rest = s.drop_first();
        let n = lemma_trim_front_cuts(rest, class);
        assert(rest.skip(n) =~= s.skip(n + 1));
        assert forall|i: int| 0 <= i < n + 1 implies class.has_spec(#[trigger] s[i]) by {
            if i > 0 {
                assert(class.has_spec(rest[i - 1]));
            }
        }
        n + 1
    } else {
        assert(s.skip(0) =~= s);
        0
    }
}

proof fn lemma_trim_back_cuts(s: Seq<char>, class: CharClass) -> (n: int)
    ensures
        0 <= n <= s.len(),
        trim_back_spec(s, class) == s.take(n),
        forall|i: int| n <= i < s.len() ==> class.has_spec(#[trigger] s[i]),
        n > 0 ==> !class.has_spec(s[n - 1]),
    decreases s.len(),
{
    if s.len() > 0 && class.has_spec(s.last()) {
        let init = s.drop_last();
        let n = lemma_trim_back_cuts(init, class);
        assert(init.take(n) =~= s.take(n));
        assert forall|i: int| n <= i < s.len() implies class.has_spec(#[trigger] s[i]) by {
            if i < init.len() {
                assert(class.has_spec(init[i]));
            }
        }
        n
    } else {
        assert(s.take(s.len() as int) =~= s);
        s.len() as int
    }
}

/// Whether `inner` is what lies between characters of a class at both ends of `s`, and does not itself
/// begin or end with one.
pub open spec fn is_core(s: Seq<char>, inner: Seq<char>, class: CharClass) -> bool {
    exists|from: int, to: int|
        {
            &&& 0 <= from <= to <= s.len()
            &&& inner == #[trigger] s.subrange(from, to)
            &&& forall|i: int| 0 <= i < from || to <= i < s.len() ==> class.has_spec(#[trigger] s[i])
            &&& from < to ==> !class.has_spec(s[from]) && !class.has_spec(s[to - 1])
        }
}

/// Trimming takes the characters of the class off both ends, all of them and nothing else. So a text
/// that neither begins nor ends with one stays as it is, and trimming twice is trimming once.
pub proof fn lemma_trim_leaves_the_core(s: Seq<char>, class: CharClass)
    ensures
        is_core(s, trim_class_spec(s, class), class),
        trim_class_spec(s, class).len() == 0 <==> forall|i: int|
            0 <= i < s.len() ==> class.has_spec(#[trigger] s[i]),
        s.len() > 0 && !class.has_spec(s[0]) && !class.has_spec(s.last()) ==> trim_class_spec(
            s,
            class,
        ) == s,
        trim_class_spec(trim_class_spec(s, class), class) == trim_class_spec(s, class),
{
    let from = lemma_trim_front_cuts(s, class);
    let rest = s.skip(from);
    let n = lemma_trim_back_cuts(rest, class);
    let to = from + n;
    let inner = trim_class_spec(s, class);
    assert(inner =~= s.subrange(from, to));
    assert forall|i: int| 0 <= i < from || to <= i < s.len() implies class.has_spec(
        #[trigger] s[i],
    ) by {
        if i >= to {
            assert(class.has_spec(rest[i - from]));
        }
    }
    if from < to {
        assert(rest[n - 1] == s[to - 1]);
        assert(inner[0] == s[from] && inner.last() == s[to - 1]);
        assert(!class.has_spec(inner[0]) && !class.has_spec(inner.last()));
    }
    assert(trim_class_spec(inner, class) == inner);
}

/// Trimming a text takes the white space off it.
pub proof fn lemma_trim_takes_space(s: Seq<char>)
    ensures
        trim_spec(s) == trim_class_spec(s, CharClass::Space),
        is_core(s, trim_spec(s), CharClass::Space),
        is_blank_spec(s) <==> forall|i: int| 0 <= i < s.len() ==> is_space_spec(#[trigger] s[i]),
{
    lemma_trim_leaves_the_core(s, CharClass::Space);
    if is_blank_spec(s) {
        assert forall|i: int| 0 <= i < s.len() implies is_space_spec(#[trigger] s[i]) by {
            assert(CharClass::Space.has_spec(s[i]));
        }
    }
    if forall|i: int| 0 <= i < s.len() ==> is_space_spec(#[trigger] s[i]) {
        assert forall|i: int| 0 <= i < s.len() implies CharClass::Space.has_spec(
            #[trigger] s[i],
        ) by {
            assert(is_space_spec(s[i]));
        }
    }
}

/// Lowering a text changes the letters from A to Z and no other character.
pub proof fn lemma_lower_changes_capitals(s: Seq<char>)
    ensures
        lower_spec(s).len() == s.len(),
        forall|i: int|
            #![trigger lower_spec(s)[i]]
            0 <= i < s.len() ==> {
                &&& 'A' as int <= s[i] as int <= 'Z' as int ==> lower_spec(s)[i] as int - 'a' as int
                    == s[i] as int - 'A' as int
                &&& !('A' as int <= s[i] as int <= 'Z' as int) ==> lower_spec(s)[i] == s[i]
            },
        lower_spec(lower_spec(s)) == lower_spec(s),
        normal_spec(s) == lower_spec(trim_class_spec(s, CharClass::Space)),
{
    assert(lower_spec(lower_spec(s)) =~= lower_spec(s));
    assert forall|i: int| #![trigger lower_spec(s)[i]] 0 <= i < s.len() implies {
        &&& 'A' as int <= s[i] as int <= 'Z' as int ==> lower_spec(s)[i] as int - 'a' as int
            == s[i] as int - 'A' as int
        &&& !('A' as int <= s[i] as int <= 'Z' as int) ==> lower_spec(s)[i] == s[i]
    } by {
        let c = s[i];
        lemma_kinds_of_characters(c);
        assert(lower_spec(s)[i] == lower_char_spec(c));
    }
}

/// Cleaning a text keeps the characters that are allowed where they stand and puts the same one in the
/// place of each other.
pub proof fn lemma_clean_keeps_what_is_allowed(s: Seq<char>, allowed: CharClass, fallback: char)
    ensures
        clean_spec(s, allowed, fallback).len() == s.len(),
        forall|i: int|
            #![trigger clean_spec(s, allowed, fallback)[i]]
            0 <= i < s.len() ==> {
                &&& allowed.has_spec(s[i]) ==> clean_spec(s, allowed, fallback)[i] == s[i]
                &&& !allowed.has_spec(s[i]) ==> clean_spec(s, allowed, fallback)[i] == fallback
            },
{
}

/// The head of a text is its beginning and the tail its end, each as long as asked for or the whole
/// text where that is shorter.
pub proof fn lemma_head_and_tail(s: Seq<char>, n: int)
    requires
        n >= 0,
    ensures
        n >= s.len() ==> head_spec(s, n) == s && tail_spec(s, n) == s,
        n <= s.len() ==> head_spec(s, n).len() == n && tail_spec(s, n).len() == n,
        n <= s.len() ==> s == head_spec(s, n) + s.skip(n),
        n <= s.len() ==> s == s.take(s.len() - n) + tail_spec(s, n),
{
    if n >= s.len() {
        assert(head_spec(s, n) =~= s);
        assert(tail_spec(s, n) =~= s);
    }
    if n <= s.len() {
        assert(s =~= head_spec(s, n) + s.skip(n));
        assert(s =~= s.take(s.len() - n) + tail_spec(s, n));
    }
}

/// A text with something in front of it, or behind it, begins or ends with it, and without it is the
/// text again. Nothing is taken off a text that does not.
pub proof fn lemma_strip_undoes_adding(s: Seq<char>, part: Seq<char>)
    ensures
        strip_prefix_spec(part + s, part) == Some(s),
        strip_suffix_spec(s + part, part) == Some(s),
        starts_with_spec(part + s, part) && ends_with_spec(s + part, part),
        strip_prefix_spec(s, part) is Some ==> s == part + strip_prefix_spec(s, part)->0,
        strip_suffix_spec(s, part) is Some ==> s == strip_suffix_spec(s, part)->0 + part,
        starts_with_spec(s, part) <==> strip_prefix_spec(s, part) is Some,
        ends_with_spec(s, part) <==> strip_suffix_spec(s, part) is Some,
{
    assert((part + s).subrange(0, part.len() as int) =~= part);
    assert((part + s).skip(part.len() as int) =~= s);
    let l = s.len() as int;
    assert((s + part).subrange(l, l + part.len()) =~= part);
    assert((s + part).take(l) =~= s);
    if starts_with_spec(s, part) {
        assert(s =~= s.subrange(0, part.len() as int) + s.skip(part.len() as int));
    }
    if ends_with_spec(s, part) {
        let from = s.len() - part.len();
        assert(s =~= s.take(from) + s.subrange(from, from + part.len()));
    }
}

/// A text contains another wherever it stands in it, whatever is before and behind.
pub proof fn lemma_contains_what_is_there(a: Seq<char>, needle: Seq<char>, b: Seq<char>)
    ensures
        contains_spec(a + needle + b, needle),
{
    let hay = a + needle + b;
    assert(hay.subrange(a.len() as int, (a.len() + needle.len()) as int) =~= needle);
    assert(occurs_at(hay, needle, a.len() as int));
}

/// A text is what comes before the first of a character, that character, and what comes after it. A
/// text without it comes before it as a whole, and nothing after.
pub proof fn lemma_before_and_after(s: Seq<char>, stop: char)
    ensures
        !before_spec(s, stop).contains(stop),
        s.contains(stop) <==> after_first_spec(s, stop) is Some,
        s.contains(stop) ==> s == before_spec(s, stop) + seq![stop] + after_first_spec(s, stop)->0,
        !s.contains(stop) ==> before_spec(s, stop) == s,
    decreases s.len(),
{
    if s.len() == 0 {
        assert(before_spec(s, stop) =~= s);
    } else if s[0] == stop {
        assert(before_spec(s, stop) == Seq::<char>::empty());
        assert(s =~= before_spec(s, stop) + seq![stop] + s.drop_first());
        assert(s.contains(stop));
    } else {
        let rest = s.drop_first();
        lemma_before_and_after(rest, stop);
        assert(before_spec(s, stop) =~= seq![s[0]] + before_spec(rest, stop));
        if s.contains(stop) {
            let i = choose|i: int| 0 <= i < s.len() && s[i] == stop;
            assert(rest[i - 1] == stop);
            assert(s =~= seq![s[0]] + rest);
            assert(s =~= before_spec(s, stop) + seq![stop] + after_first_spec(s, stop)->0);
        }
        if rest.contains(stop) {
            let i = choose|i: int| 0 <= i < rest.len() && rest[i] == stop;
            assert(s[i + 1] == stop);
        }
        if before_spec(s, stop).contains(stop) {
            let i = choose|i: int|
                0 <= i < before_spec(s, stop).len() && before_spec(s, stop)[i] == stop;
            assert(before_spec(rest, stop)[i - 1] == stop);
        }
        if !s.contains(stop) {
            assert(before_spec(s, stop) =~= s);
        }
    }
}

/// Whether a text stands in `s` at `at`, what follows it is `rest`, and it stands nowhere later.
pub open spec fn last_at(s: Seq<char>, needle: Seq<char>, rest: Seq<char>, at: int) -> bool {
    &&& occurs_at(s, needle, at)
    &&& rest == s.skip(at + needle.len())
    &&& forall|j: int| at < j ==> !#[trigger] occurs_at(s, needle, j)
}

proof fn lemma_after_last_from(s: Seq<char>, needle: Seq<char>, i: int)
    requires
        forall|j: int| i < j ==> !#[trigger] occurs_at(s, needle, j),
    ensures
        after_last_from(s, needle, i) is None ==> !contains_spec(s, needle),
        after_last_from(s, needle, i) is Some ==> exists|at: int|
            last_at(s, needle, after_last_from(s, needle, i)->0, at),
    decreases i + 1,
{
    if i >= 0 {
        if occurs_at(s, needle, i) {
            assert(after_last_from(s, needle, i) == Some(s.skip(i + needle.len())));
            assert(last_at(s, needle, after_last_from(s, needle, i)->0, i));
        } else {
            assert forall|j: int| i - 1 < j implies !#[trigger] occurs_at(s, needle, j) by {}
            lemma_after_last_from(s, needle, i - 1);
            assert(after_last_from(s, needle, i) == after_last_from(s, needle, i - 1));
        }
    }
}

/// What comes after the last occurrence of a text is there just where the text occurs, and is all that
/// follows its last occurrence.
pub proof fn lemma_after_the_last(s: Seq<char>, needle: Seq<char>)
    ensures
        after_last_spec(s, needle) is Some <==> contains_spec(s, needle),
        after_last_spec(s, needle) is Some ==> exists|at: int|
            last_at(s, needle, after_last_spec(s, needle)->0, at),
{
    lemma_after_last_from(s, needle, s.len() as int);
    if after_last_spec(s, needle) is Some {
        let at = choose|at: int| last_at(s, needle, after_last_spec(s, needle)->0, at);
        assert(occurs_at(s, needle, at));
    }
}

proof fn lemma_join_last(parts: Seq<Seq<char>>, sep: Seq<char>, c: char)
    requires
        parts.len() > 0,
    ensures
        join_spec(parts.drop_last().push(parts.last().push(c)), sep) == join_spec(parts, sep).push(c),
        join_spec(parts.push(Seq::empty()), sep) == join_spec(parts, sep) + sep,
{
    let longer = parts.drop_last().push(parts.last().push(c));
    assert(longer.drop_last() =~= parts.drop_last());
    assert(longer.last() == parts.last().push(c));
    if parts.len() > 1 {
        assert(join_spec(longer, sep) =~= join_spec(parts, sep).push(c));
    } else {
        assert(longer[0] == parts[0].push(c));
    }
    let more = parts.push(Seq::empty());
    assert(more.drop_last() =~= parts);
    assert(join_spec(more, sep) =~= join_spec(parts, sep) + sep);
}

/// Splitting is undone by joining, and no part holds the separator.
pub proof fn lemma_split_is_undone_by_join(s: Seq<char>, sep: char)
    ensures
        split_spec(s, sep).len() > 0,
        join_spec(split_spec(s, sep), seq![sep]) == s,
        forall|i: int|
            0 <= i < split_spec(s, sep).len() ==> !(#[trigger] split_spec(s, sep)[i]).contains(sep),
    decreases s.len(),
{
    if s.len() == 0 {
        assert(join_spec(split_spec(s, sep), seq![sep]) =~= s);
    } else {
        let init = split_spec(s.drop_last(), sep);
        let all = split_spec(s, sep);
        lemma_split_is_undone_by_join(s.drop_last(), sep);
        lemma_join_last(init, seq![sep], s.last());
        assert(s =~= s.drop_last().push(s.last()));
        if s.last() == sep {
            assert(join_spec(all, seq![sep]) =~= s.drop_last() + seq![sep]);
            assert(s.drop_last() + seq![sep] =~= s);
            assert forall|i: int| 0 <= i < all.len() implies !(#[trigger] all[i]).contains(sep) by {
                if i < init.len() {
                    assert(!init[i].contains(sep));
                }
            }
        } else {
            assert forall|i: int| 0 <= i < all.len() implies !(#[trigger] all[i]).contains(sep) by {
                if i < init.len() - 1 {
                    assert(!init[i].contains(sep));
                } else {
                    let last = init[init.len() - 1];
                    assert(!last.contains(sep));
                    assert(all[i] == last.push(s.last()));
                    if all[i].contains(sep) {
                        let k = choose|k: int| 0 <= k < all[i].len() && all[i][k] == sep;
                        assert(last[k] == sep);
                    }
                }
            }
        }
    }
}

/// Joining puts the separator between every two parts, and nowhere else.
pub proof fn lemma_join_separates(a: Seq<Seq<char>>, b: Seq<Seq<char>>, sep: Seq<char>)
    ensures
        a.len() == 0 ==> join_spec(a, sep) == Seq::<char>::empty(),
        a.len() == 1 ==> join_spec(a, sep) == a[0],
        a.len() > 0 && b.len() > 0 ==> join_spec(a + b, sep) == join_spec(a, sep) + sep + join_spec(
            b,
            sep,
        ),
    decreases b.len(),
{
    if a.len() > 0 && b.len() > 0 {
        assert((a + b).drop_last() =~= a + b.drop_last());
        assert((a + b).last() == b.last());
        if b.len() == 1 {
            assert(a + b.drop_last() =~= a);
        } else {
            lemma_join_separates(a, b.drop_last(), sep);
            assert(join_spec(a + b, sep) =~= join_spec(a, sep) + sep + join_spec(b, sep));
        }
    }
}

/// Whether every character of a text is a digit.
pub open spec fn all_digits(s: Seq<char>) -> bool {
    forall|i: int| 0 <= i < s.len() ==> '0' as int <= (#[trigger] s[i]) as int <= '9' as int
}

proof fn lemma_value_of_a_start(s: Seq<char>, i: int)
    requires
        0 <= i <= s.len(),
        all_digits(s),
    ensures
        digits_value(s.take(i)) <= digits_value(s),
    decreases s.len() - i,
{
    if i < s.len() {
        let longer = s.take(i + 1);
        assert(longer.drop_last() =~= s.take(i));
        lemma_value_of_a_start(s, i + 1);
    } else {
        assert(s.take(i) =~= s);
    }
}

proof fn lemma_read_digits_is_the_value(s: Seq<char>, i: int, acc: nat, max: nat)
    requires
        0 <= i <= s.len(),
        acc == digits_value(s.take(i)),
        acc <= max,
        all_digits(s.take(i)),
    ensures
        read_digits(s, i, acc, max) is Ok <==> all_digits(s) && digits_value(s) <= max,
        read_digits(s, i, acc, max) is Ok ==> read_digits(s, i, acc, max)->Ok_0 == digits_value(s),
        all_digits(s) && digits_value(s) > max ==> read_digits(s, i, acc, max)
            == Err::<nat, NumberError>(NumberError::TooLarge),
    decreases s.len() - i,
{
    if i >= s.len() {
        assert(s.take(i) =~= s);
    } else {
        let longer = s.take(i + 1);
        assert(longer.drop_last() =~= s.take(i));
        assert(longer.last() == s[i]);
        if is_digit_spec(s[i]) {
            let next = acc * 10 + ((s[i] as u32) - 0x30) as nat;
            assert(digits_value(longer) == next);
            assert forall|k: int| 0 <= k < longer.len() implies '0' as int <= (
            #[trigger] longer[k]) as int <= '9' as int by {
                if k < i {
                    assert(s.take(i)[k] == longer[k]);
                }
                lemma_kinds_of_characters(longer[k]);
            }
            if next <= max {
                lemma_read_digits_is_the_value(s, i + 1, next, max);
            } else if all_digits(s) {
                lemma_value_of_a_start(s, i + 1);
            }
        }
    }
}

proof fn lemma_read_digits_shifts(s: Seq<char>, i: int, acc: nat, max: nat)
    requires
        1 <= i,
        s.len() > 0,
    ensures
        read_digits(s, i, acc, max) == read_digits(s.skip(1), i - 1, acc, max),
    decreases s.len() - i,
{
    if i < s.len() {
        assert(s.skip(1)[i - 1] == s[i]);
        let next = acc * 10 + ((s[i] as u32) - 0x30) as nat;
        lemma_read_digits_shifts(s, i + 1, next, max);
    }
}

/// A text is a number just where it is one digit or more, with or without a plus sign in front, and
/// its value is within the bound. It is that value, the one that the same digits are written for.
pub proof fn lemma_numbers_by_value(s: Seq<char>, max: nat)
    ensures
        ({
            let digits = if s.len() > 0 && s[0] == '+' {
                s.skip(1)
            } else {
                s
            };
            &&& number_spec(s, max) is Ok <==> digits.len() > 0 && all_digits(digits)
                && digits_value(digits) <= max
            &&& number_spec(s, max) is Ok ==> number_spec(s, max)->Ok_0 == digits_value(digits)
            &&& number_spec(s, max) == Err::<nat, NumberError>(NumberError::Empty) <==> s.len() == 0
            &&& digits.len() > 0 && all_digits(digits) && digits_value(digits) > max ==> number_spec(
                s,
                max,
            ) == Err::<nat, NumberError>(NumberError::TooLarge)
        }),
{
    if s.len() > 0 && s[0] == '+' {
        let t = s.skip(1);
        lemma_read_digits_shifts(s, 1, 0, max);
        assert(t.take(0) =~= Seq::<char>::empty());
        assert(digits_value(Seq::<char>::empty()) == 0);
        lemma_read_digits_is_the_value(t, 0, 0, max);
    } else if s.len() > 0 {
        assert(s.take(0) =~= Seq::<char>::empty());
        assert(digits_value(Seq::<char>::empty()) == 0);
        lemma_read_digits_is_the_value(s, 0, 0, max);
    }
    lemma_never_empty(s, 0, 0, max);
    lemma_never_empty(s, 1, 0, max);
}

proof fn lemma_never_empty(s: Seq<char>, i: int, acc: nat, max: nat)
    ensures
        read_digits(s, i, acc, max) != Err::<nat, NumberError>(NumberError::Empty),
    decreases s.len() - i,
{
    if i < s.len() {
        let next = acc * 10 + ((s[i] as u32) - 0x30) as nat;
        lemma_never_empty(s, i + 1, next, max);
    }
}

/// A number that is written down and read again is the same.
pub proof fn lemma_number_reads_back(n: nat, max: nat)
    ensures
        n <= max ==> number_spec(dec(n), max) == Ok::<nat, NumberError>(n),
        n > max ==> number_spec(dec(n), max) == Err::<nat, NumberError>(NumberError::TooLarge),
{
    lemma_dec_reads_back(n);
    lemma_numbers_by_value(dec(n), max);
    assert forall|i: int| 0 <= i < dec(n).len() implies '0' as int <= (
    #[trigger] dec(n)[i]) as int <= '9' as int by {
        assert(is_digit_spec(dec(n)[i]));
        lemma_kinds_of_characters(dec(n)[i]);
    }
    assert(is_digit_spec(dec(n)[0]));
}

/// A whole number is written with a minus sign just where it is below zero.
pub proof fn lemma_whole_numbers_are_written(n: int)
    ensures
        n >= 0 ==> dec_int(n) == dec(n as nat),
        n < 0 ==> dec_int(n)[0] == '-' && dec_int(n).skip(1) == dec((-n) as nat),
{
    if n < 0 {
        assert(dec_int(n).skip(1) =~= dec((-n) as nat));
    }
}

/// A padded number is as wide as asked for, or as it needs to be.
pub proof fn lemma_padded_width(n: nat, width: nat)
    ensures
        dec(n).len() <= width ==> dec_padded(n, width).len() == width,
        dec(n).len() > width ==> dec_padded(n, width) == dec(n),
{
    if dec(n).len() > width {
        assert(dec_padded(n, width) =~= dec(n));
    }
}

/// What digits to the base of 16 stand for.
pub open spec fn hex_value(s: Seq<char>) -> nat
    decreases s.len(),
{
    if s.len() == 0 {
        0
    } else {
        hex_value(s.drop_last()) * 16 + (if 'a' as int <= s.last() as int {
            s.last() as int - 'a' as int + 10
        } else {
            s.last() as int - '0' as int
        }) as nat
    }
}

/// Whether each character is a digit or a letter from a to f.
pub open spec fn all_hex(s: Seq<char>) -> bool {
    forall|i: int|
        0 <= i < s.len() ==> ('0' as int <= (#[trigger] s[i]) as int <= '9' as int) || ('a' as int
            <= s[i] as int <= 'f' as int)
}

/// A number written to the base of 16 stands for itself, without zeros in front.
pub proof fn lemma_hex_reads_back(n: nat)
    ensures
        hex_value(hex(n)) == n,
        all_hex(hex(n)),
        hex(n).len() > 0,
        hex(n).len() > 1 ==> hex(n)[0] != '0',
    decreases n,
{
    if n < 16 {
        let s = hex(n);
        assert(s.drop_last() =~= Seq::<char>::empty());
        assert(hex_value(Seq::<char>::empty()) == 0);
    } else {
        let init = hex(n / 16);
        lemma_hex_reads_back(n / 16);
        let s = hex(n);
        assert(s.drop_last() =~= init);
        assert(n == (n / 16) * 16 + n % 16);
        assert forall|i: int| 0 <= i < s.len() implies ('0' as int <= (#[trigger] s[i]) as int
            <= '9' as int) || ('a' as int <= s[i] as int <= 'f' as int) by {
            if i < init.len() {
                assert(s[i] == init[i]);
            }
        }
        if init.len() == 1 {
            if init[0] == '0' {
                assert(init.drop_last() =~= Seq::<char>::empty());
                assert(hex_value(Seq::<char>::empty()) == 0);
                assert(hex_value(init) == 0);
            }
        }
    }
}

/// Texts are ordered by their first difference, by the smaller character there; a text comes before
/// whatever continues it.
pub proof fn lemma_lex_by_first_difference(a: Seq<char>, b: Seq<char>, k: int)
    requires
        0 <= k <= a.len(),
        k <= b.len(),
        forall|i: int| 0 <= i < k ==> (#[trigger] a[i]) == b[i],
    ensures
        k == a.len() ==> (lex_before(a, b) <==> k < b.len()),
        k == b.len() ==> !lex_before(a, b),
        k < a.len() && k < b.len() && a[k] != b[k] ==> (lex_before(a, b) <==> (a[k] as int) < (
        b[k] as int)),
    decreases k,
{
    if k > 0 {
        let x = a.drop_first();
        let y = b.drop_first();
        assert(a[0] == b[0]);
        assert forall|i: int| 0 <= i < k - 1 implies (#[trigger] x[i]) == y[i] by {
            assert(a[i + 1] == b[i + 1]);
        }
        lemma_lex_by_first_difference(x, y, k - 1);
        if k < a.len() {
            assert(x[k - 1] == a[k]);
        }
        if k < b.len() {
            assert(y[k - 1] == b[k]);
        }
    }
}

/// What is said of a text that is no number.
pub proof fn lemma_words_for_number_errors(e: NumberError)
    ensures
        e is Empty ==> e.text_spec() == "cannot parse integer from empty string"@,
        e is InvalidDigit ==> e.text_spec() == "invalid digit found in string"@,
        e is TooLarge ==> e.text_spec() == "number too large to fit in target type"@,
{
}

} // verus!
