//! Character-level text operations used by the matching rules.
//!
//! Strings are reasoned about through their character sequences (`s@`).
use vstd::prelude::*;

verus! {

// ───────────────────────── Specifications ─────────────────────────

/// The Unicode lowercase mapping of a whole string, as computed by
/// `str::to_lowercase`.
pub uninterp spec fn lower(s: Seq<char>) -> Seq<char>;

/// Unicode `White_Space` property of a character, as `char::is_whitespace`
/// reports it.
pub uninterp spec fn char_is_whitespace(c: char) -> bool;

/// `needle` occurs in `hay` starting at position `i`.
pub open spec fn occurs_at(hay: Seq<char>, needle: Seq<char>, i: int) -> bool {
    0 <= i && i + needle.len() <= hay.len() && hay.subrange(i, i + needle.len()) == needle
}

/// Substring containment (the empty needle occurs in every string).
pub open spec fn seq_contains(hay: Seq<char>, needle: Seq<char>) -> bool {
    exists|i: int| occurs_at(hay, needle, i)
}

/// `s` begins with `p`.
pub open spec fn starts_with(s: Seq<char>, p: Seq<char>) -> bool {
    p.len() <= s.len() && s.subrange(0, p.len() as int) == p
}

/// `s` ends with `p`.
pub open spec fn ends_with(s: Seq<char>, p: Seq<char>) -> bool {
    p.len() <= s.len() && s.subrange(s.len() - p.len(), s.len() as int) == p
}

/// Removes every repeated leading occurrence of `p` (nothing when `p` is empty).
pub open spec fn trim_start_matches(s: Seq<char>, p: Seq<char>) -> Seq<char>
    decreases s.len(),
{
    if p.len() > 0 && starts_with(s, p) {
        trim_start_matches(s.subrange(p.len() as int, s.len() as int), p)
    } else {
        s
    }
}

/// Removes every repeated trailing occurrence of `p` (nothing when `p` is empty).
pub open spec fn trim_end_matches(s: Seq<char>, p: Seq<char>) -> Seq<char>
    decreases s.len(),
{
    if p.len() > 0 && ends_with(s, p) {
        trim_end_matches(s.subrange(0, s.len() - p.len()), p)
    } else {
        s
    }
}

/// Removes leading whitespace.
pub open spec fn trim_start(s: Seq<char>) -> Seq<char>
    decreases s.len(),
{
    if s.len() > 0 && char_is_whitespace(s[0]) {
        trim_start(s.drop_first())
    } else {
        s
    }
}

/// Removes trailing whitespace.
pub open spec fn trim_end(s: Seq<char>) -> Seq<char>
    decreases s.len(),
{
    if s.len() > 0 && char_is_whitespace(s.last()) {
        trim_end(s.drop_last())
    } else {
        s
    }
}

/// Removes leading and trailing whitespace, as `str::trim` does.
pub open spec fn trim(s: Seq<char>) -> Seq<char> {
    trim_end(trim_start(s))
}

/// The first `n` characters of `s`, or all of `s` when it is shorter.
pub open spec fn prefix(s: Seq<char>, n: nat) -> Seq<char> {
    if s.len() <= n {
        s
    } else {
        s.subrange(0, n as int)
    }
}

/// The ASCII digit for `d` (`d < 10`).
pub open spec fn digit_char(d: nat) -> char {
    if d == 0 { '0' }
    else if d == 1 { '1' }
    else if d == 2 { '2' }
    else if d == 3 { '3' }
    else if d == 4 { '4' }
    else if d == 5 { '5' }
    else if d == 6 { '6' }
    else if d == 7 { '7' }
    else if d == 8 { '8' }
    else { '9' }
}

/// The decimal representation of `n`, without leading zeros.
pub open spec fn decimal(n: nat) -> Seq<char>
    decreases n,
{
    if n < 10 {
        seq![digit_char(n)]
    } else {
        decimal(n / 10).push(digit_char(n % 10))
    }
}

/// The view of an optional string slice.
pub open spec fn opt_str_view(o: Option<&str>) -> Option<Seq<char>> {
    match o {
        Some(s) => Some(s@),
        None => None,
    }
}

/// The view of an optional string.
pub open spec fn opt_string_view(o: Option<String>) -> Option<Seq<char>> {
    match o {
        Some(s) => Some(s@),
        None => None,
    }
}

// ───────────────────────── Outside calls ─────────────────────────

/// `str::to_lowercase`: the result is named `lower` of the argument; the
/// Unicode case tables themselves are not restated here.
#[verifier::external_body]
pub(crate) fn to_lower(s: &str) -> (r: String)
    ensures
        r@ == lower(s@),
{
    s.to_lowercase()
}

/// `char::is_whitespace`: whether `c` has the Unicode `White_Space`
/// property, named `char_is_whitespace`.
#[verifier::external_body]
fn is_whitespace(c: char) -> (b: bool)
    ensures
        b == char_is_whitespace(c),
{
    c.is_whitespace()
}

/// `String::push`: appends `c` to the end of `s`.
#[verifier::external_body]
fn push_char(s: &mut String, c: char)
    ensures
        final(s)@ == old(s)@.push(c),
{
    s.push(c);
}

// ───────────────────────── Executable operations ─────────────────────────

/// Collects the characters of a string slice.
pub fn chars_of(s: &str) -> (v: Vec<char>)
    ensures
        v@ == s@,
{
    broadcast use vstd::string::group_string_axioms;

    let mut v: Vec<char> = Vec::new();
    for c in it: s.chars()
        invariant
            v@ == it.seq().take(it.index() as int),
    {
        v.push(c);
    }
    v
}

/// Builds a string holding exactly the characters `v[from..to]`.
pub fn string_from_range(v: &Vec<char>, from: usize, to: usize) -> (s: String)
    requires
        from <= to <= v.len(),
    ensures
        s@ == v@.subrange(from as int, to as int),
{
    let mut s = String::new();
    let mut i = from;
    while i < to
        invariant
            from <= i <= to <= v.len(),
            s@ == v@.subrange(from as int, i as int),
        decreases to - i,
    {
        push_char(&mut s, v[i]);
        i = i + 1;
        assert(s@ =~= v@.subrange(from as int, i as int));
    }
    s
}

/// Builds a string from a character vector.
pub fn string_from_chars(v: &Vec<char>) -> (s: String)
    ensures
        s@ == v@,
{
    let s = string_from_range(v, 0, v.len());
    assert(v@.subrange(0, v.len() as int) =~= v@);
    s
}

/// Appends the characters of `t` to `s`.
pub fn push_str(s: &mut String, t: &str)
    ensures
        final(s)@ == old(s)@ + t@,
{
    let tv = chars_of(t);
    let mut i: usize = 0;
    while i < tv.len()
        invariant
            i <= tv.len(),
            tv@ == t@,
            s@ == old(s)@ + tv@.subrange(0, i as int),
        decreases tv.len() - i,
    {
        push_char(s, tv[i]);
        i = i + 1;
        assert(s@ =~= old(s)@ + tv@.subrange(0, i as int));
    }
    assert(tv@.subrange(0, tv.len() as int) =~= tv@);
}

/// Character-wise equality of two strings.
pub fn str_eq(a: &str, b: &str) -> (r: bool)
    ensures
        r == (a@ == b@),
{
    let x = chars_of(a);
    let y = chars_of(b);
    if x.len() != y.len() {
        return false;
    }
    let mut i: usize = 0;
    while i < x.len()
        invariant
            x@ == a@,
            y@ == b@,
            x.len() == y.len(),
            i <= x.len(),
            forall|k: int| 0 <= k < i ==> x@[k] == y@[k],
        decreases x.len() - i,
    {
        if x[i] != y[i] {
            return false;
        }
        i = i + 1;
    }
    assert(x@ =~= y@);
    true
}

/// Whether `needle` occurs in `hay` at position `i`.
fn occurs_at_exec(hay: &Vec<char>, needle: &Vec<char>, i: usize) -> (r: bool)
    requires
        i + needle.len() <= hay.len(),
    ensures
        r == occurs_at(hay@, needle@, i as int),
{
    let mut j: usize = 0;
    while j < needle.len()
        invariant
            i + needle.len() <= hay.len(),
            j <= needle.len(),
            forall|k: int| 0 <= k < j ==> hay@[i + k] == needle@[k],
        decreases needle.len() - j,
    {
        if hay[i + j] != needle[j] {
            assert(hay@.subrange(i as int, i + needle.len())[j as int] != needle@[j as int]);
            return false;
        }
        j = j + 1;
    }
    assert(hay@.subrange(i as int, i + needle.len()) =~= needle@);
    true
}

/// Substring containment on character vectors.
pub fn chars_contains(hay: &Vec<char>, needle: &Vec<char>) -> (r: bool)
    ensures
        r == seq_contains(hay@, needle@),
{
    if needle.len() > hay.len() {
        return false;
    }
    let last = hay.len() - needle.len();
    let mut i: usize = 0;
    while i <= last
        invariant
            last + needle.len() == hay.len(),
            i <= last + 1,
            forall|k: int| 0 <= k < i ==> !occurs_at(hay@, needle@, k),
        decreases last + 1 - i,
    {
        if occurs_at_exec(hay, needle, i) {
            return true;
        }
        if i == last {
            return false;
        }
        i = i + 1;
    }
    false
}

/// Substring containment on strings (`str::contains` with a string pattern).
pub fn str_contains(hay: &str, needle: &str) -> (r: bool)
    ensures
        r == seq_contains(hay@, needle@),
{
    let h = chars_of(hay);
    let n = chars_of(needle);
    chars_contains(&h, &n)
}

/// The first `n` characters of `s`.
pub fn take_chars(s: &str, n: usize) -> (r: String)
    ensures
        r@ == prefix(s@, n as nat),
{
    let v = chars_of(s);
    if v.len() <= n {
        string_from_chars(&v)
    } else {
        string_from_range(&v, 0, n)
    }
}

/// The digit character for `d < 10`.
fn digit(d: usize) -> (c: char)
    requires
        d < 10,
    ensures
        c == digit_char(d as nat),
{
    if d == 0 { '0' }
    else if d == 1 { '1' }
    else if d == 2 { '2' }
    else if d == 3 { '3' }
    else if d == 4 { '4' }
    else if d == 5 { '5' }
    else if d == 6 { '6' }
    else if d == 7 { '7' }
    else if d == 8 { '8' }
    else { '9' }
}

/// Decimal representation of an unsigned integer.
pub fn usize_to_decimal(n: usize) -> (s: String)
    ensures
        s@ == decimal(n as nat),
    decreases n,
{
    if n < 10 {
        let mut s = String::new();
        push_char(&mut s, digit(n));
        assert(s@ =~= seq![digit_char(n as nat)]);
        s
    } else {
        let mut s = usize_to_decimal(n / 10);
        push_char(&mut s, digit(n % 10));
        s
    }
}

/// Decimal representation of a signed integer (a leading `-` for negatives).
pub fn i64_to_decimal(n: i64) -> (s: String)
    ensures
        s@ == (if n < 0 { seq!['-'] + decimal((-n) as nat) } else { decimal(n as nat) }),
{
    if n < 0 {
        let m: u64 = if n == i64::MIN {
            9223372036854775808u64
        } else {
            (-n) as u64
        };
        let mut s = String::new();
        push_char(&mut s, '-');
        let d = u64_to_decimal(m);
        push_str(&mut s, d.as_str());
        assert(s@ =~= seq!['-'] + decimal((-n) as nat));
        s
    } else {
        u64_to_decimal(n as u64)
    }
}

/// Decimal representation of a 64-bit unsigned integer.
pub fn u64_to_decimal(n: u64) -> (s: String)
    ensures
        s@ == decimal(n as nat),
    decreases n,
{
    if n < 10 {
        let mut s = String::new();
        push_char(&mut s, digit(n as usize));
        assert(s@ =~= seq![digit_char(n as nat)]);
        s
    } else {
        let mut s = u64_to_decimal(n / 10);
        push_char(&mut s, digit((n % 10) as usize));
        s
    }
}

/// Index of the first character of `v[from..to]` that is not whitespace
/// (or `to`), so that `trim_start(v[from..to]) == v[result..to]`.
fn skip_leading_whitespace(v: &Vec<char>, from: usize, to: usize) -> (r: usize)
    requires
        from <= to <= v.len(),
    ensures
        from <= r <= to,
        trim_start(v@.subrange(from as int, to as int)) == v@.subrange(r as int, to as int),
{
    let mut i = from;
    while i < to && is_whitespace(v[i])
        invariant
            from <= i <= to <= v.len(),
            trim_start(v@.subrange(from as int, to as int)) == trim_start(
                v@.subrange(i as int, to as int),
            ),
        decreases to - i,
    {
        assert(v@.subrange(i as int, to as int).drop_first() =~= v@.subrange(i + 1, to as int));
        i = i + 1;
    }
    if i < to {
        assert(v@.subrange(i as int, to as int)[0] == v@[i as int]);
    }
    i
}

/// Index just past the last character of `v[from..to]` that is not
/// whitespace (or `from`), so that `trim_end(v[from..to]) == v[from..result]`.
fn skip_trailing_whitespace(v: &Vec<char>, from: usize, to: usize) -> (r: usize)
    requires
        from <= to <= v.len(),
    ensures
        from <= r <= to,
        trim_end(v@.subrange(from as int, to as int)) == v@.subrange(from as int, r as int),
{
    let mut j = to;
    while j > from && is_whitespace(v[j - 1])
        invariant
            from <= j <= to <= v.len(),
            trim_end(v@.subrange(from as int, to as int)) == trim_end(
                v@.subrange(from as int, j as int),
            ),
        decreases j - from,
    {
        assert(v@.subrange(from as int, j as int).drop_last() =~= v@.subrange(
            from as int,
            j - 1,
        ));
        j = j - 1;
    }
    if j > from {
        assert(v@.subrange(from as int, j as int).last() == v@[j - 1]);
    }
    j
}

/// Whether a string is empty or all whitespace (`str::trim` leaves nothing).
pub fn is_blank(s: &str) -> (r: bool)
    ensures
        r == (trim(s@).len() == 0),
{
    let v = chars_of(s);
    let n = v.len();
    let a = skip_leading_whitespace(&v, 0, n);
    let b = skip_trailing_whitespace(&v, a, n);
    proof {
        assert(v@.subrange(0, n as int) =~= v@);
    }
    a == b
}

/// Whether `p` occurs in `v` at position `i` (false when it would not fit
/// before `to`).
fn matches_at(v: &Vec<char>, p: &Vec<char>, i: usize, to: usize) -> (r: bool)
    requires
        i <= to <= v.len(),
    ensures
        r == starts_with(v@.subrange(i as int, to as int), p@),
{
    if p.len() > to - i {
        return false;
    }
    let b = occurs_at_exec(v, p, i);
    assert(v@.subrange(i as int, to as int).subrange(0, p.len() as int) =~= v@.subrange(
        i as int,
        i + p.len(),
    ));
    b
}

/// `str::trim_start_matches` over `v[from..to]`: the start index of what remains.
fn skip_leading_pattern(v: &Vec<char>, p: &Vec<char>, from: usize, to: usize) -> (r: usize)
    requires
        from <= to <= v.len(),
    ensures
        from <= r <= to,
        trim_start_matches(v@.subrange(from as int, to as int), p@) == v@.subrange(
            r as int,
            to as int,
        ),
{
    if p.len() == 0 {
        return from;
    }
    let mut i = from;
    while matches_at(v, p, i, to)
        invariant
            from <= i <= to <= v.len(),
            p.len() > 0,
            trim_start_matches(v@.subrange(from as int, to as int), p@) == trim_start_matches(
                v@.subrange(i as int, to as int),
                p@,
            ),
        decreases to - i,
    {
        let ghost s = v@.subrange(i as int, to as int);
        assert(s.subrange(p.len() as int, s.len() as int) =~= v@.subrange(
            i + p.len(),
            to as int,
        ));
        i = i + p.len();
    }
    i
}

/// Whether `p` is a suffix of `v[from..to]`.
fn matches_before(v: &Vec<char>, p: &Vec<char>, from: usize, to: usize) -> (r: bool)
    requires
        from <= to <= v.len(),
    ensures
        r == ends_with(v@.subrange(from as int, to as int), p@),
{
    if p.len() > to - from {
        return false;
    }
    let b = occurs_at_exec(v, p, to - p.len());
    let ghost s = v@.subrange(from as int, to as int);
    assert(s.subrange(s.len() - p.len(), s.len() as int) =~= v@.subrange(
        to - p.len(),
        to as int,
    ));
    b
}

/// `str::trim_end_matches` over `v[from..to]`: the end index of what remains.
fn skip_trailing_pattern(v: &Vec<char>, p: &Vec<char>, from: usize, to: usize) -> (r: usize)
    requires
        from <= to <= v.len(),
    ensures
        from <= r <= to,
        trim_end_matches(v@.subrange(from as int, to as int), p@) == v@.subrange(
            from as int,
            r as int,
        ),
{
    if p.len() == 0 {
        return to;
    }
    let mut j = to;
    while matches_before(v, p, from, j)
        invariant
            from <= j <= to <= v.len(),
            p.len() > 0,
            trim_end_matches(v@.subrange(from as int, to as int), p@) == trim_end_matches(
                v@.subrange(from as int, j as int),
                p@,
            ),
        decreases j - from,
    {
        let ghost s = v@.subrange(from as int, j as int);
        assert(s.subrange(0, s.len() - p.len()) =~= v@.subrange(from as int, j - p.len()));
        j = j - p.len();
    }
    j
}

/// The framing that a model reply may carry around a JSON payload: the reply
/// trimmed, stripped of leading "```json" and "```" fences and of trailing
/// "```" fences, and trimmed again.
pub open spec fn strip_code_fences_spec(raw: Seq<char>) -> Seq<char> {
    trim(
        trim_end_matches(
            trim_start_matches(trim_start_matches(trim(raw), "```json"@), "```"@),
            "```"@,
        ),
    )
}

/// Strips Markdown code fences and surrounding whitespace from a model reply.
pub fn strip_code_fences(raw: &str) -> (r: String)
    ensures
        r@ == strip_code_fences_spec(raw@),
{
    let v = chars_of(raw);
    let json_fence = chars_of("```json");
    let fence = chars_of("```");
    let n = v.len();
    let a = skip_leading_whitespace(&v, 0, n);
    let b = skip_trailing_whitespace(&v, a, n);
    let c = skip_leading_pattern(&v, &json_fence, a, b);
    let d = skip_leading_pattern(&v, &fence, c, b);
    let e = skip_trailing_pattern(&v, &fence, d, b);
    let f = skip_leading_whitespace(&v, d, e);
    let g = skip_trailing_whitespace(&v, f, e);
    proof {
        assert(v@.subrange(0, n as int) =~= v@);
    }
    string_from_range(&v, f, g)
}

} // verus!
