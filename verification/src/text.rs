//! Character-level text helpers shared by the normalisation code.
//!
//! Strings are modelled by their view, a `Seq<char>`; every helper here is
//! stated over that view.
use vstd::prelude::*;

verus! {

/// `char::is_whitespace`: the Unicode `White_Space` property.
pub open spec fn is_ws(c: char) -> bool {
    ||| ('\u{9}' <= c && c <= '\u{d}')
    ||| c == ' '
    ||| c == '\u{85}'
    ||| c == '\u{a0}'
    ||| c == '\u{1680}'
    ||| ('\u{2000}' <= c && c <= '\u{200a}')
    ||| c == '\u{2028}'
    ||| c == '\u{2029}'
    ||| c == '\u{202f}'
    ||| c == '\u{205f}'
    ||| c == '\u{3000}'
}

/// The text with its leading whitespace removed.
pub open spec fn trim_front(s: Seq<char>) -> Seq<char>
    decreases s.len(),
{
    if s.len() > 0 && is_ws(s[0]) {
        trim_front(s.drop_first())
    } else {
        s
    }
}

/// The text with its trailing whitespace removed.
pub open spec fn trim_back(s: Seq<char>) -> Seq<char>
    decreases s.len(),
{
    if s.len() > 0 && is_ws(s.last()) {
        trim_back(s.drop_last())
    } else {
        s
    }
}

/// `str::trim`: both ends without whitespace.
pub open spec fn trimmed(s: Seq<char>) -> Seq<char> {
    trim_back(trim_front(s))
}

/// `char::to_ascii_lowercase`.
pub open spec fn ascii_lower_char(c: char) -> char {
    if 'A' <= c && c <= 'Z' {
        ((c as u32) + 32) as char
    } else {
        c
    }
}

/// `char::to_ascii_uppercase`.
pub open spec fn ascii_upper_char(c: char) -> char {
    if 'a' <= c && c <= 'z' {
        ((c as u32) - 32) as char
    } else {
        c
    }
}

/// `str::to_ascii_lowercase`.
pub open spec fn ascii_lower(s: Seq<char>) -> Seq<char> {
    s.map_values(|c: char| ascii_lower_char(c))
}

/// `str::to_ascii_uppercase`.
pub open spec fn ascii_upper(s: Seq<char>) -> Seq<char> {
    s.map_values(|c: char| ascii_upper_char(c))
}

/// `char::is_ascii_alphanumeric`.
pub open spec fn is_ascii_alnum(c: char) -> bool {
    ||| ('0' <= c && c <= '9')
    ||| ('a' <= c && c <= 'z')
    ||| ('A' <= c && c <= 'Z')
}

/// Whether `s` begins with `p`.
pub open spec fn has_prefix(s: Seq<char>, p: Seq<char>) -> bool {
    p.len() <= s.len() && s.subrange(0, p.len() as int) == p
}

/// Upper-case form of a text by Unicode's case tables, as `str::to_uppercase`
/// computes it.
pub uninterp spec fn unicode_upper(s: Seq<char>) -> Seq<char>;

/// `str::to_uppercase`. Its result is only named here, never spelled out:
/// the Unicode case tables are what decide it.
#[verifier::external_body]
pub(crate) fn to_unicode_uppercase(s: &str) -> (out: String)
    ensures
        out@ == unicode_upper(s@),
{
    s.to_uppercase()
}

/// Lower-case form of a text by Unicode's case tables, as `str::to_lowercase`
/// computes it.
pub uninterp spec fn unicode_lower(s: Seq<char>) -> Seq<char>;

/// `str::to_lowercase`. Its result is only named here, never spelled out:
/// the Unicode case tables are what decide it.
#[verifier::external_body]
pub(crate) fn to_unicode_lowercase(s: &str) -> (out: String)
    ensures
        out@ == unicode_lower(s@),
{
    s.to_lowercase()
}

/// Whether `p` occurs in `s` as a contiguous part.
pub open spec fn contains_sub(s: Seq<char>, p: Seq<char>) -> bool {
    exists|i: int| 0 <= i && i + p.len() <= s.len() && #[trigger] s.subrange(i, i + p.len()) == p
}

/// Whether `p` occurs in `s` at position `i`.
pub open spec fn occurs_at(s: Seq<char>, p: Seq<char>, i: int) -> bool {
    0 <= i && i + p.len() <= s.len() && forall|k: int| 0 <= k < p.len() ==> #[trigger] s[i + k] == p[k]
}

fn occurs_at_exec(s: &Vec<char>, p: &Vec<char>, i: usize) -> (b: bool)
    requires
        i + p@.len() <= s@.len(),
    ensures
        b == occurs_at(s@, p@, i as int),
{
    let n = s.len();
    let mut k: usize = 0;
    while k < p.len()
        invariant
            n == s@.len(),
            i + p@.len() <= s@.len(),
            k <= p@.len(),
            forall|m: int| 0 <= m < k ==> #[trigger] s@[i + m] == p@[m],
        decreases p.len() - k,
    {
        if s[i + k] != p[k] {
            return false;
        }
        k = k + 1;
    }
    true
}

/// Whether `s` starts with `prefix`.
pub fn starts_with_text(s: &str, prefix: &str) -> (b: bool)
    ensures
        b == has_prefix(s@, prefix@),
{
    let cs = chars_of(s);
    let ps = chars_of(prefix);
    if ps.len() > cs.len() {
        return false;
    }
    let b = occurs_at_exec(&cs, &ps, 0);
    proof {
        if b {
            assert forall|k: int| 0 <= k < ps@.len() implies #[trigger] cs@.subrange(0, ps@.len() as int)[k]
                == ps@[k] by {
                assert(cs@[0 + k] == ps@[k]);
            }
            assert(cs@.subrange(0, ps@.len() as int) =~= ps@);
        } else {
            if cs@.subrange(0, ps@.len() as int) == ps@ {
                assert forall|k: int| 0 <= k < ps@.len() implies #[trigger] cs@[0 + k] == ps@[k] by {
                    assert(cs@.subrange(0, ps@.len() as int)[k] == cs@[k]);
                }
            }
        }
    }
    b
}

/// Whether `needle` occurs in `s`.
pub fn contains_text(s: &str, needle: &str) -> (b: bool)
    ensures
        b == contains_sub(s@, needle@),
{
    let cs = chars_of(s);
    let ps = chars_of(needle);
    if ps.len() > cs.len() {
        return false;
    }
    let last = cs.len() - ps.len();
    let mut i: usize = 0;
    loop
        invariant
            last + ps@.len() == cs@.len(),
            cs@ == s@,
            ps@ == needle@,
            i <= last,
            forall|j: int| 0 <= j < i ==> !occurs_at(cs@, ps@, j),
        decreases last - i,
    {
        if occurs_at_exec(&cs, &ps, i) {
            assert forall|k: int| 0 <= k < ps@.len() implies #[trigger] cs@.subrange(i as int, i + ps@.len())[k]
                == ps@[k] by {
                assert(cs@[i + k] == ps@[k]);
            }
            assert(cs@.subrange(i as int, i + ps@.len()) =~= ps@);
            return true;
        }
        if i == last {
            proof {
                if contains_sub(s@, needle@) {
                    let j = choose|j: int|
                        0 <= j && j + ps@.len() <= cs@.len() && #[trigger] cs@.subrange(j, j + ps@.len()) == ps@;
                    assert forall|k: int| 0 <= k < ps@.len() implies #[trigger] cs@[j + k] == ps@[k] by {
                        assert(cs@.subrange(j, j + ps@.len())[k] == cs@[j + k]);
                    }
                    assert(occurs_at(cs@, ps@, j));
                }
            }
            return false;
        }
        i = i + 1;
    }
}

/// `String::push`: appends one character.
#[verifier::external_body]
pub(crate) fn push_char(s: &mut String, c: char)
    ensures
        final(s)@ == old(s)@.push(c),
{
    s.push(c);
}

/// The characters of a string slice, in order.
pub fn chars_of(s: &str) -> (out: Vec<char>)
    ensures
        out@ == s@,
{
    let mut out: Vec<char> = Vec::new();
    let n = s.unicode_len();
    let mut i: usize = 0;
    while i < n
        invariant
            i <= n,
            n == s@.len(),
            out@ == s@.subrange(0, i as int),
        decreases n - i,
    {
        out.push(s.get_char(i));
        i = i + 1;
        assert(out@ =~= s@.subrange(0, i as int));
    }
    assert(out@ =~= s@);
    out
}

/// A string made of `cs[from..to]`.
pub fn string_of(cs: &Vec<char>, from: usize, to: usize) -> (out: String)
    requires
        from <= to <= cs@.len(),
    ensures
        out@ == cs@.subrange(from as int, to as int),
{
    let mut out = String::new();
    let mut i = from;
    while i < to
        invariant
            from <= i <= to <= cs@.len(),
            out@ == cs@.subrange(from as int, i as int),
        decreases to - i,
    {
        push_char(&mut out, cs[i]);
        i = i + 1;
        assert(out@ =~= cs@.subrange(from as int, i as int));
    }
    out
}

/// A copy of a string slice as an owned string.
pub fn owned(s: &str) -> (out: String)
    ensures
        out@ == s@,
{
    let cs = chars_of(s);
    string_of(&cs, 0, cs.len())
}

/// Appends a string slice to an owned string.
pub fn append_str(out: &mut String, s: &str)
    ensures
        final(out)@ == old(out)@ + s@,
{
    let cs = chars_of(s);
    let mut i: usize = 0;
    while i < cs.len()
        invariant
            i <= cs@.len(),
            cs@ == s@,
            out@ == old(out)@ + cs@.subrange(0, i as int),
        decreases cs.len() - i,
    {
        push_char(out, cs[i]);
        i = i + 1;
        assert(out@ =~= old(out)@ + cs@.subrange(0, i as int));
    }
    assert(cs@.subrange(0, i as int) =~= s@);
}

pub fn is_ws_char(c: char) -> (b: bool)
    ensures
        b == is_ws(c),
{
    ('\u{9}' <= c && c <= '\u{d}') || c == ' ' || c == '\u{85}' || c == '\u{a0}' || c
        == '\u{1680}' || ('\u{2000}' <= c && c <= '\u{200a}') || c == '\u{2028}' || c == '\u{2029}'
        || c == '\u{202f}' || c == '\u{205f}' || c == '\u{3000}'
}

proof fn lemma_trim_front_skip(s: Seq<char>, i: int)
    requires
        0 <= i < s.len(),
        is_ws(s[i]),
    ensures
        trim_front(s.subrange(i, s.len() as int)) == trim_front(s.subrange(i + 1, s.len() as int)),
{
    let t = s.subrange(i, s.len() as int);
    assert(t.drop_first() =~= s.subrange(i + 1, s.len() as int));
}

proof fn lemma_trim_back_skip(s: Seq<char>, j: int)
    requires
        0 < j <= s.len(),
        is_ws(s[j - 1]),
    ensures
        trim_back(s.subrange(0, j)) == trim_back(s.subrange(0, j - 1)),
{
    let t = s.subrange(0, j);
    assert(t.drop_last() =~= s.subrange(0, j - 1));
}

/// The bounds `[i, j)` of the trimmed part of `cs`.
pub fn trim_bounds(cs: &Vec<char>) -> (r: (usize, usize))
    ensures
        r.0 <= r.1 <= cs@.len(),
        cs@.subrange(r.0 as int, r.1 as int) == trimmed(cs@),
{
    let n = cs.len();
    let mut i: usize = 0;
    assert(cs@.subrange(0, n as int) =~= cs@);
    while i < n && is_ws_char(cs[i])
        invariant
            i <= n == cs@.len(),
            trim_front(cs@) == trim_front(cs@.subrange(i as int, n as int)),
        decreases n - i,
    {
        proof {
            lemma_trim_front_skip(cs@, i as int);
        }
        i = i + 1;
    }
    let ghost front = cs@.subrange(i as int, n as int);
    assert(trim_front(front) == front);
    let mut j: usize = n;
    assert(front.subrange(0, (j - i) as int) =~= front);
    while j > i && is_ws_char(cs[j - 1])
        invariant
            i <= j <= n == cs@.len(),
            front == cs@.subrange(i as int, n as int),
            trim_back(front) == trim_back(front.subrange(0, (j - i) as int)),
        decreases j,
    {
        proof {
            lemma_trim_back_skip(front, (j - i) as int);
            assert(front.subrange(0, (j - i) as int - 1) =~= front.subrange(0, (j - 1 - i) as int));
        }
        j = j - 1;
    }
    let ghost fin = front.subrange(0, (j - i) as int);
    assert(trim_back(fin) == fin);
    assert(fin =~= cs@.subrange(i as int, j as int));
    (i, j)
}

/// `str::trim`, as an owned string.
pub fn trim_owned(s: &str) -> (out: String)
    ensures
        out@ == trimmed(s@),
{
    let cs = chars_of(s);
    let (i, j) = trim_bounds(&cs);
    string_of(&cs, i, j)
}

pub fn lower_char(c: char) -> (out: char)
    ensures
        out == ascii_lower_char(c),
{
    if 'A' <= c && c <= 'Z' {
        ((c as u8) + 32) as char
    } else {
        c
    }
}

pub fn upper_char(c: char) -> (out: char)
    ensures
        out == ascii_upper_char(c),
{
    if 'a' <= c && c <= 'z' {
        ((c as u8) - 32) as char
    } else {
        c
    }
}

/// `str::to_ascii_lowercase` of `cs[from..to]`.
pub fn lower_of(cs: &Vec<char>, from: usize, to: usize) -> (out: String)
    requires
        from <= to <= cs@.len(),
    ensures
        out@ == ascii_lower(cs@.subrange(from as int, to as int)),
{
    let mut out = String::new();
    let mut i = from;
    while i < to
        invariant
            from <= i <= to <= cs@.len(),
            out@ == ascii_lower(cs@.subrange(from as int, i as int)),
        decreases to - i,
    {
        push_char(&mut out, lower_char(cs[i]));
        i = i + 1;
        assert(out@ =~= ascii_lower(cs@.subrange(from as int, i as int)));
    }
    out
}

/// `str::to_ascii_uppercase` of `cs[from..to]`.
pub fn upper_of(cs: &Vec<char>, from: usize, to: usize) -> (out: String)
    requires
        from <= to <= cs@.len(),
    ensures
        out@ == ascii_upper(cs@.subrange(from as int, to as int)),
{
    let mut out = String::new();
    let mut i = from;
    while i < to
        invariant
            from <= i <= to <= cs@.len(),
            out@ == ascii_upper(cs@.subrange(from as int, i as int)),
        decreases to - i,
    {
        push_char(&mut out, upper_char(cs[i]));
        i = i + 1;
        assert(out@ =~= ascii_upper(cs@.subrange(from as int, i as int)));
    }
    out
}

/// `s.trim().to_ascii_lowercase()`.
pub fn trim_lower(s: &str) -> (out: String)
    ensures
        out@ == ascii_lower(trimmed(s@)),
{
    let cs = chars_of(s);
    let (i, j) = trim_bounds(&cs);
    lower_of(&cs, i, j)
}

/// `s.trim().to_ascii_uppercase()`.
pub fn trim_upper(s: &str) -> (out: String)
    ensures
        out@ == ascii_upper(trimmed(s@)),
{
    let cs = chars_of(s);
    let (i, j) = trim_bounds(&cs);
    upper_of(&cs, i, j)
}

/// `s.trim().is_empty()`.
pub fn is_blank(s: &str) -> (b: bool)
    ensures
        b == (trimmed(s@).len() == 0),
{
    let cs = chars_of(s);
    let (i, j) = trim_bounds(&cs);
    i == j
}

/// Whether two texts are equal character by character.
pub fn str_eq(a: &str, b: &str) -> (r: bool)
    ensures
        r == (a@ == b@),
{
    let x = chars_of(a);
    let y = chars_of(b);
    if x.len() != y.len() {
        return false;
    }
    let mut i: usize = 0;
    while i < x.len()
        invariant
            i <= x@.len() == y@.len(),
            x@ == a@,
            y@ == b@,
            x@.subrange(0, i as int) == y@.subrange(0, i as int),
        decreases x.len() - i,
    {
        if x[i] != y[i] {
            assert(x@[i as int] != y@[i as int]);
            return false;
        }
        i = i + 1;
        assert(x@.subrange(0, i as int) =~= y@.subrange(0, i as int));
    }
    assert(x@ =~= x@.subrange(0, i as int));
    assert(y@ =~= y@.subrange(0, i as int));
    true
}

/// `str::eq_ignore_ascii_case`.
pub fn eq_ignore_ascii_case(a: &str, b: &str) -> (r: bool)
    ensures
        r == (ascii_lower(a@) == ascii_lower(b@)),
{
    let x = chars_of(a);
    let y = chars_of(b);
    if x.len() != y.len() {
        assert(ascii_lower(a@).len() != ascii_lower(b@).len());
        return false;
    }
    let mut i: usize = 0;
    while i < x.len()
        invariant
            i <= x@.len() == y@.len(),
            x@ == a@,
            y@ == b@,
            forall|k: int| 0 <= k < i ==> ascii_lower_char(x@[k]) == ascii_lower_char(y@[k]),
        decreases x.len() - i,
    {
        if lower_char(x[i]) != lower_char(y[i]) {
            assert(ascii_lower(a@)[i as int] != ascii_lower(b@)[i as int]);
            return false;
        }
        i = i + 1;
    }
    assert(ascii_lower(a@) =~= ascii_lower(b@));
    true
}

/// Position of the first `c` in `s`, as `str::find` with a `char` counts it in
/// characters.
pub open spec fn first_index_of(s: Seq<char>, c: char) -> Option<int> {
    if exists|k: int| 0 <= k < s.len() && s[k] == c {
        Some(choose|k: int| 0 <= k < s.len() && s[k] == c && forall|m: int| 0 <= m < k ==> s[m] != c)
    } else {
        None
    }
}

/// Index of the first `c` in `cs`.
pub fn find_char(cs: &Vec<char>, c: char) -> (r: Option<usize>)
    ensures
        match r {
            Some(k) => k < cs@.len() && cs@[k as int] == c && forall|m: int|
                0 <= m < k ==> cs@[m] != c,
            None => forall|m: int| 0 <= m < cs@.len() ==> cs@[m] != c,
        },
        r matches Some(k) ==> first_index_of(cs@, c) == Some(k as int),
        r is None ==> first_index_of(cs@, c) is None,
{
    let mut i: usize = 0;
    while i < cs.len()
        invariant
            i <= cs@.len(),
            forall|m: int| 0 <= m < i ==> cs@[m] != c,
        decreases cs.len() - i,
    {
        if cs[i] == c {
            proof {
                let k = choose|k: int|
                    0 <= k < cs@.len() && cs@[k] == c && forall|m: int| 0 <= m < k ==> cs@[m] != c;
                if k < i {
                } else if k > i {
                    assert(cs@[i as int] != c);
                }
            }
            return Some(i);
        }
        i = i + 1;
    }
    None
}


/// The decimal digit character for `d < 10`.
pub open spec fn digit_char(d: nat) -> char {
    ((d + 48) as u32) as char
}

/// The decimal rendering of a natural number, as `Display` writes it.
pub open spec fn decimal(n: nat) -> Seq<char>
    decreases n,
{
    if n < 10 {
        seq![digit_char(n)]
    } else {
        decimal(n / 10).push(digit_char(n % 10))
    }
}

/// Renders a number in decimal, as `to_string` does.
pub fn decimal_text(n: u64) -> (out: String)
    ensures
        out@ == decimal(n as nat),
{
    let mut digits: Vec<char> = Vec::new();
    let mut rest = n;
    assert(digits@.reverse() =~= Seq::<char>::empty());
    assert(decimal(n as nat) =~= decimal(n as nat) + Seq::<char>::empty());
    // `digits` holds the rendering of the low part, last digit first.
    loop
        invariant_except_break
            decimal(n as nat) == decimal(rest as nat) + digits@.reverse(),
        ensures
            decimal(n as nat) == digits@.reverse(),
        decreases rest,
    {
        let d = rest % 10;
        let c = ((d as u8) + 48) as char;
        assert(c == digit_char(d as nat));
        if rest < 10 {
            assert(decimal(rest as nat) =~= seq![c]);
            let ghost before = digits@;
            digits.push(c);
            assert(digits@.reverse() =~= seq![c] + before.reverse());
            break ;
        }
        let ghost before = digits@;
        digits.push(c);
        assert(decimal(rest as nat) == decimal((rest / 10) as nat).push(c));
        assert(digits@.reverse() =~= seq![c] + before.reverse());
        assert(decimal((rest / 10) as nat).push(c) + before.reverse() =~= decimal((rest / 10) as nat) + digits@.reverse());
        rest = rest / 10;
    }
    let mut out = String::new();
    let mut i = digits.len();
    while i > 0
        invariant
            i <= digits@.len(),
            decimal(n as nat) == digits@.reverse(),
            out@ == digits@.subrange(i as int, digits@.len() as int).reverse(),
        decreases i,
    {
        i = i - 1;
        let ghost before = out@;
        push_char(&mut out, digits[i]);
        assert(digits@.subrange(i as int, digits@.len() as int).reverse() =~= before.push(digits@[i as int]));
    }
    assert(digits@.subrange(0, digits@.len() as int) =~= digits@);
    out
}

} // verus!
