use vstd::prelude::*;

verus! {

pub open spec fn is_digit_char(c: char) -> bool {
    0x30 <= c as u32 <= 0x39
}

pub open spec fn is_lower_char(c: char) -> bool {
    0x61 <= c as u32 <= 0x7A
}

pub open spec fn is_lower_alnum_char(c: char) -> bool {
    is_lower_char(c) || is_digit_char(c)
}

/// A character allowed anywhere in the local part of an email address,
/// apart from the dot separator.
pub open spec fn is_local_char(c: char) -> bool {
    is_lower_alnum_char(c) || c == '_' || c == '+'
}

/// A separator between labels of an email domain.
pub open spec fn is_sep_char(c: char) -> bool {
    c == '-' || c == '.'
}

pub open spec fn all_digits(s: Seq<char>) -> bool {
    forall|i: int| 0 <= i < s.len() ==> is_digit_char(#[trigger] s[i])
}

/// The card-number rule: zero or more decimal digits and nothing else.
pub open spec fn digits_pattern(s: Seq<char>) -> bool {
    all_digits(s)
}

/// A month written as two digits, 01 through 12.
pub open spec fn is_month(a: char, b: char) -> bool {
    ||| (a == '0' && 0x31 <= b as u32 <= 0x39)
    ||| (a == '1' && 0x30 <= b as u32 <= 0x32)
}

/// The expiration rule: a month, an optional slash, then a two- or
/// four-digit year.
pub open spec fn expiration_pattern(s: Seq<char>) -> bool {
    &&& s.len() >= 2
    &&& is_month(s[0], s[1])
    &&& {
        let rest = s.subrange(2, s.len() as int);
        ||| ((rest.len() == 2 || rest.len() == 4) && all_digits(rest))
        ||| (rest.len() >= 1 && rest[0] == '/' && {
            let y = rest.subrange(1, rest.len() as int);
            (y.len() == 2 || y.len() == 4) && all_digits(y)
        })
    }
}

/// The local part of an email: non-empty, every character a local character
/// or a dot, and no dot at either end.
pub open spec fn local_pattern(s: Seq<char>) -> bool {
    &&& s.len() >= 1
    &&& is_local_char(s[0])
    &&& is_local_char(s[s.len() - 1])
    &&& forall|i: int| 0 <= i < s.len() ==> is_local_char(#[trigger] s[i]) || s[i] == '.'
}

/// Labels of lower-case letters and digits joined by single dashes or dots:
/// the part of an email domain before its final dot.
pub open spec fn domain_text(s: Seq<char>) -> bool {
    &&& s.len() >= 1
    &&& is_lower_alnum_char(s[0])
    &&& is_lower_alnum_char(s[s.len() - 1])
    &&& forall|i: int| 0 <= i < s.len() ==> is_lower_alnum_char(#[trigger] s[i]) || is_sep_char(
        s[i],
    )
    &&& forall|i: int| 1 <= i < s.len() ==> !(is_sep_char(#[trigger] s[i]) && is_sep_char(s[i - 1]))
}

/// A top-level domain: two to six lower-case letters.
pub open spec fn tld_pattern(s: Seq<char>) -> bool {
    2 <= s.len() <= 6 && forall|i: int| 0 <= i < s.len() ==> is_lower_char(#[trigger] s[i])
}

/// An email domain: labels, a final dot, and a top-level domain.
pub open spec fn domain_pattern(s: Seq<char>) -> bool {
    exists|k: int|
        #![trigger s[k]]
        0 <= k < s.len() && s[k] == '.' && domain_text(s.subrange(0, k)) && tld_pattern(
            s.subrange(k + 1, s.len() as int),
        )
}

/// The email rule: a local part, an at sign, and a domain, matching the
/// whole value.
pub open spec fn email_pattern(s: Seq<char>) -> bool {
    exists|i: int|
        #![trigger s[i]]
        0 <= i < s.len() && s[i] == '@' && local_pattern(s.subrange(0, i)) && domain_pattern(
            s.subrange(i + 1, s.len() as int),
        )
}

fn is_digit(c: char) -> (r: bool)
    ensures
        r == is_digit_char(c),
{
    let u = c as u32;
    0x30 <= u && u <= 0x39
}

fn is_lower(c: char) -> (r: bool)
    ensures
        r == is_lower_char(c),
{
    let u = c as u32;
    0x61 <= u && u <= 0x7A
}

fn is_lower_alnum(c: char) -> (r: bool)
    ensures
        r == is_lower_alnum_char(c),
{
    is_lower(c) || is_digit(c)
}

fn is_local(c: char) -> (r: bool)
    ensures
        r == is_local_char(c),
{
    is_lower_alnum(c) || c == '_' || c == '+'
}

fn is_sep(c: char) -> (r: bool)
    ensures
        r == is_sep_char(c),
{
    c == '-' || c == '.'
}

/// Decides whether every character of `s` in `[from, to)` is a digit.
fn digits_in_range(s: &str, from: usize, to: usize) -> (r: bool)
    requires
        from <= to <= s@.len(),
    ensures
        r == all_digits(s@.subrange(from as int, to as int)),
{
    let ghost part = s@.subrange(from as int, to as int);
    let mut i = from;
    while i < to
        invariant
            from <= i <= to <= s@.len(),
            part == s@.subrange(from as int, to as int),
            forall|j: int| from <= j < i ==> is_digit_char(#[trigger] s@[j]),
        decreases to - i,
    {
        if !is_digit(s.get_char(i)) {
            assert(part[i - from] == s@[i as int]);
            return false;
        }
        i = i + 1;
    }
    assert forall|j: int| 0 <= j < part.len() implies is_digit_char(#[trigger] part[j]) by {
        assert(part[j] == s@[from + j]);
    }
    true
}

/// Decides the card-number rule on the whole string.
pub fn is_digits(s: &str) -> (r: bool)
    ensures
        r == digits_pattern(s@),
{
    let n = s.unicode_len();
    let r = digits_in_range(s, 0, n);
    proof {
        assert(s@.subrange(0, n as int) =~= s@);
    }
    r
}

/// Decides the expiration rule on the whole string.
pub fn is_expiration(s: &str) -> (r: bool)
    ensures
        r == expiration_pattern(s@),
{
    let n = s.unicode_len();
    if n < 4 || n > 7 {
        proof {
            if expiration_pattern(s@) {
                let rest = s@.subrange(2, n as int);
                assert(rest.len() == n - 2);
            }
        }
        return false;
    }
    let ghost rest = s@.subrange(2, n as int);
    let c0 = s.get_char(0);
    let c1 = s.get_char(1);
    let month_ok = (c0 == '0' && {
        let u = c1 as u32;
        0x31 <= u && u <= 0x39
    }) || (c0 == '1' && {
        let u = c1 as u32;
        0x30 <= u && u <= 0x32
    });
    if !month_ok {
        return false;
    }
    if n == 4 || n == 6 {
        let r = digits_in_range(s, 2, n);
        proof {
            assert(rest =~= s@.subrange(2, n as int));
            if r {
                assert(all_digits(rest));
            } else {
                // the slash alternative cannot hold either: a slash is not
                // a digit, and with it the year would have the wrong length
                if expiration_pattern(s@) {
                    if rest.len() >= 1 && rest[0] == '/' {
                        let y = rest.subrange(1, rest.len() as int);
                        assert(y.len() == n - 3);
                        assert(n == 4 ==> y.len() == 1);
                        assert(n == 6 ==> y.len() == 3);
                        assert(false);
                    }
                }
            }
        }
        r
    } else {
        let c2 = s.get_char(2);
        if c2 != '/' {
            proof {
                if expiration_pattern(s@) {
                    assert(rest.len() == n - 2);
                    assert(rest.len() == 3 || rest.len() == 5);
                    assert(rest[0] == s@[2]);
                }
            }
            return false;
        }
        let r = digits_in_range(s, 3, n);
        proof {
            let y = rest.subrange(1, rest.len() as int);
            assert(y =~= s@.subrange(3, n as int));
            assert(rest[0] == s@[2]);
            assert(y.len() == n - 3);
            if r {
                assert(expiration_pattern(s@));
            } else {
                if expiration_pattern(s@) {
                    assert(rest.len() == 3 || rest.len() == 5);
                    assert(!((rest.len() == 2 || rest.len() == 4) && all_digits(rest)));
                    assert(false);
                }
            }
        }
        r
    }
}

/// Decides whether `s` in `[from, to)` matches the local-part grammar.
fn local_in_range(s: &str, from: usize, to: usize) -> (r: bool)
    requires
        from <= to <= s@.len(),
    ensures
        r == local_pattern(s@.subrange(from as int, to as int)),
{
    let ghost part = s@.subrange(from as int, to as int);
    if to == from {
        return false;
    }
    if !is_local(s.get_char(from)) {
        assert(part[0] == s@[from as int]);
        return false;
    }
    if !is_local(s.get_char(to - 1)) {
        assert(part[part.len() - 1] == s@[to - 1]);
        return false;
    }
    let mut i = from;
    while i < to
        invariant
            from <= i <= to <= s@.len(),
            part == s@.subrange(from as int, to as int),
            forall|j: int| from <= j < i ==> is_local_char(#[trigger] s@[j]) || s@[j] == '.',
        decreases to - i,
    {
        let c = s.get_char(i);
        if !is_local(c) && c != '.' {
            assert(part[i - from] == s@[i as int]);
            return false;
        }
        i = i + 1;
    }
    assert forall|j: int| 0 <= j < part.len() implies is_local_char(#[trigger] part[j]) || part[j]
        == '.' by {
        assert(part[j] == s@[from + j]);
    }
    assert(part[0] == s@[from as int]);
    assert(part[part.len() - 1] == s@[to - 1]);
    true
}

/// Decides whether `s` in `[from, to)` matches the label grammar of a
/// domain before its final dot.
fn domain_text_in_range(s: &str, from: usize, to: usize) -> (r: bool)
    requires
        from <= to <= s@.len(),
    ensures
        r == domain_text(s@.subrange(from as int, to as int)),
{
    let ghost part = s@.subrange(from as int, to as int);
    if to == from {
        return false;
    }
    if !is_lower_alnum(s.get_char(from)) {
        assert(part[0] == s@[from as int]);
        return false;
    }
    if !is_lower_alnum(s.get_char(to - 1)) {
        assert(part[part.len() - 1] == s@[to - 1]);
        return false;
    }
    let mut i = from;
    while i < to
        invariant
            from <= i <= to <= s@.len(),
            part == s@.subrange(from as int, to as int),
            forall|j: int|
                from <= j < i ==> is_lower_alnum_char(#[trigger] s@[j]) || is_sep_char(s@[j]),
            forall|j: int|
                from + 1 <= j < i ==> !(is_sep_char(#[trigger] s@[j]) && is_sep_char(s@[j - 1])),
        decreases to - i,
    {
        let c = s.get_char(i);
        if !is_lower_alnum(c) && !is_sep(c) {
            assert(part[i - from] == s@[i as int]);
            return false;
        }
        if i > from && is_sep(c) && is_sep(s.get_char(i - 1)) {
            assert(part[i - from] == s@[i as int]);
            assert(part[i - from - 1] == s@[i - 1]);
            return false;
        }
        i = i + 1;
    }
    assert forall|j: int| 0 <= j < part.len() implies is_lower_alnum_char(#[trigger] part[j])
        || is_sep_char(part[j]) by {
        assert(part[j] == s@[from + j]);
    }
    assert forall|j: int| 1 <= j < part.len() implies !(is_sep_char(#[trigger] part[j])
        && is_sep_char(part[j - 1])) by {
        assert(part[j] == s@[from + j]);
        assert(part[j - 1] == s@[from + j - 1]);
    }
    assert(part[0] == s@[from as int]);
    assert(part[part.len() - 1] == s@[to - 1]);
    true
}

/// Decides whether `s` in `[from, to)` matches the top-level-domain grammar.
fn tld_in_range(s: &str, from: usize, to: usize) -> (r: bool)
    requires
        from <= to <= s@.len(),
    ensures
        r == tld_pattern(s@.subrange(from as int, to as int)),
{
    let ghost part = s@.subrange(from as int, to as int);
    if to - from < 2 || to - from > 6 {
        return false;
    }
    let mut i = from;
    while i < to
        invariant
            from <= i <= to <= s@.len(),
            part == s@.subrange(from as int, to as int),
            forall|j: int| from <= j < i ==> is_lower_char(#[trigger] s@[j]),
        decreases to - i,
    {
        if !is_lower(s.get_char(i)) {
            assert(part[i - from] == s@[i as int]);
            return false;
        }
        i = i + 1;
    }
    assert forall|j: int| 0 <= j < part.len() implies is_lower_char(#[trigger] part[j]) by {
        assert(part[j] == s@[from + j]);
    }
    true
}

/// Decides the email rule on the whole string.
pub fn is_email(s: &str) -> (r: bool)
    ensures
        r == email_pattern(s@),
{
    let n = s.unicode_len();
    // the split can only be at the first at sign: a local part holds none
    let mut p: usize = 0;
    while p < n && s.get_char(p) != '@'
        invariant
            0 <= p <= n,
            n == s@.len(),
            forall|j: int| 0 <= j < p ==> s@[j] != '@',
        decreases n - p,
    {
        p = p + 1;
    }
    if p == n {
        proof {
            if email_pattern(s@) {
                let i = choose|i: int|
                    0 <= i < s@.len() && #[trigger] s@[i] == '@' && local_pattern(
                        s@.subrange(0, i),
                    ) && domain_pattern(s@.subrange(i + 1, s@.len() as int));
                assert(false);
            }
        }
        return false;
    }
    assert(s@[p as int] == '@');
    let local_ok = local_in_range(s, 0, p);
    let ghost d = s@.subrange(p + 1, n as int);
    proof {
        // a valid split elsewhere would put this at sign inside a local part
        assert forall|i: int|
            0 <= i < s@.len() && #[trigger] s@[i] == '@' && local_pattern(s@.subrange(0, i))
                && domain_pattern(s@.subrange(i + 1, s@.len() as int)) implies i == p as int by {
            if i < p {
                assert(false);
            } else if i > p {
                let loc = s@.subrange(0, i);
                assert(loc[p as int] == '@');
                assert(!(is_local_char('@') || '@' == '.'));
                assert(false);
            }
        }
        assert(s@.subrange(0, p as int) =~= s@.subrange(0, p as int));
        if local_ok && domain_pattern(d) {
            assert(email_pattern(s@));
        }
        if email_pattern(s@) {
            let i = choose|i: int|
                0 <= i < s@.len() && #[trigger] s@[i] == '@' && local_pattern(s@.subrange(0, i))
                    && domain_pattern(s@.subrange(i + 1, s@.len() as int));
            assert(i == p as int);
        }
    }
    if !local_ok {
        return false;
    }
    // inside the domain, the final dot can only be the last dot: a
    // top-level domain holds none
    let mut dot: usize = 0;
    let mut has_dot = false;
    let mut i = p + 1;
    while i < n
        invariant
            p < i <= n,
            n == s@.len(),
            has_dot ==> p < dot && dot < i && s@[dot as int] == '.',
            has_dot ==> forall|j: int| dot < j < i ==> s@[j] != '.',
            !has_dot ==> forall|j: int| p < j < i ==> s@[j] != '.',
        decreases n - i,
    {
        if s.get_char(i) == '.' {
            dot = i;
            has_dot = true;
        }
        i = i + 1;
    }
    if !has_dot {
        proof {
            if domain_pattern(d) {
                let k = choose|k: int|
                    0 <= k < d.len() && #[trigger] d[k] == '.' && domain_text(d.subrange(0, k))
                        && tld_pattern(d.subrange(k + 1, d.len() as int));
                assert(d[k] == s@[p + 1 + k]);
                assert(false);
            }
        }
        return false;
    }
    let body_ok = domain_text_in_range(s, p + 1, dot);
    let tld_ok = tld_in_range(s, dot + 1, n);
    proof {
        let kq: int = dot - (p + 1);
        assert(d[kq] == s@[dot as int]);
        assert(d.subrange(0, kq) =~= s@.subrange(p + 1, dot as int));
        assert(d.subrange(kq + 1, d.len() as int) =~= s@.subrange(dot + 1, n as int));
        if body_ok && tld_ok {
            assert(domain_pattern(d));
        }
        if domain_pattern(d) {
            let k = choose|k: int|
                0 <= k < d.len() && #[trigger] d[k] == '.' && domain_text(d.subrange(0, k))
                    && tld_pattern(d.subrange(k + 1, d.len() as int));
            if k < kq {
                let t = d.subrange(k + 1, d.len() as int);
                assert(t[kq - k - 1] == d[kq]);
                assert(!is_lower_char('.'));
                assert(false);
            } else if k > kq {
                assert(d[k] == s@[p + 1 + k]);
                assert(false);
            }
            assert(body_ok && tld_ok);
        }
    }
    body_ok && tld_ok
}

} // verus!
