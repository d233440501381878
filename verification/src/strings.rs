//! Character-sequence helpers shared by every reference grammar of the
//! library: splitting and joining on a separator character, decimal
//! numerals, and exact equality of strings.

use vstd::prelude::*;

verus! {

/// Splitting a character sequence at every occurrence of `sep`.
/// The result always holds at least one piece (splitting the empty
/// sequence yields one empty piece), and no piece contains `sep`.
pub open spec fn spec_split(s: Seq<char>, sep: char) -> Seq<Seq<char>>
    decreases s.len(),
{
    if s.len() == 0 {
        seq![Seq::<char>::empty()]
    } else if s[0] == sep {
        seq![Seq::<char>::empty()] + spec_split(s.drop_first(), sep)
    } else {
        let rest = spec_split(s.drop_first(), sep);
        rest.update(0, seq![s[0]] + rest[0])
    }
}

/// Interleaving `sep` between the given pieces.
pub open spec fn spec_join(parts: Seq<Seq<char>>, sep: char) -> Seq<char>
    decreases parts.len(),
{
    if parts.len() == 0 {
        Seq::empty()
    } else if parts.len() == 1 {
        parts[0]
    } else {
        parts[0] + seq![sep] + spec_join(parts.drop_first(), sep)
    }
}

pub proof fn lemma_split_len(s: Seq<char>, sep: char)
    ensures
        spec_split(s, sep).len() >= 1,
    decreases s.len(),
{
    if s.len() == 0 {
    } else {
        lemma_split_len(s.drop_first(), sep);
    }
}

/// A sequence free of the separator splits into itself as the one piece.
pub proof fn lemma_split_no_sep(s: Seq<char>, sep: char)
    requires
        forall|i: int| 0 <= i < s.len() ==> s[i] != sep,
    ensures
        spec_split(s, sep) == seq![s],
    decreases s.len(),
{
    if s.len() == 0 {
        assert(s =~= Seq::<char>::empty());
    } else {
        lemma_split_no_sep(s.drop_first(), sep);
        let rest = spec_split(s.drop_first(), sep);
        assert(rest == seq![s.drop_first()]);
        assert(seq![s[0]] + s.drop_first() =~= s);
        assert(rest.update(0, seq![s[0]] + rest[0]) =~= seq![s]);
    }
}

/// Splitting at the first separator occurrence peels off the prefix.
pub proof fn lemma_split_at_first_sep(s: Seq<char>, sep: char, k: int)
    requires
        0 <= k < s.len(),
        s[k] == sep,
        forall|i: int| 0 <= i < k ==> s[i] != sep,
    ensures
        spec_split(s, sep) == seq![s.take(k)] + spec_split(s.skip(k + 1), sep),
    decreases k,
{
    if k == 0 {
        assert(s.take(0) =~= Seq::<char>::empty());
        assert(s.skip(1) =~= s.drop_first());
        assert(spec_split(s, sep) == seq![Seq::<char>::empty()] + spec_split(s.drop_first(), sep));
    } else {
        let t = s.drop_first();
        assert(t[k - 1] == sep);
        lemma_split_at_first_sep(t, sep, k - 1);
        lemma_split_len(t.skip(k), sep);
        let rest = spec_split(t, sep);
        assert(rest == seq![t.take(k - 1)] + spec_split(t.skip(k), sep));
        assert(rest[0] == t.take(k - 1));
        assert(seq![s[0]] + t.take(k - 1) =~= s.take(k));
        assert(t.skip(k) =~= s.skip(k + 1));
        assert(rest.update(0, seq![s[0]] + rest[0]) =~= seq![s.take(k)] + spec_split(
            s.skip(k + 1),
            sep,
        ));
    }
}

/// Splitting undoes joining, provided there is at least one piece and
/// no piece contains the separator.
pub proof fn lemma_split_join(parts: Seq<Seq<char>>, sep: char)
    requires
        parts.len() >= 1,
        forall|i: int| 0 <= i < parts.len() ==> !(#[trigger] parts[i]).contains(sep),
    ensures
        spec_split(spec_join(parts, sep), sep) == parts,
    decreases parts.len(),
{
    if parts.len() == 1 {
        assert(forall|j: int| 0 <= j < parts[0].len() ==> parts[0][j] != sep);
        lemma_split_no_sep(parts[0], sep);
        assert(seq![parts[0]] =~= parts);
    } else {
        let s = spec_join(parts, sep);
        let k = parts[0].len() as int;
        assert(s == parts[0] + seq![sep] + spec_join(parts.drop_first(), sep));
        assert(s[k] == sep);
        assert(forall|i: int| 0 <= i < k ==> s[i] == parts[0][i] && parts[0][i] != sep);
        lemma_split_at_first_sep(s, sep, k);
        assert(s.take(k) =~= parts[0]);
        assert(s.skip(k + 1) =~= spec_join(parts.drop_first(), sep));
        assert(forall|i: int|
            0 <= i < parts.drop_first().len() ==> !(#[trigger] parts.drop_first()[i]).contains(
                sep,
            ));
        lemma_split_join(parts.drop_first(), sep);
        assert(seq![parts[0]] + parts.drop_first() =~= parts);
    }
}

/// Joining distributes over concatenation of non-empty piece lists.
pub proof fn lemma_join_concat(a: Seq<Seq<char>>, b: Seq<Seq<char>>, sep: char)
    requires
        a.len() >= 1,
        b.len() >= 1,
    ensures
        spec_join(a + b, sep) == spec_join(a, sep) + seq![sep] + spec_join(b, sep),
    decreases a.len(),
{
    if a.len() == 1 {
        assert((a + b).drop_first() =~= b);
        assert((a + b)[0] == a[0]);
        assert(spec_join(a + b, sep) == a[0] + seq![sep] + spec_join(b, sep));
        assert(spec_join(a, sep) == a[0]);
    } else {
        lemma_join_concat(a.drop_first(), b, sep);
        assert((a + b).drop_first() =~= a.drop_first() + b);
        assert((a + b)[0] == a[0]);
        assert(spec_join(a + b, sep) == a[0] + seq![sep] + spec_join(a.drop_first() + b, sep));
        assert(a[0] + seq![sep] + (spec_join(a.drop_first(), sep) + seq![sep] + spec_join(b, sep))
            =~= (a[0] + seq![sep] + spec_join(a.drop_first(), sep)) + seq![sep] + spec_join(
            b,
            sep,
        ));
    }
}

/// Appending one piece to a join.
pub proof fn lemma_join_push(parts: Seq<Seq<char>>, x: Seq<char>, sep: char)
    requires
        parts.len() >= 1,
    ensures
        spec_join(parts.push(x), sep) == spec_join(parts, sep) + seq![sep] + x,
{
    assert(parts.push(x) =~= parts + seq![x]);
    lemma_join_concat(parts, seq![x], sep);
}

/// Exact equality of two strings, decided character by character.
pub fn str_eq(a: &str, b: &str) -> (r: bool)
    ensures
        r == (a@ == b@),
{
    let n = a.unicode_len();
    if n != b.unicode_len() {
        return false;
    }
    let mut i: usize = 0;
    while i < n
        invariant
            n == a@.len(),
            n == b@.len(),
            i <= n,
            forall|j: int| 0 <= j < i ==> a@[j] == b@[j],
        decreases n - i,
    {
        if a.get_char(i) != b.get_char(i) {
            return false;
        }
        i += 1;
    }
    proof {
        assert(a@ =~= b@);
    }
    true
}

/// Splits `s` at every occurrence of `sep`, exactly as [`spec_split`]
/// describes.
pub fn split_char(s: &str, sep: char) -> (parts: Vec<String>)
    ensures
        parts.deep_view() == spec_split(s@, sep),
{
    let n = s.unicode_len();
    let mut parts: Vec<String> = Vec::new();
    let mut start: usize = 0;
    let mut i: usize = 0;
    proof {
        assert(s@.skip(0) =~= s@);
        assert(parts.deep_view() =~= Seq::<Seq<char>>::empty());
        assert(Seq::<Seq<char>>::empty() + spec_split(s@, sep) =~= spec_split(s@, sep));
    }
    while i < n
        invariant
            n == s@.len(),
            start <= i <= n,
            forall|j: int| start <= j < i ==> s@[j] != sep,
            spec_split(s@, sep) == parts.deep_view() + spec_split(s@.skip(start as int), sep),
        decreases n - i,
    {
        if s.get_char(i) == sep {
            let piece = s.substring_char(start, i).to_owned();
            let ghost old_parts = parts.deep_view();
            parts.push(piece);
            proof {
                let t = s@.skip(start as int);
                assert(t[i - start] == sep);
                assert(forall|j: int| 0 <= j < i - start ==> t[j] == s@[start + j] && t[j] != sep);
                lemma_split_at_first_sep(t, sep, i - start);
                assert(t.take(i - start) =~= s@.subrange(start as int, i as int));
                assert(t.skip(i - start + 1) =~= s@.skip(i + 1));
                assert(parts.deep_view() =~= old_parts.push(piece@));
                assert(old_parts.push(piece@) + spec_split(s@.skip(i + 1), sep) =~= old_parts + (
                seq![t.take(i - start)] + spec_split(t.skip(i - start + 1), sep)));
            }
            start = i + 1;
        }
        i += 1;
    }
    let piece = s.substring_char(start, n).to_owned();
    let ghost old_parts = parts.deep_view();
    parts.push(piece);
    proof {
        let t = s@.skip(start as int);
        assert(forall|j: int| 0 <= j < t.len() ==> t[j] == s@[start + j] && t[j] != sep);
        lemma_split_no_sep(t, sep);
        assert(t =~= s@.subrange(start as int, n as int));
        assert(parts.deep_view() =~= old_parts.push(piece@));
        assert(old_parts.push(piece@) =~= old_parts + seq![t]);
    }
    parts
}

/// Joins the given pieces with `/` between them, exactly as
/// [`spec_join`] describes.
pub fn join_slash(parts: &Vec<String>) -> (r: String)
    ensures
        r@ == spec_join(parts.deep_view(), '/'),
{
    proof {
        reveal_strlit("/");
    }
    let mut r = String::new();
    let mut i: usize = 0;
    while i < parts.len()
        invariant
            i <= parts@.len(),
            "/"@ == seq!['/'],
            r@ == spec_join(parts.deep_view().take(i as int), '/'),
        decreases parts@.len() - i,
    {
        if i > 0 {
            r.append("/");
        }
        r.append(parts[i].as_str());
        proof {
            let dv = parts.deep_view();
            assert(dv.take(i + 1).drop_last() =~= dv.take(i as int));
            assert(dv.take(i + 1) =~= dv.take(i as int).push(dv[i as int]));
            if i == 0 {
                assert(spec_join(dv.take(1), '/') == dv[0]);
            } else {
                lemma_join_push(dv.take(i as int), dv[i as int], '/');
            }
        }
        i += 1;
    }
    proof {
        assert(parts.deep_view().take(parts@.len() as int) =~= parts.deep_view());
    }
    r
}

pub open spec fn is_digit(c: char) -> bool {
    48 <= c as int <= 57
}

pub open spec fn digit_val(c: char) -> int {
    c as int - 48
}

pub open spec fn all_digits(s: Seq<char>) -> bool {
    forall|i: int| 0 <= i < s.len() ==> is_digit(#[trigger] s[i])
}

/// The numeric value of a digit sequence, most significant digit first.
pub open spec fn digits_val(s: Seq<char>) -> int
    decreases s.len(),
{
    if s.len() == 0 {
        0
    } else {
        digits_val(s.drop_last()) * 10 + digit_val(s.last())
    }
}

/// A leading `+` sign is tolerated, as Rust's own integer parsing
/// tolerates it.
pub open spec fn strip_plus(s: Seq<char>) -> Seq<char> {
    if s.len() > 0 && s[0] == '+' {
        s.drop_first()
    } else {
        s
    }
}

/// Whether `s` is a decimal numeral whose value fits in `u64`.
pub open spec fn parseable_u64(s: Seq<char>) -> bool {
    let d = strip_plus(s);
    d.len() > 0 && all_digits(d) && digits_val(d) <= u64::MAX
}

pub open spec fn parsed_u64(s: Seq<char>) -> int {
    digits_val(strip_plus(s))
}

pub open spec fn digit_char(d: int) -> char {
    if d == 0 {
        '0'
    } else if d == 1 {
        '1'
    } else if d == 2 {
        '2'
    } else if d == 3 {
        '3'
    } else if d == 4 {
        '4'
    } else if d == 5 {
        '5'
    } else if d == 6 {
        '6'
    } else if d == 7 {
        '7'
    } else if d == 8 {
        '8'
    } else {
        '9'
    }
}

/// The canonical decimal numeral of a non-negative integer: no sign,
/// no leading zero (except for zero itself).
pub open spec fn dec_digits(n: int) -> Seq<char>
    decreases n,
{
    if n < 10 {
        seq![digit_char(n)]
    } else {
        dec_digits(n / 10).push(digit_char(n % 10))
    }
}

pub proof fn lemma_digits_val_bounds(s: Seq<char>)
    requires
        all_digits(s),
    ensures
        digits_val(s) >= 0,
        s.len() >= 1 ==> digits_val(s) >= digit_val(s[0]),
    decreases s.len(),
{
    if s.len() == 0 {
    } else {
        assert(all_digits(s.drop_last()));
        lemma_digits_val_bounds(s.drop_last());
        if s.len() >= 2 {
            assert(s.drop_last()[0] == s[0]);
            assert(digits_val(s.drop_last()) * 10 >= digits_val(s.drop_last())) by (nonlinear_arith)
                requires digits_val(s.drop_last()) >= 0;
        }
    }
}

/// Once a digit prefix exceeds a bound, every extension of it does too.
pub proof fn lemma_digits_val_prefix_grows(s: Seq<char>, m: int)
    requires
        all_digits(s),
        0 <= m <= s.len(),
    ensures
        digits_val(s) >= digits_val(s.take(m)),
    decreases s.len() - m,
{
    if m == s.len() {
        assert(s.take(m) =~= s);
    } else {
        lemma_digits_val_prefix_grows(s, m + 1);
        assert(s.take(m + 1).drop_last() =~= s.take(m));
        assert(all_digits(s.take(m)));
        lemma_digits_val_bounds(s.take(m));
        let v = digits_val(s.take(m));
        assert(digits_val(s.take(m + 1)) == v * 10 + digit_val(s.take(m + 1).last()));
        assert(v * 10 >= v) by (nonlinear_arith)
            requires v >= 0;
    }
}

/// The canonical numeral of `n` evaluates back to `n`, consists of
/// digits only, and never starts with a sign.
pub proof fn lemma_dec_digits(n: int)
    requires
        0 <= n,
    ensures
        all_digits(dec_digits(n)),
        dec_digits(n).len() >= 1,
        dec_digits(n)[0] != '+',
        digits_val(dec_digits(n)) == n,
    decreases n,
{
    if n < 10 {
        let s = dec_digits(n);
        assert(s.drop_last() =~= Seq::<char>::empty());
        assert(s.last() == digit_char(n));
        assert(digits_val(Seq::<char>::empty()) == 0);
        assert(digits_val(s) == digit_val(digit_char(n)));
    } else {
        lemma_dec_digits(n / 10);
        let s = dec_digits(n);
        assert(s.drop_last() =~= dec_digits(n / 10));
        assert(s.last() == digit_char(n % 10));
        assert(digit_val(digit_char(n % 10)) == n % 10);
        assert(digits_val(s) == (n / 10) * 10 + n % 10);
        assert(s[0] == dec_digits(n / 10)[0]);
    }
}

/// Parses a decimal numeral the way Rust's `u64` parsing does: an
/// optional leading `+`, then one or more digits, rejecting values
/// that do not fit.
pub fn parse_u64(s: &str) -> (r: Option<u64>)
    ensures
        r is Some <==> parseable_u64(s@),
        r matches Some(v) ==> v == parsed_u64(s@),
{
    let n = s.unicode_len();
    let mut i: usize = 0;
    if n > 0 && s.get_char(0) == '+' {
        i = 1;
    }
    let ghost d = strip_plus(s@);
    proof {
        assert(d =~= s@.skip(i as int));
    }
    if i == n {
        return None;
    }
    let mut v: u64 = 0;
    while i < n
        invariant
            n == s@.len(),
            i <= n,
            d == s@.skip(if s@.len() > 0 && s@[0] == '+' { 1int } else { 0int }),
            d =~= s@.skip(if s@.len() > 0 && s@[0] == '+' { 1int } else { 0int }),
            i >= n - d.len(),
            all_digits(d.take(i - (n - d.len()))),
            v == digits_val(d.take(i - (n - d.len()))),
        decreases n - i,
    {
        let ghost done = i - (n - d.len());
        let c = s.get_char(i);
        proof {
            assert(d[done] == c);
        }
        let cv = c as u32;
        if cv < 48 || cv > 57 {
            proof {
                assert(!is_digit(d[done]));
            }
            return None;
        }
        let dv = ((cv - 48) as u64);
        proof {
            assert(cv as int == c as int);
            assert(digit_val(c) == dv as int);
            assert(d.take(done + 1).drop_last() =~= d.take(done));
            assert(d.take(done + 1).last() == c);
            assert(d.take(done + 1)[done] == c);
            assert(all_digits(d.take(done + 1)));
        }
        if v > (u64::MAX - dv) / 10 {
            proof {
                let w = digits_val(d.take(done + 1));
                assert(w == v * 10 + dv);
                assert(v * 10 + dv > u64::MAX) by (nonlinear_arith)
                    requires
                        v > (u64::MAX - dv) / 10,
                        0 <= dv <= 9,
                        v <= u64::MAX,
                ;
                if parseable_u64(s@) {
                    assert(strip_plus(s@) =~= d);
                    lemma_digits_val_prefix_grows(d, done + 1);
                    assert(digits_val(d) >= w);
                }
            }
            return None;
        }
        v = v * 10 + dv;
        i += 1;
    }
    proof {
        assert(d.take(d.len() as int) =~= d);
    }
    Some(v)
}

/// Renders `n` as its canonical decimal numeral.
pub fn u64_to_dec(n: u64) -> (r: String)
    ensures
        r@ == dec_digits(n as int),
    decreases n,
{
    if n < 10 {
        digit_str(n)
    } else {
        let mut s = u64_to_dec(n / 10);
        let last = digit_str(n % 10);
        s.append(last.as_str());
        proof {
            assert(dec_digits(n as int) =~= dec_digits(n as int / 10) + seq![
                digit_char(n as int % 10),
            ]);
        }
        s
    }
}

fn digit_str(d: u64) -> (r: String)
    requires
        d < 10,
    ensures
        r@ == seq![digit_char(d as int)],
{
    proof {
        reveal_strlit("0");
        reveal_strlit("1");
        reveal_strlit("2");
        reveal_strlit("3");
        reveal_strlit("4");
        reveal_strlit("5");
        reveal_strlit("6");
        reveal_strlit("7");
        reveal_strlit("8");
        reveal_strlit("9");
    }
    let r = if d == 0 {
        "0"
    } else if d == 1 {
        "1"
    } else if d == 2 {
        "2"
    } else if d == 3 {
        "3"
    } else if d == 4 {
        "4"
    } else if d == 5 {
        "5"
    } else if d == 6 {
        "6"
    } else if d == 7 {
        "7"
    } else if d == 8 {
        "8"
    } else {
        "9"
    };
    proof {
        assert(r@ =~= seq![digit_char(d as int)]);
    }
    r.to_owned()
}

} // verus!
