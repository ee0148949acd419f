//! The addressing codec: a record is shared as the opaque token
//! `record-<id>-<slug>`, embedded in a deep link. Encoding and decoding are
//! specified over sequences of characters; decoding accepts exactly the
//! strings whose dash-separated segments are the literal tag `record`, a
//! decimal id that fits a non-negative `i64`, and a slug.
use vstd::prelude::*;
use vstd::string::StrSliceExecFns;
use vstd::string::StringExecFns;

verus! {

/// Whether `c` is a decimal digit.
pub open spec fn is_digit(c: char) -> bool {
    ||| c == '0'
    ||| c == '1'
    ||| c == '2'
    ||| c == '3'
    ||| c == '4'
    ||| c == '5'
    ||| c == '6'
    ||| c == '7'
    ||| c == '8'
    ||| c == '9'
}

/// The value of a decimal digit character (unconstrained off digits).
pub open spec fn digit_val(c: char) -> int {
    if c == '0' {
        0
    } else if c == '1' {
        1
    } else if c == '2' {
        2
    } else if c == '3' {
        3
    } else if c == '4' {
        4
    } else if c == '5' {
        5
    } else if c == '6' {
        6
    } else if c == '7' {
        7
    } else if c == '8' {
        8
    } else {
        9
    }
}

/// The digit character of a value below ten (unconstrained above).
pub open spec fn digit_char(d: int) -> char {
    if d == 0 {
        '0'
    } else if d == 1 {
        '1'
    } else if d == 2 {
        '2'
    } else if d == 3 {
        '3'
    } else if d == 4 {
        '4'
    } else if d == 5 {
        '5'
    } else if d == 6 {
        '6'
    } else if d == 7 {
        '7'
    } else if d == 8 {
        '8'
    } else {
        '9'
    }
}

/// The number denoted by a sequence of decimal digits, most significant
/// first.
pub open spec fn dec_val(s: Seq<char>) -> int
    decreases s.len(),
{
    if s.len() == 0 {
        0
    } else {
        dec_val(s.drop_last()) * 10 + digit_val(s.last())
    }
}

/// A non-empty sequence of decimal digits.
pub open spec fn is_dec_seq(s: Seq<char>) -> bool {
    s.len() >= 1 && forall|i: int| 0 <= i < s.len() ==> is_digit(#[trigger] s[i])
}

/// The canonical decimal notation of `n` (no leading zeros).
pub open spec fn dec_str(n: nat) -> Seq<char>
    decreases n,
{
    if n < 10 {
        seq![digit_char(n as int)]
    } else {
        dec_str(n / 10).push(digit_char((n % 10) as int))
    }
}

pub proof fn lemma_digit_char_val(d: int)
    requires
        0 <= d <= 9,
    ensures
        is_digit(digit_char(d)),
        digit_val(digit_char(d)) == d,
{
}

/// The canonical notation consists of digits only.
pub proof fn lemma_dec_str_digits(n: nat)
    ensures
        is_dec_seq(dec_str(n)),
    decreases n,
{
    if n >= 10 {
        lemma_dec_str_digits(n / 10);
        lemma_digit_char_val((n % 10) as int);
    } else {
        lemma_digit_char_val(n as int);
    }
}

/// Reading back the canonical notation yields the number.
pub proof fn lemma_dec_str_val(n: nat)
    ensures
        dec_val(dec_str(n)) == n,
    decreases n,
{
    if n < 10 {
        lemma_digit_char_val(n as int);
        let s = dec_str(n);
        assert(s =~= seq![digit_char(n as int)]);
        assert(s.drop_last() =~= Seq::<char>::empty());
        assert(dec_val(Seq::<char>::empty()) == 0);
        assert(s.last() == digit_char(n as int));
        assert(dec_val(s) == dec_val(s.drop_last()) * 10 + digit_val(s.last()));
    } else {
        lemma_dec_str_val(n / 10);
        lemma_digit_char_val((n % 10) as int);
        let s = dec_str(n / 10).push(digit_char((n % 10) as int));
        assert(s.drop_last() =~= dec_str(n / 10));
        assert(dec_val(s) == (n / 10) * 10 + (n % 10));
        assert(n as int == (n as int / 10) * 10 + (n as int % 10)) by (nonlinear_arith);
    }
}

/// Digit sequences denote non-negative numbers.
pub proof fn lemma_dec_val_nonneg(s: Seq<char>)
    requires
        forall|i: int| 0 <= i < s.len() ==> is_digit(#[trigger] s[i]),
    ensures
        dec_val(s) >= 0,
    decreases s.len(),
{
    if s.len() > 0 {
        lemma_dec_val_nonneg(s.drop_last());
    }
}

/// Extending a digit sequence to the right cannot shrink its value.
pub proof fn lemma_dec_val_prefix(s: Seq<char>, k: int)
    requires
        forall|i: int| 0 <= i < s.len() ==> is_digit(#[trigger] s[i]),
        0 <= k <= s.len(),
    ensures
        dec_val(s) >= dec_val(s.subrange(0, k)),
    decreases s.len() - k,
{
    if k == s.len() {
        assert(s.subrange(0, k) =~= s);
    } else {
        lemma_dec_val_prefix(s, k + 1);
        let t = s.subrange(0, k + 1);
        assert(t.drop_last() =~= s.subrange(0, k));
        lemma_dec_val_nonneg(s.subrange(0, k));
        assert(dec_val(t) == dec_val(s.subrange(0, k)) * 10 + digit_val(s[k]));
        assert(digit_val(s[k]) >= 0);
        assert(dec_val(s.subrange(0, k)) * 10 >= dec_val(s.subrange(0, k)));
    }
}

/// The digit character of a digit value, as a borrowed string.
fn digit_str(d: u64) -> (r: &'static str)
    requires
        d <= 9,
    ensures
        r@ =~= seq![digit_char(d as int)],
{
    let r: &'static str = if d == 0 {
        "0"
    } else if d == 1 {
        "1"
    } else if d == 2 {
        "2"
    } else if d == 3 {
        "3"
    } else if d == 4 {
        "4"
    } else if d == 5 {
        "5"
    } else if d == 6 {
        "6"
    } else if d == 7 {
        "7"
    } else if d == 8 {
        "8"
    } else {
        "9"
    };
    proof {
        reveal_strlit("0");
        reveal_strlit("1");
        reveal_strlit("2");
        reveal_strlit("3");
        reveal_strlit("4");
        reveal_strlit("5");
        reveal_strlit("6");
        reveal_strlit("7");
        reveal_strlit("8");
        reveal_strlit("9");
    }
    r
}

/// The value of a digit character, or `None` off digits.
fn digit_value(c: char) -> (r: Option<u64>)
    ensures
        match r {
            Some(d) => is_digit(c) && d <= 9 && d as int == digit_val(c),
            None => !is_digit(c),
        },
{
    match c {
        '0' => Some(0),
        '1' => Some(1),
        '2' => Some(2),
        '3' => Some(3),
        '4' => Some(4),
        '5' => Some(5),
        '6' => Some(6),
        '7' => Some(7),
        '8' => Some(8),
        '9' => Some(9),
        _ => None,
    }
}

/// The dash-separated segments of `s`, in order. A string without dashes is
/// one segment; every dash opens a further (possibly empty) segment.
pub open spec fn split_dash(s: Seq<char>) -> Seq<Seq<char>>
    decreases s.len(),
{
    if s.len() == 0 {
        seq![Seq::<char>::empty()]
    } else {
        let rest = split_dash(s.drop_first());
        if s[0] == '-' {
            seq![Seq::<char>::empty()] + rest
        } else {
            seq![seq![s[0]] + rest[0]] + rest.drop_first()
        }
    }
}

/// There is always at least one segment.
pub proof fn lemma_split_dash_len(s: Seq<char>)
    ensures
        split_dash(s).len() >= 1,
    decreases s.len(),
{
    if s.len() > 0 {
        lemma_split_dash_len(s.drop_first());
    }
}

/// A string without dashes is its own single segment.
pub proof fn lemma_split_dash_whole(s: Seq<char>)
    requires
        forall|i: int| 0 <= i < s.len() ==> s[i] != '-',
    ensures
        split_dash(s) =~~= seq![s],
    decreases s.len(),
{
    if s.len() > 0 {
        lemma_split_dash_whole(s.drop_first());
        assert(seq![s[0]] + s.drop_first() =~= s);
    }
}

/// Splitting after a dash-free prefix: the prefix is the first segment and
/// the remainder splits on its own.
pub proof fn lemma_split_dash_concat(a: Seq<char>, b: Seq<char>)
    requires
        forall|i: int| 0 <= i < a.len() ==> a[i] != '-',
    ensures
        split_dash(a + seq!['-'] + b) =~~= seq![a] + split_dash(b),
    decreases a.len(),
{
    let s = a + seq!['-'] + b;
    if a.len() == 0 {
        assert(s[0] == '-');
        assert(s.drop_first() =~= b);
    } else {
        lemma_split_dash_concat(a.drop_first(), b);
        assert(s.drop_first() =~= a.drop_first() + seq!['-'] + b);
        let rest = split_dash(s.drop_first());
        assert(rest =~~= seq![a.drop_first()] + split_dash(b));
        lemma_split_dash_len(b);
        assert(rest[0] == a.drop_first());
        assert(seq![s[0]] + rest[0] =~= a);
        assert(rest.drop_first() =~~= split_dash(b));
    }
}

/// The literal tag that opens every record token.
pub open spec fn tag() -> Seq<char> {
    seq!['r', 'e', 'c', 'o', 'r', 'd']
}

/// The token that addresses record `id` guarded by `slug`.
pub open spec fn token_spec(id: int, slug: Seq<char>) -> Seq<char> {
    tag() + seq!['-'] + dec_str(id as nat) + seq!['-'] + slug
}

/// The target a token addresses: `Some((id, slug))` exactly when the token's
/// dash-separated segments are the tag, a decimal id no larger than
/// `i64::MAX`, and the slug.
pub open spec fn decode_spec(s: Seq<char>) -> Option<(int, Seq<char>)> {
    let parts = split_dash(s);
    if parts.len() == 3 && parts[0] == tag() && is_dec_seq(parts[1]) && dec_val(parts[1])
        <= i64::MAX {
        Some((dec_val(parts[1]), parts[2]))
    } else {
        None
    }
}

/// Round trip: decoding the token of a valid target yields that target,
/// for every non-negative id and every slug free of the delimiter.
pub proof fn lemma_token_round_trip(id: int, slug: Seq<char>)
    requires
        0 <= id <= i64::MAX,
        forall|i: int| 0 <= i < slug.len() ==> slug[i] != '-',
    ensures
        decode_spec(token_spec(id, slug)) == Some((id, slug)),
{
    let ds = dec_str(id as nat);
    lemma_dec_str_digits(id as nat);
    lemma_dec_str_val(id as nat);
    assert(forall|i: int| 0 <= i < ds.len() ==> ds[i] != '-') by {
        assert(forall|i: int| 0 <= i < ds.len() ==> is_digit(#[trigger] ds[i]));
    }
    let t = token_spec(id, slug);
    assert(t =~= tag() + seq!['-'] + (ds + seq!['-'] + slug));
    lemma_split_dash_concat(tag(), ds + seq!['-'] + slug);
    lemma_split_dash_concat(ds, slug);
    lemma_split_dash_whole(slug);
    let parts = split_dash(t);
    assert(parts =~~= seq![tag()] + (seq![ds] + seq![slug]));
    assert(parts.len() == 3);
    assert(parts[0] == tag());
    assert(parts[1] == ds);
    assert(parts[2] == slug);
}

/// The deep link that embeds a record token, built on the bot identity.
pub open spec fn link_spec(username: Seq<char>, id: int, slug: Seq<char>) -> Seq<char> {
    seq!['t', 'g', ':', '/', '/', '@'] + username + seq!['?', 's', 't', 'a', 'r', 't', '=']
        + token_spec(id, slug)
}

/// Writes the shareable deep link of record `id` guarded by `slug`.
pub fn build_record_link(username: &str, id: i64, slug: &str) -> (r: String)
    requires
        id >= 0,
    ensures
        r@ == link_spec(username@, id as int, slug@),
{
    let mut r = String::new();
    r.append("tg://@");
    r.append(username);
    r.append("?start=");
    let token = encode_token(id, slug);
    r.append(token.as_str());
    proof {
        reveal_strlit("tg://@");
        reveal_strlit("?start=");
        assert(r@ =~= link_spec(username@, id as int, slug@));
    }
    r
}

/// A decoded deep-link start argument: either a well-formed record token or
/// anything else, which asks for no special action.
#[derive(Debug, PartialEq)]
pub enum StartArg {
    Record { id: i64, slug: String },
    NoRecord,
}

/// Writes the shareable token of record `id` guarded by `slug`.
pub fn encode_token(id: i64, slug: &str) -> (r: String)
    requires
        id >= 0,
    ensures
        r@ == token_spec(id as int, slug@),
{
    let mut r = String::new();
    r.append("record-");
    let digits = fmt_u64(id as u64);
    r.append(digits.as_str());
    r.append("-");
    r.append(slug);
    proof {
        reveal_strlit("record-");
        reveal_strlit("-");
        assert(r@ =~= token_spec(id as int, slug@));
    }
    r
}

/// Index of the first dash at or after `from`, or the string's length.
fn find_dash(s: &str, from: usize) -> (r: usize)
    requires
        from <= s@.len(),
    ensures
        from <= r <= s@.len(),
        forall|j: int| from <= j < r ==> s@[j] != '-',
        r < s@.len() ==> s@[r as int] == '-',
{
    let n = s.unicode_len();
    let mut i: usize = from;
    while i < n
        invariant
            from <= i <= n,
            n == s@.len(),
            forall|j: int| from <= j < i ==> s@[j] != '-',
        decreases n - i,
    {
        if s.get_char(i) == '-' {
            return i;
        }
        i = i + 1;
    }
    i
}

/// Decodes a deep-link start argument, accepting exactly the well-formed
/// record tokens; every other string asks for no special action.
pub fn parse_start_args(arg: &str) -> (r: StartArg)
    ensures
        match r {
            StartArg::Record { id, slug } => decode_spec(arg@) == Some((id as int, slug@)),
            StartArg::NoRecord => decode_spec(arg@) is None,
        },
{
    let n = arg.unicode_len();
    let d1 = find_dash(arg, 0);
    if d1 == n {
        proof {
            lemma_split_dash_whole(arg@);
        }
        return StartArg::NoRecord;
    }
    let ghost seg0 = arg@.subrange(0, d1 as int);
    let ghost rest1 = arg@.subrange(d1 + 1, n as int);
    proof {
        assert(arg@ =~= seg0 + seq!['-'] + rest1);
        lemma_split_dash_concat(seg0, rest1);
        lemma_split_dash_len(rest1);
    }
    // the first segment must be the literal tag
    if !(d1 == 6 && arg.get_char(0) == 'r' && arg.get_char(1) == 'e' && arg.get_char(2) == 'c'
        && arg.get_char(3) == 'o' && arg.get_char(4) == 'r' && arg.get_char(5) == 'd') {
        proof {
            if split_dash(arg@)[0] == tag() {
                assert(seg0 =~= tag());
            }
        }
        return StartArg::NoRecord;
    }
    proof {
        assert(seg0 =~= tag());
    }
    // the id segment runs to the next dash
    let d2 = find_dash(arg, 7);
    if d2 == n {
        proof {
            lemma_split_dash_whole(rest1);
        }
        return StartArg::NoRecord;
    }
    let ghost seg1 = arg@.subrange(7, d2 as int);
    let ghost seg2 = arg@.subrange(d2 + 1, n as int);
    proof {
        assert(rest1 =~= seg1 + seq!['-'] + seg2);
        lemma_split_dash_concat(seg1, seg2);
        lemma_split_dash_len(seg2);
    }
    // anything dash-separated after the slug segment is malformed
    let d3 = find_dash(arg, d2 + 1);
    if d3 < n {
        let ghost c1 = seg2.subrange(0, d3 - d2 - 1);
        let ghost c2 = seg2.subrange(d3 - d2, seg2.len() as int);
        proof {
            assert(seg2 =~= c1 + seq!['-'] + c2);
            lemma_split_dash_concat(c1, c2);
            lemma_split_dash_len(c2);
            assert(split_dash(arg@).len() >= 4);
        }
        return StartArg::NoRecord;
    }
    proof {
        lemma_split_dash_whole(seg2);
        assert(split_dash(arg@) =~~= seq![seg0, seg1, seg2]);
    }
    // the id segment must be a non-empty run of digits denoting an id in range
    if d2 == 7 {
        proof {
            assert(seg1.len() == 0);
        }
        return StartArg::NoRecord;
    }
    let mut val: u64 = 0;
    let mut i: usize = 7;
    while i < d2
        invariant
            7 <= i <= d2 < n,
            n == arg@.len(),
            seg1 == arg@.subrange(7, d2 as int),
            forall|j: int| 0 <= j < i - 7 ==> is_digit(#[trigger] seg1[j]),
            val <= i64::MAX as u64,
            val as int == dec_val(seg1.subrange(0, i - 7)),
            split_dash(arg@) =~~= seq![seg0, seg1, seg2],
            decode_spec(arg@) == (if is_dec_seq(seg1) && dec_val(seg1) <= i64::MAX {
                Some((dec_val(seg1), seg2))
            } else {
                None::<(int, Seq<char>)>
            }),
        decreases d2 - i,
    {
        let c = arg.get_char(i);
        let ghost p = i - 7;
        proof {
            assert(seg1[p] == arg@[i as int]);
        }
        match digit_value(c) {
            None => {
                proof {
                    assert(!is_digit(seg1[p]));
                }
                return StartArg::NoRecord;
            },
            Some(d) => {
                let limit = (9223372036854775807u64 - d) / 10;
                proof {
                    vstd::arithmetic::div_mod::lemma_fundamental_div_mod(
                        (9223372036854775807u64 - d) as int,
                        10,
                    );
                    assert(seg1.subrange(0, p + 1).drop_last() =~= seg1.subrange(0, p));
                }
                if val > limit {
                    proof {
                        assert(val as int * 10 + d as int > i64::MAX as int);
                        assert(dec_val(seg1.subrange(0, p + 1)) > i64::MAX as int);
                        if is_dec_seq(seg1) {
                            lemma_dec_val_prefix(seg1, p + 1);
                        }
                    }
                    return StartArg::NoRecord;
                }
                proof {
                    assert(val as int * 10 + d as int <= i64::MAX as int);
                }
                val = val * 10 + d;
            },
        }
        i = i + 1;
    }
    proof {
        assert(seg1.subrange(0, d2 - 7) =~= seg1);
        assert(is_dec_seq(seg1));
        assert(decode_spec(arg@) == Some((dec_val(seg1), seg2)));
    }
    let sub = arg.substring_char(d2 + 1, n);
    let slug = sub.to_owned();
    StartArg::Record { id: val as i64, slug }
}

/// Writes `n` in canonical decimal notation.
pub fn fmt_u64(n: u64) -> (s: String)
    ensures
        s@ == dec_str(n as nat),
    decreases n,
{
    if n < 10 {
        let s = digit_str(n).to_owned();
        s
    } else {
        let mut s = fmt_u64(n / 10);
        s.append(digit_str(n % 10));
        proof {
            assert(s@ =~= dec_str(n as nat));
        }
        s
    }
}

} // verus!
