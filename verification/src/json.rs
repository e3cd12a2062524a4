//! Parsing of the wire payloads: a restricted JSON object grammar covering
//! exactly what the two commands carry. An object is `{ "key": value, ... }`
//! where a value is an unsigned decimal integer (no sign, no fraction, no
//! leading zero) or a plain string without escape sequences; whitespace may
//! surround every token and nothing may follow the closing brace.
use vstd::prelude::*;

verus! {

/// A parsed JSON value.
pub enum JsonValue {
    Num(u64),
    Str(Vec<char>),
}

/// The mathematical form of a parsed JSON value.
pub ghost enum JsonValV {
    Num(u64),
    Str(Seq<char>),
}

impl View for JsonValue {
    type V = JsonValV;

    open spec fn view(&self) -> JsonValV {
        match self {
            JsonValue::Num(n) => JsonValV::Num(*n),
            JsonValue::Str(s) => JsonValV::Str(s@),
        }
    }
}

pub open spec fn is_ws(c: char) -> bool {
    c == ' ' || c == '\t' || c == '\n' || c == '\r'
}

pub open spec fn is_digit(c: char) -> bool {
    48 <= c as u32 <= 57
}

pub open spec fn digit_val(c: char) -> nat {
    (c as u32 - 48) as nat
}

/// First index at or after `i` holding a non-whitespace character (or the
/// end of the text).
pub open spec fn spec_skip_ws(s: Seq<char>, i: int) -> int
    decreases s.len() - i,
{
    if 0 <= i < s.len() && is_ws(s[i]) {
        spec_skip_ws(s, i + 1)
    } else {
        i
    }
}

/// First index at or after `i` holding a non-digit (or the end).
pub open spec fn spec_digits_end(s: Seq<char>, i: int) -> int
    decreases s.len() - i,
{
    if 0 <= i < s.len() && is_digit(s[i]) {
        spec_digits_end(s, i + 1)
    } else {
        i
    }
}

proof fn lemma_digits_end_bounds(s: Seq<char>, i: int)
    requires
        0 <= i <= s.len(),
    ensures
        i <= spec_digits_end(s, i) <= s.len(),
    decreases s.len() - i,
{
    if i < s.len() && is_digit(s[i]) {
        lemma_digits_end_bounds(s, i + 1);
    }
}

/// The value of the digit run `s[i..j)`, most significant digit first.
pub open spec fn spec_digits_val(s: Seq<char>, i: int, j: int) -> nat
    decreases j - i,
{
    if i >= j {
        0
    } else {
        spec_digits_val(s, i, j - 1) * 10 + digit_val(s[j - 1])
    }
}

pub proof fn lemma_digits_val_monotone(s: Seq<char>, i: int, k: int, j: int)
    requires
        i <= k <= j,
    ensures
        spec_digits_val(s, i, k) <= spec_digits_val(s, i, j),
    decreases j - k,
{
    if k < j {
        lemma_digits_val_monotone(s, i, k, j - 1);
        assert(spec_digits_val(s, i, j) == spec_digits_val(s, i, j - 1) * 10 + digit_val(
            s[j - 1],
        ));
        assert(spec_digits_val(s, i, j - 1) <= spec_digits_val(s, i, j - 1) * 10) by (nonlinear_arith);
    }
}

/// Parse an unsigned decimal number at `i`: a nonempty digit run without a
/// leading zero whose value fits in a u64.
pub open spec fn spec_parse_number(s: Seq<char>, i: int) -> Option<(u64, int)> {
    let j = spec_digits_end(s, i);
    if j == i {
        None
    } else if s[i] == '0' && j > i + 1 {
        None
    } else if spec_digits_val(s, i, j) > u64::MAX {
        None
    } else {
        Some((spec_digits_val(s, i, j) as u64, j))
    }
}

/// First index at or after `i` that ends a string body: a quote, a
/// backslash (rejected: no escapes), or the end of the text.
pub open spec fn spec_str_end(s: Seq<char>, i: int) -> int
    decreases s.len() - i,
{
    if 0 <= i < s.len() && s[i] != '"' && s[i] != '\\' {
        spec_str_end(s, i + 1)
    } else {
        i
    }
}

proof fn lemma_str_end_bounds(s: Seq<char>, i: int)
    requires
        0 <= i <= s.len(),
    ensures
        i <= spec_str_end(s, i) <= s.len(),
    decreases s.len() - i,
{
    if i < s.len() && s[i] != '"' && s[i] != '\\' {
        lemma_str_end_bounds(s, i + 1);
    }
}

/// Parse a quoted string at `i`. The body may hold anything but a quote or
/// a backslash.
pub open spec fn spec_parse_string(s: Seq<char>, i: int) -> Option<(Seq<char>, int)> {
    if 0 <= i < s.len() && s[i] == '"' {
        let j = spec_str_end(s, i + 1);
        if j < s.len() && s[j] == '"' {
            Some((s.subrange(i + 1, j), j + 1))
        } else {
            None
        }
    } else {
        None
    }
}

/// Parse a value at `i`: a string if it opens with a quote, else a number.
pub open spec fn spec_parse_value(s: Seq<char>, i: int) -> Option<(JsonValV, int)> {
    if 0 <= i < s.len() && s[i] == '"' {
        match spec_parse_string(s, i) {
            None => None,
            Some((body, j)) => Some((JsonValV::Str(body), j)),
        }
    } else {
        match spec_parse_number(s, i) {
            None => None,
            Some((n, j)) => Some((JsonValV::Num(n), j)),
        }
    }
}

/// Parse one `"key" : value` pair starting exactly at the opening quote.
pub open spec fn spec_parse_pair(s: Seq<char>, i: int) -> Option<((Seq<char>, JsonValV), int)> {
    match spec_parse_string(s, i) {
        None => None,
        Some((key, j)) => {
            let j2 = spec_skip_ws(s, j);
            if 0 <= j2 < s.len() && s[j2] == ':' {
                let j3 = spec_skip_ws(s, j2 + 1);
                match spec_parse_value(s, j3) {
                    None => None,
                    Some((v, j4)) => Some(((key, v), j4)),
                }
            } else {
                None
            }
        },
    }
}

/// Parse a comma-separated run of pairs starting at the first pair's quote.
/// Ends right after the last pair.
pub open spec fn spec_parse_members(s: Seq<char>, i: int) -> Option<
    (Seq<(Seq<char>, JsonValV)>, int),
>
    decreases s.len() - i,
{
    match spec_parse_pair(s, i) {
        None => None,
        Some((pr, j)) => {
            let j2 = spec_skip_ws(s, j);
            if 0 <= j2 < s.len() && s[j2] == ',' {
                let j3 = spec_skip_ws(s, j2 + 1);
                if i < j3 <= s.len() {
                    match spec_parse_members(s, j3) {
                        None => None,
                        Some((rest, k)) => Some((seq![pr] + rest, k)),
                    }
                } else {
                    None
                }
            } else {
                Some((seq![pr], j))
            }
        },
    }
}

/// Parse a whole text as one object: optional whitespace, `{`, pairs,
/// `}`, optional whitespace, end of text.
pub open spec fn spec_parse_object(s: Seq<char>) -> Option<Seq<(Seq<char>, JsonValV)>> {
    let i = spec_skip_ws(s, 0);
    if 0 <= i < s.len() && s[i] == '{' {
        let j = spec_skip_ws(s, i + 1);
        if 0 <= j < s.len() && s[j] == '}' {
            if spec_skip_ws(s, j + 1) == s.len() {
                Some(Seq::empty())
            } else {
                None
            }
        } else {
            match spec_parse_members(s, j) {
                None => None,
                Some((prs, k)) => {
                    let k2 = spec_skip_ws(s, k);
                    if 0 <= k2 < s.len() && s[k2] == '}' && spec_skip_ws(s, k2 + 1) == s.len() {
                        Some(prs)
                    } else {
                        None
                    }
                },
            }
        }
    } else {
        None
    }
}

pub fn skip_ws(v: &Vec<char>, i: usize) -> (r: usize)
    requires
        i <= v.len(),
    ensures
        r == spec_skip_ws(v@, i as int),
        i <= r <= v.len(),
{
    let mut k = i;
    while k < v.len() && is_ws_exec(v[k])
        invariant
            i <= k <= v.len(),
            spec_skip_ws(v@, i as int) == spec_skip_ws(v@, k as int),
        decreases v.len() - k,
    {
        k = k + 1;
    }
    k
}

pub fn is_ws_exec(c: char) -> (r: bool)
    ensures
        r == is_ws(c),
{
    c == ' ' || c == '\t' || c == '\n' || c == '\r'
}

fn is_digit_exec(c: char) -> (r: bool)
    ensures
        r == is_digit(c),
{
    let u = c as u32;
    48 <= u && u <= 57
}

fn parse_number(v: &Vec<char>, i: usize) -> (r: Option<(u64, usize)>)
    requires
        i <= v.len(),
    ensures
        match r {
            Some((n, j)) => spec_parse_number(v@, i as int) == Some((n, j as int)) && i < j
                <= v.len(),
            None => spec_parse_number(v@, i as int) is None,
        },
{
    proof {
        lemma_digits_end_bounds(v@, i as int);
    }
    // find the digit run
    let mut j = i;
    while j < v.len() && is_digit_exec(v[j])
        invariant
            i <= j <= v.len(),
            spec_digits_end(v@, i as int) == spec_digits_end(v@, j as int),
            forall|k: int| i <= k < j ==> is_digit(v@[k]),
        decreases v.len() - j,
    {
        j = j + 1;
    }
    if j == i {
        return None;
    }
    if v[i] == '0' && j > i + 1 {
        return None;
    }
    // accumulate the value, watching for overflow in 128 bits
    let mut acc: u128 = 0;
    let mut k = i;
    while k < j
        invariant
            i <= k <= j <= v.len(),
            j == spec_digits_end(v@, i as int),
            forall|t: int| i <= t < j ==> is_digit(v@[t]),
            acc == spec_digits_val(v@, i as int, k as int),
            acc <= u64::MAX,
        decreases j - k,
    {
        let d = (v[k] as u32 - 48) as u128;
        acc = acc * 10 + d;
        k = k + 1;
        if acc > u64::MAX as u128 {
            proof {
                lemma_digits_val_monotone(v@, i as int, k as int, spec_digits_end(v@, i as int));
            }
            return None;
        }
    }
    Some((acc as u64, j))
}

fn parse_string(v: &Vec<char>, i: usize) -> (r: Option<(Vec<char>, usize)>)
    requires
        i <= v.len(),
    ensures
        match r {
            Some((body, j)) => spec_parse_string(v@, i as int) matches Some((b, jj)) && body@ == b
                && j == jj && i < j <= v.len(),
            None => spec_parse_string(v@, i as int) is None,
        },
{
    if i >= v.len() || v[i] != '"' {
        return None;
    }
    proof {
        lemma_str_end_bounds(v@, i + 1);
    }
    let mut j = i + 1;
    while j < v.len() && v[j] != '"' && v[j] != '\\'
        invariant
            i + 1 <= j <= v.len(),
            spec_str_end(v@, i + 1) == spec_str_end(v@, j as int),
        decreases v.len() - j,
    {
        j = j + 1;
    }
    if j >= v.len() || v[j] != '"' {
        return None;
    }
    let mut body: Vec<char> = Vec::new();
    let mut k = i + 1;
    while k < j
        invariant
            i + 1 <= k <= j <= v.len(),
            body@ == v@.subrange(i + 1, k as int),
        decreases j - k,
    {
        body.push(v[k]);
        proof {
            assert(body@ =~= v@.subrange(i + 1, k + 1 as int));
        }
        k = k + 1;
    }
    Some((body, j + 1))
}

fn parse_value(v: &Vec<char>, i: usize) -> (r: Option<(JsonValue, usize)>)
    requires
        i <= v.len(),
    ensures
        match r {
            Some((jv, j)) => spec_parse_value(v@, i as int) matches Some((sv, jj)) && jv@ == sv
                && j == jj && i < j <= v.len(),
            None => spec_parse_value(v@, i as int) is None,
        },
{
    if i < v.len() && v[i] == '"' {
        match parse_string(v, i) {
            None => None,
            Some((body, j)) => Some((JsonValue::Str(body), j)),
        }
    } else {
        match parse_number(v, i) {
            None => None,
            Some((n, j)) => Some((JsonValue::Num(n), j)),
        }
    }
}

fn parse_pair(v: &Vec<char>, i: usize) -> (r: Option<(Vec<char>, JsonValue, usize)>)
    requires
        i <= v.len(),
    ensures
        match r {
            Some((key, jv, j)) => spec_parse_pair(v@, i as int) matches Some((pr, jj)) && key@
                == pr.0 && jv@ == pr.1 && j == jj && i < j <= v.len(),
            None => spec_parse_pair(v@, i as int) is None,
        },
{
    match parse_string(v, i) {
        None => None,
        Some((key, j)) => {
            let j2 = skip_ws(v, j);
            if j2 >= v.len() || v[j2] != ':' {
                return None;
            }
            let j3 = skip_ws(v, j2 + 1);
            match parse_value(v, j3) {
                None => None,
                Some((jv, j4)) => Some((key, jv, j4)),
            }
        },
    }
}

/// The view of a parsed pair list.
pub open spec fn pairs_view(prs: Seq<(Vec<char>, JsonValue)>) -> Seq<(Seq<char>, JsonValV)> {
    prs.map_values(|p: (Vec<char>, JsonValue)| (p.0@, p.1@))
}

fn parse_members(v: &Vec<char>, i: usize) -> (r: Option<(Vec<(Vec<char>, JsonValue)>, usize)>)
    requires
        i <= v.len(),
    ensures
        match r {
            Some((prs, j)) => spec_parse_members(v@, i as int) matches Some((sprs, jj))
                && pairs_view(prs@) == sprs && j == jj && j <= v.len(),
            None => spec_parse_members(v@, i as int) is None,
        },
{
    let mut acc: Vec<(Vec<char>, JsonValue)> = Vec::new();
    let mut cur = i;
    loop
        invariant
            i <= cur <= v.len(),
            ({
                let whole = spec_parse_members(v@, i as int);
                let rest = spec_parse_members(v@, cur as int);
                match rest {
                    Some((rprs, k)) => whole matches Some((wprs, wk)) && wprs == pairs_view(acc@)
                        + rprs && wk == k,
                    None => whole is None,
                }
            }),
        decreases v.len() - cur,
    {
        match parse_pair(v, cur) {
            None => {
                return None;
            },
            Some((key, jv, j)) => {
                let ghost pr = (key@, jv@);
                let prev_cur = cur;
                acc.push((key, jv));
                proof {
                    assert(pairs_view(acc@) =~= pairs_view(acc@.drop_last()).push(pr));
                }
                let j2 = skip_ws(v, j);
                if j2 < v.len() && v[j2] == ',' {
                    let j3 = skip_ws(v, j2 + 1);
                    cur = j3;
                    proof {
                        let whole = spec_parse_members(v@, i as int);
                        let rest_new = spec_parse_members(v@, cur as int);
                        match rest_new {
                            Some((rprs, k)) => {
                                assert(spec_parse_members(v@, prev_cur as int) == Some(
                                    (seq![pr] + rprs, k),
                                ));
                                assert(pairs_view(acc@.drop_last()) + (seq![pr] + rprs)
                                    =~= pairs_view(acc@) + rprs);
                            },
                            None => {
                                assert(spec_parse_members(v@, prev_cur as int) is None);
                            },
                        }
                    }
                } else {
                    proof {
                        assert(spec_parse_members(v@, prev_cur as int) == Some((seq![pr], j as int)));
                        assert(pairs_view(acc@.drop_last()) + seq![pr] =~= pairs_view(acc@));
                    }
                    return Some((acc, j));
                }
            },
        }
    }
}

/// The value at the first occurrence of `key`, if any.
pub open spec fn spec_lookup(prs: Seq<(Seq<char>, JsonValV)>, key: Seq<char>) -> Option<JsonValV>
    decreases prs.len(),
{
    if prs.len() == 0 {
        None
    } else if prs[0].0 == key {
        Some(prs[0].1)
    } else {
        spec_lookup(prs.drop_first(), key)
    }
}

/// No key occurs twice.
pub open spec fn distinct_keys(prs: Seq<(Seq<char>, JsonValV)>) -> bool {
    forall|a: int, b: int| 0 <= a < b < prs.len() ==> prs[a].0 != prs[b].0
}

/// Whether two character vectors hold the same text.
pub fn chars_eq(a: &Vec<char>, b: &Vec<char>) -> (r: bool)
    ensures
        r == (a@ == b@),
{
    if a.len() != b.len() {
        return false;
    }
    let mut i: usize = 0;
    while i < a.len()
        invariant
            i <= a.len(),
            a.len() == b.len(),
            forall|j: int| 0 <= j < i ==> a@[j] == b@[j],
        decreases a.len() - i,
    {
        if a[i] != b[i] {
            return false;
        }
        i = i + 1;
    }
    proof {
        assert(a@ =~= b@);
    }
    true
}

/// Whether `a` holds the text of `s`.
pub fn chars_eq_str(a: &Vec<char>, s: &str) -> (r: bool)
    ensures
        r == (a@ == s@),
{
    let n = s.unicode_len();
    if a.len() != n {
        return false;
    }
    let mut i: usize = 0;
    while i < n
        invariant
            i <= n,
            a.len() == n,
            n == s@.len(),
            forall|j: int| 0 <= j < i ==> a@[j] == s@[j],
        decreases n - i,
    {
        if a[i] != s.get_char(i) {
            return false;
        }
        i = i + 1;
    }
    proof {
        assert(a@ =~= s@);
    }
    true
}

/// Find the value at the first occurrence of the key `key`.
pub fn lookup<'a>(prs: &'a Vec<(Vec<char>, JsonValue)>, key: &str) -> (r: Option<&'a JsonValue>)
    ensures
        match r {
            Some(jv) => spec_lookup(pairs_view(prs@), key@) == Some(jv@),
            None => spec_lookup(pairs_view(prs@), key@) is None,
        },
{
    let ghost pv = pairs_view(prs@);
    proof {
        assert(pv.skip(0) =~= pv);
    }
    let mut i: usize = 0;
    while i < prs.len()
        invariant
            i <= prs.len(),
            pv == pairs_view(prs@),
            pv.len() == prs.len(),
            spec_lookup(pv.skip(i as int), key@) == spec_lookup(pv, key@),
            forall|j: int| 0 <= j < pv.len() ==> #[trigger] pv[j] == (prs@[j].0@, prs@[j].1@),
        decreases prs.len() - i,
    {
        if chars_eq_str(&prs[i].0, key) {
            proof {
                assert(pv.skip(i as int)[0] == pv[i as int]);
            }
            return Some(&prs[i].1);
        }
        proof {
            assert(pv.skip(i as int)[0] == pv[i as int]);
            assert(pv.skip(i as int).drop_first() =~= pv.skip(i + 1));
        }
        i = i + 1;
    }
    proof {
        assert(pv.skip(i as int).len() == 0);
    }
    None
}

/// Whether no key occurs twice.
pub fn keys_distinct(prs: &Vec<(Vec<char>, JsonValue)>) -> (r: bool)
    ensures
        r == distinct_keys(pairs_view(prs@)),
{
    let ghost pv = pairs_view(prs@);
    let mut a: usize = 0;
    while a < prs.len()
        invariant
            a <= prs.len(),
            pv == pairs_view(prs@),
            pv.len() == prs.len(),
            forall|j: int| 0 <= j < pv.len() ==> #[trigger] pv[j] == (prs@[j].0@, prs@[j].1@),
            forall|x: int, y: int| 0 <= x < y < pv.len() && x < a ==> pv[x].0 != pv[y].0,
        decreases prs.len() - a,
    {
        let mut b: usize = a + 1;
        while b < prs.len()
            invariant
                a < b <= prs.len() || b == a + 1,
                a < prs.len(),
                pv == pairs_view(prs@),
                pv.len() == prs.len(),
                forall|j: int| 0 <= j < pv.len() ==> #[trigger] pv[j] == (prs@[j].0@, prs@[j].1@),
                forall|y: int| a < y < b ==> pv[a as int].0 != pv[y].0,
            decreases prs.len() - b,
        {
            if chars_eq(&prs[a].0, &prs[b].0) {
                proof {
                    assert(pv[a as int].0 == pv[b as int].0);
                }
                return false;
            }
            b = b + 1;
        }
        a = a + 1;
    }
    true
}

/// Parse a whole text as one JSON object, yielding its key/value pairs in
/// textual order.
pub fn parse_object(v: &Vec<char>) -> (r: Option<Vec<(Vec<char>, JsonValue)>>)
    ensures
        match r {
            Some(prs) => spec_parse_object(v@) == Some(pairs_view(prs@)),
            None => spec_parse_object(v@) is None,
        },
{
    let i = skip_ws(v, 0);
    if i >= v.len() || v[i] != '{' {
        return None;
    }
    let j = skip_ws(v, i + 1);
    if j < v.len() && v[j] == '}' {
        if skip_ws(v, j + 1) == v.len() {
            let prs: Vec<(Vec<char>, JsonValue)> = Vec::new();
            proof {
                assert(pairs_view(prs@) =~= Seq::<(Seq<char>, JsonValV)>::empty());
            }
            return Some(prs);
        } else {
            return None;
        }
    }
    match parse_members(v, j) {
        None => None,
        Some((prs, k)) => {
            let k2 = skip_ws(v, k);
            if k2 < v.len() && v[k2] == '}' && skip_ws(v, k2 + 1) == v.len() {
                Some(prs)
            } else {
                None
            }
        },
    }
}

} // verus!
