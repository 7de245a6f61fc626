use vstd::prelude::*;

verus! {

/// Unicode `White_Space`: the characters for which `char::is_whitespace` holds.
pub open spec fn is_white_space(c: char) -> bool {
    let u = c as u32;
    ||| 0x09 <= u <= 0x0d
    ||| u == 0x20
    ||| u == 0x85
    ||| u == 0xa0
    ||| u == 0x1680
    ||| 0x2000 <= u <= 0x200a
    ||| u == 0x2028
    ||| u == 0x2029
    ||| u == 0x202f
    ||| u == 0x205f
    ||| u == 0x3000
}

/// `s` without its leading white space.
pub open spec fn trim_start(s: Seq<char>) -> Seq<char>
    decreases s.len(),
{
    if s.len() > 0 && is_white_space(s[0]) {
        trim_start(s.drop_first())
    } else {
        s
    }
}

/// `s` without its trailing white space.
pub open spec fn trim_end(s: Seq<char>) -> Seq<char>
    decreases s.len(),
{
    if s.len() > 0 && is_white_space(s.last()) {
        trim_end(s.drop_last())
    } else {
        s
    }
}

/// `s` without leading and trailing white space, as `str::trim` gives it.
pub open spec fn trimmed(s: Seq<char>) -> Seq<char> {
    trim_end(trim_start(s))
}

/// How many times `c` occurs in `s`.
pub open spec fn occurrences(s: Seq<char>, c: char) -> nat
    decreases s.len(),
{
    if s.len() == 0 {
        0
    } else {
        occurrences(s.drop_last(), c) + if s.last() == c { 1nat } else { 0nat }
    }
}

/// How many lines `str::lines` yields for `s`: a final line break ends the
/// last line without starting another one.
pub open spec fn line_count(s: Seq<char>) -> nat {
    if s.len() == 0 {
        0
    } else {
        occurrences(s.drop_last(), '\n') + 1
    }
}

/// The character of the decimal digit `d`.
pub open spec fn digit_char(d: nat) -> char
    recommends
        d < 10,
{
    if d == 0 { '0' }
    else if d == 1 { '1' }
    else if d == 2 { '2' }
    else if d == 3 { '3' }
    else if d == 4 { '4' }
    else if d == 5 { '5' }
    else if d == 6 { '6' }
    else if d == 7 { '7' }
    else if d == 8 { '8' }
    else { '9' }
}

/// The decimal notation of `n`, without leading zeros.
pub open spec fn decimal(n: nat) -> Seq<char>
    decreases n,
{
    if n < 10 {
        seq![digit_char(n)]
    } else {
        decimal(n / 10).push(digit_char(n % 10))
    }
}

/// The characters of `s`, in order.
pub fn chars_of(s: &str) -> (chars: Vec<char>)
    ensures
        chars@ == s@,
{
    let mut chars: Vec<char> = Vec::new();
    for c in it: s.chars()
        invariant
            chars@ == it.seq().take(it.index() as int),
            it.seq() == s@,
    {
        chars.push(c);
    }
    chars
}

/// Whether `c` is white space in the sense of `char::is_whitespace`.
pub fn is_white_space_char(c: char) -> (b: bool)
    ensures
        b == is_white_space(c),
{
    let u = c as u32;
    (0x09 <= u && u <= 0x0d) || u == 0x20 || u == 0x85 || u == 0xa0 || u == 0x1680 || (0x2000
        <= u && u <= 0x200a) || u == 0x2028 || u == 0x2029 || u == 0x202f || u == 0x205f || u
        == 0x3000
}

proof fn lemma_trim_start_at(s: Seq<char>, i: int)
    requires
        0 <= i <= s.len(),
        forall|k: int| 0 <= k < i ==> is_white_space(#[trigger] s[k]),
        i == s.len() || !is_white_space(s[i]),
    ensures
        trim_start(s) == s.skip(i),
    decreases i,
{
    if i == 0 {
        assert(s.skip(0) =~= s);
    } else {
        let t = s.drop_first();
        assert forall|k: int| 0 <= k < i - 1 implies is_white_space(#[trigger] t[k]) by {
            assert(t[k] == s[k + 1]);
        }
        if i - 1 < t.len() {
            assert(t[i - 1] == s[i]);
        }
        lemma_trim_start_at(t, i - 1);
        assert(t.skip(i - 1) =~= s.skip(i));
    }
}

proof fn lemma_trim_end_at(s: Seq<char>, j: int)
    requires
        0 <= j <= s.len(),
        forall|k: int| j <= k < s.len() ==> is_white_space(#[trigger] s[k]),
        j == 0 || !is_white_space(s[j - 1]),
    ensures
        trim_end(s) == s.take(j),
    decreases s.len() - j,
{
    if j == s.len() {
        assert(s.take(j) =~= s);
    } else {
        let t = s.drop_last();
        assert forall|k: int| j <= k < t.len() implies is_white_space(#[trigger] t[k]) by {
            assert(t[k] == s[k]);
        }
        if j > 0 {
            assert(t[j - 1] == s[j - 1]);
        }
        lemma_trim_end_at(t, j);
        assert(t.take(j) =~= s.take(j));
    }
}

/// `s` without leading and trailing white space (`str::trim`).
pub fn trim(s: &str) -> (t: String)
    ensures
        t@ == trimmed(s@),
{
    let chars = chars_of(s);
    let n = chars.len();
    let mut i: usize = 0;
    while i < n && is_white_space_char(chars[i])
        invariant
            chars@ == s@,
            n == chars.len(),
            i <= n,
            forall|k: int| 0 <= k < i ==> is_white_space(#[trigger] chars@[k]),
        decreases n - i,
    {
        i = i + 1;
    }
    let mut j: usize = n;
    while j > i && is_white_space_char(chars[j - 1])
        invariant
            chars@ == s@,
            n == chars.len(),
            i <= j <= n,
            forall|k: int| j <= k < n ==> is_white_space(#[trigger] chars@[k]),
        decreases j,
    {
        j = j - 1;
    }
    proof {
        let v = s@;
        lemma_trim_start_at(v, i as int);
        let w = v.skip(i as int);
        assert forall|k: int| j - i <= k < w.len() implies is_white_space(#[trigger] w[k]) by {
            assert(w[k] == v[k + i]);
        }
        if j > i {
            assert(w[j - i - 1] == v[j - 1]);
        }
        lemma_trim_end_at(w, j - i);
        assert(w.take(j - i) =~= v.subrange(i as int, j as int));
    }
    String::from_str(s.substring_char(i, j))
}

proof fn lemma_occurrences_push(s: Seq<char>, x: char, c: char)
    ensures
        occurrences(s.push(x), c) == occurrences(s, c) + if x == c { 1nat } else { 0nat },
{
    assert(s.push(x).drop_last() =~= s);
}

/// How many lines `str::lines` yields for `s`.
pub fn count_lines(s: &str) -> (n: usize)
    ensures
        n == line_count(s@),
{
    let chars = chars_of(s);
    let len = chars.len();
    if len == 0 {
        return 0;
    }
    let mut breaks: usize = 0;
    let mut i: usize = 0;
    while i < len - 1
        invariant
            chars@ == s@,
            len == chars.len(),
            len > 0,
            i <= len - 1,
            breaks == occurrences(chars@.take(i as int), '\n'),
            breaks <= i,
        decreases len - i,
    {
        proof {
            lemma_occurrences_push(chars@.take(i as int), chars@[i as int], '\n');
            assert(chars@.take(i as int).push(chars@[i as int]) =~= chars@.take(i + 1));
        }
        if chars[i] == '\n' {
            breaks = breaks + 1;
        }
        i = i + 1;
    }
    assert(chars@.take(len - 1) =~= chars@.drop_last());
    breaks + 1
}

/// The one-character text of the decimal digit `d`.
fn digit_text(d: u64) -> (t: &'static str)
    requires
        d < 10,
    ensures
        t@ == seq![digit_char(d as nat)],
{
    proof {
        reveal_strlit("0");
        reveal_strlit("1");
        reveal_strlit("2");
        reveal_strlit("3");
        reveal_strlit("4");
        reveal_strlit("5");
        reveal_strlit("6");
        reveal_strlit("7");
        reveal_strlit("8");
        reveal_strlit("9");
    }
    if d == 0 { "0" }
    else if d == 1 { "1" }
    else if d == 2 { "2" }
    else if d == 3 { "3" }
    else if d == 4 { "4" }
    else if d == 5 { "5" }
    else if d == 6 { "6" }
    else if d == 7 { "7" }
    else if d == 8 { "8" }
    else { "9" }
}

/// Appends the decimal notation of `n` to `out`.
pub fn push_decimal(out: &mut String, n: u64)
    ensures
        final(out)@ == old(out)@ + decimal(n as nat),
    decreases n,
{
    if n < 10 {
        out.append(digit_text(n));
    } else {
        push_decimal(out, n / 10);
        out.append(digit_text(n % 10));
        assert(decimal(n as nat) == decimal((n / 10) as nat).push(digit_char((n % 10) as nat)));
        assert(old(out)@ + decimal(n as nat) =~= old(out)@ + decimal((n / 10) as nat) + seq![digit_char((n % 10) as nat)]);
    }
}

proof fn lemma_trim_start_idempotent(s: Seq<char>)
    ensures
        trim_start(trim_start(s)) == trim_start(s),
        trim_start(s).len() > 0 ==> !is_white_space(trim_start(s)[0]),
    decreases s.len(),
{
    if s.len() > 0 && is_white_space(s[0]) {
        lemma_trim_start_idempotent(s.drop_first());
    }
}

proof fn lemma_trim_end_keeps_start(s: Seq<char>)
    requires
        s.len() > 0 ==> !is_white_space(s[0]),
    ensures
        trim_end(s).len() > 0 ==> !is_white_space(trim_end(s)[0]),
        trim_end(s).len() > 0 ==> !is_white_space(trim_end(s).last()),
        trim_end(s).len() > 0 ==> trim_start(trim_end(s)) == trim_end(s),
    decreases s.len(),
{
    if s.len() > 0 && is_white_space(s.last()) {
        let t = s.drop_last();
        if t.len() > 0 {
            assert(t[0] == s[0]);
        }
        lemma_trim_end_keeps_start(t);
    }
}

/// Trimming twice gives what trimming once gives.
pub proof fn lemma_trimmed_idempotent(s: Seq<char>)
    ensures
        trimmed(trimmed(s)) == trimmed(s),
{
    lemma_trim_start_idempotent(s);
    let t = trim_start(s);
    lemma_trim_end_keeps_start(t);
    let u = trim_end(t);
    if u.len() > 0 {
        assert(trim_start(u) == u);
        assert(trim_end(u) == u);
    } else {
        assert(trim_start(u) == u);
        assert(trim_end(u) == u);
    }
}

} // verus!
