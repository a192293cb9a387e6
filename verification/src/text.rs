//! Text utilities shared by the extractor and the crawl driver: the
//! newline-to-space normalization applied to prompts and answers, the
//! blank-body test that ends a crawl, character-count truncation for file
//! names, and decimal rendering for page markers.

use vstd::prelude::*;

verus! {

/// The whitespace characters recognized when trimming and when testing a
/// response body for blankness (the Unicode `White_Space` set, as
/// `str::trim` uses).
pub open spec fn is_ws(c: char) -> bool {
    let u = c as u32;
    u == 0x20 || u == 0x9 || u == 0xa || u == 0xd || u == 0xb || u == 0xc || u == 0x85
        || u == 0xa0 || u == 0x1680 || (0x2000 <= u && u <= 0x200a) || u == 0x2028
        || u == 0x2029 || u == 0x202f || u == 0x205f || u == 0x3000
}

/// Runtime test matching `is_ws`.
pub fn ws_char(c: char) -> (b: bool)
    ensures
        b == is_ws(c),
{
    let u = c as u32;
    u == 0x20 || u == 0x9 || u == 0xa || u == 0xd || u == 0xb || u == 0xc || u == 0x85
        || u == 0xa0 || u == 0x1680 || (0x2000 <= u && u <= 0x200a) || u == 0x2028
        || u == 0x2029 || u == 0x202f || u == 0x205f || u == 0x3000
}

/// One character of the newline replacement: a newline becomes a space,
/// everything else is unchanged.
pub open spec fn repl_char(c: char) -> char {
    if c == '\n' {
        ' '
    } else {
        c
    }
}

/// Pointwise newline replacement over a character sequence.
pub open spec fn repl_seq(s: Seq<char>) -> Seq<char> {
    s.map_values(|c: char| repl_char(c))
}

/// Drop leading whitespace.
pub open spec fn trim_front(s: Seq<char>) -> Seq<char>
    decreases s.len(),
{
    if s.len() > 0 && is_ws(s[0]) {
        trim_front(s.drop_first())
    } else {
        s
    }
}

/// Drop trailing whitespace.
pub open spec fn trim_back(s: Seq<char>) -> Seq<char>
    decreases s.len(),
{
    if s.len() > 0 && is_ws(s.last()) {
        trim_back(s.drop_last())
    } else {
        s
    }
}

/// Drop leading and trailing whitespace.
pub open spec fn trim_seq(s: Seq<char>) -> Seq<char> {
    trim_back(trim_front(s))
}

/// The normalization applied to prompt and answer texts: newlines become
/// spaces, then surrounding whitespace is removed.
pub open spec fn norm_seq(s: Seq<char>) -> Seq<char> {
    trim_seq(repl_seq(s))
}

/// A body is blank when every character is whitespace (so in particular
/// when it is empty).
pub open spec fn blank(s: Seq<char>) -> bool {
    forall|i: int| 0 <= i < s.len() ==> is_ws(s[i])
}

/// Character-count truncation: sequences shorter than `max` pass through,
/// longer ones keep their first `max` characters.
pub open spec fn truncate_spec(s: Seq<char>, max: int) -> Seq<char> {
    if s.len() < max {
        s
    } else {
        s.take(max)
    }
}

/// The decimal digit character for `d` (`0 <= d < 10`).
pub open spec fn digit_char(d: int) -> char {
    ((48 + d) as u8) as char
}

/// Decimal rendering of a non-negative integer, most significant digit
/// first.
pub open spec fn dec_spec(n: int) -> Seq<char>
    decreases n,
{
    if n < 10 {
        seq![digit_char(if n < 0 { 0 } else { n })]
    } else {
        dec_spec(n / 10).push(digit_char(n % 10))
    }
}

/// Relies on `String::push`: appends exactly the given character.
#[verifier::external_body]
pub fn push_char(s: &mut String, c: char)
    ensures
        final(s)@ == old(s)@.push(c),
{
    s.push(c);
}

/// `trim_front` never leaves whitespace at the front.
proof fn lemma_trim_front_head(s: Seq<char>)
    ensures
        trim_front(s).len() > 0 ==> !is_ws(trim_front(s)[0]),
    decreases s.len(),
{
    if s.len() > 0 && is_ws(s[0]) {
        lemma_trim_front_head(s.drop_first());
    }
}

/// `trim_back` never leaves whitespace at the back.
proof fn lemma_trim_back_last(s: Seq<char>)
    ensures
        trim_back(s).len() > 0 ==> !is_ws(trim_back(s).last()),
    decreases s.len(),
{
    if s.len() > 0 && is_ws(s.last()) {
        lemma_trim_back_last(s.drop_last());
    }
}

/// `trim_back` keeps a prefix of its input.
proof fn lemma_trim_back_prefix(s: Seq<char>)
    ensures
        trim_back(s).len() <= s.len(),
        trim_back(s) == s.take(trim_back(s).len() as int),
    decreases s.len(),
{
    if s.len() > 0 && is_ws(s.last()) {
        lemma_trim_back_prefix(s.drop_last());
        assert(s.drop_last().take(trim_back(s).len() as int) =~= s.take(
            trim_back(s).len() as int,
        ));
    } else {
        assert(s.take(s.len() as int) =~= s);
    }
}

/// `trim_front` keeps a suffix of its input.
proof fn lemma_trim_front_suffix(s: Seq<char>)
    ensures
        trim_front(s).len() <= s.len(),
        trim_front(s) == s.skip(s.len() - trim_front(s).len()),
    decreases s.len(),
{
    if s.len() > 0 && is_ws(s[0]) {
        lemma_trim_front_suffix(s.drop_first());
        assert(s.drop_first().skip(s.len() - 1 - trim_front(s).len()) =~= s.skip(
            s.len() - trim_front(s).len(),
        ));
    } else {
        assert(s.skip(0) =~= s);
    }
}

/// Trimming is idempotent.
proof fn lemma_trim_idem(s: Seq<char>)
    ensures
        trim_seq(trim_seq(s)) == trim_seq(s),
{
    let u = trim_front(s);
    let t = trim_back(u);
    lemma_trim_front_head(s);
    lemma_trim_back_prefix(u);
    if t.len() > 0 {
        assert(t[0] == u[0]);
        assert(!is_ws(t[0]));
    }
    assert(trim_front(t) == t);
    lemma_trim_back_last(u);
    assert(trim_back(t) == t);
}

/// Replacement leaves no newline behind.
proof fn lemma_repl_no_newline(s: Seq<char>)
    ensures
        forall|i: int| 0 <= i < repl_seq(s).len() ==> repl_seq(s)[i] != '\n',
{
}

/// Replacement is the identity on newline-free sequences.
proof fn lemma_repl_id(s: Seq<char>)
    requires
        forall|i: int| 0 <= i < s.len() ==> s[i] != '\n',
    ensures
        repl_seq(s) == s,
{
    assert(repl_seq(s) =~= s);
}

/// Normalization is idempotent, leaves no newline, and leaves no
/// surrounding whitespace: normalizing already-normalized text returns it
/// unchanged.
pub proof fn lemma_norm_idempotent(s: Seq<char>)
    ensures
        norm_seq(norm_seq(s)) == norm_seq(s),
        forall|i: int| 0 <= i < norm_seq(s).len() ==> norm_seq(s)[i] != '\n',
        norm_seq(s).len() > 0 ==> !is_ws(norm_seq(s)[0]) && !is_ws(norm_seq(s).last()),
{
    let r = repl_seq(s);
    let t = norm_seq(s);
    lemma_repl_no_newline(s);
    lemma_trim_front_suffix(r);
    lemma_trim_back_prefix(trim_front(r));
    assert(forall|i: int| 0 <= i < t.len() ==> t[i] != '\n');
    lemma_repl_id(t);
    lemma_trim_idem(r);
    lemma_trim_front_head(r);
    lemma_trim_back_prefix(trim_front(r));
    if t.len() > 0 {
        assert(t[0] == trim_front(r)[0]);
    }
    lemma_trim_back_last(trim_front(r));
}

proof fn lemma_trim_front_blank(s: Seq<char>)
    ensures
        (trim_front(s).len() == 0) == blank(s),
    decreases s.len(),
{
    if s.len() > 0 && is_ws(s[0]) {
        lemma_trim_front_blank(s.drop_first());
        assert forall|i: int| 0 <= i < s.len() && blank(s.drop_first()) implies is_ws(s[i]) by {
            if i > 0 {
                assert(s[i] == s.drop_first()[i - 1]);
            }
        }
        assert(blank(s.drop_first()) ==> blank(s));
        assert forall|i: int| 0 <= i < s.drop_first().len() && blank(s) implies is_ws(
            s.drop_first()[i],
        ) by {
            assert(s.drop_first()[i] == s[i + 1]);
        }
    } else if s.len() > 0 {
        assert(!is_ws(s[0]));
        assert(!blank(s));
    }
}

/// The end-of-data test agrees with trimming: a body is blank exactly
/// when trimming leaves nothing of it.
pub proof fn lemma_blank_means_trims_to_empty(s: Seq<char>)
    ensures
        blank(s) == (trim_seq(s).len() == 0),
{
    lemma_trim_front_blank(s);
    lemma_trim_front_head(s);
    let u = trim_front(s);
    if u.len() > 0 {
        assert(!is_ws(u[0]));
        lemma_trim_back_prefix(u);
        if trim_back(u).len() == 0 {
            lemma_trim_back_nonempty(u);
        }
    }
}

proof fn lemma_trim_back_nonempty(u: Seq<char>)
    requires
        u.len() > 0,
        !is_ws(u[0]),
    ensures
        trim_back(u).len() > 0,
    decreases u.len(),
{
    if is_ws(u.last()) {
        lemma_trim_back_nonempty(u.drop_last());
    }
}

/// Normalize a prompt or answer text: newlines become spaces and
/// surrounding whitespace is dropped.
pub fn normalize_text(s: &str) -> (r: String)
    ensures
        r@ == norm_seq(s@),
{
    let n = s.unicode_len();
    let ghost rs = repl_seq(s@);
    proof {
        assert(rs.skip(0) =~= rs);
    }
    let mut start: usize = 0;
    while start < n && ws_char(s.get_char(start))
        invariant
            n == s@.len(),
            start <= n,
            rs == repl_seq(s@),
            trim_front(rs) == trim_front(rs.skip(start as int)),
        decreases n - start,
    {
        proof {
            assert(rs[start as int] == repl_char(s@[start as int]));
            assert(is_ws(rs[start as int]));
            assert(rs.skip(start as int).drop_first() =~= rs.skip(start as int + 1));
        }
        start = start + 1;
    }
    proof {
        if start < n {
            assert(rs.skip(start as int)[0] == repl_char(s@[start as int]));
            assert(!is_ws(rs.skip(start as int)[0]));
        } else {
            assert(rs.skip(start as int) =~= Seq::<char>::empty());
        }
        assert(trim_front(rs) == rs.skip(start as int));
    }
    let ghost u = rs.skip(start as int);
    proof {
        assert(u.take(n - start) =~= u);
    }
    let mut end: usize = n;
    while end > start && ws_char(s.get_char(end - 1))
        invariant
            n == s@.len(),
            start <= end <= n,
            rs == repl_seq(s@),
            u == rs.skip(start as int),
            trim_back(u) == trim_back(u.take(end - start)),
        decreases end,
    {
        proof {
            let k = end - start;
            assert(u.take(k)[k - 1] == rs[end - 1]);
            assert(rs[end - 1] == repl_char(s@[end - 1]));
            assert(is_ws(u.take(k).last()));
            assert(u.take(k).drop_last() =~= u.take(k - 1));
        }
        end = end - 1;
    }
    proof {
        if end > start {
            let k = end - start;
            assert(u.take(k).last() == rs[end - 1]);
            assert(rs[end - 1] == repl_char(s@[end - 1]));
            assert(!is_ws(u.take(k).last()));
        } else {
            assert(u.take(0) =~= Seq::<char>::empty());
        }
        assert(trim_back(u) == u.take(end - start));
        assert(u.take(end - start) =~= rs.subrange(start as int, end as int));
    }
    let mut r = String::new();
    let mut i: usize = start;
    while i < end
        invariant
            n == s@.len(),
            start <= i <= end <= n,
            rs == repl_seq(s@),
            r@ == rs.subrange(start as int, i as int),
        decreases end - i,
    {
        let c = s.get_char(i);
        let d = if c == '\n' {
            ' '
        } else {
            c
        };
        proof {
            assert(d == repl_char(s@[i as int]));
            assert(rs.subrange(start as int, i as int).push(rs[i as int]) =~= rs.subrange(
                start as int,
                i as int + 1,
            ));
        }
        push_char(&mut r, d);
        i = i + 1;
    }
    proof {
        assert(r@ == norm_seq(s@));
    }
    r
}

/// Whether a response body counts as empty: nothing but whitespace in it.
pub fn is_blank(s: &str) -> (b: bool)
    ensures
        b == blank(s@),
{
    let n = s.unicode_len();
    let mut i: usize = 0;
    while i < n
        invariant
            n == s@.len(),
            i <= n,
            forall|j: int| 0 <= j < i ==> is_ws(s@[j]),
        decreases n - i,
    {
        if !ws_char(s.get_char(i)) {
            return false;
        }
        i = i + 1;
    }
    true
}

/// Character-by-character string equality, meaning equality of the views.
pub fn str_eq(a: &str, b: &str) -> (r: bool)
    ensures
        r == (a@ == b@),
{
    let an = a.unicode_len();
    let bn = b.unicode_len();
    if an != bn {
        return false;
    }
    let mut i: usize = 0;
    while i < an
        invariant
            an == a@.len() == b@.len(),
            i <= an,
            forall|j: int| 0 <= j < i ==> a@[j] == b@[j],
        decreases an - i,
    {
        if a.get_char(i) != b.get_char(i) {
            return false;
        }
        i = i + 1;
    }
    proof {
        assert(a@ =~= b@);
    }
    true
}

/// Keep at most `max` characters of `name`, counting characters rather
/// than bytes.
pub fn truncate(name: &str, max: usize) -> (r: String)
    ensures
        r@ == truncate_spec(name@, max as int),
{
    let n = name.unicode_len();
    if n < max {
        return name.to_owned();
    }
    let mut r = String::new();
    let mut i: usize = 0;
    while i < max
        invariant
            n == name@.len(),
            max <= n,
            i <= max,
            r@ == name@.take(i as int),
        decreases max - i,
    {
        proof {
            assert(name@.take(i as int).push(name@[i as int]) =~= name@.take(i as int + 1));
        }
        push_char(&mut r, name.get_char(i));
        i = i + 1;
    }
    r
}

/// Decimal rendering of a page number, for the archive's page markers.
pub fn dec_str(n: usize) -> (r: String)
    ensures
        r@ == dec_spec(n as int),
    decreases n,
{
    if n < 10 {
        let mut r = String::new();
        let d = (48 + (n as u8)) as char;
        push_char(&mut r, d);
        proof {
            assert(r@ =~= seq![digit_char(n as int)]);
        }
        r
    } else {
        let mut r = dec_str(n / 10);
        let d = (48 + ((n % 10) as u8)) as char;
        push_char(&mut r, d);
        r
    }
}

} // verus!
