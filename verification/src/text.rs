use vstd::prelude::*;
use vstd::string::*;

verus! {

/// Whether `c` carries the Unicode `White_Space` property.
pub open spec fn is_space(c: char) -> bool {
    ||| ('\u{9}' <= c && c <= '\u{d}')
    ||| c == ' '
    ||| c == '\u{85}'
    ||| c == '\u{a0}'
    ||| c == '\u{1680}'
    ||| ('\u{2000}' <= c && c <= '\u{200a}')
    ||| c == '\u{2028}'
    ||| c == '\u{2029}'
    ||| c == '\u{202f}'
    ||| c == '\u{205f}'
    ||| c == '\u{3000}'
}

/// Whether `c` is white space (as `char::is_whitespace` decides).
pub fn char_is_space(c: char) -> (res: bool)
    ensures res == is_space(c),
{
    ('\u{9}' <= c && c <= '\u{d}') || c == ' ' || c == '\u{85}' || c == '\u{a0}' || c == '\u{1680}'
        || ('\u{2000}' <= c && c <= '\u{200a}') || c == '\u{2028}' || c == '\u{2029}'
        || c == '\u{202f}' || c == '\u{205f}' || c == '\u{3000}'
}

/// The characters of `s`, one per element.
pub fn chars_of(s: &str) -> (v: Vec<char>)
    ensures v@ == s@,
{
    let mut v: Vec<char> = Vec::new();
    for c in it: s.chars()
        invariant
            v@ == it.seq().take(it.index() as int),
    {
        v.push(c);
    }
    v
}


/// `s` without its leading white space.
pub open spec fn trim_start(s: Seq<char>) -> Seq<char>
    decreases s.len(),
{
    if s.len() > 0 && is_space(s[0]) {
        trim_start(s.drop_first())
    } else {
        s
    }
}

/// `s` without its trailing white space.
pub open spec fn trim_end(s: Seq<char>) -> Seq<char>
    decreases s.len(),
{
    if s.len() > 0 && is_space(s.last()) {
        trim_end(s.drop_last())
    } else {
        s
    }
}

/// `s` without leading and trailing white space.
pub open spec fn trim(s: Seq<char>) -> Seq<char> {
    trim_end(trim_start(s))
}

/// Text equality over characters.
pub fn same_text(a: &str, b: &str) -> (res: bool)
    ensures res == (a@ == b@),
{
    let x = chars_of(a);
    let y = chars_of(b);
    if x.len() != y.len() {
        return false;
    }
    let mut i: usize = 0;
    while i < x.len()
        invariant
            x@ == a@,
            y@ == b@,
            x.len() == y.len(),
            i <= x.len(),
            forall|k: int| 0 <= k < i ==> x@[k] == y@[k],
        decreases x.len() - i,
    {
        if x[i] != y[i] {
            return false;
        }
        i = i + 1;
    }
    assert(x@ =~= y@);
    true
}

/// The bounds `(start, end)` of the trimmed part of `v[lo..hi]`.
pub fn trim_bounds_in(v: &Vec<char>, lo: usize, hi: usize) -> (res: (usize, usize))
    requires
        lo <= hi <= v.len(),
    ensures
        lo <= res.0 <= res.1 <= hi,
        trim(v@.subrange(lo as int, hi as int)) == v@.subrange(res.0 as int, res.1 as int),
{
    let mut i: usize = lo;
    while i < hi && char_is_space(v[i])
        invariant
            lo <= i <= hi <= v.len(),
            trim_start(v@.subrange(lo as int, hi as int)) == trim_start(v@.subrange(i as int, hi as int)),
        decreases hi - i,
    {
        assert(v@.subrange(i as int, hi as int).drop_first() =~= v@.subrange(i + 1, hi as int));
        i = i + 1;
    }
    assert(trim_start(v@.subrange(i as int, hi as int)) == v@.subrange(i as int, hi as int));
    let mut j: usize = hi;
    while j > i && char_is_space(v[j - 1])
        invariant
            lo <= i <= j <= hi <= v.len(),
            trim_end(v@.subrange(i as int, hi as int)) == trim_end(v@.subrange(i as int, j as int)),
        decreases j - i,
    {
        assert(v@.subrange(i as int, j as int).drop_last() =~= v@.subrange(i as int, j - 1));
        j = j - 1;
    }
    (i, j)
}

/// The bounds `(start, end)` of the trimmed part of `v`.
fn trim_bounds(v: &Vec<char>) -> (res: (usize, usize))
    ensures
        res.0 <= res.1 <= v.len(),
        trim(v@) == v@.subrange(res.0 as int, res.1 as int),
{
    assert(v@.subrange(0, v.len() as int) =~= v@);
    trim_bounds_in(v, 0, v.len())
}

/// `s` without leading and trailing white space.
pub fn trimmed(s: &str) -> (res: String)
    ensures res@ == trim(s@),
{
    let v = chars_of(s);
    let (i, j) = trim_bounds(&v);
    s.substring_char(i, j).to_owned()
}

/// Whether `s` is empty or white space only.
pub fn is_blank(s: &str) -> (res: bool)
    ensures res == (trim(s@).len() == 0),
{
    let v = chars_of(s);
    let (i, j) = trim_bounds(&v);
    i == j
}


/// Scans `s` from left to right: the words completed so far, and the word
/// being read at the end of `s` (empty when `s` ends in white space).
pub open spec fn scan_words(s: Seq<char>) -> (Seq<Seq<char>>, Seq<char>)
    decreases s.len(),
{
    if s.len() == 0 {
        (seq![], seq![])
    } else {
        let (done, cur) = scan_words(s.drop_last());
        let c = s.last();
        if is_space(c) {
            if cur.len() > 0 {
                (done.push(cur), seq![])
            } else {
                (done, seq![])
            }
        } else {
            (done, cur.push(c))
        }
    }
}

/// The maximal runs of non-white-space characters of `s`, in order.
pub open spec fn words(s: Seq<char>) -> Seq<Seq<char>> {
    let (done, cur) = scan_words(s);
    if cur.len() > 0 {
        done.push(cur)
    } else {
        done
    }
}

/// The pieces of `ws` joined by one space.
pub open spec fn join_spaced(ws: Seq<Seq<char>>) -> Seq<char>
    decreases ws.len(),
{
    if ws.len() == 0 {
        seq![]
    } else if ws.len() == 1 {
        ws[0]
    } else {
        join_spaced(ws.drop_last()) + seq![' '] + ws.last()
    }
}

/// The first `n` elements of `ws` (all of them when there are fewer).
pub open spec fn first_n<A>(ws: Seq<A>, n: nat) -> Seq<A> {
    if ws.len() > n {
        ws.take(n as int)
    } else {
        ws
    }
}

/// The pieces of `v` that the bounds in `b` select.
pub open spec fn spans(v: Seq<char>, b: Seq<(usize, usize)>) -> Seq<Seq<char>> {
    b.map_values(|p: (usize, usize)| v.subrange(p.0 as int, p.1 as int))
}

/// All bounds in `b` lie within the first `n` positions.
pub open spec fn bounds_within(b: Seq<(usize, usize)>, n: int) -> bool {
    forall|k: int| 0 <= k < b.len() ==> #[trigger] b[k].0 <= b[k].1 && b[k].1 <= n
}

/// The words of `v@` as bounds into `v`.
fn word_bounds(v: &Vec<char>) -> (res: Vec<(usize, usize)>)
    ensures
        bounds_within(res@, v@.len() as int),
        words(v@) == spans(v@, res@),
{
    let n = v.len();
    let mut res: Vec<(usize, usize)> = Vec::new();
    let mut start: usize = 0;
    let mut in_word = false;
    let mut i: usize = 0;
    assert(spans(v@, res@) =~= seq![]);
    while i < n
        invariant
            i <= n == v.len(),
            start <= i,
            bounds_within(res@, i as int),
            scan_words(v@.take(i as int)).0 == spans(v@, res@),
            in_word ==> scan_words(v@.take(i as int)).1 == v@.subrange(start as int, i as int),
            in_word ==> start < i,
            !in_word ==> scan_words(v@.take(i as int)).1.len() == 0,
        decreases n - i,
    {
        assert(v@.take(i + 1).drop_last() =~= v@.take(i as int));
        assert(v@.take(i + 1).last() == v@[i as int]);
        let c = v[i];
        if char_is_space(c) {
            if in_word {
                let ghost old_res = res@;
                res.push((start, i));
                assert(spans(v@, res@) =~= spans(v@, old_res).push(v@.subrange(start as int, i as int)));
            }
            in_word = false;
        } else {
            if !in_word {
                start = i;
                in_word = true;
                assert(v@.subrange(start as int, i + 1) =~= seq![c]);
            } else {
                assert(v@.subrange(start as int, i + 1) =~= v@.subrange(start as int, i as int).push(c));
            }
        }
        i = i + 1;
    }
    assert(v@.take(n as int) =~= v@);
    if in_word {
        let ghost old_res = res@;
        res.push((start, n));
        assert(spans(v@, res@) =~= spans(v@, old_res).push(v@.subrange(start as int, n as int)));
    }
    res
}

/// The text of `s`'s first `n` words, joined by one space.
pub fn first_words(s: &str, n: usize) -> (res: String)
    ensures res@ == join_spaced(first_n(words(s@), n as nat)),
{
    let v = chars_of(s);
    let bounds = word_bounds(&v);
    let count = if bounds.len() > n { n } else { bounds.len() };
    let ghost ws = first_n(words(s@), n as nat);
    assert(ws.len() == count);
    let mut res = String::new();
    let mut k: usize = 0;
    proof {
        reveal_strlit(" ");
    }
    while k < count
        invariant
            v@ == s@,
            count == ws.len(),
            ws == first_n(words(s@), n as nat),
            bounds_within(bounds@, v@.len() as int),
            words(v@) == spans(v@, bounds@),
            count <= bounds@.len(),
            k <= count,
            res@ == join_spaced(ws.take(k as int)),
            " "@ == seq![' '],
        decreases count - k,
    {
        let (a, b) = bounds[k];
        assert(words(v@)[k as int] == v@.subrange(a as int, b as int));
        assert(ws[k as int] == words(v@)[k as int]);
        assert(ws.take(k + 1).drop_last() =~= ws.take(k as int));
        if k > 0 {
            res.append(" ");
        }
        res.append(s.substring_char(a, b));
        k = k + 1;
    }
    assert(ws.take(count as int) =~= ws);
    res
}


/// The title that a conversation still carries before its first message.
pub const DEFAULT_TITLE: &'static str = "New chat";

/// The title taken from a conversation's first message: its first eight
/// words joined by single spaces, cut to eighty characters, or the
/// default title when the message holds no word.
pub open spec fn title_from_text(content: Seq<char>) -> Seq<char> {
    let t = join_spaced(first_n(words(content), 8));
    if t.len() == 0 {
        DEFAULT_TITLE@
    } else if t.len() > 80 {
        t.take(80)
    } else {
        t
    }
}

/// The title taken from a conversation's first message.
pub fn title_from_message(content: &str) -> (res: String)
    ensures
        res@ == title_from_text(content@),
{
    let joined = first_words(content, 8);
    let n = joined.as_str().unicode_len();
    if n == 0 {
        DEFAULT_TITLE.to_owned()
    } else if n > 80 {
        joined.as_str().substring_char(0, 80).to_owned()
    } else {
        joined
    }
}


/// The decimal digit for `d < 10`.
pub open spec fn digit_char(d: nat) -> char {
    if d == 0 { '0' }
    else if d == 1 { '1' }
    else if d == 2 { '2' }
    else if d == 3 { '3' }
    else if d == 4 { '4' }
    else if d == 5 { '5' }
    else if d == 6 { '6' }
    else if d == 7 { '7' }
    else if d == 8 { '8' }
    else { '9' }
}

/// The decimal notation of `n`, without sign or leading zeros.
pub open spec fn decimal(n: nat) -> Seq<char>
    decreases n,
{
    if n < 10 {
        seq![digit_char(n)]
    } else {
        decimal(n / 10).push(digit_char(n % 10))
    }
}

fn digit_text(d: u16) -> (res: &'static str)
    requires
        d < 10,
    ensures
        res@ == seq![digit_char(d as nat)],
{
    proof {
        reveal_strlit("0");
        reveal_strlit("1");
        reveal_strlit("2");
        reveal_strlit("3");
        reveal_strlit("4");
        reveal_strlit("5");
        reveal_strlit("6");
        reveal_strlit("7");
        reveal_strlit("8");
        reveal_strlit("9");
    }
    if d == 0 { "0" }
    else if d == 1 { "1" }
    else if d == 2 { "2" }
    else if d == 3 { "3" }
    else if d == 4 { "4" }
    else if d == 5 { "5" }
    else if d == 6 { "6" }
    else if d == 7 { "7" }
    else if d == 8 { "8" }
    else { "9" }
}

/// The decimal notation of `n`.
pub fn decimal_text(n: u16) -> (res: String)
    ensures
        res@ == decimal(n as nat),
    decreases n,
{
    if n < 10 {
        digit_text(n).to_owned()
    } else {
        let mut res = decimal_text(n / 10);
        res.append(digit_text(n % 10));
        res
    }
}

/// The value of a character that is an ASCII decimal digit.
pub open spec fn digit_value(c: char) -> nat {
    (c as nat - '0' as nat) as nat
}

pub open spec fn is_digit(c: char) -> bool {
    '0' <= c && c <= '9'
}

/// The value of the decimal digits `s`.
pub open spec fn digits_value(s: Seq<char>) -> nat
    decreases s.len(),
{
    if s.len() == 0 {
        0
    } else {
        digits_value(s.drop_last()) * 10 + digit_value(s.last())
    }
}

/// `s` without one leading `+`, if it has one.
pub open spec fn unsigned_body(s: Seq<char>) -> Seq<char> {
    if s.len() > 0 && s[0] == '+' {
        s.drop_first()
    } else {
        s
    }
}

/// Every character of `s` is a decimal digit.
pub open spec fn all_digits(s: Seq<char>) -> bool {
    forall|i: int| 0 <= i < s.len() ==> is_digit(#[trigger] s[i])
}

/// The number that `s` denotes as an unsigned 16-bit integer: an optional
/// `+` and then one or more decimal digits, of value at most 65535.
pub open spec fn u16_value(s: Seq<char>) -> Option<nat> {
    let body = unsigned_body(s);
    if body.len() > 0 && all_digits(body) && digits_value(body) <= 65535 {
        Some(digits_value(body))
    } else {
        None
    }
}

proof fn lemma_digits_value_grows(s: Seq<char>, i: int)
    requires
        0 <= i <= s.len(),
    ensures
        digits_value(s.take(i)) <= digits_value(s),
    decreases s.len() - i,
{
    if i < s.len() {
        lemma_digits_value_grows(s, i + 1);
        assert(s.take(i + 1).drop_last() =~= s.take(i));
    } else {
        assert(s.take(i) =~= s);
    }
}

/// Reads `s` as an unsigned 16-bit decimal integer.
pub fn parse_u16(s: &str) -> (res: Option<u16>)
    ensures
        match res {
            Some(v) => u16_value(s@) == Some(v as nat),
            None => u16_value(s@) is None,
        },
{
    let v = chars_of(s);
    let ghost body = unsigned_body(s@);
    let start: usize = if v.len() > 0 && v[0] == '+' { 1 } else { 0 };
    assert(body =~= v@.subrange(start as int, v@.len() as int));
    if start == v.len() {
        return None;
    }
    let mut acc: u32 = 0;
    let mut i: usize = start;
    while i < v.len()
        invariant
            v@ == s@,
            start <= i <= v.len(),
            body == v@.subrange(start as int, v@.len() as int),
            body == unsigned_body(s@),
            forall|k: int| 0 <= k < i - start ==> is_digit(#[trigger] body[k]),
            acc == digits_value(body.take(i - start)),
            acc <= 65535,
        decreases v.len() - i,
    {
        let c = v[i];
        if !('0' <= c && c <= '9') {
            assert(!is_digit(body[i - start]));
            return None;
        }
        let d: u32 = (c as u32) - ('0' as u32);
        assert(body.take(i - start + 1).drop_last() =~= body.take(i - start));
        acc = acc * 10 + d;
        if acc > 65535 {
            proof {
                lemma_digits_value_grows(body, i - start + 1);
            }
            return None;
        }
        i = i + 1;
    }
    assert(body.take(i - start) =~= body);
    Some(acc as u16)
}


/// A title taken from a message is never empty and never longer than
/// eighty characters.
pub proof fn lemma_title_length(content: Seq<char>)
    ensures
        1 <= title_from_text(content).len() <= 80,
{
    reveal_strlit("New chat");
}

/// The title taken from a message is its first eight words (all of them
/// when it has fewer), joined by single spaces and cut to eighty
/// characters, or "New chat" when the message has no word.
pub proof fn lemma_title_is_first_eight_words(content: Seq<char>)
    ensures
        words(content).len() == 0 ==> title_from_text(content) == "New chat"@,
        words(content).len() > 0 ==> {
            let ws = if words(content).len() > 8 { words(content).take(8) } else { words(content) };
            let t = join_spaced(ws);
            title_from_text(content) == if t.len() > 80 { t.take(80) } else { t }
        },
{
    let ws = if words(content).len() > 8 { words(content).take(8) } else { words(content) };
    if words(content).len() > 0 {
        lemma_words_are_runs(content);
        assert forall|i: int| 0 <= i < ws.len() implies (#[trigger] ws[i]).len() > 0 by {
            assert(ws[i] == words(content)[i]);
        }
        lemma_words_nonempty(ws);
    }
}

proof fn lemma_scan_words_runs(s: Seq<char>)
    ensures
        forall|i: int| 0 <= i < scan_words(s).0.len() ==> (#[trigger] scan_words(s).0[i]).len() > 0,
        forall|i: int, k: int|
            0 <= i < scan_words(s).0.len() && 0 <= k < scan_words(s).0[i].len() ==> !is_space(
                #[trigger] scan_words(s).0[i][k],
            ),
        forall|k: int| 0 <= k < scan_words(s).1.len() ==> !is_space(#[trigger] scan_words(s).1[k]),
    decreases s.len(),
{
    if s.len() > 0 {
        lemma_scan_words_runs(s.drop_last());
        let (done, cur) = scan_words(s.drop_last());
        if !is_space(s.last()) {
            assert forall|k: int| 0 <= k < cur.push(s.last()).len() implies !is_space(
                #[trigger] cur.push(s.last())[k],
            ) by {
                if k < cur.len() {
                    assert(cur.push(s.last())[k] == cur[k]);
                }
            }
        }
    }
}

/// The words of a text are non-empty and hold no white space.
pub proof fn lemma_words_are_runs(s: Seq<char>)
    ensures
        forall|i: int| 0 <= i < words(s).len() ==> (#[trigger] words(s)[i]).len() > 0,
        forall|i: int, k: int|
            0 <= i < words(s).len() && 0 <= k < words(s)[i].len() ==> !is_space(
                #[trigger] words(s)[i][k],
            ),
{
    lemma_scan_words_runs(s);
}

proof fn lemma_words_nonempty(ws: Seq<Seq<char>>)
    requires
        ws.len() > 0,
        forall|i: int| 0 <= i < ws.len() ==> (#[trigger] ws[i]).len() > 0,
    ensures
        join_spaced(ws).len() > 0,
    decreases ws.len(),
{
    if ws.len() > 1 {
        lemma_words_nonempty(ws.drop_last());
    }
}

/// Trimming twice is trimming once: text that was validated by trimming
/// passes the same validation unchanged.
pub proof fn lemma_trim_idempotent(s: Seq<char>)
    ensures
        trim(trim(s)) == trim(s),
{
    lemma_trim_start_idempotent(s);
    lemma_trim_end_keeps_start(trim_start(s));
    lemma_trim_end_idempotent(trim_start(s));
}

proof fn lemma_trim_start_idempotent(s: Seq<char>)
    ensures
        trim_start(trim_start(s)) == trim_start(s),
        trim_start(s).len() > 0 ==> !is_space(trim_start(s)[0]),
    decreases s.len(),
{
    if s.len() > 0 && is_space(s[0]) {
        lemma_trim_start_idempotent(s.drop_first());
    }
}

proof fn lemma_trim_end_idempotent(s: Seq<char>)
    ensures
        trim_end(trim_end(s)) == trim_end(s),
    decreases s.len(),
{
    if s.len() > 0 && is_space(s.last()) {
        lemma_trim_end_idempotent(s.drop_last());
    }
}

/// Taking white space off the end keeps a start that is not white space.
proof fn lemma_trim_end_keeps_start(s: Seq<char>)
    requires
        s.len() > 0 ==> !is_space(s[0]),
    ensures
        trim_start(trim_end(s)) == trim_end(s),
    decreases s.len(),
{
    if s.len() > 0 && is_space(s.last()) {
        assert(s.drop_last().len() > 0 ==> s.drop_last()[0] == s[0]);
        lemma_trim_end_keeps_start(s.drop_last());
    }
}

proof fn lemma_digit_char(d: nat)
    requires
        d < 10,
    ensures
        is_digit(digit_char(d)),
        digit_value(digit_char(d)) == d,
{
}

proof fn lemma_decimal(n: nat)
    ensures
        decimal(n).len() > 0,
        all_digits(decimal(n)),
        digits_value(decimal(n)) == n,
    decreases n,
{
    lemma_digit_char(n % 10);
    if n < 10 {
        assert(n % 10 == n);
        assert(decimal(n).drop_last() =~= Seq::<char>::empty());
        assert(decimal(n).last() == digit_char(n));
        assert(digits_value(decimal(n)) == digits_value(Seq::<char>::empty()) * 10 + digit_value(digit_char(n)));
    } else {
        assert(n == (n / 10) * 10 + n % 10);
        lemma_decimal(n / 10);
        let d = decimal(n / 10);
        assert(decimal(n).drop_last() =~= d);
        assert(decimal(n).last() == digit_char(n % 10));
        assert(digits_value(decimal(n)) == digits_value(d) * 10 + digit_value(digit_char(n % 10)));
        assert forall|i: int| 0 <= i < decimal(n).len() implies is_digit(#[trigger] decimal(n)[i]) by {
            if i < d.len() {
                assert(decimal(n)[i] == d[i]);
            }
        }
    }
}

/// A number written in decimal reads back as the same number: the port in
/// a bind address is the port configured.
pub proof fn lemma_u16_decimal_round_trip(n: u16)
    ensures
        u16_value(decimal(n as nat)) == Some(n as nat),
{
    lemma_decimal(n as nat);
    assert(is_digit(decimal(n as nat)[0]));
    assert(unsigned_body(decimal(n as nat)) == decimal(n as nat));
}

proof fn lemma_trim_start_cut(s: Seq<char>) -> (i: int)
    ensures
        0 <= i <= s.len(),
        trim_start(s) == s.subrange(i, s.len() as int),
        forall|k: int| 0 <= k < i ==> is_space(#[trigger] s[k]),
        i < s.len() ==> !is_space(s[i]),
    decreases s.len(),
{
    if s.len() > 0 && is_space(s[0]) {
        let j = lemma_trim_start_cut(s.drop_first());
        assert(s.drop_first().subrange(j, s.drop_first().len() as int) =~= s.subrange(j + 1, s.len() as int));
        assert forall|k: int| 0 <= k < j + 1 implies is_space(#[trigger] s[k]) by {
            if k > 0 {
                assert(s[k] == s.drop_first()[k - 1]);
            }
        }
        j + 1
    } else {
        assert(s.subrange(0, s.len() as int) =~= s);
        0
    }
}

proof fn lemma_trim_end_cut(s: Seq<char>) -> (j: int)
    ensures
        0 <= j <= s.len(),
        trim_end(s) == s.subrange(0, j),
        forall|k: int| j <= k < s.len() ==> is_space(#[trigger] s[k]),
        j > 0 ==> !is_space(s[j - 1]),
    decreases s.len(),
{
    if s.len() > 0 && is_space(s.last()) {
        let j = lemma_trim_end_cut(s.drop_last());
        assert(s.drop_last().subrange(0, j) =~= s.subrange(0, j));
        assert forall|k: int| j <= k < s.len() implies is_space(#[trigger] s[k]) by {
            if k < s.len() - 1 {
                assert(s[k] == s.drop_last()[k]);
            }
        }
        j
    } else {
        assert(s.subrange(0, s.len() as int) =~= s);
        s.len() as int
    }
}

/// What trimming is: `trim(s)` is the piece `s[i..j]` of `s` such that
/// everything before `i` and from `j` on is white space, and the piece
/// neither starts nor ends with white space.
pub proof fn lemma_trim_is_inner_piece(s: Seq<char>)
    ensures
        exists|i: int, j: int|
            0 <= i <= j <= s.len() && trim(s) == s.subrange(i, j) && (forall|k: int|
                0 <= k < i ==> is_space(#[trigger] s[k])) && (forall|k: int|
                j <= k < s.len() ==> is_space(#[trigger] s[k])) && (i < j ==> !is_space(s[i])
                && !is_space(s[j - 1])),
{
    let i = lemma_trim_start_cut(s);
    let t = s.subrange(i, s.len() as int);
    let j = lemma_trim_end_cut(t);
    assert(t.subrange(0, j) =~= s.subrange(i, i + j));
    assert forall|k: int| i + j <= k < s.len() implies is_space(#[trigger] s[k]) by {
        assert(s[k] == t[k - i]);
    }
    if j > 0 {
        assert(s[i] == t[0]);
        assert(s[i + j - 1] == t[j - 1]);
    }
    assert(0 <= i <= i + j <= s.len() && trim(s) == s.subrange(i, i + j));
}

/// A text trims to nothing exactly when every character of it is white
/// space.
pub proof fn lemma_trim_empty_iff_all_space(s: Seq<char>)
    ensures
        trim(s).len() == 0 <==> forall|k: int| 0 <= k < s.len() ==> is_space(#[trigger] s[k]),
{
    let i = lemma_trim_start_cut(s);
    let t = s.subrange(i, s.len() as int);
    let j = lemma_trim_end_cut(t);
    if trim(s).len() == 0 {
        assert(j == 0);
        assert forall|k: int| 0 <= k < s.len() implies is_space(#[trigger] s[k]) by {
            if k >= i {
                assert(s[k] == t[k - i]);
            }
        }
    } else {
        assert(!is_space(t[0]));
        assert(s[i] == t[0]);
    }
}

} // verus!
