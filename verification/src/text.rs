//! Strings as sequences of characters: splitting, joining, comparing and measuring them.

use vstd::prelude::*;
use vstd::utf8::*;

verus! {

/// `String::push` of the standard library: it appends the character to the string.
pub assume_specification[ String::push ](s: &mut String, c: char)
    ensures
        final(s)@ == old(s)@.push(c),
;

/// The number of bytes that `s` takes in UTF-8.
pub open spec fn byte_len(s: Seq<char>) -> nat {
    encode_utf8(s).len()
}

/// The contents of each string of `v`.
pub open spec fn texts(v: Seq<String>) -> Seq<Seq<char>> {
    v.map_values(|s: String| s@)
}

/// The contents of an optional string.
pub open spec fn opt_text(o: Option<String>) -> Option<Seq<char>> {
    match o {
        Some(s) => Some(s@),
        None => None,
    }
}

/// The contents of an optional string that is borrowed.
pub open spec fn opt_str(o: Option<&str>) -> Option<Seq<char>> {
    match o {
        Some(s) => Some(s@),
        None => None,
    }
}

/// The contents of an optional list of strings.
pub open spec fn opt_texts(o: Option<Vec<String>>) -> Option<Seq<Seq<char>>> {
    match o {
        Some(v) => Some(texts(v@)),
        None => None,
    }
}

/// The parts, in order, with `sep` between each two of them.
pub open spec fn joined(parts: Seq<Seq<char>>, sep: Seq<char>) -> Seq<char>
    decreases parts.len(),
{
    if parts.len() == 0 {
        seq![]
    } else if parts.len() == 1 {
        parts[0]
    } else {
        joined(parts.drop_last(), sep) + sep + parts.last()
    }
}

/// Whether `pat` stands in `s` from index `i` on.
pub open spec fn occurs_at(s: Seq<char>, pat: Seq<char>, i: int) -> bool {
    &&& 0 <= i
    &&& i + pat.len() <= s.len()
    &&& s.subrange(i, i + pat.len()) == pat
}

/// The first index, from `i` on, at which `pat` stands in `s`.
pub open spec fn find_from(s: Seq<char>, pat: Seq<char>, i: int) -> Option<int>
    decreases s.len() - i + 1,
{
    if i < 0 || i + pat.len() > s.len() {
        None
    } else if occurs_at(s, pat, i) {
        Some(i)
    } else {
        find_from(s, pat, i + 1)
    }
}

/// The pieces of `s` between the occurrences of `pat`, which are taken from the left and do not
/// overlap. There is always at least one piece.
pub open spec fn pieces(s: Seq<char>, pat: Seq<char>) -> Seq<Seq<char>>
    decreases s.len(),
{
    match find_from(s, pat, 0) {
        Some(i) => if 0 <= i && 0 < pat.len() && i + pat.len() <= s.len() {
            seq![s.take(i)] + pieces(s.skip(i + pat.len()), pat)
        } else {
            seq![s]
        },
        None => seq![s],
    }
}

/// Whether two characters are the same up to the case of an ASCII letter.
pub open spec fn same_letter(a: char, b: char) -> bool {
    ||| a == b
    ||| 'A' <= a <= 'Z' && b as int == a as int + 32
    ||| 'A' <= b <= 'Z' && a as int == b as int + 32
}

/// Whether two strings are the same up to the case of their ASCII letters.
pub open spec fn same_letters(a: Seq<char>, b: Seq<char>) -> bool {
    &&& a.len() == b.len()
    &&& forall|i: int| 0 <= i < a.len() ==> same_letter(#[trigger] a[i], b[i])
}

/// The decimal digit `d`.
pub open spec fn digit(d: int) -> char {
    ('0' as int + d) as char
}

/// The decimal digits of `n`, without leading zeros.
pub open spec fn digits(n: nat) -> Seq<char>
    decreases n,
{
    if n < 10 {
        seq![digit(n as int)]
    } else {
        digits(n / 10).push(digit((n % 10) as int))
    }
}

/// `n` in decimal, with a minus sign where it is negative.
pub open spec fn decimal(n: int) -> Seq<char> {
    if n < 0 {
        seq!['-'] + digits((-n) as nat)
    } else {
        digits(n as nat)
    }
}

/// Copies the characters of `s`.
pub fn to_chars(s: &str) -> (r: Vec<char>)
    ensures
        r@ == s@,
{
    let mut r: Vec<char> = Vec::new();
    for c in it: s.chars()
        invariant
            r@ == s@.take(it.index() as int),
            it.seq() == s@,
    {
        r.push(c);
    }
    r
}

/// Whether two strings hold the same characters.
pub fn same(a: &str, b: &str) -> (r: bool)
    ensures
        r == (a@ == b@),
{
    a.to_owned() == b.to_owned()
}

/// Whether two characters are the same up to the case of an ASCII letter.
fn same_char(a: char, b: char) -> (r: bool)
    ensures
        r == same_letter(a, b),
{
    let c: u32 = a as u32;
    let d: u32 = b as u32;
    proof {
        char_u32_cast(a, c);
        char_u32_cast(b, d);
    }
    a == b || (65 <= c && c <= 90 && d == c + 32) || (65 <= d && d <= 90 && c == d + 32)
}

/// Whether two strings are the same up to the case of their ASCII letters.
pub fn same_ignoring_case(a: &str, b: &str) -> (r: bool)
    ensures
        r == same_letters(a@, b@),
{
    let x = to_chars(a);
    let y = to_chars(b);
    if x.len() != y.len() {
        return false;
    }
    let mut i: usize = 0;
    while i < x.len()
        invariant
            x@ == a@,
            y@ == b@,
            x.len() == y.len(),
            i <= x.len(),
            forall|k: int| 0 <= k < i ==> same_letter(#[trigger] a@[k], b@[k]),
        decreases x.len() - i,
    {
        let fits = same_char(x[i], y[i]);
        if !fits {
            assert(!same_letter(a@[i as int], b@[i as int]));
            return false;
        }
        i = i + 1;
    }
    true
}

/// The byte length of `s`.
pub fn size(s: &str) -> (n: usize)
    ensures
        n == byte_len(s@),
{
    s.as_bytes().len()
}

/// Whether `s` begins with `c`.
pub fn begins_with(s: &str, c: char) -> (r: bool)
    ensures
        r == (s@.len() > 0 && s@[0] == c),
{
    s.unicode_len() > 0 && s.get_char(0) == c
}

/// Whether `s` ends with `c`.
pub fn ends_with(s: &str, c: char) -> (r: bool)
    ensures
        r == (s@.len() > 0 && s@.last() == c),
{
    let n = s.unicode_len();
    n > 0 && s.get_char(n - 1) == c
}

/// Whether `c` stands in `s`.
pub fn has_char(s: &str, c: char) -> (r: bool)
    ensures
        r == s@.contains(c),
{
    let x = to_chars(s);
    let mut i: usize = 0;
    while i < x.len()
        invariant
            x@ == s@,
            i <= x.len(),
            forall|k: int| 0 <= k < i ==> s@[k] != c,
        decreases x.len() - i,
    {
        if x[i] == c {
            assert(s@[i as int] == c);
            return true;
        }
        i = i + 1;
    }
    false
}

/// Whether `pat` stands in `s` from index `i` on.
fn matches_at(s: &Vec<char>, pat: &Vec<char>, i: usize) -> (r: bool)
    requires
        i + pat.len() <= s.len(),
    ensures
        r == occurs_at(s@, pat@, i as int),
{
    let mut k: usize = 0;
    while k < pat.len()
        invariant
            i + pat.len() <= s.len(),
            k <= pat.len(),
            forall|j: int| 0 <= j < k ==> s@[i + j] == #[trigger] pat@[j],
        decreases pat.len() - k,
    {
        if s[i + k] != pat[k] {
            assert(s@.subrange(i as int, i + pat.len())[k as int] != pat@[k as int]);
            return false;
        }
        k = k + 1;
    }
    assert(s@.subrange(i as int, i + pat.len()) =~= pat@);
    true
}

/// Cuts `s` at each occurrence of `pat`, as `str::split` does.
pub fn split(s: &str, pat: &str) -> (r: Vec<String>)
    requires
        pat@.len() > 0,
    ensures
        texts(r@) == pieces(s@, pat@),
{
    let x = to_chars(s);
    let p = to_chars(pat);
    let mut r: Vec<String> = Vec::new();
    let mut start: usize = 0;
    let mut i: usize = 0;
    assert(s@.skip(0) =~= s@);
    while i <= x.len() && p.len() <= x.len() - i
        invariant
            x@ == s@,
            p@ == pat@,
            p.len() > 0,
            start <= i <= x.len(),
            pieces(s@, pat@) == texts(r@) + pieces(s@.skip(start as int), pat@),
            find_from(s@.skip(start as int), pat@, 0) == find_from(
                s@.skip(start as int),
                pat@,
                i - start,
            ),
        decreases x.len() - i,
    {
        let ghost rest = s@.skip(start as int);
        proof {
            assert(rest.subrange(i - start, i - start + p.len()) =~= s@.subrange(
                i as int,
                i + p.len(),
            ));
        }
        if matches_at(&x, &p, i) {
            let ghost before = texts(r@);
            proof {
                assert(occurs_at(rest, pat@, i - start));
                assert(rest.take(i - start) =~= s@.subrange(start as int, i as int));
                assert(rest.skip(i - start + p.len()) =~= s@.skip(i + p.len()));
            }
            let piece = s.substring_char(start, i).to_owned();
            r.push(piece);
            start = i + p.len();
            i = start;
            proof {
                assert(texts(r@) =~= before.push(piece@));
                assert(before.push(piece@) + pieces(s@.skip(start as int), pat@) =~= before + (
                seq![piece@] + pieces(s@.skip(start as int), pat@)));
            }
        } else {
            i = i + 1;
        }
    }
    proof {
        let rest = s@.skip(start as int);
        assert(find_from(rest, pat@, i - start) is None);
        assert(pieces(rest, pat@) == seq![rest]);
        assert(rest =~= s@.subrange(start as int, s@.len() as int));
    }
    let ghost before = texts(r@);
    let last = s.substring_char(start, x.len()).to_owned();
    r.push(last);
    assert(texts(r@) =~= before + seq![last@]);
    r
}

/// Joins the strings with `sep` between each two of them, as `join` on a slice does.
pub fn join(parts: &Vec<String>, sep: &str) -> (r: String)
    ensures
        r@ == joined(texts(parts@), sep@),
{
    let mut r = String::new();
    let mut i: usize = 0;
    assert(texts(parts@).take(0) =~= seq![]);
    while i < parts.len()
        invariant
            i <= parts.len(),
            r@ == joined(texts(parts@).take(i as int), sep@),
        decreases parts.len() - i,
    {
        let ghost next = texts(parts@).take(i + 1);
        proof {
            assert(next.drop_last() =~= texts(parts@).take(i as int));
            assert(next.last() == parts@[i as int]@);
        }
        if i > 0 {
            r.append(sep);
            r.append(parts[i].as_str());
        } else {
            r.append(parts[i].as_str());
            assert(r@ =~= next[0]);
        }
        i = i + 1;
    }
    assert(texts(parts@).take(i as int) =~= texts(parts@));
    r
}

/// Copies a list of strings.
pub fn copy_all(v: &[String]) -> (r: Vec<String>)
    ensures
        texts(r@) == texts(v@),
{
    let mut r: Vec<String> = Vec::new();
    let mut i: usize = 0;
    while i < v.len()
        invariant
            i <= v.len(),
            texts(r@) == texts(v@).take(i as int),
        decreases v.len() - i,
    {
        let ghost before = texts(r@);
        r.push(v[i].clone());
        assert(texts(r@) =~= before.push(v@[i as int]@));
        i = i + 1;
        assert(texts(v@).take(i as int) =~= before.push(v@[i - 1]@));
    }
    assert(texts(v@).take(i as int) =~= texts(v@));
    r
}

/// Copies an optional string.
pub fn copy_opt(o: &Option<String>) -> (r: Option<String>)
    ensures
        opt_text(r) == opt_text(*o),
{
    match o {
        Some(s) => Some(s.clone()),
        None => None,
    }
}

/// Whether one of the strings is `s`.
pub fn holds(v: &[String], s: &str) -> (r: bool)
    ensures
        r == texts(v@).contains(s@),
{
    let mut i: usize = 0;
    while i < v.len()
        invariant
            i <= v.len(),
            forall|k: int| 0 <= k < i ==> texts(v@)[k] != s@,
        decreases v.len() - i,
    {
        if same(v[i].as_str(), s) {
            assert(texts(v@)[i as int] == s@);
            return true;
        }
        i = i + 1;
    }
    false
}

/// The decimal digits of `n`.
pub fn digits_of(n: u64) -> (r: String)
    ensures
        r@ == digits(n as nat),
    decreases n,
{
    let low: u8 = (n % 10) as u8;
    let c = (48 + low) as char;
    let mut r = if n < 10 {
        String::new()
    } else {
        digits_of(n / 10)
    };
    r.push(c);
    assert(n < 10 ==> r@ =~= digits(n as nat));
    r
}

/// `n` in decimal.
pub fn decimal_of(n: i64) -> (r: String)
    ensures
        r@ == decimal(n as int),
{
    if n < 0 {
        let m: u64 = if n == i64::MIN {
            0x8000_0000_0000_0000
        } else {
            (-n) as u64
        };
        let mut r = String::new();
        r.push('-');
        r.append(digits_of(m).as_str());
        assert(r@ =~= decimal(n as int));
        r
    } else {
        digits_of(n as u64)
    }
}

/// What is found is the first occurrence.
pub proof fn found_first(s: Seq<char>, pat: Seq<char>, i: int)
    requires
        0 <= i,
    ensures
        match find_from(s, pat, i) {
            Some(j) => i <= j && occurs_at(s, pat, j) && forall|k: int|
                i <= k < j ==> !occurs_at(s, pat, k),
            None => forall|k: int| i <= k ==> !occurs_at(s, pat, k),
        },
    decreases s.len() - i + 1,
{
    if i + pat.len() <= s.len() && !occurs_at(s, pat, i) {
        found_first(s, pat, i + 1);
    }
}

/// What is joined, seen from the front.
pub proof fn joined_from_the_front(first: Seq<char>, rest: Seq<Seq<char>>, sep: Seq<char>)
    requires
        rest.len() > 0,
    ensures
        joined(seq![first] + rest, sep) == first + sep + joined(rest, sep),
    decreases rest.len(),
{
    let all = seq![first] + rest;
    if rest.len() == 1 {
        assert(all.drop_last() =~= seq![first]);
        assert(joined(seq![first], sep) == first);
        assert(joined(rest, sep) == rest[0]);
        assert(joined(all, sep) =~= first + sep + joined(rest, sep));
    } else {
        joined_from_the_front(first, rest.drop_last(), sep);
        assert(all.drop_last() =~= seq![first] + rest.drop_last());
        assert(all.last() == rest.last());
        assert(joined(rest, sep) == joined(rest.drop_last(), sep) + sep + rest.last());
        assert(joined(all, sep) =~= first + sep + joined(rest, sep));
    }
}

/// To split a text loses nothing: the pieces, joined again, are the text. There is at least one,
/// and none of them holds what the text was split at.
pub proof fn splitting_loses_nothing(s: Seq<char>, pat: Seq<char>)
    requires
        pat.len() > 0,
    ensures
        pieces(s, pat).len() > 0,
        joined(pieces(s, pat), pat) == s,
        forall|i: int, k: int|
            0 <= i < pieces(s, pat).len() ==> !#[trigger] occurs_at(pieces(s, pat)[i], pat, k),
    decreases s.len(),
{
    found_first(s, pat, 0);
    match find_from(s, pat, 0) {
        Some(j) => {
            let rest = s.skip(j + pat.len());
            splitting_loses_nothing(rest, pat);
            let parts = pieces(s, pat);
            joined_from_the_front(s.take(j), pieces(rest, pat), pat);
            assert(s.take(j) + pat + rest =~= s);
            assert forall|i: int, k: int| 0 <= i < parts.len() implies !#[trigger] occurs_at(
                parts[i],
                pat,
                k,
            ) by {
                if i == 0 {
                    if occurs_at(s.take(j), pat, k) {
                        assert(s.subrange(k, k + pat.len()) =~= s.take(j).subrange(
                            k,
                            k + pat.len(),
                        ));
                        assert(occurs_at(s, pat, k));
                    }
                } else {
                    assert(parts[i] == pieces(rest, pat)[i - 1]);
                }
            }
        },
        None => {
            assert forall|i: int, k: int|
                0 <= i < pieces(s, pat).len() implies !#[trigger] occurs_at(
                pieces(s, pat)[i],
                pat,
                k,
            ) by {
                if k >= 0 {
                    assert(!occurs_at(s, pat, k));
                }
            }
        },
    }
}

/// What is joined: nothing of no parts, a single part as it is, and one part more behind the
/// separator.
pub proof fn joining(parts: Seq<Seq<char>>, part: Seq<char>, sep: Seq<char>)
    ensures
        joined(Seq::<Seq<char>>::empty(), sep) == Seq::<char>::empty(),
        joined(seq![part], sep) == part,
        parts.len() > 0 ==> joined(parts.push(part), sep) == joined(parts, sep) + sep + part,
{
    assert(parts.push(part).drop_last() =~= parts);
}

/// A pattern occurs at a place where each of its characters stands, in turn.
pub proof fn occurring(s: Seq<char>, pat: Seq<char>, i: int)
    ensures
        occurs_at(s, pat, i) <==> {
            &&& 0 <= i <= i + pat.len() <= s.len()
            &&& forall|k: int| 0 <= k < pat.len() ==> s[i + k] == #[trigger] pat[k]
        },
{
    if 0 <= i && i + pat.len() <= s.len() {
        let here = s.subrange(i, i + pat.len());
        assert forall|k: int| 0 <= k < pat.len() implies here[k] == #[trigger] s[i + k] by {}
        if forall|k: int| 0 <= k < pat.len() ==> s[i + k] == #[trigger] pat[k] {
            assert forall|k: int| 0 <= k < pat.len() implies here[k] == pat[k] by {
                assert(s[i + k] == pat[k]);
            }
            assert(here =~= pat);
        }
    }
}

/// Texts are the same but for case where each character is, and characters are where they are
/// equal once the capital ASCII letters are replaced by the small ones.
pub proof fn ignoring_case(a: Seq<char>, b: Seq<char>)
    ensures
        same_letters(a, b) <==> a.len() == b.len() && forall|i: int|
            0 <= i < a.len() ==> ({
                let x = #[trigger] a[i];
                let y = b[i];
                (if 'A' <= x <= 'Z' {
                    x as int + 32
                } else {
                    x as int
                }) == (if 'A' <= y <= 'Z' {
                    y as int + 32
                } else {
                    y as int
                })
            }),
        same_letters(a, a),
        same_letters(a, b) == same_letters(b, a),
{
    if same_letters(b, a) {
        assert forall|i: int| 0 <= i < a.len() implies same_letter(#[trigger] a[i], b[i]) by {
            assert(same_letter(b[i], a[i]));
        }
    }
    if same_letters(a, b) {
        assert forall|i: int| 0 <= i < b.len() implies same_letter(#[trigger] b[i], a[i]) by {
            assert(same_letter(a[i], b[i]));
        }
    }
}

/// The contents of strings, one by one.
pub proof fn contents(v: Seq<String>, i: int, o: Option<String>)
    requires
        0 <= i < v.len(),
    ensures
        texts(v).len() == v.len(),
        texts(v)[i] == v[i]@,
        o is None ==> opt_text(o) is None,
        o matches Some(s) ==> opt_text(o) == Some(s@),
{
}

/// The number that decimal digits stand for.
pub open spec fn number_of(s: Seq<char>) -> int
    decreases s.len(),
{
    if s.len() == 0 {
        0
    } else {
        number_of(s.drop_last()) * 10 + (s.last() as int - '0' as int)
    }
}

/// A number in decimal is a row of digits, without needless zeros, that stand for it, behind a
/// minus sign where it is negative.
pub proof fn decimals(n: int)
    ensures
        ({
            let row = if n < 0 {
                decimal(n).skip(1)
            } else {
                decimal(n)
            };
            let size = if n < 0 {
                -n
            } else {
                n
            };
            &&& n < 0 ==> decimal(n).len() > 0 && decimal(n)[0] == '-'
            &&& row.len() > 0
            &&& forall|i: int| 0 <= i < row.len() ==> '0' <= #[trigger] row[i] <= '9'
            &&& row.len() > 1 ==> row[0] != '0'
            &&& number_of(row) == size
        }),
{
    let size = if n < 0 {
        -n
    } else {
        n
    };
    digits_stand_for(size as nat);
    if n < 0 {
        assert((seq!['-'] + digits(size as nat)).skip(1) =~= digits(size as nat));
    }
}

/// The digits of a number stand for it.
proof fn digits_stand_for(n: nat)
    ensures
        digits(n).len() > 0,
        forall|i: int| 0 <= i < digits(n).len() ==> '0' <= #[trigger] digits(n)[i] <= '9',
        n > 0 ==> digits(n)[0] != '0',
        n < 10 ==> digits(n).len() == 1,
        number_of(digits(n)) == n,
    decreases n,
{
    let d = (n % 10) as int;
    char_of_digit(d);
    if n < 10 {
        assert(digits(n) =~= seq![digit(n as int)]);
        assert(digits(n).drop_last() =~= seq![]);
        assert(number_of(seq![]) == 0);
    } else {
        digits_stand_for(n / 10);
        assert(digits(n) == digits(n / 10).push(digit(d)));
        assert(digits(n).drop_last() =~= digits(n / 10));
    }
}

/// The character of a digit.
proof fn char_of_digit(d: int)
    requires
        0 <= d < 10,
    ensures
        digit(d) as int == '0' as int + d,
        '0' <= digit(d) <= '9',
        d > 0 ==> digit(d) != '0',
{
}

} // verus!
