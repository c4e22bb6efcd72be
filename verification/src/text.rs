//! Character-sequence helpers shared by the rest of the library.

use vstd::prelude::*;

verus! {

/// Appends one character to a `String` (`String::push`).
#[verifier::external_body]
pub(crate) fn push_char(s: &mut String, c: char)
    ensures
        final(s)@ == old(s)@.push(c),
{
    s.push(c);
}

/// The characters of a string slice, in order.
pub fn chars_of(s: &str) -> (res: Vec<char>)
    ensures
        res@ == s@,
{
    let mut res: Vec<char> = Vec::new();
    for c in it: s.chars()
        invariant
            res@ == it.seq().take(it.index() as int),
            it.seq() == s@,
    {
        res.push(c);
    }
    res
}

/// A `String` holding exactly the given characters.
pub fn string_of(chars: &Vec<char>) -> (res: String)
    ensures
        res@ == chars@,
{
    let mut res = String::new();
    let mut i: usize = 0;
    while i < chars.len()
        invariant
            i <= chars.len(),
            res@ == chars@.take(i as int),
        decreases chars.len() - i,
    {
        push_char(&mut res, chars[i]);
        i += 1;
        assert(chars@.take(i as int) == chars@.take(i - 1).push(chars@[i - 1]));
    }
    assert(chars@.take(chars.len() as int) == chars@);
    res
}

} // verus!

verus! {

/// Whether two character vectors hold the same characters.
pub fn chars_eq(a: &Vec<char>, b: &Vec<char>) -> (res: bool)
    ensures
        res == (a@ == b@),
{
    if a.len() != b.len() {
        return false;
    }
    let mut i: usize = 0;
    while i < a.len()
        invariant
            a.len() == b.len(),
            i <= a.len(),
            forall|k: int| 0 <= k < i ==> a@[k] == b@[k],
        decreases a.len() - i,
    {
        if a[i] != b[i] {
            return false;
        }
        i += 1;
    }
    assert(a@ =~= b@);
    true
}

/// Whether two string slices hold the same characters.
pub fn str_eq(a: &str, b: &str) -> (res: bool)
    ensures
        res == (a@ == b@),
{
    let x = chars_of(a);
    let y = chars_of(b);
    chars_eq(&x, &y)
}

/// The code of a character after ASCII lowercasing (other characters keep their code).
pub open spec fn ascii_lower_code(c: char) -> int {
    if 'A' <= c && c <= 'Z' {
        (c as u32) + 32
    } else {
        c as u32 as int
    }
}

/// Two sequences that are equal once ASCII letters are lowercased.
pub open spec fn eq_ignore_ascii_case_spec(a: Seq<char>, b: Seq<char>) -> bool {
    a.len() == b.len() && forall|i: int|
        0 <= i < a.len() ==> ascii_lower_code(#[trigger] a[i]) == ascii_lower_code(b[i])
}

fn lower_code(c: char) -> (res: u32)
    ensures
        res == ascii_lower_code(c),
{
    let x = c as u32;
    if 65 <= x && x <= 90 {
        x + 32
    } else {
        x
    }
}

/// `str::eq_ignore_ascii_case`: equality up to ASCII case.
pub fn eq_ignore_ascii_case(a: &str, b: &str) -> (res: bool)
    ensures
        res == eq_ignore_ascii_case_spec(a@, b@),
{
    let x = chars_of(a);
    let y = chars_of(b);
    if x.len() != y.len() {
        return false;
    }
    let mut i: usize = 0;
    while i < x.len()
        invariant
            x.len() == y.len(),
            x@ == a@,
            y@ == b@,
            i <= x.len(),
            forall|k: int| 0 <= k < i ==> ascii_lower_code(#[trigger] x@[k]) == ascii_lower_code(y@[k]),
        decreases x.len() - i,
    {
        if lower_code(x[i]) != lower_code(y[i]) {
            return false;
        }
        i += 1;
    }
    true
}

/// Membership in Unicode's `White_Space` property, as `char::is_whitespace` uses it.
pub open spec fn is_white_space(c: char) -> bool {
    let x = c as u32;
    ||| 0x9 <= x && x <= 0xD
    ||| x == 0x20
    ||| x == 0x85
    ||| x == 0xA0
    ||| x == 0x1680
    ||| 0x2000 <= x && x <= 0x200A
    ||| x == 0x2028
    ||| x == 0x2029
    ||| x == 0x202F
    ||| x == 0x205F
    ||| x == 0x3000
}

/// `char::is_whitespace`.
pub fn is_whitespace(c: char) -> (res: bool)
    ensures
        res == is_white_space(c),
{
    let x = c as u32;
    (0x9 <= x && x <= 0xD) || x == 0x20 || x == 0x85 || x == 0xA0 || x == 0x1680 || (0x2000 <= x
        && x <= 0x200A) || x == 0x2028 || x == 0x2029 || x == 0x202F || x == 0x205F || x == 0x3000
}

/// `s` without its leading white space.
pub open spec fn trim_start(s: Seq<char>) -> Seq<char>
    decreases s.len(),
{
    if s.len() > 0 && is_white_space(s[0]) {
        trim_start(s.drop_first())
    } else {
        s
    }
}

/// `s` without its trailing white space.
pub open spec fn trim_end(s: Seq<char>) -> Seq<char>
    decreases s.len(),
{
    if s.len() > 0 && is_white_space(s.last()) {
        trim_end(s.drop_last())
    } else {
        s
    }
}

/// `s` without its leading and trailing white space.
pub open spec fn trimmed(s: Seq<char>) -> Seq<char> {
    trim_end(trim_start(s))
}

/// `str::trim`: the characters of `s` without leading and trailing white space.
pub fn trim_chars(s: &Vec<char>) -> (res: Vec<char>)
    ensures
        res@ == trimmed(s@),
{
    let mut i: usize = 0;
    assert(s@.skip(0) =~= s@);
    while i < s.len() && is_whitespace(s[i])
        invariant
            i <= s.len(),
            trim_start(s@.skip(i as int)) == trim_start(s@),
        decreases s.len() - i,
    {
        assert(s@.skip(i as int).drop_first() =~= s@.skip(i + 1));
        i += 1;
    }
    let ghost rest = s@.skip(i as int);
    assert(trim_start(s@) == rest) by {
        if i == s.len() {
            assert(rest =~= Seq::<char>::empty());
        }
    }
    let mut j: usize = s.len();
    assert(s@.subrange(i as int, j as int) =~= rest);
    while j > i && is_whitespace(s[j - 1])
        invariant
            i <= j <= s.len(),
            rest == s@.skip(i as int),
            trim_end(s@.subrange(i as int, j as int)) == trim_end(rest),
        decreases j,
    {
        assert(s@.subrange(i as int, j as int).drop_last() =~= s@.subrange(i as int, j - 1));
        j -= 1;
    }
    let mut res: Vec<char> = Vec::new();
    let mut k: usize = i;
    while k < j
        invariant
            i <= k <= j,
            j <= s.len(),
            res@ == s@.subrange(i as int, k as int),
        decreases j - k,
    {
        res.push(s[k]);
        k += 1;
        assert(s@.subrange(i as int, k as int) == s@.subrange(i as int, k - 1).push(s@[k - 1]));
    }
    assert(trim_end(s@.subrange(i as int, j as int)) == s@.subrange(i as int, j as int));
    res
}

/// The pieces of `s` separated by `sep`, joined back with `sep`.
pub open spec fn join_with(pieces: Seq<Seq<char>>, sep: char) -> Seq<char>
    decreases pieces.len(),
{
    if pieces.len() == 0 {
        seq![]
    } else if pieces.len() == 1 {
        pieces[0]
    } else {
        join_with(pieces.drop_last(), sep).push(sep) + pieces.last()
    }
}

/// `pieces` is what `str::split` with the character `sep` yields on `s`.
pub open spec fn is_split_of(s: Seq<char>, sep: char, pieces: Seq<Seq<char>>) -> bool {
    &&& pieces.len() >= 1
    &&& join_with(pieces, sep) == s
    &&& forall|i: int| 0 <= i < pieces.len() ==> !(#[trigger] pieces[i]).contains(sep)
}

/// `str::split` on one character: every piece, empty ones included.
pub fn split_on(s: &Vec<char>, sep: char) -> (res: Vec<Vec<char>>)
    ensures
        is_split_of(s@, sep, res@.map_values(|v: Vec<char>| v@)),
{
    let mut res: Vec<Vec<char>> = Vec::new();
    let mut cur: Vec<char> = Vec::new();
    let mut i: usize = 0;
    proof {
        let start = res@.map_values(|v: Vec<char>| v@).push(cur@);
        assert(start =~= seq![Seq::<char>::empty()]);
        assert(s@.take(0) =~= Seq::<char>::empty());
        assert(!start[0].contains(sep));
    }
    while i < s.len()
        invariant
            i <= s.len(),
            is_split_of(s@.take(i as int), sep, res@.map_values(|v: Vec<char>| v@).push(cur@)),
        decreases s.len() - i,
    {
        let ghost before = res@.map_values(|v: Vec<char>| v@).push(cur@);
        let c = s[i];
        if c == sep {
            res.push(cur);
            cur = Vec::new();
            proof {
                let after = res@.map_values(|v: Vec<char>| v@).push(cur@);
                assert(after.drop_last() =~= before);
                assert(s@.take(i + 1) =~= s@.take(i as int).push(sep));
                assert(join_with(after, sep) =~= join_with(before, sep).push(sep) + seq![]);
                assert forall|k: int| 0 <= k < after.len() implies !(#[trigger] after[k]).contains(sep) by {
                    if k < before.len() {
                        assert(after[k] == before[k]);
                    } else {
                        assert(after[k] =~= Seq::<char>::empty());
                    }
                }
            }
        } else {
            cur.push(c);
            proof {
                let after = res@.map_values(|v: Vec<char>| v@).push(cur@);
                assert(s@.take(i + 1) =~= s@.take(i as int).push(c));
                if before.len() == 1 {
                    assert(join_with(after, sep) == after[0]);
                    assert(join_with(before, sep) == before[0]);
                } else {
                    assert(after.drop_last() =~= before.drop_last());
                    assert(join_with(after, sep) =~= join_with(before, sep).push(c));
                }
                assert forall|k: int| 0 <= k < after.len() implies !(#[trigger] after[k]).contains(sep) by {
                    if k < before.len() - 1 {
                        assert(after[k] == before[k]);
                    } else {
                        assert(after[k] =~= before[k].push(c));
                        if after[k].contains(sep) {
                            let w = choose|w: int| 0 <= w < after[k].len() && after[k][w] == sep;
                            assert(before[k][w] == sep);
                        }
                    }
                }
            }
        }
        i += 1;
    }
    let ghost last = res@.map_values(|v: Vec<char>| v@).push(cur@);
    res.push(cur);
    assert(res@.map_values(|v: Vec<char>| v@) =~= last);
    assert(s@.take(s.len() as int) =~= s@);
    res
}

} // verus!

verus! {

/// What `str::to_uppercase` gives for a string: its Unicode uppercase mapping.
pub uninterp spec fn unicode_upper(s: Seq<char>) -> Seq<char>;

/// What `String::from_utf8_lossy` gives for a byte sequence: its UTF-8
/// decoding with each invalid sequence replaced by U+FFFD.
pub uninterp spec fn lossy_utf8(bytes: Seq<u8>) -> Seq<char>;

/// `String::from_utf8_lossy`, taken as an owned string. The contract names
/// the result; the decoding rules that decide it are not restated here.
#[verifier::external_body]
pub(crate) fn utf8_lossy(bytes: &Vec<u8>) -> (res: String)
    ensures
        res@ == lossy_utf8(bytes@),
{
    String::from_utf8_lossy(bytes.as_slice()).into_owned()
}

/// What `str::to_lowercase` gives for a string: its Unicode lowercase mapping.
pub uninterp spec fn unicode_lower(s: Seq<char>) -> Seq<char>;

/// `str::to_uppercase`. The contract names the result; the Unicode case
/// tables that decide it are not restated here.
#[verifier::external_body]
pub(crate) fn to_uppercase(s: &str) -> (res: String)
    ensures
        res@ == unicode_upper(s@),
{
    s.to_uppercase()
}

/// `str::to_lowercase`. The contract names the result; the Unicode case
/// tables that decide it are not restated here.
#[verifier::external_body]
pub(crate) fn to_lowercase(s: &str) -> (res: String)
    ensures
        res@ == unicode_lower(s@),
{
    s.to_lowercase()
}

/// A byte after ASCII uppercasing.
pub open spec fn ascii_upper_byte(b: u8) -> u8 {
    if 97 <= b && b <= 122 {
        (b - 32) as u8
    } else {
        b
    }
}

/// `<[u8]>::to_ascii_uppercase`.
pub fn bytes_to_ascii_uppercase(bytes: &Vec<u8>) -> (res: Vec<u8>)
    ensures
        res@ == bytes@.map_values(|b: u8| ascii_upper_byte(b)),
{
    let mut res: Vec<u8> = Vec::new();
    let mut i: usize = 0;
    while i < bytes.len()
        invariant
            i <= bytes.len(),
            res@ == bytes@.take(i as int).map_values(|b: u8| ascii_upper_byte(b)),
        decreases bytes.len() - i,
    {
        let b = bytes[i];
        let u: u8 = if 97 <= b && b <= 122 { b - 32 } else { b };
        res.push(u);
        i += 1;
        assert(bytes@.take(i as int).map_values(|b: u8| ascii_upper_byte(b)) =~= bytes@.take(
            i - 1,
        ).map_values(|b: u8| ascii_upper_byte(b)).push(u));
    }
    assert(bytes@.take(bytes.len() as int) =~= bytes@);
    res
}

/// Whether two byte vectors are equal.
pub fn bytes_eq(a: &Vec<u8>, b: &Vec<u8>) -> (res: bool)
    ensures
        res == (a@ == b@),
{
    if a.len() != b.len() {
        return false;
    }
    let mut i: usize = 0;
    while i < a.len()
        invariant
            a.len() == b.len(),
            i <= a.len(),
            forall|k: int| 0 <= k < i ==> a@[k] == b@[k],
        decreases a.len() - i,
    {
        if a[i] != b[i] {
            return false;
        }
        i += 1;
    }
    assert(a@ =~= b@);
    true
}

/// The characters of an ASCII byte string.
pub open spec fn ascii_chars(bytes: Seq<u8>) -> Seq<char> {
    bytes.map_values(|b: u8| b as char)
}

/// Whether the bytes, read as ASCII characters, spell `s`.
pub fn bytes_spell(bytes: &Vec<u8>, s: &str) -> (res: bool)
    ensures
        res == (ascii_chars(bytes@) == s@),
{
    let chars = chars_of(s);
    if bytes.len() != chars.len() {
        assert(ascii_chars(bytes@).len() != s@.len());
        return false;
    }
    let mut i: usize = 0;
    while i < bytes.len()
        invariant
            bytes.len() == chars@.len(),
            chars@ == s@,
            i <= bytes.len(),
            forall|k: int| 0 <= k < i ==> (bytes@[k] as char) == chars@[k],
        decreases bytes.len() - i,
    {
        if bytes[i] as char != chars[i] {
            assert(ascii_chars(bytes@)[i as int] != s@[i as int]);
            return false;
        }
        i += 1;
    }
    assert(ascii_chars(bytes@) =~= s@);
    true
}

/// Whether the characters spell `s`.
pub fn chars_spell(chars: &Vec<char>, s: &str) -> (res: bool)
    ensures
        res == (chars@ == s@),
{
    let other = chars_of(s);
    chars_eq(chars, &other)
}

/// The white-space separated words of `s`, as `str::split_whitespace` yields them.
pub open spec fn words(s: Seq<char>) -> Seq<Seq<char>>
    decreases s.len(),
{
    if s.len() == 0 {
        seq![]
    } else {
        let w = words(s.drop_last());
        let c = s.last();
        if is_white_space(c) {
            w
        } else if s.len() >= 2 && !is_white_space(s[s.len() - 2]) {
            w.drop_last().push(w.last().push(c))
        } else {
            w.push(seq![c])
        }
    }
}

/// The views of a vector of character vectors.
pub open spec fn views(v: Seq<Vec<char>>) -> Seq<Seq<char>> {
    v.map_values(|w: Vec<char>| w@)
}

/// `str::split_whitespace`.
pub fn split_whitespace(s: &Vec<char>) -> (res: Vec<Vec<char>>)
    ensures
        views(res@) == words(s@),
{
    let mut res: Vec<Vec<char>> = Vec::new();
    let mut cur: Vec<char> = Vec::new();
    let mut in_word = false;
    let mut i: usize = 0;
    while i < s.len()
        invariant
            i <= s.len(),
            in_word == (i > 0 && !is_white_space(s@[i - 1])),
            in_word ==> words(s@.take(i as int)) == views(res@).push(cur@),
            !in_word ==> words(s@.take(i as int)) == views(res@),
        decreases s.len() - i,
    {
        let c = s[i];
        let ghost prefix = s@.take(i + 1);
        assert(prefix.drop_last() =~= s@.take(i as int));
        assert(prefix.last() == c);
        if is_whitespace(c) {
            if in_word {
                let ghost old_res = views(res@);
                res.push(cur);
                cur = Vec::new();
                assert(views(res@) =~= old_res.push(views(res@).last()));
            }
            in_word = false;
        } else {
            if in_word {
                let ghost w = views(res@).push(cur@);
                assert(prefix.len() >= 2 && prefix[prefix.len() - 2] == s@[i - 1]);
                cur.push(c);
                assert(w.drop_last() =~= views(res@));
                assert(w.last() == cur@.drop_last());
                assert(cur@ =~= w.last().push(c));
            } else {
                cur = Vec::new();
                cur.push(c);
                assert(cur@ =~= seq![c]);
            }
            in_word = true;
        }
        i += 1;
    }
    assert(s@.take(s.len() as int) =~= s@);
    if in_word {
        let ghost old_res = views(res@);
        res.push(cur);
        assert(views(res@) =~= old_res.push(views(res@).last()));
    }
    res
}

/// `base` with `part` pushed onto it as `PathBuf::push` does on Unix: an
/// absolute `part` replaces `base`, otherwise a `/` separates the two unless
/// `base` is empty or already ends with one.
pub open spec fn joined_path(base: Seq<char>, part: Seq<char>) -> Seq<char> {
    if part.len() > 0 && part[0] == '/' {
        part
    } else if base.len() == 0 || base.last() == '/' {
        base + part
    } else {
        base.push('/') + part
    }
}

/// `Path::join` on Unix paths held as strings.
pub fn path_join(base: &str, part: &str) -> (res: String)
    ensures
        res@ == joined_path(base@, part@),
{
    let b = chars_of(base);
    let p = chars_of(part);
    if p.len() > 0 && p[0] == '/' {
        return part.to_owned();
    }
    let mut res = base.to_owned();
    if b.len() > 0 && b[b.len() - 1] != '/' {
        push_char(&mut res, '/');
    }
    res.append(part);
    res
}

/// The decimal digits of `n`, most significant first, with no leading zero.
pub open spec fn decimal(n: nat) -> Seq<char>
    decreases n,
{
    if n < 10 {
        seq![digit_char(n)]
    } else {
        decimal(n / 10).push(digit_char(n % 10))
    }
}

/// The character of a decimal digit.
pub open spec fn digit_char(d: nat) -> char {
    ((d + 48) as u8) as char
}

/// The decimal representation of `n`, as `u64`'s `Display` writes it.
pub fn u64_to_decimal(n: u64) -> (res: String)
    ensures
        res@ == decimal(n as nat),
{
    let mut digits: Vec<char> = Vec::new();
    let mut m: u64 = n;
    loop
        invariant_except_break
            decimal(n as nat) == decimal(m as nat) + digits@.reverse(),
        ensures
            decimal(n as nat) == digits@.reverse(),
        decreases m,
    {
        let b: u8 = (m % 10) as u8 + 48;
        let c = b as char;
        assert(c == digit_char((m % 10) as nat));
        if m < 10 {
            assert(decimal(m as nat) == seq![c]);
            let ghost old_digits = digits@;
            digits.push(c);
            assert(digits@.reverse() =~= seq![c] + old_digits.reverse());
            break;
        }
        assert(decimal(m as nat) == decimal((m / 10) as nat).push(c));
        let ghost old_digits = digits@;
        digits.push(c);
        assert(digits@.reverse() =~= seq![c] + old_digits.reverse());
        assert(decimal((m / 10) as nat) + digits@.reverse() =~= decimal((m / 10) as nat).push(c) + old_digits.reverse());
        m = m / 10;
    }
    let mut res = String::new();
    let mut i: usize = digits.len();
    assert(decimal(n as nat) == digits@.reverse());
    while i > 0
        invariant
            i <= digits.len(),
            res@ == digits@.reverse().take(digits.len() - i),
        decreases i,
    {
        i -= 1;
        push_char(&mut res, digits[i]);
        assert(digits@.reverse().take(digits.len() - i) =~= digits@.reverse().take(digits.len() - i - 1).push(digits@[i as int]));
    }
    assert(digits@.reverse().take(digits.len() as int) =~= digits@.reverse());
    res
}

/// The strings joined with one separator character between them (`[String]::join`).
pub fn join_strings(pieces: &Vec<String>, sep: char) -> (res: String)
    ensures
        res@ == join_with(pieces@.map_values(|s: String| s@), sep),
{
    let ghost all = pieces@.map_values(|s: String| s@);
    let mut res = String::new();
    let mut i: usize = 0;
    while i < pieces.len()
        invariant
            i <= pieces.len(),
            all == pieces@.map_values(|s: String| s@),
            res@ == join_with(all.take(i as int), sep),
        decreases pieces.len() - i,
    {
        let ghost prev = res@;
        if i > 0 {
            push_char(&mut res, sep);
        }
        res.append(pieces[i].as_str());
        proof {
            let t = all.take(i + 1);
            assert(t.drop_last() =~= all.take(i as int));
            assert(t.last() == pieces@[i as int]@);
            if i == 0 {
                assert(all.take(0) =~= Seq::<Seq<char>>::empty());
                assert(t.len() == 1);
                assert(res@ =~= t[0]);
            }
        }
        i += 1;
    }
    assert(all.take(pieces.len() as int) =~= all);
    res
}

/// `p` is a prefix of `s`.
pub open spec fn is_prefix(p: Seq<char>, s: Seq<char>) -> bool {
    p.len() <= s.len() && s.subrange(0, p.len() as int) == p
}

/// `p` is a suffix of `s`.
pub open spec fn is_suffix(p: Seq<char>, s: Seq<char>) -> bool {
    p.len() <= s.len() && s.subrange(s.len() - p.len(), s.len() as int) == p
}

/// `p` occurs somewhere in `s`.
pub open spec fn occurs_in(p: Seq<char>, s: Seq<char>) -> bool {
    exists|i: int| 0 <= i && i + p.len() <= s.len() && #[trigger] s.subrange(i, i + p.len()) == p
}

fn matches_at(s: &Vec<char>, p: &Vec<char>, at: usize) -> (res: bool)
    requires
        at + p.len() <= s.len(),
    ensures
        res == (s@.subrange(at as int, at + p.len()) == p@),
{
    let mut i: usize = 0;
    while i < p.len()
        invariant
            i <= p.len(),
            at + p.len() <= s.len(),
            forall|k: int| 0 <= k < i ==> s@[at + k] == p@[k],
        decreases p.len() - i,
    {
        if s[at + i] != p[i] {
            assert(s@.subrange(at as int, at + p.len())[i as int] != p@[i as int]);
            return false;
        }
        i += 1;
    }
    assert(s@.subrange(at as int, at + p.len()) =~= p@);
    true
}

/// `str::starts_with`.
pub fn starts_with(s: &str, p: &str) -> (res: bool)
    ensures
        res == is_prefix(p@, s@),
{
    let sc = chars_of(s);
    let pc = chars_of(p);
    if pc.len() > sc.len() {
        return false;
    }
    matches_at(&sc, &pc, 0)
}

/// `str::ends_with`.
pub fn ends_with(s: &str, p: &str) -> (res: bool)
    ensures
        res == is_suffix(p@, s@),
{
    let sc = chars_of(s);
    let pc = chars_of(p);
    if pc.len() > sc.len() {
        return false;
    }
    matches_at(&sc, &pc, sc.len() - pc.len())
}

/// `str::contains` with a string pattern.
pub fn contains_str(s: &str, p: &str) -> (res: bool)
    ensures
        res == occurs_in(p@, s@),
{
    let sc = chars_of(s);
    let pc = chars_of(p);
    if pc.len() > sc.len() {
        return false;
    }
    let last = sc.len() - pc.len();
    let mut i: usize = 0;
    loop
        invariant
            pc.len() <= sc.len(),
            last == sc.len() - pc.len(),
            i <= last,
            sc@ == s@,
            pc@ == p@,
            forall|k: int| 0 <= k < i ==> #[trigger] s@.subrange(k, k + p@.len()) != p@,
        decreases last - i,
    {
        if matches_at(&sc, &pc, i) {
            return true;
        }
        if i == last {
            return false;
        }
        i += 1;
    }
}

/// The string without the prefix `p`, when it has it (`str::strip_prefix`).
pub fn strip_prefix(s: &str, p: &str) -> (res: Option<String>)
    ensures
        is_prefix(p@, s@) ==> (res matches Some(r) && r@ == s@.subrange(p@.len() as int, s@.len() as int)),
        !is_prefix(p@, s@) ==> res is None,
{
    if !starts_with(s, p) {
        return None;
    }
    let sc = chars_of(s);
    let pc = chars_of(p);
    let mut rest: Vec<char> = Vec::new();
    let mut i: usize = pc.len();
    while i < sc.len()
        invariant
            pc.len() <= i <= sc.len(),
            rest@ == sc@.subrange(pc.len() as int, i as int),
        decreases sc.len() - i,
    {
        rest.push(sc[i]);
        i += 1;
        assert(sc@.subrange(pc.len() as int, i as int) =~= sc@.subrange(pc.len() as int, i - 1).push(sc@[i - 1]));
    }
    Some(string_of(&rest))
}

/// The string without the suffix `p`, when it has it (`str::strip_suffix`).
pub fn strip_suffix(s: &str, p: &str) -> (res: Option<String>)
    ensures
        is_suffix(p@, s@) ==> (res matches Some(r) && r@ == s@.subrange(0, s@.len() - p@.len())),
        !is_suffix(p@, s@) ==> res is None,
{
    if !ends_with(s, p) {
        return None;
    }
    let sc = chars_of(s);
    let pc = chars_of(p);
    let end = sc.len() - pc.len();
    let mut rest: Vec<char> = Vec::new();
    let mut i: usize = 0;
    while i < end
        invariant
            end == sc.len() - pc.len(),
            i <= end,
            rest@ == sc@.subrange(0, i as int),
        decreases end - i,
    {
        rest.push(sc[i]);
        i += 1;
        assert(sc@.subrange(0, i as int) =~= sc@.subrange(0, i - 1).push(sc@[i - 1]));
    }
    Some(string_of(&rest))
}

/// Whether a character is an ASCII decimal digit.
pub open spec fn is_digit(c: char) -> bool {
    '0' <= c && c <= '9'
}

/// The value of a string of decimal digits.
pub open spec fn digits_value(s: Seq<char>) -> nat
    decreases s.len(),
{
    if s.len() == 0 {
        0
    } else {
        digits_value(s.drop_last()) * 10 + ((s.last() as u32) - 48) as nat
    }
}

/// The integer that `str::parse` reads from `s`, before its range is
/// checked: an optional `+` (or `-` when `signed`) followed by one or more
/// decimal digits.
pub open spec fn parsed_integer(s: Seq<char>, signed: bool) -> Option<int> {
    let neg = sign_split(s, signed).0;
    let body = sign_split(s, signed).1;
    if body.len() == 0 || !all_digits_spec(body) {
        None
    } else if neg {
        Some(-(digits_value(body) as int))
    } else {
        Some(digits_value(body) as int)
    }
}

/// Whether the number is negative, and its digits without the sign.
pub open spec fn sign_split(s: Seq<char>, signed: bool) -> (bool, Seq<char>) {
    if s.len() > 0 && s[0] == '+' {
        (false, s.drop_first())
    } else if signed && s.len() > 0 && s[0] == '-' {
        (true, s.drop_first())
    } else {
        (false, s)
    }
}

/// Every character is a decimal digit.
pub open spec fn all_digits_spec(s: Seq<char>) -> bool {
    forall|i: int| 0 <= i < s.len() ==> is_digit(#[trigger] s[i])
}

proof fn lemma_digits_value_grows(s: Seq<char>, k: int)
    requires
        0 <= k <= s.len(),
        forall|i: int| 0 <= i < s.len() ==> is_digit(#[trigger] s[i]),
    ensures
        digits_value(s.take(k)) <= digits_value(s),
    decreases s.len() - k,
{
    if k < s.len() {
        lemma_digits_value_grows(s, k + 1);
        assert(s.take(k + 1).drop_last() =~= s.take(k));
    } else {
        assert(s.take(k) =~= s);
    }
}

/// Reads the digits of `body` from `from` on, stopping with `None` as soon
/// as the value exceeds `limit`.
fn digits_up_to(body: &Vec<char>, limit: u128) -> (res: Option<u128>)
    requires
        limit <= 0x1_0000_0000_0000_0000,
        forall|i: int| 0 <= i < body@.len() ==> is_digit(#[trigger] body@[i]),
    ensures
        digits_value(body@) <= limit ==> res == Some(digits_value(body@) as u128),
        digits_value(body@) > limit ==> res is None,
{
    let mut acc: u128 = 0;
    let mut i: usize = 0;
    while i < body.len()
        invariant
            i <= body.len(),
            limit <= 0x1_0000_0000_0000_0000,
            forall|k: int| 0 <= k < body@.len() ==> is_digit(#[trigger] body@[k]),
            acc == digits_value(body@.take(i as int)),
            acc <= limit,
        decreases body.len() - i,
    {
        let c = body[i];
        assert(body@.take(i + 1).drop_last() =~= body@.take(i as int));
        assert(is_digit(body@[i as int]));
        let d = (c as u32 - 48) as u128;
        acc = acc * 10 + d;
        i += 1;
        if acc > limit {
            proof {
                lemma_digits_value_grows(body@, i as int);
            }
            return None;
        }
    }
    assert(body@.take(body.len() as int) =~= body@);
    Some(acc)
}

fn split_sign(s: &Vec<char>, signed: bool) -> (res: (bool, Vec<char>))
    ensures
        res.0 == sign_split(s@, signed).0,
        res.1@ == sign_split(s@, signed).1,
{
    if s.len() > 0 && (s[0] == '+' || (signed && s[0] == '-')) {
        let neg = s[0] == '-';
        let mut body: Vec<char> = Vec::new();
        let mut i: usize = 1;
        while i < s.len()
            invariant
                1 <= i <= s.len(),
                body@ == s@.subrange(1, i as int),
            decreases s.len() - i,
        {
            body.push(s[i]);
            i += 1;
            assert(s@.subrange(1, i as int) =~= s@.subrange(1, i - 1).push(s@[i - 1]));
        }
        assert(s@.drop_first() =~= s@.subrange(1, s@.len() as int));
        (neg, body)
    } else {
        (false, s.clone())
    }
}

fn all_digits(s: &Vec<char>) -> (res: bool)
    ensures
        res == all_digits_spec(s@),
{
    let mut i: usize = 0;
    while i < s.len()
        invariant
            i <= s.len(),
            forall|k: int| 0 <= k < i ==> is_digit(#[trigger] s@[k]),
        decreases s.len() - i,
    {
        if !('0' <= s[i] && s[i] <= '9') {
            return false;
        }
        i += 1;
    }
    true
}

/// `str::parse::<isize>`: `None` where it returns an error.
pub fn parse_isize(s: &str) -> (res: Option<isize>)
    ensures
        res == match parsed_integer(s@, true) {
            Some(v) => if isize::MIN <= v <= isize::MAX {
                Some(v as isize)
            } else {
                None::<isize>
            },
            None => None,
        },
{
    let chars = chars_of(s);
    let (neg, body) = split_sign(&chars, true);
    if body.len() == 0 || !all_digits(&body) {
        return None;
    }
    let limit: u128 = if neg { isize::MAX as u128 + 1 } else { isize::MAX as u128 };
    match digits_up_to(&body, limit) {
        None => None,
        Some(v) => if neg {
            Some((0 - v as i128) as isize)
        } else {
            Some(v as isize)
        },
    }
}

/// `str::parse::<usize>`: `None` where it returns an error.
pub fn parse_usize(s: &str) -> (res: Option<usize>)
    ensures
        res == match parsed_integer(s@, false) {
            Some(v) => if 0 <= v <= usize::MAX {
                Some(v as usize)
            } else {
                None::<usize>
            },
            None => None,
        },
{
    let chars = chars_of(s);
    let (neg, body) = split_sign(&chars, false);
    if body.len() == 0 || !all_digits(&body) {
        return None;
    }
    match digits_up_to(&body, usize::MAX as u128) {
        None => None,
        Some(v) => Some(v as usize),
    }
}

} // verus!
