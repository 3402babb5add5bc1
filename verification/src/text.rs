//! String helpers shared by the transformer and the renderers: ASCII case
//! folding, substring search, decimal formatting and column padding.

use vstd::prelude::*;

verus! {

/// Lowercase image of a single character: ASCII letters are folded, every
/// other character is unchanged.
pub open spec fn ascii_lower_char(c: char) -> char {
    match c {
        'A' => 'a',
        'B' => 'b',
        'C' => 'c',
        'D' => 'd',
        'E' => 'e',
        'F' => 'f',
        'G' => 'g',
        'H' => 'h',
        'I' => 'i',
        'J' => 'j',
        'K' => 'k',
        'L' => 'l',
        'M' => 'm',
        'N' => 'n',
        'O' => 'o',
        'P' => 'p',
        'Q' => 'q',
        'R' => 'r',
        'S' => 's',
        'T' => 't',
        'U' => 'u',
        'V' => 'v',
        'W' => 'w',
        'X' => 'x',
        'Y' => 'y',
        'Z' => 'z',
        _ => c,
    }
}

/// The views of a sequence of owned strings.
pub open spec fn views_of(ls: Seq<String>) -> Seq<Seq<char>> {
    ls.map_values(|l: String| l@)
}

/// Appending one string appends its view.
pub proof fn lemma_views_push(ls: Seq<String>, x: String)
    ensures
        views_of(ls.push(x)) == views_of(ls) + seq![x@],
{
    assert(views_of(ls.push(x)) =~= views_of(ls) + seq![x@]);
}

/// Lowercase image of a character sequence.
pub open spec fn ascii_lower(s: Seq<char>) -> Seq<char> {
    s.map_values(|c: char| ascii_lower_char(c))
}

/// Fold one ASCII letter to lowercase; anything else passes through.
pub fn lower_char(c: char) -> (r: char)
    ensures
        r == ascii_lower_char(c),
{
    match c {
        'A' => 'a',
        'B' => 'b',
        'C' => 'c',
        'D' => 'd',
        'E' => 'e',
        'F' => 'f',
        'G' => 'g',
        'H' => 'h',
        'I' => 'i',
        'J' => 'j',
        'K' => 'k',
        'L' => 'l',
        'M' => 'm',
        'N' => 'n',
        'O' => 'o',
        'P' => 'p',
        'Q' => 'q',
        'R' => 'r',
        'S' => 's',
        'T' => 't',
        'U' => 'u',
        'V' => 'v',
        'W' => 'w',
        'X' => 'x',
        'Y' => 'y',
        'Z' => 'z',
        _ => c,
    }
}

/// `needle` occurs as a contiguous run inside `hay`.
pub open spec fn contains_seq(hay: Seq<char>, needle: Seq<char>) -> bool {
    exists|i: int|
        0 <= i && i + needle.len() <= hay.len() && #[trigger] hay.subrange(i, i + needle.len())
            == needle
}

/// Substring search, exact characters.
pub fn str_contains(hay: &str, needle: &str) -> (r: bool)
    ensures
        r == contains_seq(hay@, needle@),
{
    let n = hay.unicode_len();
    let m = needle.unicode_len();
    if m > n {
        return false;
    }
    let mut i: usize = 0;
    while i <= n - m
        invariant
            m <= n,
            n == hay@.len(),
            m == needle@.len(),
            i <= n - m + 1,
            forall|k: int| 0 <= k < i ==> #[trigger] hay@.subrange(k, k + m as int) != needle@,
        decreases n - m + 1 - i,
    {
        let mut j: usize = 0;
        let mut ok = true;
        while j < m && ok
            invariant
                m <= n,
                n == hay@.len(),
                m == needle@.len(),
                i <= n - m,
                j <= m,
                ok ==> forall|l: int| 0 <= l < j ==> hay@[i + l] == needle@[l],
                !ok ==> exists|l: int| 0 <= l < j && hay@[i + l] != needle@[l],
            decreases m - j,
        {
            if hay.get_char(i + j) != needle.get_char(j) {
                ok = false;
            }
            j += 1;
        }
        if ok {
            assert(hay@.subrange(i as int, i + m as int) =~= needle@);
            return true;
        }
        proof {
            let l = choose|l: int| 0 <= l < j && hay@[i + l] != needle@[l];
            assert(hay@.subrange(i as int, i + m as int)[l] == hay@[i + l]);
        }
        i += 1;
    }
    proof {
        assert forall|k: int| 0 <= k && k + needle@.len() <= hay@.len() implies #[trigger] hay@.subrange(
            k,
            k + needle@.len(),
        ) != needle@ by {
            assert(k < i);
        }
    }
    false
}

/// Substring search over the case-folded haystack: true exactly when `needle`
/// occurs inside `hay` once ASCII letters of `hay` are lowercased.
pub fn str_contains_lower(hay: &str, needle: &str) -> (r: bool)
    ensures
        r == contains_seq(ascii_lower(hay@), needle@),
{
    let n = hay.unicode_len();
    let m = needle.unicode_len();
    proof {
        assert(ascii_lower(hay@).len() == hay@.len());
    }
    if m > n {
        return false;
    }
    let mut i: usize = 0;
    while i <= n - m
        invariant
            m <= n,
            n == hay@.len(),
            m == needle@.len(),
            ascii_lower(hay@).len() == n,
            i <= n - m + 1,
            forall|k: int| 0 <= k < i ==> #[trigger] ascii_lower(hay@).subrange(k, k + m as int) != needle@,
        decreases n - m + 1 - i,
    {
        let mut j: usize = 0;
        let mut ok = true;
        while j < m && ok
            invariant
                m <= n,
                n == hay@.len(),
                m == needle@.len(),
                ascii_lower(hay@).len() == n,
                i <= n - m,
                j <= m,
                ok ==> forall|l: int| 0 <= l < j ==> ascii_lower(hay@)[i + l] == needle@[l],
                !ok ==> exists|l: int| 0 <= l < j && ascii_lower(hay@)[i + l] != needle@[l],
            decreases m - j,
        {
            if lower_char(hay.get_char(i + j)) != needle.get_char(j) {
                ok = false;
            }
            j += 1;
        }
        if ok {
            assert(ascii_lower(hay@).subrange(i as int, i + m as int) =~= needle@);
            return true;
        }
        proof {
            let l = choose|l: int| 0 <= l < j && ascii_lower(hay@)[i + l] != needle@[l];
            assert(ascii_lower(hay@).subrange(i as int, i + m as int)[l] == ascii_lower(hay@)[i
                + l]);
        }
        i += 1;
    }
    proof {
        assert forall|k: int|
            0 <= k && k + needle@.len() <= ascii_lower(hay@).len() implies #[trigger] ascii_lower(
            hay@,
        ).subrange(k, k + needle@.len()) != needle@ by {
            assert(k < i);
        }
    }
    false
}

/// The decimal digit `d` (0 to 9) as a character.
pub open spec fn digit_char(d: int) -> char {
    if d == 0 {
        '0'
    } else if d == 1 {
        '1'
    } else if d == 2 {
        '2'
    } else if d == 3 {
        '3'
    } else if d == 4 {
        '4'
    } else if d == 5 {
        '5'
    } else if d == 6 {
        '6'
    } else if d == 7 {
        '7'
    } else if d == 8 {
        '8'
    } else {
        '9'
    }
}

/// Decimal notation of a non-negative integer, no leading zeros
/// (a single `'0'` for zero).
pub open spec fn dec_seq(n: int) -> Seq<char>
    decreases n,
{
    if n < 10 {
        seq![digit_char(n)]
    } else {
        dec_seq(n / 10) + seq![digit_char(n % 10)]
    }
}

fn digit_str(d: u64) -> (r: &'static str)
    requires
        d < 10,
    ensures
        r@ == seq![digit_char(d as int)],
{
    proof {
        reveal_strlit("0");
        reveal_strlit("1");
        reveal_strlit("2");
        reveal_strlit("3");
        reveal_strlit("4");
        reveal_strlit("5");
        reveal_strlit("6");
        reveal_strlit("7");
        reveal_strlit("8");
        reveal_strlit("9");
    }
    let r = match d {
        0 => "0",
        1 => "1",
        2 => "2",
        3 => "3",
        4 => "4",
        5 => "5",
        6 => "6",
        7 => "7",
        8 => "8",
        _ => "9",
    };
    proof {
        assert(r@ =~= seq![digit_char(d as int)]);
    }
    r
}

/// Decimal notation of `n`.
pub fn u64_to_dec(n: u64) -> (r: String)
    ensures
        r@ == dec_seq(n as int),
    decreases n,
{
    if n < 10 {
        String::from_str(digit_str(n))
    } else {
        let mut s = u64_to_dec(n / 10);
        s.append(digit_str(n % 10));
        proof {
            assert(s@ =~= dec_seq(n as int));
        }
        s
    }
}

/// Decimal notation padded with `'0'` to at least two characters, as a
/// clock face or a minute counter shows it.
pub open spec fn dec2_spec(n: int) -> Seq<char> {
    if n < 10 {
        seq!['0'] + dec_seq(n)
    } else {
        dec_seq(n)
    }
}

/// Decimal notation of `n`, zero-padded to at least two digits.
pub fn u64_to_dec2(n: u64) -> (r: String)
    ensures
        r@ == dec2_spec(n as int),
{
    if n < 10 {
        let mut s = String::from_str("0");
        s.append(digit_str(n));
        proof {
            reveal_strlit("0");
            assert(s@ =~= dec2_spec(n as int));
        }
        s
    } else {
        u64_to_dec(n)
    }
}

/// Decimal notation with an explicit sign, `'+'` for zero and above.
pub open spec fn signed_dec_spec(n: int) -> Seq<char> {
    if n >= 0 {
        seq!['+'] + dec_seq(n)
    } else {
        seq!['-'] + dec_seq(-n)
    }
}

/// Decimal notation of `n` with its sign always written.
pub fn i64_to_signed_dec(n: i64) -> (r: String)
    requires
        n > i64::MIN,
    ensures
        r@ == signed_dec_spec(n as int),
{
    if n >= 0 {
        let mut s = String::from_str("+");
        s.append(u64_to_dec(n as u64).as_str());
        proof {
            reveal_strlit("+");
            assert(s@ =~= signed_dec_spec(n as int));
        }
        s
    } else {
        let mut s = String::from_str("-");
        s.append(u64_to_dec((-n) as u64).as_str());
        proof {
            reveal_strlit("-");
            assert(s@ =~= signed_dec_spec(n as int));
        }
        s
    }
}

/// `s` padded on the right with spaces to width `w`; text longer than `w`
/// is kept whole.
pub open spec fn pad_spec(s: Seq<char>, w: int) -> Seq<char> {
    if s.len() >= w {
        s
    } else {
        s + Seq::new((w - s.len()) as nat, |i: int| ' ')
    }
}

/// Pad `s` on the right with spaces to at least `w` characters.
pub fn pad_to(s: &str, w: usize) -> (r: String)
    ensures
        r@ == pad_spec(s@, w as int),
{
    let mut r = String::from_str(s);
    let mut k = s.unicode_len();
    while k < w
        invariant
            k >= s@.len(),
            k == s@.len() || k <= w,
            r@ == pad_spec(s@, k as int),
        decreases w - k,
    {
        proof {
            reveal_strlit(" ");
        }
        r.append(" ");
        k += 1;
        proof {
            assert(r@ =~= pad_spec(s@, k as int));
        }
    }
    proof {
        if s@.len() >= w {
            assert(r@ =~= pad_spec(s@, w as int));
        }
    }
    r
}

/// `s` padded on the left with spaces to width `w`; text longer than `w`
/// is kept whole.
pub open spec fn lpad_spec(s: Seq<char>, w: int) -> Seq<char> {
    if s.len() >= w {
        s
    } else {
        Seq::new((w - s.len()) as nat, |i: int| ' ') + s
    }
}

/// Pad `s` on the left with spaces to at least `w` characters.
pub fn lpad_to(s: &str, w: usize) -> (r: String)
    ensures
        r@ == lpad_spec(s@, w as int),
{
    let n = s.unicode_len();
    let mut r = String::new();
    let mut k: usize = 0;
    while n < w && k < w - n
        invariant
            n == s@.len(),
            k <= if n < w { w - n } else { 0 },
            r@ == Seq::new(k as nat, |i: int| ' '),
        decreases w - n - k,
    {
        proof {
            reveal_strlit(" ");
        }
        r.append(" ");
        k += 1;
        proof {
            assert(r@ =~= Seq::new(k as nat, |i: int| ' '));
        }
    }
    r.append(s);
    proof {
        assert(r@ =~= lpad_spec(s@, w as int));
    }
    r
}

/// Columns a character occupies on the terminal: 2 for the wide ranges this
/// crate may meet (East Asian blocks, Hangul, fullwidth forms, emoji), else 1.
pub open spec fn char_width(c: char) -> int {
    if (0x1100 <= c as u32 && c as u32 <= 0x115F) || (0x2E80 <= c as u32 && c as u32 <= 0x303E)
        || (0x3041 <= c as u32 && c as u32 <= 0x33FF) || (0x3400 <= c as u32 && c as u32 <= 0x4DBF)
        || (0x4E00 <= c as u32 && c as u32 <= 0x9FFF) || (0xA000 <= c as u32 && c as u32 <= 0xA4CF)
        || (0xAC00 <= c as u32 && c as u32 <= 0xD7A3) || (0xF900 <= c as u32 && c as u32 <= 0xFAFF)
        || (0xFE30 <= c as u32 && c as u32 <= 0xFE4F) || (0xFF00 <= c as u32 && c as u32 <= 0xFF60)
        || (0xFFE0 <= c as u32 && c as u32 <= 0xFFE6) || (0x1F300 <= c as u32 && c as u32
        <= 0x1FAFF) || (0x20000 <= c as u32 && c as u32 <= 0x3FFFD) {
        2
    } else {
        1
    }
}

/// Columns a whole sequence occupies.
pub open spec fn seq_width(s: Seq<char>) -> int
    decreases s.len(),
{
    if s.len() == 0 {
        0
    } else {
        char_width(s[0]) + seq_width(s.skip(1))
    }
}

proof fn lemma_seq_width_take_step(s: Seq<char>, k: int)
    requires
        0 <= k < s.len(),
    ensures
        seq_width(s.take(k + 1)) == seq_width(s.take(k)) + char_width(s[k]),
    decreases k,
{
    if k == 0 {
        assert(s.take(1).skip(1) =~= Seq::<char>::empty());
        assert(s.take(0) =~= Seq::<char>::empty());
        assert(s.take(1)[0] == s[0]);
    } else {
        assert(s.take(k + 1).skip(1) =~= s.skip(1).take(k));
        assert(s.take(k).skip(1) =~= s.skip(1).take(k - 1));
        lemma_seq_width_take_step(s.skip(1), k - 1);
        assert(s.skip(1)[k - 1] == s[k]);
    }
}

fn exec_char_width(c: char) -> (r: usize)
    ensures
        r == char_width(c),
{
    let u = c as u32;
    if (0x1100 <= u && u <= 0x115F) || (0x2E80 <= u && u <= 0x303E) || (0x3041 <= u && u <= 0x33FF)
        || (0x3400 <= u && u <= 0x4DBF) || (0x4E00 <= u && u <= 0x9FFF) || (0xA000 <= u && u
        <= 0xA4CF) || (0xAC00 <= u && u <= 0xD7A3) || (0xF900 <= u && u <= 0xFAFF) || (0xFE30 <= u
        && u <= 0xFE4F) || (0xFF00 <= u && u <= 0xFF60) || (0xFFE0 <= u && u <= 0xFFE6) || (0x1F300
        <= u && u <= 0x1FAFF) || (0x20000 <= u && u <= 0x3FFFD) {
        2
    } else {
        1
    }
}

/// The longest prefix of `s` that fits within `maxw` terminal columns.
/// Whole characters only: a wide character that would cross the limit is
/// left out entirely.
pub fn truncate_width(s: &str, maxw: usize) -> (r: String)
    ensures
        exists|k: int|
            0 <= k <= s@.len() && r@ == #[trigger] s@.take(k) && seq_width(s@.take(k)) <= maxw && (
            k == s@.len() || seq_width(s@.take(k + 1)) > maxw),
{
    let n = s.unicode_len();
    let mut k: usize = 0;
    let mut w: usize = 0;
    proof {
        assert(s@.take(0) =~= Seq::<char>::empty());
    }
    while k < n
        invariant
            k <= n,
            n == s@.len(),
            w == seq_width(s@.take(k as int)),
            w <= maxw,
        ensures
            k <= n,
            n == s@.len(),
            w == seq_width(s@.take(k as int)),
            w <= maxw,
            k == n || seq_width(s@.take(k as int + 1)) > maxw,
        decreases n - k,
    {
        let cw = exec_char_width(s.get_char(k));
        proof {
            lemma_seq_width_take_step(s@, k as int);
        }
        if cw > maxw - w {
            break ;
        }
        w += cw;
        k += 1;
    }
    let r = String::from_str(s.substring_char(0, k));
    proof {
        assert(r@ =~= s@.take(k as int));
    }
    r
}

} // verus!
