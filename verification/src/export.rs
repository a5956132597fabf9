//! Flat-table export: one delimited text table per derived relation, with
//! a header row, and the parsers that read the tables back.  Rendering and
//! parsing invert each other exactly, so an exported dataset reconstructs
//! the same relations the accessors return.

use vstd::prelude::*;
use vstd::string::{StringExecFns, StrSliceExecFns};

verus! {

/// The decimal digit character of one value below ten.
pub open spec fn digit_char(d: int) -> char {
    ((48 + d) as u8) as char
}

/// The decimal numeral of a non-negative value: no sign, no leading zero.
pub open spec fn dec_digits(n: int) -> Seq<char>
    decreases n,
{
    if n < 10 {
        seq![digit_char(n)]
    } else {
        dec_digits(n / 10).push(digit_char(n % 10))
    }
}

/// Render a value as its decimal numeral.
pub fn u64_to_dec(n: u64) -> (r: String)
    ensures
        r@ == dec_digits(n as int),
    decreases n,
{
    if n < 10 {
        let mut s = String::new();
        let c: char = ((48 + (n as u8)) as u8) as char;
        s.push(c);
        proof {
            assert(s@ =~= dec_digits(n as int));
        }
        s
    } else {
        let mut s = u64_to_dec(n / 10);
        let d = n % 10;
        let c: char = ((48 + (d as u8)) as u8) as char;
        s.push(c);
        proof {
            assert(s@ =~= dec_digits(n as int));
        }
        s
    }
}

/// Every character is a decimal digit.
pub open spec fn all_digits(s: Seq<char>) -> bool {
    forall|i: int| 0 <= i < s.len() ==> 48 <= (#[trigger] s[i]) as u32 <= 57
}

/// A canonical numeral: digits only, non-empty, no leading zero.
pub open spec fn canonical_numeral(s: Seq<char>) -> bool {
    &&& all_digits(s)
    &&& s.len() > 0
    &&& (s.len() > 1 ==> s[0] != digit_char(0))
}

/// The value of a digit string.
pub open spec fn dec_val(s: Seq<char>) -> int
    decreases s.len(),
{
    if s.len() == 0 {
        0
    } else {
        dec_val(s.drop_last()) * 10 + (s.last() as u32 - 48)
    }
}

/// A digit character reads back as its digit.
pub proof fn lemma_digit_char_value(d: int)
    requires
        0 <= d <= 9,
    ensures
        digit_char(d) as u32 == 48 + d,
{
    let b: u8 = (48 + d) as u8;
    let c: char = b as char;
    assert(b == 48 + d);
    assert(c as u32 == b as u32);
}

/// A numeral's properties: it is canonical and reads back to its value.
pub proof fn lemma_dec_digits_props(n: int)
    requires
        n >= 0,
    ensures
        canonical_numeral(dec_digits(n)),
        dec_val(dec_digits(n)) == n,
        n >= 10 ==> dec_digits(n).len() >= 2,
    decreases n,
{
    if n < 10 {
        assert(dec_digits(n) =~= seq![digit_char(n)]);
        let s = dec_digits(n);
        assert(s.drop_last() =~= Seq::<char>::empty());
        lemma_digit_char_value(n);
        assert(dec_val(s.drop_last()) == 0);
        assert(s.last() == digit_char(n));
        assert(dec_val(s) == 0 * 10 + (digit_char(n) as u32 - 48));
    } else {
        lemma_dec_digits_props(n / 10);
        let s = dec_digits(n);
        let p = dec_digits(n / 10);
        assert(s == p.push(digit_char(n % 10)));
        assert(s.drop_last() =~= p);
        assert(s.last() == digit_char(n % 10));
        lemma_digit_char_value(n % 10);
        assert(dec_val(s) == dec_val(p) * 10 + n % 10);
        assert(s[0] == p[0]);
        assert forall|i: int| 0 <= i < s.len() implies 48 <= (#[trigger] s[i]) as u32 <= 57 by {
            if i < p.len() {
                assert(s[i] == p[i]);
            }
        }
    }
}

/// Two equal numerals name the same value.
pub proof fn lemma_dec_digits_injective(a: int, b: int)
    requires
        a >= 0,
        b >= 0,
        dec_digits(a) == dec_digits(b),
    ensures
        a == b,
{
    lemma_dec_digits_props(a);
    lemma_dec_digits_props(b);
}

/// Parse a decimal numeral.  Succeeds exactly on the canonical numeral of
/// a value that fits a machine word, and returns that value.
pub fn parse_dec(s: &str) -> (r: Option<u64>)
    ensures
        r matches Some(v) ==> s@ == dec_digits(v as int),
        r is None ==> (forall|v: u64| s@ != dec_digits(v as int)),
{
    let n = s.unicode_len();
    if n == 0 {
        proof {
            assert forall|v: u64| s@ != dec_digits(v as int) by {
                lemma_dec_digits_props(v as int);
            }
        }
        return None;
    }
    let first = s.get_char(0);
    if n > 1 && first == '0' {
        proof {
            assert forall|v: u64| s@ != dec_digits(v as int) by {
                lemma_dec_digits_props(v as int);
                if s@ == dec_digits(v as int) {
                    assert(s@[0] != digit_char(0));
                    assert(digit_char(0) == '0');
                }
            }
        }
        return None;
    }
    let mut acc: u64 = 0;
    let mut i: usize = 0;
    while i < n
        invariant
            n == s@.len(),
            n > 0,
            0 <= i <= n,
            all_digits(s@.take(i as int)),
            acc == dec_val(s@.take(i as int)),
            acc <= u64::MAX,
        decreases n - i,
    {
        let c = s.get_char(i);
        let cv = c as u32;
        proof {
            assert(s@.take(i + 1).drop_last() =~= s@.take(i as int));
            assert(s@.take(i + 1).last() == s@[i as int]);
        }
        if cv < 48 || cv > 57 {
            proof {
                assert forall|v: u64| s@ != dec_digits(v as int) by {
                    lemma_dec_digits_props(v as int);
                    if s@ == dec_digits(v as int) {
                        assert(48 <= s@[i as int] as u32 <= 57);
                    }
                }
            }
            return None;
        }
        let d = (cv - 48) as u64;
        if acc > (0xffff_ffff_ffff_ffffu64 - d) / 10 {
            proof {
                assert forall|v: u64| s@ != dec_digits(v as int) by {
                    if s@ == dec_digits(v as int) {
                        lemma_dec_digits_props(v as int);
                        lemma_dec_val_prefix_bound(s@, i as int);
                        assert(dec_val(s@.take(i + 1)) <= dec_val(s@) == v);
                        assert(dec_val(s@.take(i + 1)) == acc * 10 + d);
                        assert(acc * 10 + d > 0xffff_ffff_ffff_ffffu64) by (nonlinear_arith)
                            requires
                                acc > ((0xffff_ffff_ffff_ffffu64 - d) as int) / 10,
                                0 <= d <= 9,
                                acc >= 0,
                        ;
                    }
                }
            }
            return None;
        }
        acc = acc * 10 + d;
        i = i + 1;
    }
    proof {
        assert(s@.take(n as int) =~= s@);
        assert(canonical_numeral(s@)) by {
            assert(s@[0] == first);
            if s@.len() > 1 {
                assert(digit_char(0) == '0');
            }
        }
        lemma_canonical_reads_back(s@);
        assert(dec_digits(dec_val(s@)) == s@);
        assert(dec_val(s@) == acc);
    }
    Some(acc)
}

/// The value of a prefix never exceeds the value of the whole digit
/// string.
pub proof fn lemma_dec_val_prefix_bound(s: Seq<char>, i: int)
    requires
        0 <= i < s.len(),
        all_digits(s),
    ensures
        dec_val(s.take(i + 1)) <= dec_val(s),
        dec_val(s) >= 0,
    decreases s.len(),
{
    lemma_dec_val_nonneg(s);
    if i + 1 == s.len() {
        assert(s.take(i + 1) =~= s);
    } else {
        assert(s.drop_last() =~= s.take(s.len() - 1));
        assert(all_digits(s.drop_last())) by {
            assert(forall|j: int| 0 <= j < s.len() - 1 ==> s.drop_last()[j] == s[j]);
        }
        lemma_dec_val_prefix_bound(s.drop_last(), i);
        assert(s.drop_last().take(i + 1) =~= s.take(i + 1));
        lemma_dec_val_nonneg(s.drop_last());
        assert(dec_val(s) == dec_val(s.drop_last()) * 10 + (s.last() as u32 - 48));
        assert(dec_val(s.drop_last()) * 10 >= dec_val(s.drop_last())) by (nonlinear_arith)
            requires
                dec_val(s.drop_last()) >= 0,
        ;
    }
}

pub proof fn lemma_dec_val_nonneg(s: Seq<char>)
    requires
        all_digits(s),
    ensures
        dec_val(s) >= 0,
    decreases s.len(),
{
    if s.len() > 0 {
        assert(all_digits(s.drop_last())) by {
            assert(forall|j: int| 0 <= j < s.len() - 1 ==> s.drop_last()[j] == s[j]);
        }
        lemma_dec_val_nonneg(s.drop_last());
        assert(dec_val(s.drop_last()) * 10 >= 0) by (nonlinear_arith)
            requires
                dec_val(s.drop_last()) >= 0,
        ;
        assert(48 <= s.last() as u32);
    }
}

/// A canonical numeral is the numeral of its own value.
pub proof fn lemma_canonical_reads_back(s: Seq<char>)
    requires
        canonical_numeral(s),
    ensures
        dec_val(s) >= 0,
        dec_digits(dec_val(s)) == s,
    decreases s.len(),
{
    lemma_dec_val_nonneg(s);
    if s.len() == 1 {
        assert(dec_val(s.drop_last()) == 0) by {
            assert(s.drop_last() =~= Seq::<char>::empty());
        }
        assert(dec_val(s) == s[0] as u32 - 48);
        assert(dec_val(s) < 10);
        assert(digit_char(dec_val(s)) == s[0]) by {
            vstd::utf8::char_u32_cast(s[0], s[0] as u32);
            assert(((48 + (s[0] as u32 - 48)) as u8) as char == s[0]) by {
                assert((48 + (s[0] as u32 - 48)) as u8 as u32 == s[0] as u32);
                assert(((s[0] as u32) as u8) as char as u32 == s[0] as u32);
            }
        }
        assert(dec_digits(dec_val(s)) =~= s);
    } else {
        let p = s.drop_last();
        assert(all_digits(p)) by {
            assert(forall|j: int| 0 <= j < s.len() - 1 ==> p[j] == s[j]);
        }
        assert(canonical_numeral(p)) by {
            assert(p[0] == s[0]);
        }
        lemma_canonical_reads_back(p);
        lemma_dec_val_nonneg(p);
        assert(dec_val(s) == dec_val(p) * 10 + (s.last() as u32 - 48));
        assert(dec_val(s) >= 10) by {
            assert(dec_val(p) >= 1) by {
                if dec_val(p) == 0 {
                    lemma_dec_digits_props(0);
                    assert(dec_digits(0) =~= seq![digit_char(0)]);
                    assert(p == seq![digit_char(0)]);
                    assert(s[0] == digit_char(0));
                }
            }
            assert(dec_val(p) * 10 >= 10) by (nonlinear_arith)
                requires
                    dec_val(p) >= 1,
            ;
        }
        assert(dec_val(s) / 10 == dec_val(p) && dec_val(s) % 10 == s.last() as u32 - 48)
            by (nonlinear_arith)
            requires
                dec_val(s) == dec_val(p) * 10 + (s.last() as u32 - 48),
                0 <= s.last() as u32 - 48 <= 9,
        ;
        assert(digit_char(dec_val(s) % 10) == s.last()) by {
            vstd::utf8::char_u32_cast(s.last(), s.last() as u32);
            assert((48 + (s.last() as u32 - 48)) as u8 as u32 == s.last() as u32);
            assert(((s.last() as u32) as u8) as char as u32 == s.last() as u32);
        }
        assert(dec_digits(dec_val(s)) == dec_digits(dec_val(p)).push(s.last()));
        assert(dec_digits(dec_val(s)) =~= s);
    }
}

/// The exported line of one id pair.
pub open spec fn pair_line(p: (u64, u64)) -> Seq<char> {
    dec_digits(p.0 as int) + seq![','] + dec_digits(p.1 as int)
}

/// Render one id pair as a delimited line.
pub fn render_pair(a: u64, b: u64) -> (r: String)
    ensures
        r@ == pair_line((a, b)),
{
    let mut s = u64_to_dec(a);
    s.push(',');
    let t = u64_to_dec(b);
    s.append(t.as_str());
    proof {
        assert(s@ =~= pair_line((a, b)));
    }
    s
}

/// Render an id-pair relation as a flat table under a header line.
pub fn render_pairs(header: &str, rows: &Vec<(u64, u64)>) -> (r: Vec<String>)
    ensures
        r@.len() == rows@.len() + 1,
        r@[0]@ == header@,
        forall|i: int| 0 <= i < rows@.len() ==> (#[trigger] r@[i + 1])@ == pair_line(rows@[i]),
{
    let mut out: Vec<String> = Vec::new();
    out.push(header.to_owned());
    let n = rows.len();
    let mut i: usize = 0;
    while i < n
        invariant
            n == rows@.len(),
            0 <= i <= n,
            out@.len() == i + 1,
            out@[0]@ == header@,
            forall|j: int| 0 <= j < i ==> (#[trigger] out@[j + 1])@ == pair_line(rows@[j]),
        decreases n - i,
    {
        let line = render_pair(rows[i].0, rows[i].1);
        out.push(line);
        i = i + 1;
    }
    out
}

/// Split a line at its first comma and parse both sides as numerals.
pub fn parse_pair(line: &str) -> (r: Option<(u64, u64)>)
    ensures
        r matches Some(p) ==> line@ == pair_line(p),
        r is None ==> (forall|p: (u64, u64)| line@ != pair_line(p)),
{
    let n = line.unicode_len();
    let mut i: usize = 0;
    while i < n && line.get_char(i) != ','
        invariant
            n == line@.len(),
            0 <= i <= n,
            forall|j: int| 0 <= j < i ==> s_at(line@, j) != ',',
        decreases n - i,
    {
        i = i + 1;
    }
    if i == n {
        proof {
            assert forall|p: (u64, u64)| line@ != pair_line(p) by {
                if line@ == pair_line(p) {
                    lemma_dec_digits_props(p.0 as int);
                    let k = dec_digits(p.0 as int).len() as int;
                    assert(line@[k] == ',');
                    assert(s_at(line@, k) == ',');
                }
            }
        }
        return None;
    }
    let left = line.substring_char(0, i);
    let right = line.substring_char(i + 1, n);
    let a = parse_dec(left);
    let b = parse_dec(right);
    proof {
        assert(line@[i as int] == ',');
    }
    match (a, b) {
        (Some(x), Some(y)) => {
            proof {
                assert(left@ == dec_digits(x as int));
                assert(right@ == dec_digits(y as int));
                assert(line@ =~= left@ + seq![','] + right@);
            }
            Some((x, y))
        },
        _ => {
            proof {
                assert forall|p: (u64, u64)| line@ != pair_line(p) by {
                    if line@ == pair_line(p) {
                        lemma_dec_digits_props(p.0 as int);
                        lemma_dec_digits_props(p.1 as int);
                        let k = dec_digits(p.0 as int).len() as int;
                        assert forall|j: int| 0 <= j < k implies line@[j] != ',' by {
                            assert(line@[j] == dec_digits(p.0 as int)[j]);
                            assert(48 <= (dec_digits(p.0 as int)[j]) as u32 <= 57);
                            assert((',' as u32) == 44);
                            vstd::utf8::char_u32_cast(line@[j], line@[j] as u32);
                            vstd::utf8::char_u32_cast(',', ',' as u32);
                        }
                        assert(line@[k] == ',');
                        assert(i as int == k) by {
                            if i < k {
                                assert(s_at(line@, i as int) == line@[i as int]);
                            }
                            if k < i {
                                assert(s_at(line@, k) == ',');
                            }
                        }
                        assert(left@ =~= dec_digits(p.0 as int));
                        assert(right@ =~= dec_digits(p.1 as int));
                    }
                }
            }
            None
        },
    }
}

/// The character of a line at one position.
pub open spec fn s_at(s: Seq<char>, i: int) -> char {
    s[i]
}

/// Parse a flat id-pair table back; the header line is checked and
/// dropped.  Succeeds exactly on tables the renderer produces.
pub fn parse_pairs(header: &str, lines: &Vec<String>) -> (r: Option<Vec<(u64, u64)>>)
    ensures
        r matches Some(v) ==> lines@.len() == v@.len() + 1 && lines@[0]@ == header@ && (forall|
            i: int,
        |
            0 <= i < v@.len() ==> (#[trigger] lines@[i + 1])@ == pair_line(v@[i])),
        r is None ==> (forall|ps: Seq<(u64, u64)>|
            #![trigger ps.len()]
            !(lines@.len() == ps.len() + 1 && lines@[0]@ == header@ && (forall|i: int|
                0 <= i < ps.len() ==> (#[trigger] lines@[i + 1])@ == pair_line(ps[i])))),
{
    if lines.len() == 0 {
        proof {
            assert forall|ps: Seq<(u64, u64)>| #![trigger ps.len()]
                !(lines@.len() == ps.len() + 1 && lines@[0]@ == header@ && (forall|j: int|
                    0 <= j < ps.len() ==> (#[trigger] lines@[j + 1])@ == pair_line(ps[j]))) by {
                assert(lines@.len() == 0);
            }
        }
        return None;
    }
    let hs = header.to_owned();
    let first: &String = &lines[0];
    let same = *first == hs;
    if !same {
        proof {
            assert(lines@[0]@ != header@);
        }
        return None;
    }
    let mut out: Vec<(u64, u64)> = Vec::new();
    let n = lines.len();
    let mut i: usize = 1;
    while i < n
        invariant
            n == lines@.len(),
            1 <= i <= n,
            out@.len() == i - 1,
            lines@[0]@ == header@,
            forall|j: int| 0 <= j < i - 1 ==> (#[trigger] lines@[j + 1])@ == pair_line(out@[j]),
        decreases n - i,
    {
        match parse_pair(lines[i].as_str()) {
            Some(p) => {
                out.push(p);
            },
            None => {
                proof {
                    assert forall|ps: Seq<(u64, u64)>|
                        #![trigger ps.len()]
                        !(lines@.len() == ps.len() + 1 && lines@[0]@ == header@ && (forall|j: int|
                            0 <= j < ps.len() ==> (#[trigger] lines@[j + 1])@ == pair_line(
                                ps[j],
                            ))) by {
                        if lines@.len() == ps.len() + 1 && lines@[0]@ == header@ && (forall|j: int|
                            0 <= j < ps.len() ==> (#[trigger] lines@[j + 1])@ == pair_line(ps[j])) {
                            assert(lines@[i - 1 + 1]@ == pair_line(ps[i - 1]));
                        }
                    }
                }
                return None;
            },
        }
        i = i + 1;
    }
    Some(out)
}

/// Rendering a relation and parsing it back reconstructs the relation
/// exactly: parsed lines pin the pairs down, because distinct pairs render
/// to distinct lines.
pub proof fn lemma_pair_line_injective(p1: (u64, u64), p2: (u64, u64))
    requires
        pair_line(p1) == pair_line(p2),
    ensures
        p1 == p2,
{
    lemma_dec_digits_props(p1.0 as int);
    lemma_dec_digits_props(p2.0 as int);
    lemma_dec_digits_props(p1.1 as int);
    lemma_dec_digits_props(p2.1 as int);
    let a1 = dec_digits(p1.0 as int);
    let a2 = dec_digits(p2.0 as int);
    let b1 = dec_digits(p1.1 as int);
    let b2 = dec_digits(p2.1 as int);
    let k1 = a1.len() as int;
    let k2 = a2.len() as int;
    assert((',' as u32) == 44);
    assert(pair_line(p1)[k1] == ',');
    assert(pair_line(p2)[k2] == ',');
    assert(k1 == k2) by {
        if k1 < k2 {
            assert(pair_line(p2)[k1] == a2[k1]);
            assert(48 <= a2[k1] as u32 <= 57);
        }
        if k2 < k1 {
            assert(pair_line(p1)[k2] == a1[k2]);
            assert(48 <= a1[k2] as u32 <= 57);
        }
    }
    assert(pair_line(p1).len() == a1.len() + 1 + b1.len());
    assert(pair_line(p2).len() == a2.len() + 1 + b2.len());
    assert(a1 =~= a2) by {
        assert(forall|j: int| 0 <= j < k1 ==> a1[j] == pair_line(p1)[j] && a2[j] == pair_line(
            p2,
        )[j]);
    }
    lemma_dec_digits_injective(p1.0 as int, p2.0 as int);
    assert(b1 =~= b2) by {
        assert(b1.len() == b2.len());
        assert(forall|j: int|
            0 <= j < b1.len() ==> b1[j] == pair_line(p1)[k1 + 1 + j] && b2[j] == pair_line(
                p2,
            )[k1 + 1 + j]);
    }
    lemma_dec_digits_injective(p1.1 as int, p2.1 as int);
}

/// The exported line of one multi-column numeric row.
pub open spec fn row_line(cells: Seq<u64>) -> Seq<char>
    decreases cells.len(),
{
    if cells.len() == 0 {
        Seq::empty()
    } else if cells.len() == 1 {
        dec_digits(cells[0] as int)
    } else {
        row_line(cells.drop_last()) + seq![','] + dec_digits(cells.last() as int)
    }
}

/// Where a multi-column line's last separator sits, and what surrounds it.
pub proof fn lemma_row_line_shape(cells: Seq<u64>)
    requires
        cells.len() >= 2,
    ensures
        ({
            let p = row_line(cells.drop_last()).len() as int;
            let l = row_line(cells);
            &&& l.len() == p + 1 + dec_digits(cells.last() as int).len()
            &&& l[p] == ','
            &&& (forall|j: int| 0 <= j < p ==> l[j] == row_line(cells.drop_last())[j])
            &&& (forall|j: int|
                p < j < l.len() ==> l[j] == dec_digits(cells.last() as int)[j - p - 1])
            &&& (forall|j: int| p < j < l.len() ==> l[j] != ',')
        }),
{
    let p = row_line(cells.drop_last()).len() as int;
    let l = row_line(cells);
    lemma_dec_digits_props(cells.last() as int);
    assert(l == row_line(cells.drop_last()) + seq![','] + dec_digits(cells.last() as int));
    assert forall|j: int| p < j < l.len() implies l[j] != ',' by {
        assert(l[j] == dec_digits(cells.last() as int)[j - p - 1]);
        assert(48 <= dec_digits(cells.last() as int)[j - p - 1] as u32 <= 57);
        vstd::utf8::char_u32_cast(l[j], l[j] as u32);
        vstd::utf8::char_u32_cast(',', ',' as u32);
        assert((',' as u32) == 44);
    }
}

/// A single-column line holds no separator.
pub proof fn lemma_row_line_single(c: u64)
    ensures
        forall|j: int| 0 <= j < row_line(seq![c]).len() ==> row_line(seq![c])[j] != ',',
        row_line(seq![c]) == dec_digits(c as int),
{
    assert(row_line(seq![c]) == dec_digits(c as int));
    lemma_dec_digits_props(c as int);
    assert forall|j: int| 0 <= j < row_line(seq![c]).len() implies row_line(seq![c])[j] != ',' by {
        assert(48 <= dec_digits(c as int)[j] as u32 <= 57);
        vstd::utf8::char_u32_cast(row_line(seq![c])[j], row_line(seq![c])[j] as u32);
        vstd::utf8::char_u32_cast(',', ',' as u32);
        assert((',' as u32) == 44);
    }
}

/// Distinct rows render to distinct lines.
pub proof fn lemma_row_line_injective(c1: Seq<u64>, c2: Seq<u64>)
    requires
        c1.len() > 0,
        c2.len() > 0,
        row_line(c1) == row_line(c2),
    ensures
        c1 == c2,
    decreases c1.len(),
{
    let l = row_line(c1);
    if c1.len() == 1 && c2.len() == 1 {
        lemma_dec_digits_injective(c1[0] as int, c2[0] as int);
        assert(c1 =~= c2);
    } else if c1.len() == 1 {
        lemma_row_line_single(c1[0]);
        assert(c1 =~= seq![c1[0]]);
        lemma_row_line_shape(c2);
        let p2 = row_line(c2.drop_last()).len() as int;
        assert(row_line(c2)[p2] == ',');
        assert(false);
    } else if c2.len() == 1 {
        lemma_row_line_single(c2[0]);
        assert(c2 =~= seq![c2[0]]);
        lemma_row_line_shape(c1);
        let p1 = row_line(c1.drop_last()).len() as int;
        assert(row_line(c1)[p1] == ',');
        assert(false);
    } else {
        lemma_row_line_shape(c1);
        lemma_row_line_shape(c2);
        let p1 = row_line(c1.drop_last()).len() as int;
        let p2 = row_line(c2.drop_last()).len() as int;
        assert(p1 == p2) by {
            if p1 < p2 {
                assert(l[p2] == ',');
                assert(l[p2] != ',');
            }
            if p2 < p1 {
                assert(l[p1] == ',');
                assert(l[p1] != ',');
            }
        }
        assert(row_line(c1.drop_last()).len() == p1);
        assert(row_line(c2.drop_last()).len() == p1);
        assert forall|j: int| 0 <= j < p1 implies row_line(c1.drop_last())[j] == row_line(
            c2.drop_last(),
        )[j] by {
            assert(l[j] == row_line(c1.drop_last())[j]);
            assert(row_line(c2)[j] == row_line(c2.drop_last())[j]);
        }
        assert(row_line(c1.drop_last()) =~= row_line(c2.drop_last()));
        assert(dec_digits(c1.last() as int) =~= dec_digits(c2.last() as int)) by {
            assert(dec_digits(c1.last() as int).len() == l.len() - p1 - 1);
            assert(dec_digits(c2.last() as int).len() == l.len() - p1 - 1);
            assert forall|j: int|
                0 <= j < l.len() - p1 - 1 implies dec_digits(c1.last() as int)[j] == dec_digits(
                c2.last() as int,
            )[j] by {
                assert(l[p1 + 1 + j] == dec_digits(c1.last() as int)[(p1 + 1 + j) - p1 - 1]);
                assert(row_line(c2)[p1 + 1 + j] == dec_digits(c2.last() as int)[(p1 + 1 + j) - p1
                    - 1]);
            }
        }
        lemma_dec_digits_injective(c1.last() as int, c2.last() as int);
        lemma_row_line_injective(c1.drop_last(), c2.drop_last());
        assert forall|j: int| 0 <= j < c1.len() implies c1[j] == c2[j] by {
            assert(c1.len() == c2.len()) by {
                assert(c1.drop_last().len() == c2.drop_last().len());
            }
            if j < c1.len() - 1 {
                assert(c1.drop_last()[j] == c1[j]);
                assert(c2.drop_last()[j] == c2[j]);
            } else {
                assert(c1.last() == c2.last());
            }
        }
        assert(c1 =~= c2);
    }
}

/// Render one numeric row as a delimited line.
pub fn render_row(cells: &Vec<u64>) -> (r: String)
    requires
        cells@.len() > 0,
    ensures
        r@ == row_line(cells@),
{
    let mut s = u64_to_dec(cells[0]);
    proof {
        assert(cells@.take(1) =~= seq![cells@[0]]);
        assert(s@ == row_line(cells@.take(1)));
    }
    let n = cells.len();
    let mut i: usize = 1;
    while i < n
        invariant
            n == cells@.len(),
            1 <= i <= n,
            s@ == row_line(cells@.take(i as int)),
        decreases n - i,
    {
        s.push(',');
        let t = u64_to_dec(cells[i]);
        s.append(t.as_str());
        proof {
            assert(cells@.take(i + 1).drop_last() =~= cells@.take(i as int));
            assert(cells@.take(i + 1).last() == cells@[i as int]);
            assert(s@ =~= row_line(cells@.take(i + 1)));
        }
        i = i + 1;
    }
    proof {
        assert(cells@.take(n as int) =~= cells@);
    }
    s
}

/// Parse a delimited numeric row.  Succeeds exactly on lines the renderer
/// produces, returning the cells.
pub fn parse_row(line: &str) -> (r: Option<Vec<u64>>)
    ensures
        r matches Some(v) ==> v@.len() > 0 && line@ == row_line(v@),
        r is None ==> (forall|cells: Seq<u64>| cells.len() > 0 ==> line@ != row_line(cells)),
    decreases line@.len(),
{
    let n = line.unicode_len();
    // find the last separator
    let mut k = n;
    let mut found = false;
    while !found && k > 0
        invariant
            n == line@.len(),
            0 <= k <= n,
            !found ==> (forall|j: int| k <= j < n ==> s_at(line@, j) != ','),
            found ==> k < n && line@[k as int] == ',' && (forall|j: int|
                k < j < n ==> s_at(line@, j) != ','),
        decreases (if found {
            0int
        } else {
            1int
        }), k,
    {
        let c = line.get_char(k - 1);
        if c == ',' {
            k = k - 1;
            found = true;
        } else {
            proof {
                assert(s_at(line@, k - 1) != ',');
            }
            k = k - 1;
        }
    }
    if !found {
        // a single numeral, or nothing
        match parse_dec(line) {
            Some(v) => {
                let mut out: Vec<u64> = Vec::new();
                out.push(v);
                proof {
                    assert(out@ =~= seq![v]);
                    assert(row_line(out@) == dec_digits(v as int));
                }
                Some(out)
            },
            None => {
                proof {
                    assert forall|cells: Seq<u64>| cells.len() > 0 implies line@ != row_line(
                        cells,
                    ) by {
                        if line@ == row_line(cells) {
                            if cells.len() == 1 {
                                assert(cells =~= seq![cells[0]]);
                                assert(line@ == dec_digits(cells[0] as int));
                            } else {
                                lemma_row_line_shape(cells);
                                let p = row_line(cells.drop_last()).len() as int;
                                assert(line@[p] == ',');
                                assert(s_at(line@, p) == ',');
                            }
                        }
                    }
                }
                None
            },
        }
    } else {
        let left = line.substring_char(0, k);
        let right = line.substring_char(k + 1, n);
        let ghost gk = k as int;
        proof {
            assert(line@[gk] == ',');
        }
        let b = parse_dec(right);
        let a = parse_row(left);
        match (a, b) {
            (Some(mut v), Some(y)) => {
                let ghost vpre = v@;
                v.push(y);
                proof {
                    assert(v@.drop_last() =~= vpre);
                    assert(v@.last() == y);
                    assert(line@ =~= left@ + seq![','] + right@);
                    assert(row_line(v@) == row_line(vpre) + seq![','] + dec_digits(y as int));
                    assert(line@ =~= row_line(v@));
                }
                Some(v)
            },
            _ => {
                proof {
                    assert forall|cells: Seq<u64>| cells.len() > 0 implies line@ != row_line(
                        cells,
                    ) by {
                        if line@ == row_line(cells) {
                            if cells.len() == 1 {
                                lemma_row_line_single(cells[0]);
                                assert(cells =~= seq![cells[0]]);
                                assert(s_at(line@, gk) != ',');
                            } else {
                                lemma_row_line_shape(cells);
                                let p = row_line(cells.drop_last()).len() as int;
                                assert(p == gk) by {
                                    if p < gk {
                                        assert(line@[gk] != ',') by {
                                            assert(line@[gk] == dec_digits(
                                                cells.last() as int,
                                            )[gk - p - 1]);
                                            lemma_dec_digits_props(cells.last() as int);
                                            assert(48 <= line@[gk] as u32 <= 57);
                                            vstd::utf8::char_u32_cast(line@[gk], line@[gk] as u32);
                                            vstd::utf8::char_u32_cast(',', ',' as u32);
                                            assert((',' as u32) == 44);
                                        }
                                    }
                                    if gk < p {
                                        assert(s_at(line@, p) == ',') by {
                                            assert(line@[p] == ',');
                                        }
                                    }
                                }
                                assert(left@ =~= row_line(cells.drop_last()));
                                assert(right@ =~= dec_digits(cells.last() as int));
                            }
                        }
                    }
                }
                None
            },
        }
    }
}

/// Render a numeric relation as a flat table under a header line.
pub fn render_rows(header: &str, rows: &Vec<Vec<u64>>) -> (r: Vec<String>)
    requires
        forall|i: int| 0 <= i < rows@.len() ==> (#[trigger] rows@[i])@.len() > 0,
    ensures
        r@.len() == rows@.len() + 1,
        r@[0]@ == header@,
        forall|i: int| 0 <= i < rows@.len() ==> (#[trigger] r@[i + 1])@ == row_line(rows@[i]@),
{
    let mut out: Vec<String> = Vec::new();
    out.push(header.to_owned());
    let n = rows.len();
    let mut i: usize = 0;
    while i < n
        invariant
            n == rows@.len(),
            forall|l: int| 0 <= l < rows@.len() ==> (#[trigger] rows@[l])@.len() > 0,
            0 <= i <= n,
            out@.len() == i + 1,
            out@[0]@ == header@,
            forall|j: int| 0 <= j < i ==> (#[trigger] out@[j + 1])@ == row_line(rows@[j]@),
        decreases n - i,
    {
        let line = render_row(&rows[i]);
        out.push(line);
        i = i + 1;
    }
    out
}

/// One parsed row agrees with its line.
pub open spec fn row_at_ok(lines: Seq<String>, vs: Seq<Seq<u64>>, j: int) -> bool {
    vs[j].len() > 0 && lines[j + 1]@ == row_line(vs[j])
}

/// A flat numeric table encodes a row list: right length, right header,
/// every line the rendering of its row.
pub open spec fn rows_encode(lines: Seq<String>, header: Seq<char>, vs: Seq<Seq<u64>>) -> bool {
    &&& lines.len() == vs.len() + 1
    &&& lines[0]@ == header
    &&& (forall|j: int| 0 <= j < vs.len() ==> #[trigger] row_at_ok(lines, vs, j))
}

/// Parse a flat numeric table back; the header line is checked and
/// dropped.  Succeeds exactly on tables the renderer produces.
pub fn parse_rows(header: &str, lines: &Vec<String>) -> (r: Option<Vec<Vec<u64>>>)
    ensures
        r matches Some(v) ==> lines@.len() == v@.len() + 1 && lines@[0]@ == header@ && (forall|
            i: int,
        |
            0 <= i < v@.len() ==> (#[trigger] v@[i])@.len() > 0 && lines@[i + 1]@ == row_line(
                v@[i]@,
            )),
        r is None ==> (forall|vs: Seq<Seq<u64>>| !rows_encode(lines@, header@, vs)),
{
    if lines.len() == 0 {
        return None;
    }
    let hs = header.to_owned();
    let first: &String = &lines[0];
    let same = *first == hs;
    if !same {
        proof {
            assert(lines@[0]@ != header@);
        }
        return None;
    }
    let mut out: Vec<Vec<u64>> = Vec::new();
    let n = lines.len();
    let mut i: usize = 1;
    while i < n
        invariant
            n == lines@.len(),
            1 <= i <= n,
            out@.len() == i - 1,
            lines@[0]@ == header@,
            forall|j: int|
                0 <= j < i - 1 ==> (#[trigger] out@[j])@.len() > 0 && lines@[j + 1]@ == row_line(
                    out@[j]@,
                ),
        decreases n - i,
    {
        match parse_row(lines[i].as_str()) {
            Some(v) => {
                out.push(v);
            },
            None => {
                proof {
                    assert forall|vs: Seq<Seq<u64>>| !rows_encode(lines@, header@, vs) by {
                        if rows_encode(lines@, header@, vs) {
                            assert(row_at_ok(lines@, vs, i - 1));
                            assert(lines@[i as int]@ == row_line(vs[i - 1]));
                        }
                    }
                }
                return None;
            },
        }
        i = i + 1;
    }
    Some(out)
}

} // verus!
