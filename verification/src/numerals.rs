//! Decimal numerals: parsing version stems of log file names, rendering
//! version numbers zero-padded for checkpoint file names, and grouping
//! digits for display.

use vstd::prelude::*;

verus! {

/// Is `c` a decimal digit?
pub open spec fn is_digit(c: char) -> bool {
    '0' <= c && c <= '9'
}

/// The numeric value of a digit character.
pub open spec fn digit_val(c: char) -> int {
    c as int - '0' as int
}

/// The digit character for a value below ten.
pub open spec fn digit_char(d: int) -> char {
    if d == 0 {
        '0'
    } else if d == 1 {
        '1'
    } else if d == 2 {
        '2'
    } else if d == 3 {
        '3'
    } else if d == 4 {
        '4'
    } else if d == 5 {
        '5'
    } else if d == 6 {
        '6'
    } else if d == 7 {
        '7'
    } else if d == 8 {
        '8'
    } else {
        '9'
    }
}

/// The value of a digit string, most significant first.
pub open spec fn dec_value(ds: Seq<char>) -> int
    decreases ds.len(),
{
    if ds.len() == 0 {
        0
    } else {
        dec_value(ds.drop_last()) * 10 + digit_val(ds.last())
    }
}

/// The decimal numeral of a non-negative number, without leading zeros
/// (a single zero for zero itself).
pub open spec fn spec_digits(n: int) -> Seq<char>
    decreases n,
{
    if n <= 0 {
        seq![digit_char(0)]
    } else if n < 10 {
        seq![digit_char(n)]
    } else {
        spec_digits(n / 10).push(digit_char(n % 10))
    }
}

/// A version parsed from a digit string: the string must be non-empty,
/// all digits, and fit the version's range.
pub open spec fn spec_parse_version(stem: Seq<char>) -> Option<u64> {
    if stem.len() > 0 && (forall|i: int| 0 <= i < stem.len() ==> is_digit(stem[i])) && dec_value(
        stem,
    ) <= u64::MAX {
        Some(dec_value(stem) as u64)
    } else {
        None
    }
}

/// The `.json` suffix of log file names.
pub open spec fn json_suffix() -> Seq<char> {
    seq!['.', 'j', 's', 'o', 'n']
}

/// The numeric stem of a log file name: the name must end in `.json`,
/// and its stem must parse as a version.
pub open spec fn spec_file_version(name: Seq<char>) -> Option<u64> {
    if name.len() >= 5 && name.skip(name.len() - 5) == json_suffix() {
        spec_parse_version(name.take(name.len() - 5))
    } else {
        None
    }
}

/// Does the name end in `.json`?
pub open spec fn spec_is_json_name(name: Seq<char>) -> bool {
    name.len() >= 5 && name.skip(name.len() - 5) == json_suffix()
}

/// Once a digit prefix exceeds the range, the whole string does.
proof fn lemma_dec_value_grows(ds: Seq<char>, j: int)
    requires
        0 <= j < ds.len(),
        forall|i: int| 0 <= i < ds.len() ==> is_digit(ds[i]),
    ensures
        dec_value(ds.take(j + 1)) <= dec_value(ds),
    decreases ds.len() - j,
{
    if j + 1 == ds.len() {
        assert(ds.take(j + 1) =~= ds);
    } else {
        lemma_dec_value_grows(ds, j + 1);
        let a = ds.take(j + 1);
        let b = ds.take(j + 2);
        assert(b.drop_last() =~= a);
        assert(b.last() == ds[j + 1]);
        assert(is_digit(ds[j + 1]));
        assert(dec_value(b) == dec_value(a) * 10 + digit_val(ds[j + 1]));
        assert(dec_value(a) >= 0) by {
            lemma_dec_value_nonneg(a);
        }
        assert(dec_value(a) * 10 >= dec_value(a)) by (nonlinear_arith)
            requires
                dec_value(a) >= 0,
        ;
    }
}

proof fn lemma_dec_value_nonneg(ds: Seq<char>)
    requires
        forall|i: int| 0 <= i < ds.len() ==> is_digit(ds[i]),
    ensures
        dec_value(ds) >= 0,
    decreases ds.len(),
{
    if ds.len() > 0 {
        assert(forall|i: int| 0 <= i < ds.drop_last().len() ==> is_digit(ds.drop_last()[i]));
        lemma_dec_value_nonneg(ds.drop_last());
        assert(is_digit(ds.last()));
        assert(dec_value(ds.drop_last()) * 10 >= 0) by (nonlinear_arith)
            requires
                dec_value(ds.drop_last()) >= 0,
        ;
    }
}

/// Is the character a decimal digit?
fn digit_of(c: char) -> (r: Option<u64>)
    ensures
        match r {
            Some(d) => is_digit(c) && d == digit_val(c) && d < 10,
            None => !is_digit(c),
        },
{
    let v = c as u32;
    if v >= 48 && v <= 57 {
        Some((v - 48) as u64)
    } else {
        None
    }
}

/// Parse a non-empty all-digit string as a version number.
pub fn parse_version(stem: &str) -> (r: Option<u64>)
    ensures
        r == spec_parse_version(stem@),
{
    let n = stem.unicode_len();
    if n == 0 {
        return None;
    }
    let mut value: u64 = 0;
    proof {
        assert(stem@.take(0) =~= Seq::<char>::empty());
    }
    for i in 0..n
        invariant
            n == stem@.len(),
            forall|k: int| 0 <= k < i ==> is_digit(stem@[k]),
            value == dec_value(stem@.take(i as int)),
    {
        let c = stem.get_char(i);
        match digit_of(c) {
            None => {
                return None;
            },
            Some(d) => {
                if value > (u64::MAX - d) / 10 {
                    proof {
                        assert(dec_value(stem@.take(i as int + 1)) == value * 10 + d) by {
                            assert(stem@.take(i as int + 1).drop_last() =~= stem@.take(i as int));
                            assert(stem@.take(i as int + 1).last() == stem@[i as int]);
                        }
                        assert(value * 10 + d > u64::MAX) by (nonlinear_arith)
                            requires
                                value > (u64::MAX - d) / 10,
                                d < 10,
                        ;
                        if forall|k: int| 0 <= k < stem@.len() ==> is_digit(stem@[k]) {
                            lemma_dec_value_grows(stem@, i as int);
                        }
                    }
                    return None;
                }
                proof {
                    assert(value * 10 + d <= u64::MAX) by (nonlinear_arith)
                        requires
                            value <= (u64::MAX - d) / 10,
                            d < 10,
                    ;
                    assert(stem@.take(i as int + 1).drop_last() =~= stem@.take(i as int));
                    assert(stem@.take(i as int + 1).last() == stem@[i as int]);
                }
                value = value * 10 + d;
            },
        }
    }
    proof {
        assert(stem@.take(n as int) =~= stem@);
    }
    Some(value)
}

/// The version stem of a log file name: `None` when the name does not
/// end in `.json` or its stem is not a parseable number.
pub fn file_version(name: &str) -> (r: Option<u64>)
    ensures
        r == spec_file_version(name@),
{
    if !is_json_name(name) {
        return None;
    }
    let n = name.unicode_len();
    let stem = name.substring_char(0, n - 5);
    proof {
        assert(stem@ =~= name@.take(name@.len() - 5));
    }
    parse_version(stem)
}

/// Does the file name end in `.json`?
pub fn is_json_name(name: &str) -> (r: bool)
    ensures
        r == spec_is_json_name(name@),
{
    let n = name.unicode_len();
    if n < 5 {
        proof {
            assert(!spec_is_json_name(name@));
        }
        return false;
    }
    let c0 = name.get_char(n - 5);
    let c1 = name.get_char(n - 4);
    let c2 = name.get_char(n - 3);
    let c3 = name.get_char(n - 2);
    let c4 = name.get_char(n - 1);
    let r = c0 == '.' && c1 == 'j' && c2 == 's' && c3 == 'o' && c4 == 'n';
    proof {
        let sfx = name@.skip(name@.len() - 5);
        assert(sfx.len() == 5);
        assert(sfx[0] == name@[name@.len() - 5]);
        assert(sfx[1] == name@[name@.len() - 4]);
        assert(sfx[2] == name@[name@.len() - 3]);
        assert(sfx[3] == name@[name@.len() - 2]);
        assert(sfx[4] == name@[name@.len() - 1]);
        if r {
            assert(sfx =~= json_suffix());
        } else {
            assert(sfx != json_suffix());
        }
    }
    r
}

/// The one-character string of a digit value.
fn digit_str(d: u64) -> (r: &'static str)
    requires
        d < 10,
    ensures
        r@ =~= seq![digit_char(d as int)],
{
    proof {
        reveal_strlit("0");
        reveal_strlit("1");
        reveal_strlit("2");
        reveal_strlit("3");
        reveal_strlit("4");
        reveal_strlit("5");
        reveal_strlit("6");
        reveal_strlit("7");
        reveal_strlit("8");
        reveal_strlit("9");
    }
    if d == 0 {
        "0"
    } else if d == 1 {
        "1"
    } else if d == 2 {
        "2"
    } else if d == 3 {
        "3"
    } else if d == 4 {
        "4"
    } else if d == 5 {
        "5"
    } else if d == 6 {
        "6"
    } else if d == 7 {
        "7"
    } else if d == 8 {
        "8"
    } else {
        "9"
    }
}

/// The digit characters of collected low-order digits, most significant
/// first: the digit collected first comes out last.
pub open spec fn rev_digit_chars(ds: Seq<u64>) -> Seq<char>
    decreases ds.len(),
{
    if ds.len() == 0 {
        Seq::empty()
    } else {
        rev_digit_chars(ds.drop_first()) + seq![digit_char(ds[0] as int)]
    }
}

proof fn lemma_rev_digit_chars_push(ds: Seq<u64>, d: u64)
    ensures
        rev_digit_chars(ds.push(d)) =~= seq![digit_char(d as int)] + rev_digit_chars(ds),
    decreases ds.len(),
{
    if ds.len() == 0 {
        assert(ds.push(d).drop_first() =~= Seq::<u64>::empty());
        assert(rev_digit_chars(ds.push(d).drop_first()) =~= Seq::<char>::empty());
        assert(rev_digit_chars(ds.push(d)) =~= Seq::<char>::empty() + seq![
            digit_char(ds.push(d)[0] as int),
        ]);
        assert(ds.push(d)[0] == d);
        assert(rev_digit_chars(ds) =~= Seq::<char>::empty());
    } else {
        assert(ds.push(d).drop_first() =~= ds.drop_first().push(d));
        lemma_rev_digit_chars_push(ds.drop_first(), d);
        assert(ds.push(d)[0] == ds[0]);
        assert(rev_digit_chars(ds.push(d)) =~= rev_digit_chars(ds.drop_first().push(d)) + seq![
            digit_char(ds[0] as int),
        ]);
        assert(rev_digit_chars(ds.push(d)) =~= (seq![digit_char(d as int)] + rev_digit_chars(
            ds.drop_first(),
        )) + seq![digit_char(ds[0] as int)]);
        assert(rev_digit_chars(ds) =~= rev_digit_chars(ds.drop_first()) + seq![
            digit_char(ds[0] as int),
        ]);
    }
}

proof fn lemma_rev_digit_chars_index(ds: Seq<u64>)
    ensures
        rev_digit_chars(ds).len() == ds.len(),
        forall|j: int| 0 <= j < ds.len()
            ==> rev_digit_chars(ds)[j] == digit_char(ds[ds.len() - 1 - j] as int),
    decreases ds.len(),
{
    if ds.len() > 0 {
        lemma_rev_digit_chars_index(ds.drop_first());
    }
}

/// Render a number as its decimal numeral.
pub fn u64_to_dec(n: u64) -> (r: String)
    ensures
        r@ == spec_digits(n as int),
{
    if n == 0 {
        let r = String::from_str("0");
        proof {
            reveal_strlit("0");
            assert(r@ =~= spec_digits(0));
        }
        return r;
    }
    let mut digits: Vec<u64> = Vec::new();
    let mut m = n;
    proof {
        assert(rev_digit_chars(digits@) =~= Seq::<char>::empty());
        assert(spec_digits(n as int) + Seq::<char>::empty() =~= spec_digits(n as int));
    }
    while m > 0
        invariant
            m > 0 ==> spec_digits(n as int) =~= spec_digits(m as int) + rev_digit_chars(digits@),
            m == 0 ==> spec_digits(n as int) =~= rev_digit_chars(digits@),
            forall|k: int| 0 <= k < digits@.len() ==> digits@[k] < 10,
        decreases m,
    {
        let d = m % 10;
        let ghost pre = digits@;
        digits.push(d);
        proof {
            lemma_rev_digit_chars_push(pre, d);
            if m >= 10 {
                assert(spec_digits(m as int) == spec_digits(m as int / 10).push(
                    digit_char(m as int % 10),
                ));
                assert(spec_digits(m as int / 10).push(digit_char(d as int))
                    + rev_digit_chars(pre) =~= spec_digits(m as int / 10) + rev_digit_chars(
                    digits@,
                ));
            } else {
                assert(spec_digits(m as int) =~= seq![digit_char(d as int)]);
                assert(seq![digit_char(d as int)] + rev_digit_chars(pre) =~= rev_digit_chars(
                    digits@,
                ));
            }
        }
        m = m / 10;
    }
    let mut out = String::new();
    let k = digits.len();
    proof {
        lemma_rev_digit_chars_index(digits@);
        assert(out@ =~= rev_digit_chars(digits@).take(0));
    }
    for i in 0..k
        invariant
            k == digits@.len(),
            forall|j: int| 0 <= j < digits@.len() ==> digits@[j] < 10,
            out@ =~= rev_digit_chars(digits@).take(i as int),
    {
        let d = digits[k - 1 - i];
        out.append(digit_str(d));
        proof {
            lemma_rev_digit_chars_index(digits@);
            assert(rev_digit_chars(digits@).take(i as int + 1) =~= rev_digit_chars(
                digits@,
            ).take(i as int).push(rev_digit_chars(digits@)[i as int]));
        }
    }
    proof {
        assert(rev_digit_chars(digits@).take(k as int) =~= rev_digit_chars(digits@));
    }
    out
}

/// The numeral zero-padded on the left to twenty digits (unchanged if
/// already longer).
pub open spec fn spec_pad20(ds: Seq<char>) -> Seq<char> {
    if ds.len() < 20 {
        Seq::new((20 - ds.len()) as nat, |i: int| digit_char(0)) + ds
    } else {
        ds
    }
}

/// The name of the checkpoint data file for a version: the version
/// zero-padded to twenty digits, with the columnar checkpoint suffix.
pub open spec fn spec_checkpoint_file_name(version: u64) -> Seq<char> {
    spec_pad20(spec_digits(version as int)) + ".checkpoint.parquet"@
}

pub fn checkpoint_file_name(version: u64) -> (r: String)
    ensures
        r@ == spec_checkpoint_file_name(version),
{
    let dec = u64_to_dec(version);
    let dec_len = dec_char_len(&dec);
    let mut out = String::new();
    let mut pad: usize = if dec_len < 20 {
        20 - dec_len
    } else {
        0
    };
    let ghost padn = pad;
    proof {
        assert(out@ =~= Seq::new(0nat, |i: int| digit_char(0)));
    }
    let mut done: usize = 0;
    while done < pad
        invariant
            pad == padn,
            done <= pad,
            out@ =~= Seq::new(done as nat, |i: int| digit_char(0)),
        decreases pad - done,
    {
        out.append(digit_str(0));
        proof {
            assert(out@ =~= Seq::new((done + 1) as nat, |i: int| digit_char(0)));
        }
        done = done + 1;
    }
    out.append(dec.as_str());
    out.append(".checkpoint.parquet");
    proof {
        if dec@.len() < 20 {
            assert(out@ =~= spec_pad20(dec@) + ".checkpoint.parquet"@);
        } else {
            assert(padn == 0);
            assert(Seq::new(0nat, |i: int| digit_char(0)) + dec@ =~= dec@);
            assert(out@ =~= spec_pad20(dec@) + ".checkpoint.parquet"@);
        }
    }
    out
}

/// The character length of a rendered numeral.
fn dec_char_len(s: &String) -> (r: usize)
    ensures
        r == s@.len(),
{
    s.as_str().unicode_len()
}

/// The digits of `ds` from position `i` on, with a separator before
/// every position whose distance from the end is a positive multiple of
/// three.
pub open spec fn spec_grouped_from(ds: Seq<char>, i: int) -> Seq<char>
    decreases ds.len() - i,
{
    if i < 0 || i >= ds.len() {
        Seq::empty()
    } else {
        (if i > 0 && (ds.len() - i) % 3 == 0 {
            seq![',']
        } else {
            Seq::empty()
        }) + seq![ds[i]] + spec_grouped_from(ds, i + 1)
    }
}

/// A number for display: its digits in groups of three separated by
/// commas, with a leading minus sign when negative.
pub open spec fn spec_format_number(n: int) -> Seq<char> {
    if n < 0 {
        seq!['-'] + spec_grouped_from(spec_digits(-n), 0)
    } else {
        spec_grouped_from(spec_digits(n), 0)
    }
}

/// Render a signed number with thousands separators.
pub fn format_number(n: i64) -> (r: String)
    requires
        n != i64::MIN,
    ensures
        r@ == spec_format_number(n as int),
{
    let neg = n < 0;
    let abs: u64 = if neg {
        (-n) as u64
    } else {
        n as u64
    };
    let dec = u64_to_dec(abs);
    let k = dec_char_len(&dec);
    let mut out = String::new();
    if neg {
        out.append("-");
        proof {
            reveal_strlit("-");
            assert(out@ =~= seq!['-']);
        }
    }
    let ghost head = out@;
    let ghost dv = dec@;
    proof {
        assert(out@ =~= head + Seq::<char>::empty());
        assert(spec_grouped_from(dv, 0).take(0) =~= Seq::<char>::empty());
    }
    let mut i: usize = 0;
    while i < k
        invariant
            k == dv.len(),
            dec@ == dv,
            i <= k,
            out@ =~= head + grouped_prefix(dv, i as int),
        decreases k - i,
    {
        if i > 0 && (k - i) % 3 == 0 {
            out.append(",");
            proof {
                reveal_strlit(",");
            }
        }
        let c = dec.as_str().substring_char(i, i + 1);
        out.append(c);
        proof {
            assert(c@ =~= seq![dv[i as int]]);
            lemma_grouped_prefix_step(dv, i as int);
            assert(out@ =~= head + grouped_prefix(dv, i as int + 1));
        }
        i = i + 1;
    }
    proof {
        lemma_grouped_prefix_all(dv, 0);
        assert(out@ =~= head + spec_grouped_from(dv, 0));
    }
    out
}

/// The grouped digits before position `i`.
pub open spec fn grouped_prefix(ds: Seq<char>, i: int) -> Seq<char>
    decreases i,
{
    if i <= 0 {
        Seq::empty()
    } else {
        grouped_prefix(ds, i - 1) + (if i - 1 > 0 && (ds.len() - (i - 1)) % 3 == 0 {
            seq![',']
        } else {
            Seq::empty()
        }) + seq![ds[i - 1]]
    }
}

proof fn lemma_grouped_prefix_step(ds: Seq<char>, i: int)
    requires
        0 <= i < ds.len(),
    ensures
        grouped_prefix(ds, i + 1) =~= grouped_prefix(ds, i) + (if i > 0 && (ds.len() - i) % 3
            == 0 {
            seq![',']
        } else {
            Seq::<char>::empty()
        }) + seq![ds[i]],
{
}

/// The prefix built to the end equals the grouped suffix from the start.
proof fn lemma_grouped_prefix_all(ds: Seq<char>, i: int)
    requires
        0 <= i <= ds.len(),
    ensures
        grouped_prefix(ds, ds.len() as int) =~= grouped_prefix(ds, i) + spec_grouped_from(ds, i),
    decreases ds.len() - i,
{
    if i == ds.len() {
        assert(spec_grouped_from(ds, i) =~= Seq::<char>::empty());
    } else {
        lemma_grouped_prefix_all(ds, i + 1);
        lemma_grouped_prefix_step(ds, i);
    }
}

} // verus!
