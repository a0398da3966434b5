//! Character-exact string helpers: equality, decimal rendering, the
//! zero-padded share-token form and the human-readable file-size form.

use vstd::prelude::*;

verus! {

/// True exactly when the two slices hold the same characters.
pub fn str_eq(a: &str, b: &str) -> (r: bool)
    ensures
        r == (a@ == b@),
{
    let a_len = a.unicode_len();
    let b_len = b.unicode_len();
    if a_len != b_len {
        return false;
    }
    let mut i: usize = 0;
    while i < a_len
        invariant
            i <= a_len,
            a_len == a@.len(),
            b_len == b@.len(),
            a_len == b_len,
            forall|j: int| 0 <= j < i ==> a@[j] == b@[j],
        decreases a_len - i,
    {
        if a.get_char(i) != b.get_char(i) {
            return false;
        }
        i += 1;
    }
    proof {
        assert(a@ =~= b@);
    }
    true
}

/// The character for one decimal digit.
pub open spec fn digit_char(d: int) -> char {
    if d == 0 {
        '0'
    } else if d == 1 {
        '1'
    } else if d == 2 {
        '2'
    } else if d == 3 {
        '3'
    } else if d == 4 {
        '4'
    } else if d == 5 {
        '5'
    } else if d == 6 {
        '6'
    } else if d == 7 {
        '7'
    } else if d == 8 {
        '8'
    } else {
        '9'
    }
}

/// The decimal digit sequence of a nonnegative number, no leading zeros.
pub open spec fn dec_digits(n: nat) -> Seq<char>
    decreases n,
{
    if n < 10 {
        seq![digit_char(n as int)]
    } else {
        dec_digits(n / 10).push(digit_char((n % 10) as int))
    }
}

fn digit_str(d: u64) -> (r: &'static str)
    requires
        d < 10,
    ensures
        r@ == seq![digit_char(d as int)],
{
    let r: &'static str = match d {
        0 => "0",
        1 => "1",
        2 => "2",
        3 => "3",
        4 => "4",
        5 => "5",
        6 => "6",
        7 => "7",
        8 => "8",
        _ => "9",
    };
    proof {
        reveal_strlit("0");
        reveal_strlit("1");
        reveal_strlit("2");
        reveal_strlit("3");
        reveal_strlit("4");
        reveal_strlit("5");
        reveal_strlit("6");
        reveal_strlit("7");
        reveal_strlit("8");
        reveal_strlit("9");
        assert(r@ =~= seq![digit_char(d as int)]);
    }
    r
}

/// Renders a nonnegative number in decimal.
pub fn u64_to_dec(n: u64) -> (r: String)
    ensures
        r@ == dec_digits(n as nat),
    decreases n,
{
    if n < 10 {
        String::from_str(digit_str(n))
    } else {
        let mut s = u64_to_dec(n / 10);
        s.append(digit_str(n % 10));
        s
    }
}

/// The decimal form of a signed number: a minus sign before the magnitude.
pub open spec fn int_digits(t: int) -> Seq<char> {
    if t >= 0 {
        dec_digits(t as nat)
    } else {
        seq!['-'] + dec_digits((-t) as nat)
    }
}

/// Renders a signed number in decimal.
pub fn i64_to_dec(t: i64) -> (r: String)
    ensures
        r@ == int_digits(t as int),
{
    if t >= 0 {
        u64_to_dec(t as u64)
    } else {
        let mag: u64 = if t == i64::MIN {
            9223372036854775808u64
        } else {
            (-t) as u64
        };
        let mut s = String::from_str("-");
        let digits = u64_to_dec(mag);
        s.append(digits.as_str());
        proof {
            reveal_strlit("-");
            assert(s@ =~= seq!['-'] + dec_digits((-(t as int)) as nat));
        }
        s
    }
}

/// A token's display form: its decimal digits, zero-padded on the left to at
/// least six characters.
pub open spec fn token_text(t: int) -> Seq<char> {
    let d = int_digits(t);
    if d.len() >= 6 {
        d
    } else {
        Seq::new((6 - d.len()) as nat, |i: int| '0') + d
    }
}

/// Zero-pads a token's decimal form on the left to at least six characters.
pub fn format_token(token: i64) -> (r: String)
    ensures
        r@ == token_text(token as int),
{
    let mut s = i64_to_dec(token);
    while s.as_str().unicode_len() < 6
        invariant
            token_text(token as int) == if s@.len() >= 6 {
                s@
            } else {
                (Seq::new((6 - s@.len()) as nat, |i: int| '0') + s@)
            },
        decreases 6 - s@.len(),
    {
        let mut padded = String::from_str("0");
        padded.append(s.as_str());
        proof {
            reveal_strlit("0");
            assert(padded@ =~= seq!['0'] + s@);
            assert(s@.len() < 6);
            if padded@.len() < 6 {
                assert((Seq::new((6 - padded@.len()) as nat, |i: int| '0') + padded@) =~= (Seq::new(
                    (6 - s@.len()) as nat,
                    |i: int| '0',
                ) + s@));
            } else {
                assert((Seq::new((6 - s@.len()) as nat, |i: int| '0') + s@) =~= padded@);
            }
        }
        s = padded;
    }
    s
}

/// Two decimal digits, zero-padded: the year and month labels of a rollup.
pub open spec fn two_digit_text(n: int) -> Seq<char> {
    seq![digit_char(n / 10), digit_char(n % 10)]
}

/// Renders a number below one hundred as exactly two digits.
pub fn two_digit(n: u64) -> (r: String)
    requires
        n < 100,
    ensures
        r@ == two_digit_text(n as int),
{
    let mut s = String::from_str(digit_str(n / 10));
    s.append(digit_str(n % 10));
    proof {
        assert(s@ =~= two_digit_text(n as int));
    }
    s
}

/// The decimal digit a character stands for; ten for any other character.
pub open spec fn digit_val(c: char) -> int {
    if c == '0' {
        0
    } else if c == '1' {
        1
    } else if c == '2' {
        2
    } else if c == '3' {
        3
    } else if c == '4' {
        4
    } else if c == '5' {
        5
    } else if c == '6' {
        6
    } else if c == '7' {
        7
    } else if c == '8' {
        8
    } else if c == '9' {
        9
    } else {
        10
    }
}

/// The number a two-digit label stands for.
pub open spec fn label_num(l: Seq<char>) -> int {
    digit_val(l[0]) * 10 + digit_val(l[1])
}

/// Reading a two-digit label back gives the number it was made from.
pub proof fn lemma_label_num_round_trip(n: int)
    requires
        0 <= n < 100,
    ensures
        label_num(two_digit_text(n)) == n,
{
}

/// Distinct decimal digits render as distinct characters.
pub proof fn lemma_digit_char_injective(a: int, b: int)
    requires
        0 <= a < 10,
        0 <= b < 10,
        digit_char(a) == digit_char(b),
    ensures
        a == b,
{
}

/// Distinct two-digit numbers render as distinct labels.
pub proof fn lemma_two_digit_injective(a: int, b: int)
    requires
        0 <= a < 100,
        0 <= b < 100,
        a != b,
    ensures
        two_digit_text(a) != two_digit_text(b),
{
    if two_digit_text(a) == two_digit_text(b) {
        assert(two_digit_text(a)[0] == two_digit_text(b)[0]);
        assert(two_digit_text(a)[1] == two_digit_text(b)[1]);
        lemma_digit_char_injective(a / 10, b / 10);
        lemma_digit_char_injective(a % 10, b % 10);
    }
}

/// The unit label for each 1024-fold order of magnitude.
pub open spec fn size_unit_text(order: int) -> Seq<char> {
    if order == 0 {
        seq![' ', 'B']
    } else if order == 1 {
        seq![' ', 'K', 'B']
    } else if order == 2 {
        seq![' ', 'M', 'B']
    } else if order == 3 {
        seq![' ', 'G', 'B']
    } else {
        seq![' ', 'T', 'B']
    }
}

/// The order of magnitude used for a byte count: the largest power of 1024,
/// at most four, that the count reaches.
pub open spec fn size_order(bytes: int) -> int {
    if bytes < 1024 {
        0
    } else if bytes < 0x100000 {
        1
    } else if bytes < 0x40000000 {
        2
    } else if bytes < 0x10000000000 {
        3
    } else {
        4
    }
}

/// 1024 raised to the given order.
pub open spec fn size_divisor(order: int) -> int {
    if order == 0 {
        1
    } else if order == 1 {
        1024
    } else if order == 2 {
        0x100000
    } else if order == 3 {
        0x40000000
    } else {
        0x10000000000
    }
}

/// The display form of a byte count: below 1024 the plain count with " B";
/// otherwise the count scaled by the matching power of 1024, with two decimal
/// places rounded half up, and the matching unit.
pub open spec fn file_size_text(bytes: int) -> Seq<char> {
    let order = size_order(bytes);
    if order == 0 {
        int_digits(bytes) + size_unit_text(0)
    } else {
        let divisor = size_divisor(order);
        let whole = bytes / divisor;
        let hundredths = (bytes % divisor * 100 + divisor / 2) / divisor;
        let carried_whole = if hundredths >= 100 {
            whole + 1
        } else {
            whole
        };
        let carried_hundredths = if hundredths >= 100 {
            0int
        } else {
            hundredths
        };
        dec_digits(carried_whole as nat) + seq!['.'] + two_digit_text(carried_hundredths)
            + size_unit_text(order)
    }
}

/// Renders a byte count for humans: "512 B", "1.50 KB", "2.00 MB", and so on
/// up to terabytes.
pub fn format_file_size(bytes: i64) -> (r: String)
    ensures
        r@ == file_size_text(bytes as int),
{
    if bytes < 1024 {
        let mut s = i64_to_dec(bytes);
        s.append(" B");
        proof {
            reveal_strlit(" B");
            assert(s@ =~= file_size_text(bytes as int));
        }
        s
    } else {
        let (divisor, unit): (i64, &'static str) = if bytes < 0x100000 {
            (1024, " KB")
        } else if bytes < 0x40000000 {
            (0x100000, " MB")
        } else if bytes < 0x10000000000 {
            (0x40000000, " GB")
        } else {
            (0x10000000000, " TB")
        };
        let whole = bytes / divisor;
        let rem = bytes % divisor;
        let hundredths = (rem * 100 + divisor / 2) / divisor;
        let (whole, hundredths) = if hundredths >= 100 {
            (whole + 1, 0i64)
        } else {
            (whole, hundredths)
        };
        let mut s = u64_to_dec(whole as u64);
        s.append(".");
        let frac = two_digit(hundredths as u64);
        s.append(frac.as_str());
        s.append(unit);
        proof {
            reveal_strlit(".");
            reveal_strlit(" KB");
            reveal_strlit(" MB");
            reveal_strlit(" GB");
            reveal_strlit(" TB");
            assert(s@ =~= file_size_text(bytes as int));
        }
        s
    }
}

/// A session's private upload area: the session id as a directory under the
/// upload root.
pub open spec fn upload_folder_text(upload_dir: Seq<char>, session_id: Seq<char>) -> Seq<char> {
    upload_dir + seq!['/'] + session_id
}

/// Joins the upload root and the session id into the session's upload path.
pub fn get_upload_folder(session_id: &str, upload_dir: &str) -> (r: String)
    ensures
        r@ == upload_folder_text(upload_dir@, session_id@),
{
    let mut s = String::from_str(upload_dir);
    s.append("/");
    s.append(session_id);
    proof {
        reveal_strlit("/");
        assert(s@ =~= upload_folder_text(upload_dir@, session_id@));
    }
    s
}

} // verus!
